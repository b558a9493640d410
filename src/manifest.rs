//! The project manifest: the default one used when a job brings no files,
//! and the rewrite of a supplied one's package name.
use vstd::prelude::*;
use vstd::string::StringExecFns;
use crate::text::{chars_of, occurs_at, occurs_at_exec};

verus! {

pub open spec fn is_blank(c: char) -> bool {
    c == ' ' || c == '\t'
}

/// The first position at or after `i` that holds neither a space nor a tab.
pub open spec fn skip_blank(t: Seq<char>, i: int) -> int
    decreases t.len() - i,
{
    if 0 <= i < t.len() && is_blank(t[i]) {
        skip_blank(t, i + 1)
    } else {
        i
    }
}

pub open spec fn name_key() -> Seq<char> {
    seq!['n', 'a', 'm', 'e']
}

/// A section header line (`[...]`) starts at `j`.
pub open spec fn header_at(t: Seq<char>, j: int) -> bool {
    0 <= j < t.len() && (j == 0 || t[j - 1] == '\n') && t[j] == '['
}

/// The start of the last section header line before position `i`.
pub open spec fn last_header_before(t: Seq<char>, i: int) -> Option<int>
    decreases i,
{
    if i <= 0 {
        None
    } else if header_at(t, i - 1) {
        Some(i - 1)
    } else {
        last_header_before(t, i - 1)
    }
}

pub open spec fn package_header() -> Seq<char> {
    seq!['[', 'p', 'a', 'c', 'k', 'a', 'g', 'e', ']']
}

/// Position `i` lies in the `[package]` section.
pub open spec fn in_package(t: Seq<char>, i: int) -> bool {
    match last_header_before(t, i) {
        Some(j) => occurs_at(t, package_header(), j),
        None => false,
    }
}

/// A line of the `[package]` section starts at `i` and declares `name = ...`.
pub open spec fn name_line_at(t: Seq<char>, i: int) -> bool {
    &&& 0 <= i < t.len()
    &&& in_package(t, i)
    &&& (i == 0 || t[i - 1] == '\n')
    &&& occurs_at(t, name_key(), i)
    &&& skip_blank(t, i + 4) < t.len()
    &&& t[skip_blank(t, i + 4)] == '='
}

/// The first line at or after `i` that declares a name.
pub open spec fn first_name_line(t: Seq<char>, i: int) -> Option<int>
    decreases t.len() - i,
{
    if i < 0 || i >= t.len() {
        None
    } else if name_line_at(t, i) {
        Some(i)
    } else {
        first_name_line(t, i + 1)
    }
}

/// The position of the newline that ends the line holding `i`, or the end.
pub open spec fn line_end(t: Seq<char>, i: int) -> int
    decreases t.len() - i,
{
    if 0 <= i < t.len() && t[i] != '\n' {
        line_end(t, i + 1)
    } else {
        i
    }
}

/// `manifest` with the first `name = ...` line of its `[package]` section
/// replaced by `name = "<n>"`; unchanged when it has no such line.
pub open spec fn renamed(manifest: Seq<char>, n: Seq<char>) -> Seq<char> {
    match first_name_line(manifest, 0) {
        Some(i) => manifest.take(i) + "name = \""@ + n + "\""@ + manifest.subrange(
            line_end(manifest, i),
            manifest.len() as int,
        ),
        None => manifest,
    }
}

fn skip_blank_exec(t: &Vec<char>, i: usize) -> (r: usize)
    requires
        i <= t@.len(),
    ensures
        r == skip_blank(t@, i as int),
        i <= r <= t@.len(),
{
    let mut j = i;
    while j < t.len() && (t[j] == ' ' || t[j] == '\t')
        invariant
            i <= j <= t@.len(),
            skip_blank(t@, j as int) == skip_blank(t@, i as int),
        decreases t.len() - j,
    {
        j = j + 1;
    }
    j
}

fn line_end_exec(t: &Vec<char>, i: usize) -> (r: usize)
    requires
        i <= t@.len(),
    ensures
        r == line_end(t@, i as int),
        i <= r <= t@.len(),
{
    let mut j = i;
    while j < t.len() && t[j] != '\n'
        invariant
            i <= j <= t@.len(),
            line_end(t@, j as int) == line_end(t@, i as int),
        decreases t.len() - j,
    {
        j = j + 1;
    }
    j
}

fn push_range(r: &mut String, t: &Vec<char>, from: usize, to: usize)
    requires
        from <= to <= t@.len(),
    ensures
        final(r)@ == old(r)@ + t@.subrange(from as int, to as int),
{
    let ghost r0 = r@;
    let mut k = from;
    while k < to
        invariant
            from <= k <= to,
            to <= t@.len(),
            r@ == r0 + t@.subrange(from as int, k as int),
        decreases to - k,
    {
        r.push(t[k]);
        k = k + 1;
        assert(r@ =~= r0 + t@.subrange(from as int, k as int));
    }
}

/// Sets the package name declared in the `[package]` section of
/// `manifest` to `n`.
pub fn rename_package(manifest: &str, n: &str) -> (r: String)
    ensures
        r@ == renamed(manifest@, n@),
{
    let t = chars_of(manifest);
    let len = t.len();
    let key: Vec<char> = vec!['n', 'a', 'm', 'e'];
    assert(key@ =~= name_key());
    let header: Vec<char> = vec!['[', 'p', 'a', 'c', 'k', 'a', 'g', 'e', ']'];
    assert(header@ =~= package_header());
    let mut pkg = false;
    let mut i: usize = 0;
    while i < len
        invariant
            t@ == manifest@,
            len == t@.len(),
            key@ == name_key(),
            header@ == package_header(),
            i <= len,
            pkg == in_package(t@, i as int),
            first_name_line(t@, i as int) == first_name_line(t@, 0),
        decreases len - i,
    {
        let starts_line = i == 0 || t[i - 1] == '\n';
        if pkg && starts_line && occurs_at_exec(&t, &key, i) {
            let j = skip_blank_exec(&t, i + 4);
            if j < len && t[j] == '=' {
                assert(name_line_at(t@, i as int));
                let e = line_end_exec(&t, i);
                let mut r = String::new();
                push_range(&mut r, &t, 0, i);
                assert(t@.subrange(0, i as int) =~= t@.take(i as int));
                r.append("name = \"");
                r.append(n);
                r.append("\"");
                push_range(&mut r, &t, e, len);
                return r;
            }
        }
        assert(!name_line_at(t@, i as int));
        if starts_line && t[i] == '[' {
            pkg = occurs_at_exec(&t, &header, i);
        }
        assert(last_header_before(t@, i + 1) == if header_at(t@, i as int) {
            Some(i as int)
        } else {
            last_header_before(t@, i as int)
        });
        i = i + 1;
    }
    String::from_str(manifest)
}

/// The manifest of a project that brings none: a contract library named
/// `n`, built small for the WebAssembly target.
pub open spec fn default_manifest(n: Seq<char>) -> Seq<char> {
    "[package]\nname = \""@ + n + "\"\n"@ + default_manifest_rest()
}

pub open spec fn default_manifest_rest() -> Seq<char> {
    "version = \"0.1.0\"\nedition = \"2021\"\n\n[lib]\ncrate-type = [\"cdylib\"]\n\n[dependencies]\nsoroban-sdk = \"22\"\n\n[dev-dependencies]\nsoroban-sdk = { version = \"22\", features = [\"testutils\"] }\n\n[profile.release]\nopt-level = \"z\"\noverflow-checks = true\ndebug = 0\nstrip = \"symbols\"\ndebug-assertions = false\npanic = \"abort\"\ncodegen-units = 1\nlto = true\n"@
}

pub fn default_manifest_for(n: &str) -> (r: String)
    ensures
        r@ == default_manifest(n@),
{
    let mut r = String::from_str("[package]\nname = \"");
    r.append(n);
    r.append("\"\n");
    r.append("version = \"0.1.0\"\nedition = \"2021\"\n\n[lib]\ncrate-type = [\"cdylib\"]\n\n[dependencies]\nsoroban-sdk = \"22\"\n\n[dev-dependencies]\nsoroban-sdk = { version = \"22\", features = [\"testutils\"] }\n\n[profile.release]\nopt-level = \"z\"\noverflow-checks = true\ndebug = 0\nstrip = \"symbols\"\ndebug-assertions = false\npanic = \"abort\"\ncodegen-units = 1\nlto = true\n");
    r
}

} // verus!
