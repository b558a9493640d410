//! Names of contracts and their build artifacts.
use vstd::prelude::*;
use vstd::string::StringExecFns;
use crate::text::{chars_of, occurs_at, occurs_at_exec};

verus! {

pub open spec fn ascii_upper(c: char) -> bool {
    'A' <= c <= 'Z'
}

pub open spec fn ascii_lower(c: char) -> bool {
    'a' <= c <= 'z'
}

/// `c` with an ASCII upper-case letter turned to lower case.
pub open spec fn lower_char(c: char) -> char {
    if ascii_upper(c) {
        ((c as u8) + 32) as u8 as char
    } else {
        c
    }
}

/// What character `i` of `s` becomes: lower-cased, with `_` put before an
/// upper-case letter that follows a lower-case one.
pub open spec fn normalized_step(s: Seq<char>, i: int) -> Seq<char> {
    if i > 0 && ascii_upper(s[i]) && ascii_lower(s[i - 1]) {
        seq!['_', lower_char(s[i])]
    } else {
        seq![lower_char(s[i])]
    }
}

/// The lower-case, underscore-separated form of a mixed-case identifier.
pub open spec fn normalized(s: Seq<char>) -> Seq<char>
    decreases s.len(),
{
    if s.len() == 0 {
        Seq::empty()
    } else {
        normalized(s.drop_last()) + normalized_step(s, s.len() - 1)
    }
}

pub open spec fn no_upper(s: Seq<char>) -> bool {
    forall|i: int| 0 <= i < s.len() ==> !ascii_upper(#[trigger] s[i])
}

fn lower_char_exec(c: char) -> (r: char)
    ensures
        r == lower_char(c),
{
    if 'A' <= c && c <= 'Z' {
        ((c as u8) + 32) as char
    } else {
        c
    }
}

/// Converts a mixed-case identifier to lower case with underscores, the
/// form in which the build tool names a package's artifact: `MyContract`
/// becomes `my_contract`, `ABCContract` becomes `abccontract`.
pub fn to_normalized_form(name: &str) -> (r: String)
    ensures
        r@ == normalized(name@),
{
    let cs = chars_of(name);
    let mut out = String::new();
    let mut i: usize = 0;
    while i < cs.len()
        invariant
            cs@ == name@,
            i <= cs@.len(),
            out@ == normalized(cs@.take(i as int)),
        decreases cs.len() - i,
    {
        let c = cs[i];
        let ghost t = cs@.take(i + 1);
        assert(t.drop_last() =~= cs@.take(i as int));
        if i > 0 && 'A' <= c && c <= 'Z' && 'a' <= cs[i - 1] && cs[i - 1] <= 'z' {
            out.push('_');
        }
        let lc = lower_char_exec(c);
        out.push(lc);
        assert(out@ =~= normalized(t));
        i = i + 1;
    }
    assert(cs@.take(i as int) =~= cs@);
    out
}

proof fn lemma_normalized_no_upper(s: Seq<char>)
    ensures
        no_upper(normalized(s)),
    decreases s.len(),
{
    if s.len() > 0 {
        lemma_normalized_no_upper(s.drop_last());
        let c = s[s.len() - 1];
        if ascii_upper(c) {
            assert(ascii_lower(lower_char(c)));
        }
        assert(no_upper(normalized_step(s, s.len() - 1)));
        let a = normalized(s.drop_last());
        let b = normalized_step(s, s.len() - 1);
        assert forall|i: int| 0 <= i < (a + b).len() implies !ascii_upper(#[trigger] (a + b)[i]) by {
            if i < a.len() {
                assert((a + b)[i] == a[i]);
            } else {
                assert((a + b)[i] == b[i - a.len()]);
            }
        }
    }
}

proof fn lemma_normalized_fixes_lower(t: Seq<char>)
    requires
        no_upper(t),
    ensures
        normalized(t) == t,
    decreases t.len(),
{
    if t.len() > 0 {
        lemma_normalized_fixes_lower(t.drop_last());
        assert(!ascii_upper(t[t.len() - 1]));
        assert(t =~= t.drop_last() + seq![t[t.len() - 1]]);
    }
}

/// Normalizing a name that is already normalized leaves it unchanged.
pub proof fn lemma_normalized_idempotent(s: Seq<char>)
    ensures
        normalized(normalized(s)) == normalized(s),
{
    lemma_normalized_no_upper(s);
    lemma_normalized_fixes_lower(normalized(s));
}

/// `s` with comments removed, read in `mode`: 0 in code, 1 inside a line
/// comment, 2 inside a block comment. A line comment keeps its newline; a
/// block comment becomes one space.
pub open spec fn stripped(s: Seq<char>, mode: int) -> Seq<char>
    decreases s.len(),
{
    if s.len() == 0 {
        Seq::empty()
    } else if mode == 0 {
        if s.len() >= 2 && s[0] == '/' && s[1] == '/' {
            stripped(s.subrange(2, s.len() as int), 1)
        } else if s.len() >= 2 && s[0] == '/' && s[1] == '*' {
            stripped(s.subrange(2, s.len() as int), 2)
        } else {
            seq![s[0]] + stripped(s.drop_first(), 0)
        }
    } else if mode == 1 {
        if s[0] == '\n' {
            seq!['\n'] + stripped(s.drop_first(), 0)
        } else {
            stripped(s.drop_first(), 1)
        }
    } else {
        if s.len() >= 2 && s[0] == '*' && s[1] == '/' {
            seq![' '] + stripped(s.subrange(2, s.len() as int), 0)
        } else {
            stripped(s.drop_first(), 2)
        }
    }
}

/// Removes `//` and `/* */` comments from `s`.
pub fn strip_comments(s: &Vec<char>) -> (r: Vec<char>)
    ensures
        r@ == stripped(s@, 0),
{
    let n = s.len();
    let mut out: Vec<char> = Vec::new();
    let mut mode: u8 = 0;
    let mut i: usize = 0;
    assert(s@.subrange(0, n as int) =~= s@);
    assert(out@ + stripped(s@, 0) =~= stripped(s@, 0));
    while i < n
        invariant
            n == s@.len(),
            i <= n,
            mode <= 2,
            out@ + stripped(s@.subrange(i as int, n as int), mode as int) == stripped(s@, 0),
        decreases n - i,
    {
        let ghost rest = s@.subrange(i as int, n as int);
        assert(rest[0] == s@[i as int]);
        assert(rest.drop_first() =~= s@.subrange(i + 1, n as int));
        let two = i + 1 < n;
        if two {
            assert(rest[1] == s@[i + 1]);
            assert(rest.subrange(2, rest.len() as int) =~= s@.subrange(i + 2, n as int));
        }
        let c = s[i];
        let ghost out0 = out@;
        if mode == 0 {
            if two && c == '/' && s[i + 1] == '/' {
                mode = 1;
                i = i + 2;
            } else if two && c == '/' && s[i + 1] == '*' {
                mode = 2;
                i = i + 2;
            } else {
                out.push(c);
                assert(out@ + stripped(s@.subrange(i + 1, n as int), 0) =~= out0 + (seq![c]
                    + stripped(s@.subrange(i + 1, n as int), 0)));
                i = i + 1;
            }
        } else if mode == 1 {
            if c == '\n' {
                out.push(c);
                mode = 0;
                assert(out@ + stripped(s@.subrange(i + 1, n as int), 0) =~= out0 + (seq![c]
                    + stripped(s@.subrange(i + 1, n as int), 0)));
            }
            i = i + 1;
        } else {
            if two && c == '*' && s[i + 1] == '/' {
                out.push(' ');
                mode = 0;
                assert(out@ + stripped(s@.subrange(i + 2, n as int), 0) =~= out0 + (seq![' ']
                    + stripped(s@.subrange(i + 2, n as int), 0)));
                i = i + 2;
            } else {
                i = i + 1;
            }
        }
    }
    assert(s@.subrange(i as int, n as int).len() == 0);
    assert(out@ =~= out@ + stripped(s@.subrange(i as int, n as int), mode as int));
    out
}

pub open spec fn is_space(c: char) -> bool {
    c == ' ' || c == '\n' || c == '\t' || c == '\r'
}

pub open spec fn ident_char(c: char) -> bool {
    ascii_upper(c) || ascii_lower(c) || ('0' <= c <= '9') || c == '_'
}

/// The first position at or after `i` that does not hold white space.
pub open spec fn skip_space(t: Seq<char>, i: int) -> int
    decreases t.len() - i,
{
    if 0 <= i < t.len() && is_space(t[i]) {
        skip_space(t, i + 1)
    } else {
        i
    }
}

/// The first position at or after `i` that does not hold an identifier character.
pub open spec fn ident_end(t: Seq<char>, i: int) -> int
    decreases t.len() - i,
{
    if 0 <= i < t.len() && ident_char(t[i]) {
        ident_end(t, i + 1)
    } else {
        i
    }
}

pub open spec fn contract_marker() -> Seq<char> {
    seq!['#', '[', 'c', 'o', 'n', 't', 'r', 'a', 'c', 't', ']']
}

pub open spec fn pub_keyword() -> Seq<char> {
    seq!['p', 'u', 'b']
}

pub open spec fn struct_keyword() -> Seq<char> {
    seq!['s', 't', 'r', 'u', 'c', 't']
}

/// Where the `struct` keyword is looked for after position `a`: past an
/// optional `pub` and the white space after it.
pub open spec fn after_visibility(t: Seq<char>, a: int) -> int {
    if occurs_at(t, pub_keyword(), a) && skip_space(t, a + 3) > a + 3 {
        skip_space(t, a + 3)
    } else {
        a
    }
}

/// The contract declared at position `i` of `t`: `#[contract]`, white
/// space, an optional `pub`, `struct`, white space and an identifier.
/// Gives the start and end of the identifier.
pub open spec fn contract_at(t: Seq<char>, i: int) -> Option<(int, int)> {
    if !occurs_at(t, contract_marker(), i) {
        None
    } else {
        let b = after_visibility(t, skip_space(t, i + 11));
        let c = skip_space(t, b + 6);
        let e = ident_end(t, c);
        if occurs_at(t, struct_keyword(), b) && c > b + 6 && e > c {
            Some((c, e))
        } else {
            None
        }
    }
}

/// The name of the first contract declared at or after position `i`.
pub open spec fn first_contract(t: Seq<char>, i: int) -> Option<Seq<char>>
    decreases t.len() - i,
{
    if i < 0 || i >= t.len() {
        None
    } else {
        match contract_at(t, i) {
            Some((c, e)) => Some(t.subrange(c, e)),
            None => first_contract(t, i + 1),
        }
    }
}

/// The contract name declared in a source text, outside comments.
pub open spec fn contract_name(source: Seq<char>) -> Option<Seq<char>> {
    first_contract(stripped(source, 0), 0)
}

fn skip_space_exec(t: &Vec<char>, i: usize) -> (r: usize)
    requires
        i <= t@.len(),
    ensures
        r == skip_space(t@, i as int),
        i <= r <= t@.len(),
{
    let mut j = i;
    while j < t.len() && (t[j] == ' ' || t[j] == '\n' || t[j] == '\t' || t[j] == '\r')
        invariant
            i <= j <= t@.len(),
            skip_space(t@, j as int) == skip_space(t@, i as int),
        decreases t.len() - j,
    {
        j = j + 1;
    }
    j
}

fn ident_char_exec(c: char) -> (r: bool)
    ensures
        r == ident_char(c),
{
    ('A' <= c && c <= 'Z') || ('a' <= c && c <= 'z') || ('0' <= c && c <= '9') || c == '_'
}

fn ident_end_exec(t: &Vec<char>, i: usize) -> (r: usize)
    requires
        i <= t@.len(),
    ensures
        r == ident_end(t@, i as int),
        i <= r <= t@.len(),
{
    let mut j = i;
    while j < t.len() && ident_char_exec(t[j])
        invariant
            i <= j <= t@.len(),
            ident_end(t@, j as int) == ident_end(t@, i as int),
        decreases t.len() - j,
    {
        j = j + 1;
    }
    j
}

fn contract_at_exec(t: &Vec<char>, i: usize) -> (r: Option<(usize, usize)>)
    requires
        i < t@.len(),
    ensures
        match contract_at(t@, i as int) {
            Some((c, e)) => r == Some((c as usize, e as usize)) && 0 <= c <= e <= t@.len(),
            None => r is None,
        },
{
    let n = t.len();
    let marker: Vec<char> = vec!['#', '[', 'c', 'o', 'n', 't', 'r', 'a', 'c', 't', ']'];
    let pub_kw: Vec<char> = vec!['p', 'u', 'b'];
    let struct_kw: Vec<char> = vec!['s', 't', 'r', 'u', 'c', 't'];
    assert(marker@ =~= contract_marker());
    assert(pub_kw@ =~= pub_keyword());
    assert(struct_kw@ =~= struct_keyword());
    assert(marker@.len() == 11 && pub_kw@.len() == 3 && struct_kw@.len() == 6);
    if !occurs_at_exec(t, &marker, i) {
        return None;
    }
    assert(occurs_at(t@, marker@, i as int));
    assert(i + 11 <= t@.len());
    let a = skip_space_exec(t, i + 11);
    let mut b = a;
    if occurs_at_exec(t, &pub_kw, a) {
        assert(a + 3 <= t@.len());
        let a3 = skip_space_exec(t, a + 3);
        if a3 > a + 3 {
            b = a3;
        }
    }
    assert(b == after_visibility(t@, a as int));
    if !occurs_at_exec(t, &struct_kw, b) {
        return None;
    }
    let c = skip_space_exec(t, b + 6);
    if c == b + 6 {
        return None;
    }
    let e = ident_end_exec(t, c);
    if e == c {
        return None;
    }
    Some((c, e))
}

/// The name of the first `#[contract]` struct declared in `source`, with
/// comments ignored.
pub fn extract_name(source: &str) -> (r: Option<String>)
    ensures
        r matches Some(n) ==> contract_name(source@) == Some(n@),
        r is None ==> contract_name(source@) is None,
{
    let cs = chars_of(source);
    let t = strip_comments(&cs);
    let mut i: usize = 0;
    while i < t.len()
        invariant
            t@ == stripped(source@, 0),
            i <= t@.len(),
            first_contract(t@, i as int) == contract_name(source@),
        decreases t.len() - i,
    {
        match contract_at_exec(&t, i) {
            Some((c, e)) => {
                let mut name = String::new();
                let mut k = c;
                while k < e
                    invariant
                        c <= k <= e <= t@.len(),
                        name@ == t@.subrange(c as int, k as int),
                    decreases e - k,
                {
                    name.push(t[k]);
                    k = k + 1;
                    assert(name@ =~= t@.subrange(c as int, k as int));
                }
                return Some(name);
            },
            None => {
                i = i + 1;
            },
        }
    }
    None
}

/// The name of the artifact that a build of `source` produces: the
/// normalized contract name, or `project` when no contract is declared.
pub open spec fn artifact_name_of(source: Seq<char>) -> Seq<char> {
    match contract_name(source) {
        Some(n) => normalized(n),
        None => seq!['p', 'r', 'o', 'j', 'e', 'c', 't'],
    }
}

/// The artifact name for a build of `source`.
pub fn artifact_name(source: &str) -> (r: String)
    ensures
        r@ == artifact_name_of(source@),
{
    match extract_name(source) {
        Some(n) => to_normalized_form(n.as_str()),
        None => {
            let mut r = String::new();
            r.push('p');
            r.push('r');
            r.push('o');
            r.push('j');
            r.push('e');
            r.push('c');
            r.push('t');
            assert(r@ =~= seq!['p', 'r', 'o', 'j', 'e', 'c', 't']);
            r
        },
    }
}

} // verus!
