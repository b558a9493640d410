//! Screening of submitted file names and file contents.
//!
//! Content screening is a substring deny-list: a best-effort gate that is
//! trivially evadable and no substitute for the isolation of the process
//! that runs the build.
use vstd::prelude::*;
use crate::text::{chars_of, contains, contains_exec};

verus! {

/// What `char::is_alphanumeric` answers for `c` (Unicode alphabetic or numeric).
pub uninterp spec fn unicode_alphanumeric(c: char) -> bool;

/// An ASCII letter or digit.
pub open spec fn ascii_alphanumeric(c: char) -> bool {
    ('a' <= c <= 'z') || ('A' <= c <= 'Z') || ('0' <= c <= '9')
}

/// Whether `c` is alphanumeric: among ASCII characters exactly the letters
/// and digits, beyond ASCII as Unicode's properties say.
pub open spec fn alphanumeric(c: char) -> bool {
    if (c as u32) < 128 {
        ascii_alphanumeric(c)
    } else {
        unicode_alphanumeric(c)
    }
}

/// Relies on `char::is_alphanumeric`: whether `c` has Unicode's Alphabetic
/// or Numeric property, which depends on `c` alone; among ASCII characters
/// these are exactly the letters and the digits.
#[verifier::external_body]
pub(crate) fn is_alphanumeric(c: char) -> (r: bool)
    ensures
        r == unicode_alphanumeric(c),
        (c as u32) < 128 ==> (r == ascii_alphanumeric(c)),
{
    c.is_alphanumeric()
}

/// A character that may appear in a submitted file name.
pub open spec fn filename_char(c: char) -> bool {
    alphanumeric(c) || c == '_' || c == '-' || c == '.'
}

/// A file name that cannot leave the directory it is placed in: not empty,
/// not starting with `.` or `-`, free of `..`, `/` and `\`, and made of
/// alphanumeric characters, `_`, `-` and `.` only.
pub open spec fn safe_filename(s: Seq<char>) -> bool {
    &&& s.len() > 0
    &&& s[0] != '.'
    &&& s[0] != '-'
    &&& !contains(s, seq!['.', '.'])
    &&& forall|i: int| 0 <= i < s.len() ==> s[i] != '/' && s[i] != '\\'
    &&& forall|i: int| 0 <= i < s.len() ==> filename_char(#[trigger] s[i])
}

/// Substrings that mark access to the host: process spawning, raw file
/// system or network access, inline assembly, unsafe code, foreign
/// declarations and compile-time file inclusion.
pub open spec fn deny_patterns() -> Seq<Seq<char>> {
    seq![
        "std::process::"@, "Command::"@, "system("@, "exec("@, "/bin/"@, "/usr/bin/"@,
        "unsafe"@, "#[no_mangle]"@, "extern \"C\""@, "asm!"@, "include_str!"@,
        "include_bytes!"@, "env!"@, "std::env::"@, "std::fs::"@, "std::net::"@,
        "tokio::process::"@, "tokio::fs::"@, "actix_web::"@, "reqwest::"@, "hyper::"@,
    ]
}

/// Content that holds none of the deny-listed substrings.
pub open spec fn safe_content(s: Seq<char>) -> bool {
    forall|k: int| 0 <= k < deny_patterns().len() ==> !contains(s, #[trigger] deny_patterns()[k])
}

/// Whether `filename` is safe to create inside a staged project.
pub fn is_safe_filename(filename: &str) -> (r: bool)
    ensures
        r == safe_filename(filename@),
{
    let cs = chars_of(filename);
    if cs.len() == 0 || cs[0] == '.' || cs[0] == '-' {
        return false;
    }
    let mut i: usize = 0;
    while i < cs.len()
        invariant
            cs@ == filename@,
            cs@.len() > 0,
            cs@[0] != '.',
            cs@[0] != '-',
            forall|j: int| 0 <= j < i ==> cs@[j] != '/' && cs@[j] != '\\',
            forall|j: int| 0 <= j < i ==> filename_char(#[trigger] cs@[j]),
            forall|j: int| 0 < j < i ==> !(#[trigger] cs@[j] == '.' && cs@[j - 1] == '.'),
        decreases cs.len() - i,
    {
        let c = cs[i];
        if c == '/' || c == '\\' {
            return false;
        }
        if i > 0 && c == '.' && cs[i - 1] == '.' {
            assert(cs@.subrange(i - 1, i + 1) =~= seq!['.', '.']);
            assert(crate::text::occurs_at(cs@, seq!['.', '.'], i - 1));
            return false;
        }
        if !(is_alphanumeric(c) || c == '_' || c == '-' || c == '.') {
            assert(!filename_char(cs@[i as int]));
            return false;
        }
        i = i + 1;
    }
    assert forall|j: int| !crate::text::occurs_at(cs@, seq!['.', '.'], j) by {
        if crate::text::occurs_at(cs@, seq!['.', '.'], j) {
            assert(cs@.subrange(j, j + 2)[0] == '.');
            assert(cs@.subrange(j, j + 2)[1] == '.');
            assert(cs@[j + 1] == '.');
        }
    }
    true
}

/// Whether `content` is free of every deny-listed substring. Sources that
/// carry contract-framework markers are held to the same list: the markers
/// never exempt a submission from it.
pub fn is_safe_file_content(content: &str) -> (r: bool)
    ensures
        r == safe_content(content@),
{
    let patterns: Vec<&str> = vec![
        "std::process::", "Command::", "system(", "exec(", "/bin/", "/usr/bin/",
        "unsafe", "#[no_mangle]", "extern \"C\"", "asm!", "include_str!",
        "include_bytes!", "env!", "std::env::", "std::fs::", "std::net::",
        "tokio::process::", "tokio::fs::", "actix_web::", "reqwest::", "hyper::",
    ];
    assert(patterns@.len() == deny_patterns().len());
    assert(forall|k: int| 0 <= k < patterns@.len() ==> patterns@[k]@ == deny_patterns()[k]);
    let hay = chars_of(content);
    let mut k: usize = 0;
    while k < patterns.len()
        invariant
            hay@ == content@,
            patterns@.len() == deny_patterns().len(),
            forall|j: int| 0 <= j < patterns@.len() ==> patterns@[j]@ == deny_patterns()[j],
            forall|j: int| 0 <= j < k ==> !contains(content@, #[trigger] deny_patterns()[j]),
        decreases patterns.len() - k,
    {
        let needle = chars_of(patterns[k]);
        if contains_exec(&hay, &needle) {
            return false;
        }
        k = k + 1;
    }
    true
}

/// A non-empty name of allowed characters that starts with neither `.` nor
/// `-` and holds no `..` is safe; a name holding `/`, `\` or `..` is not.
pub proof fn lemma_filename_rule(s: Seq<char>)
    ensures
        s.len() > 0 && s[0] != '.' && s[0] != '-' && !contains(s, seq!['.', '.'])
            && (forall|i: int| 0 <= i < s.len() ==> filename_char(#[trigger] s[i]))
            ==> safe_filename(s),
        (exists|i: int| 0 <= i < s.len() && (#[trigger] s[i] == '/' || s[i] == '\\'))
            || contains(s, seq!['.', '.']) ==> !safe_filename(s),
{
    assert(!filename_char('/') && !filename_char('\\'));
}

} // verus!
