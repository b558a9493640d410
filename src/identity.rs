//! Job identity: a digest of the submitted files, and the short prefix of
//! it that names per-job cache directories and output files.
use vstd::prelude::*;
use crate::text::append_bytes;
use vstd::utf8::{encode_utf8, encode_utf8_decode_utf8};
use vstd::string::StrSliceExecFns;
use vstd::string::StringExecFns;
use crate::files::{FileSet, lemma_same_files_same_order};

verus! {

/// The SHA-256 digest of `data`, as `sha2::Sha256` computes it.
pub uninterp spec fn sha256_of(data: Seq<u8>) -> Seq<u8>;

/// Relies on `sha2::Sha256::digest`: the 32-byte SHA-256 digest of `data`.
#[verifier::external_body]
fn sha256(data: &[u8]) -> (r: Vec<u8>)
    ensures
        r@ == sha256_of(data@),
{
    <sha2::Sha256 as sha2::Digest>::digest(data).to_vec()
}

/// The lower-case hexadecimal digit of `n` (below 16).
pub open spec fn hex_digit(n: u8) -> char {
    seq!['0', '1', '2', '3', '4', '5', '6', '7', '8', '9', 'a', 'b', 'c', 'd', 'e', 'f'][n as int]
}

/// Two lower-case hexadecimal digits per byte, high nibble first.
pub open spec fn hex_text(b: Seq<u8>) -> Seq<char> {
    Seq::new(
        2 * b.len(),
        |i: int| hex_digit(if i % 2 == 0 { b[i / 2] / 16 } else { b[i / 2] % 16 }),
    )
}

/// Relies on `hex::encode`: each byte becomes two digits of
/// `0123456789abcdef`, the high nibble first.
#[verifier::external_body]
fn hex_encode(b: &[u8]) -> (r: String)
    ensures
        r@ == hex_text(b@),
{
    hex::encode(b)
}

/// The bytes that identify a set of files: in name order, each name and
/// then its content, each as a length-prefixed field of UTF-8 bytes.
pub open spec fn files_message(s: Seq<(Seq<char>, Seq<char>)>) -> Seq<u8>
    decreases s.len(),
{
    if s.len() == 0 {
        Seq::empty()
    } else {
        files_message(s.drop_last()) + field(encode_utf8(s.last().0)) + field(encode_utf8(s.last().1))
    }
}

/// The last `k` base-256 digits of `n`, most significant first.
pub open spec fn be_digits(n: nat, k: nat) -> Seq<u8>
    decreases k,
{
    if k == 0 {
        Seq::empty()
    } else {
        be_digits(n / 256, (k - 1) as nat).push((n % 256) as u8)
    }
}

/// A byte string preceded by its length as eight big-endian bytes, so that
/// a sequence of fields can be read back one by one.
pub open spec fn field(b: Seq<u8>) -> Seq<u8> {
    be_digits(b.len(), 8) + b
}

fn be_digits_exec(n: u64, k: u64) -> (r: Vec<u8>)
    ensures
        r@ == be_digits(n as nat, k as nat),
    decreases k,
{
    if k == 0 {
        Vec::new()
    } else {
        let mut r = be_digits_exec(n / 256, k - 1);
        r.push((n % 256) as u8);
        r
    }
}

fn append_field(v: &mut Vec<u8>, b: &[u8])
    ensures
        final(v)@ == old(v)@ + field(b@),
{
    let len = be_digits_exec(b.len() as u64, 8);
    let ghost v0 = v@;
    append_bytes(v, len.as_slice());
    append_bytes(v, b);
    assert(final(v)@ =~= v0 + field(b@));
}

/// The bytes that identify a job: its files when it has any, else its
/// source text.
pub open spec fn job_message(source: Seq<char>, files: Option<Seq<(Seq<char>, Seq<char>)>>) -> Seq<u8> {
    match files {
        Some(s) => files_message(s),
        None => encode_utf8(source),
    }
}

/// The digest of a job, as lower-case hexadecimal text.
pub open spec fn job_digest_text(source: Seq<char>, files: Option<Seq<(Seq<char>, Seq<char>)>>) -> Seq<char> {
    hex_text(sha256_of(job_message(source, files)))
}

/// The files of a job as the digest sees them.
pub open spec fn files_view(files: Option<&FileSet>) -> Option<Seq<(Seq<char>, Seq<char>)>> {
    match files {
        Some(f) => Some(f.pairs()),
        None => None,
    }
}

/// The digest of a job: SHA-256 over its files in name order (each name,
/// then its content, as length-prefixed fields) or, without files, over
/// the source text, as lower-case hexadecimal.
pub fn job_digest(source: &str, files: Option<&FileSet>) -> (r: String)
    requires
        files matches Some(f) ==> f.wf(),
    ensures
        r@ == job_digest_text(source@, files_view(files)),
{
    let mut msg: Vec<u8> = Vec::new();
    match files {
        Some(f) => {
            let n = f.len();
            let mut i: usize = 0;
            while i < n
                invariant
                    n == f.pairs().len(),
                    i <= n,
                    msg@ == files_message(f.pairs().take(i as int)),
                decreases n - i,
            {
                let (name, content) = f.entry(i);
                append_field(&mut msg, name.as_str().as_bytes());
                append_field(&mut msg, content.as_str().as_bytes());
                assert(f.pairs().take(i + 1).drop_last() =~= f.pairs().take(i as int));
                i = i + 1;
            }
            assert(f.pairs().take(n as int) =~= f.pairs());
        },
        None => {
            append_bytes(&mut msg, source.as_bytes());
        },
    }
    let d = sha256(msg.as_slice());
    hex_encode(d.as_slice())
}

/// The digest of a job with files depends only on which files it holds:
/// neither on the order in which they were added nor on the source text.
pub proof fn lemma_digest_order_free(s1: Seq<char>, s2: Seq<char>, a: FileSet, b: FileSet)
    requires
        a.wf(),
        b.wf(),
        a@ == b@,
    ensures
        job_digest_text(s1, Some(a.pairs())) == job_digest_text(s2, Some(b.pairs())),
{
    lemma_same_files_same_order(a, b);
}

/// `256` to the power `k`.
pub open spec fn pow256(k: nat) -> nat
    decreases k,
{
    if k == 0 {
        1
    } else {
        256 * pow256((k - 1) as nat)
    }
}

/// The number whose base-256 digits, most significant first, are `d`.
pub open spec fn digits_value(d: Seq<u8>) -> nat
    decreases d.len(),
{
    if d.len() == 0 {
        0
    } else {
        digits_value(d.drop_last()) * 256 + d.last() as nat
    }
}

proof fn lemma_be_digits(n: nat, k: nat)
    ensures
        be_digits(n, k).len() == k,
        n < pow256(k) ==> digits_value(be_digits(n, k)) == n,
    decreases k,
{
    if k > 0 {
        let p = pow256((k - 1) as nat);
        lemma_be_digits(n / 256, (k - 1) as nat);
        assert(n < 256 * p ==> n / 256 < p) by (nonlinear_arith);
        assert((n / 256) * 256 + n % 256 == n) by (nonlinear_arith);
        let d = be_digits(n, k);
        assert(d.drop_last() =~= be_digits(n / 256, (k - 1) as nat));
    }
}

/// The fields of a list of files: each name, then its content, as UTF-8.
pub open spec fn field_list(s: Seq<(Seq<char>, Seq<char>)>) -> Seq<Seq<u8>>
    decreases s.len(),
{
    if s.len() == 0 {
        Seq::empty()
    } else {
        field_list(s.drop_last()).push(encode_utf8(s.last().0)).push(encode_utf8(s.last().1))
    }
}

/// Fields written one after another.
pub open spec fn joined_fields(l: Seq<Seq<u8>>) -> Seq<u8>
    decreases l.len(),
{
    if l.len() == 0 {
        Seq::empty()
    } else {
        joined_fields(l.drop_last()) + field(l.last())
    }
}

proof fn lemma_message_is_joined_fields(s: Seq<(Seq<char>, Seq<char>)>)
    ensures
        files_message(s) == joined_fields(field_list(s)),
        field_list(s).len() == 2 * s.len(),
        forall|i: int| 0 <= i < s.len() ==> #[trigger] field_list(s)[2 * i] == encode_utf8(s[i].0)
            && field_list(s)[2 * i + 1] == encode_utf8(s[i].1),
    decreases s.len(),
{
    if s.len() > 0 {
        let s0 = s.drop_last();
        lemma_message_is_joined_fields(s0);
        let l0 = field_list(s0);
        let a = encode_utf8(s.last().0);
        let b = encode_utf8(s.last().1);
        let l = field_list(s);
        assert(l == l0.push(a).push(b));
        assert(l.drop_last() =~= l0.push(a));
        assert(l0.push(a).drop_last() =~= l0);
        assert(joined_fields(l0.push(a)) == joined_fields(l0) + field(a));
        assert(joined_fields(l) == joined_fields(l0.push(a)) + field(b));
        assert forall|i: int| 0 <= i < s.len() implies #[trigger] l[2 * i] == encode_utf8(s[i].0)
            && l[2 * i + 1] == encode_utf8(s[i].1) by {
            if i < s0.len() {
                assert(s[i] == s0[i]);
                assert(l[2 * i] == l0[2 * i]);
                assert(l[2 * i + 1] == l0[2 * i + 1]);
            }
        }
    }
}

proof fn lemma_joined_fields_front(l: Seq<Seq<u8>>)
    requires
        l.len() > 0,
    ensures
        joined_fields(l) == field(l[0]) + joined_fields(l.drop_first()),
    decreases l.len(),
{
    if l.len() == 1 {
        assert(l.drop_first() =~= Seq::<Seq<u8>>::empty());
        assert(l.drop_last() =~= Seq::<Seq<u8>>::empty());
        assert(joined_fields(l) == joined_fields(l.drop_last()) + field(l.last()));
        assert(joined_fields(l) =~= field(l[0]));
    } else {
        let l0 = l.drop_last();
        lemma_joined_fields_front(l0);
        assert(l0.drop_first() =~= l.drop_first().drop_last());
        assert(l.drop_first().last() == l.last());
        assert(joined_fields(l) =~= field(l[0]) + joined_fields(l.drop_first()));
    }
}

/// Every field is shorter than `256^8` bytes, so its length fits its prefix.
pub open spec fn fields_fit(l: Seq<Seq<u8>>) -> bool {
    forall|i: int| 0 <= i < l.len() ==> (#[trigger] l[i]).len() < pow256(8)
}

proof fn lemma_joined_fields_injective(l1: Seq<Seq<u8>>, l2: Seq<Seq<u8>>)
    requires
        fields_fit(l1),
        fields_fit(l2),
        joined_fields(l1) == joined_fields(l2),
    ensures
        l1 == l2,
    decreases l1.len(),
{
    if l1.len() == 0 {
        assert(joined_fields(l1).len() == 0);
        if l2.len() > 0 {
            lemma_joined_fields_front(l2);
            lemma_be_digits(l2[0].len(), 8);
            assert(joined_fields(l2).len() >= 8);
        }
        assert(l1 =~= l2);
    } else {
        lemma_joined_fields_front(l1);
        lemma_be_digits(l1[0].len(), 8);
        if l2.len() == 0 {
            assert(joined_fields(l2).len() == 0);
        } else {
            lemma_joined_fields_front(l2);
            lemma_be_digits(l2[0].len(), 8);
            let m = joined_fields(l1);
            let a1 = l1[0];
            let a2 = l2[0];
            assert(m.take(8) =~= be_digits(a1.len(), 8));
            assert(m.take(8) =~= be_digits(a2.len(), 8));
            assert(a1.len() == a2.len());
            let n = a1.len() as int;
            assert(m.subrange(8, 8 + n) =~= a1);
            assert(m.subrange(8, 8 + n) =~= a2);
            assert(m.subrange(8 + n, m.len() as int) =~= joined_fields(l1.drop_first()));
            assert(m.subrange(8 + n, m.len() as int) =~= joined_fields(l2.drop_first()));
            lemma_joined_fields_injective(l1.drop_first(), l2.drop_first());
            assert(l1 =~= seq![a1] + l1.drop_first());
            assert(l2 =~= seq![a2] + l2.drop_first());
        }
    }
}

/// The names and contents of a list of files, as UTF-8, are each shorter
/// than `256^8` bytes.
pub open spec fn files_fit(s: Seq<(Seq<char>, Seq<char>)>) -> bool {
    forall|i: int| 0 <= i < s.len() ==> encode_utf8((#[trigger] s[i]).0).len() < pow256(8)
        && encode_utf8(s[i].1).len() < pow256(8)
}

/// Distinct lists of files give distinct digest messages: names and
/// contents never run into each other, so the digest of a file set is as
/// collision-resistant as SHA-256 itself.
pub proof fn lemma_files_message_injective(s: Seq<(Seq<char>, Seq<char>)>, t: Seq<(Seq<char>, Seq<char>)>)
    requires
        files_fit(s),
        files_fit(t),
        files_message(s) == files_message(t),
    ensures
        s == t,
{
    lemma_message_is_joined_fields(s);
    lemma_message_is_joined_fields(t);
    let ls = field_list(s);
    let lt = field_list(t);
    assert forall|j: int| 0 <= j < ls.len() implies (#[trigger] ls[j]).len() < pow256(8) by {
        let i = j / 2;
        assert(j == 2 * i || j == 2 * i + 1) by (nonlinear_arith)
            requires i == j / 2, 0 <= j;
        assert(0 <= i < s.len());
        assert(field_list(s)[2 * i] == encode_utf8(s[i].0));
        assert(field_list(s)[2 * i + 1] == encode_utf8(s[i].1));
    }
    assert forall|j: int| 0 <= j < lt.len() implies (#[trigger] lt[j]).len() < pow256(8) by {
        let i = j / 2;
        assert(j == 2 * i || j == 2 * i + 1) by (nonlinear_arith)
            requires i == j / 2, 0 <= j;
        assert(0 <= i < t.len());
        assert(field_list(t)[2 * i] == encode_utf8(t[i].0));
        assert(field_list(t)[2 * i + 1] == encode_utf8(t[i].1));
    }
    lemma_joined_fields_injective(ls, lt);
    assert forall|i: int| 0 <= i < s.len() implies s[i] == t[i] by {
        assert(ls[2 * i] == lt[2 * i]);
        assert(ls[2 * i + 1] == lt[2 * i + 1]);
        encode_utf8_decode_utf8(s[i].0);
        encode_utf8_decode_utf8(t[i].0);
        encode_utf8_decode_utf8(s[i].1);
        encode_utf8_decode_utf8(t[i].1);
    }
    assert(s =~= t);
}

/// How many digest characters name a job's cache directory and output.
pub const DIGEST_PREFIX_LEN: usize = 12;

/// The first `DIGEST_PREFIX_LEN` characters of `digest` (all of it when shorter).
pub open spec fn prefix_of(digest: Seq<char>) -> Seq<char> {
    if digest.len() <= DIGEST_PREFIX_LEN {
        digest
    } else {
        digest.take(DIGEST_PREFIX_LEN as int)
    }
}

/// The short form of a digest used in paths.
pub fn digest_prefix(digest: &str) -> (r: String)
    ensures
        r@ == prefix_of(digest@),
{
    let n = digest.unicode_len();
    let k: usize = if n <= DIGEST_PREFIX_LEN { n } else { DIGEST_PREFIX_LEN };
    let part = digest.substring_char(0, k);
    assert(part@ =~= prefix_of(digest@));
    String::from_str(part)
}

} // verus!
