//! The auxiliary files of a job: a set of (name, content) pairs with unique
//! names, kept in ascending name order so that every walk over it, and every
//! digest computed from it, is independent of the order of insertion.
use vstd::prelude::*;
use crate::text::chars_of;

verus! {

/// `a` sorts strictly before `b`: at the first position where they differ
/// `a` has the smaller character, or `a` is a proper prefix of `b`.
pub open spec fn name_lt(a: Seq<char>, b: Seq<char>) -> bool {
    exists|i: int|
        0 <= i <= a.len() && i <= b.len() && #[trigger] a.take(i) == b.take(i) && (
        (i == a.len() && i < b.len()) || (i < a.len() && i < b.len() && a[i] < b[i]))
}

pub proof fn lemma_name_lt_irreflexive(a: Seq<char>)
    ensures
        !name_lt(a, a),
{
}

pub proof fn lemma_name_lt_transitive(a: Seq<char>, b: Seq<char>, c: Seq<char>)
    requires
        name_lt(a, b),
        name_lt(b, c),
    ensures
        name_lt(a, c),
{
    let i = choose|i: int|
        0 <= i <= a.len() && i <= b.len() && #[trigger] a.take(i) == b.take(i) && (
        (i == a.len() && i < b.len()) || (i < a.len() && i < b.len() && a[i] < b[i]));
    let j = choose|j: int|
        0 <= j <= b.len() && j <= c.len() && #[trigger] b.take(j) == c.take(j) && (
        (j == b.len() && j < c.len()) || (j < b.len() && j < c.len() && b[j] < c[j]));
    if i < j {
        assert(b.take(i) == b.take(j).take(i));
        assert(c.take(i) == c.take(j).take(i));
        assert(b.take(j)[i] == b[i]);
        assert(c.take(j)[i] == c[i]);
        assert(a.take(i) == c.take(i));
    } else if j < i {
        assert(a.take(j) == a.take(i).take(j));
        assert(b.take(j) == b.take(i).take(j));
        assert(a.take(i)[j] == a[j]);
        assert(b.take(i)[j] == b[j]);
        assert(a.take(j) == c.take(j));
    } else {
        assert(a.take(i) == c.take(i));
    }
}

/// A file: its name and its content.
pub open spec fn entry_view(e: (String, String)) -> (Seq<char>, Seq<char>) {
    (e.0@, e.1@)
}

/// Entries in strictly ascending name order (so names are unique).
pub open spec fn sorted_names(s: Seq<(Seq<char>, Seq<char>)>) -> bool {
    forall|i: int, j: int| 0 <= i < j < s.len() ==> name_lt(#[trigger] s[i].0, #[trigger] s[j].0)
}

/// `k` is the name of some entry of `s`.
pub open spec fn has_name(s: Seq<(Seq<char>, Seq<char>)>, k: Seq<char>) -> bool {
    exists|i: int| 0 <= i < s.len() && #[trigger] s[i].0 == k
}

/// Two sorted lists of entries that hold the same names, with the same
/// content under each name, are the same list.
pub proof fn lemma_sorted_entries_unique(
    s: Seq<(Seq<char>, Seq<char>)>,
    t: Seq<(Seq<char>, Seq<char>)>,
)
    requires
        sorted_names(s),
        sorted_names(t),
        forall|k: Seq<char>| has_name(s, k) <==> has_name(t, k),
        forall|i: int, j: int|
            0 <= i < s.len() && 0 <= j < t.len() && #[trigger] s[i].0 == #[trigger] t[j].0
                ==> s[i].1 == t[j].1,
    ensures
        s == t,
    decreases s.len(),
{
    if s.len() == 0 {
        if t.len() > 0 {
            assert(has_name(t, t[0].0));
        }
        assert(s =~= t);
    } else {
        assert(has_name(s, s[0].0));
        assert(has_name(t, s[0].0));
        let j = choose|j: int| 0 <= j < t.len() && #[trigger] t[j].0 == s[0].0;
        assert(has_name(t, t[0].0));
        let i = choose|i: int| 0 <= i < s.len() && #[trigger] s[i].0 == t[0].0;
        if j > 0 {
            if i > 0 {
                lemma_name_lt_transitive(s[0].0, s[i].0, t[j].0);
            }
            lemma_name_lt_irreflexive(t[0].0);
            assert(false);
        }
        let s1 = s.drop_first();
        let t1 = t.drop_first();
        assert forall|k: Seq<char>| has_name(s1, k) <==> has_name(t1, k) by {
            if has_name(s1, k) {
                let a = choose|a: int| 0 <= a < s1.len() && #[trigger] s1[a].0 == k;
                assert(s[a + 1].0 == k);
                assert(has_name(s, k));
                let b = choose|b: int| 0 <= b < t.len() && #[trigger] t[b].0 == k;
                if b == 0 {
                    assert(name_lt(s[0].0, s[a + 1].0));
                    lemma_name_lt_irreflexive(k);
                }
                assert(t1[b - 1].0 == k);
            }
            if has_name(t1, k) {
                let b = choose|b: int| 0 <= b < t1.len() && #[trigger] t1[b].0 == k;
                assert(t[b + 1].0 == k);
                assert(has_name(t, k));
                let a = choose|a: int| 0 <= a < s.len() && #[trigger] s[a].0 == k;
                if a == 0 {
                    assert(name_lt(t[0].0, t[b + 1].0));
                    lemma_name_lt_irreflexive(k);
                }
                assert(s1[a - 1].0 == k);
            }
        }
        assert forall|a: int, b: int|
            0 <= a < s1.len() && 0 <= b < t1.len() && #[trigger] s1[a].0 == #[trigger] t1[b].0
                implies s1[a].1 == t1[b].1 by {
            assert(s[a + 1].0 == t[b + 1].0);
        }
        lemma_sorted_entries_unique(s1, t1);
        assert(s =~= seq![s[0]] + s1);
        assert(t =~= seq![t[0]] + t1);
    }
}

/// Entries of a sorted list have pairwise distinct names.
pub proof fn lemma_sorted_index_unique(s: Seq<(Seq<char>, Seq<char>)>, i: int, j: int)
    requires
        sorted_names(s),
        0 <= i < s.len(),
        0 <= j < s.len(),
        s[i].0 == s[j].0,
    ensures
        i == j,
{
    if i < j {
        assert(name_lt(s[i].0, s[j].0));
        lemma_name_lt_irreflexive(s[i].0);
    } else if j < i {
        assert(name_lt(s[j].0, s[i].0));
        lemma_name_lt_irreflexive(s[i].0);
    }
}

/// The content stored under name `k` in a list of entries.
pub open spec fn content_under(s: Seq<(Seq<char>, Seq<char>)>, k: Seq<char>) -> Seq<char> {
    s[choose|i: int| 0 <= i < s.len() && #[trigger] s[i].0 == k].1
}

/// The map from names to contents that a list of entries describes.
pub open spec fn entries_map(s: Seq<(Seq<char>, Seq<char>)>) -> Map<Seq<char>, Seq<char>> {
    Map::new(|k: Seq<char>| has_name(s, k), |k: Seq<char>| content_under(s, k))
}

proof fn lemma_content_at(s: Seq<(Seq<char>, Seq<char>)>, i: int)
    requires
        sorted_names(s),
        0 <= i < s.len(),
    ensures
        has_name(s, s[i].0),
        content_under(s, s[i].0) == s[i].1,
{
    assert(has_name(s, s[i].0));
    let j = choose|j: int| 0 <= j < s.len() && #[trigger] s[j].0 == s[i].0;
    lemma_sorted_index_unique(s, i, j);
}

/// Compares two names: negative when `a` sorts first, zero when equal,
/// positive when `b` sorts first.
fn compare_names(a: &Vec<char>, b: &Vec<char>) -> (r: i8)
    ensures
        r < 0 ==> name_lt(a@, b@),
        r == 0 ==> a@ == b@,
        r > 0 ==> name_lt(b@, a@),
{
    let mut i: usize = 0;
    while i < a.len() && i < b.len()
        invariant
            i <= a.len(),
            i <= b.len(),
            a@.take(i as int) == b@.take(i as int),
        decreases a.len() - i,
    {
        if a[i] < b[i] {
            assert(a@.take(i as int) == b@.take(i as int));
            return -1;
        }
        if b[i] < a[i] {
            assert(b@.take(i as int) == a@.take(i as int));
            return 1;
        }
        assert(a@.take(i + 1) =~= a@.take(i as int).push(a@[i as int]));
        assert(b@.take(i + 1) =~= b@.take(i as int).push(b@[i as int]));
        i = i + 1;
    }
    if a.len() == b.len() {
        assert(a@ =~= a@.take(i as int));
        assert(b@ =~= b@.take(i as int));
        0
    } else if i == a.len() {
        assert(a@.take(i as int) == b@.take(i as int));
        -1
    } else {
        assert(b@.take(i as int) == a@.take(i as int));
        1
    }
}

/// Placing an entry at its place in name order keeps the order and adds
/// the entry to the map.
proof fn lemma_insert_sorted(s: Seq<(Seq<char>, Seq<char>)>, p: int, e: (Seq<char>, Seq<char>))
    requires
        sorted_names(s),
        0 <= p <= s.len(),
        forall|j: int| 0 <= j < p ==> name_lt(#[trigger] s[j].0, e.0),
        p < s.len() ==> name_lt(e.0, s[p].0),
    ensures
        sorted_names(s.insert(p, e)),
        entries_map(s.insert(p, e)) == entries_map(s).insert(e.0, e.1),
{
    let t = s.insert(p, e);
    assert forall|i: int, j: int| 0 <= i < j < t.len() implies name_lt(#[trigger] t[i].0, #[trigger] t[j].0) by {
        if i < p && j == p {
        } else if i < p && j > p {
            assert(t[j] == s[j - 1]);
        } else if i == p {
            assert(t[j] == s[j - 1]);
            if j - 1 > p {
                assert(name_lt(s[p].0, s[j - 1].0));
                lemma_name_lt_transitive(e.0, s[p].0, s[j - 1].0);
            }
        } else if i > p {
            assert(t[i] == s[i - 1] && t[j] == s[j - 1]);
        } else {
            assert(t[i] == s[i] && t[j] == s[j]);
        }
    }
    assert forall|k: Seq<char>| has_name(t, k) <==> (k == e.0 || has_name(s, k)) by {
        if has_name(t, k) {
            let i = choose|i: int| 0 <= i < t.len() && #[trigger] t[i].0 == k;
            if i > p {
                assert(s[i - 1].0 == k);
            } else if i < p {
                assert(s[i].0 == k);
            }
        }
        if has_name(s, k) {
            let i = choose|i: int| 0 <= i < s.len() && #[trigger] s[i].0 == k;
            if i < p {
                assert(t[i].0 == k);
            } else {
                assert(t[i + 1].0 == k);
            }
        }
        if k == e.0 {
            assert(t[p].0 == k);
        }
    }
    assert forall|k: Seq<char>| #[trigger] has_name(t, k) implies content_under(t, k)
        == entries_map(s).insert(e.0, e.1)[k] by {
        if k == e.0 {
            lemma_content_at(t, p);
        } else {
            let i = choose|i: int| 0 <= i < s.len() && #[trigger] s[i].0 == k;
            lemma_content_at(s, i);
            if i < p {
                assert(t[i] == s[i]);
                lemma_content_at(t, i);
            } else {
                assert(t[i + 1] == s[i]);
                lemma_content_at(t, i + 1);
            }
        }
    }
    assert(entries_map(t) =~= entries_map(s).insert(e.0, e.1));
}

/// Replacing the content of an entry keeps the order and updates the map.
proof fn lemma_update_sorted(s: Seq<(Seq<char>, Seq<char>)>, p: int, e: (Seq<char>, Seq<char>))
    requires
        sorted_names(s),
        0 <= p < s.len(),
        s[p].0 == e.0,
    ensures
        sorted_names(s.update(p, e)),
        entries_map(s.update(p, e)) == entries_map(s).insert(e.0, e.1),
{
    let t = s.update(p, e);
    assert forall|i: int, j: int| 0 <= i < j < t.len() implies name_lt(#[trigger] t[i].0, #[trigger] t[j].0) by {
        assert(t[i].0 == s[i].0 && t[j].0 == s[j].0);
    }
    assert forall|k: Seq<char>| has_name(t, k) <==> (k == e.0 || has_name(s, k)) by {
        if has_name(t, k) {
            let i = choose|i: int| 0 <= i < t.len() && #[trigger] t[i].0 == k;
            assert(s[i].0 == k);
        }
        if has_name(s, k) {
            let i = choose|i: int| 0 <= i < s.len() && #[trigger] s[i].0 == k;
            assert(t[i].0 == k);
        }
        if k == e.0 {
            assert(t[p].0 == k);
        }
    }
    assert forall|k: Seq<char>| #[trigger] has_name(t, k) implies content_under(t, k)
        == entries_map(s).insert(e.0, e.1)[k] by {
        if k == e.0 {
            lemma_content_at(t, p);
        } else {
            let i = choose|i: int| 0 <= i < s.len() && #[trigger] s[i].0 == k;
            lemma_content_at(s, i);
            assert(t[i] == s[i]);
            lemma_content_at(t, i);
        }
    }
    assert(entries_map(t) =~= entries_map(s).insert(e.0, e.1));
}

/// Two well-formed file sets that hold the same files list them in the same
/// order: the order of a set never depends on how it was filled.
pub proof fn lemma_same_files_same_order(a: FileSet, b: FileSet)
    requires
        a.wf(),
        b.wf(),
        a@ == b@,
    ensures
        a.pairs() == b.pairs(),
{
    let s = a.pairs();
    let t = b.pairs();
    assert forall|k: Seq<char>| has_name(s, k) <==> has_name(t, k) by {
        assert(a@.contains_key(k) == has_name(s, k));
        assert(b@.contains_key(k) == has_name(t, k));
    }
    assert forall|i: int, j: int|
        0 <= i < s.len() && 0 <= j < t.len() && #[trigger] s[i].0 == #[trigger] t[j].0
            implies s[i].1 == t[j].1 by {
        lemma_content_at(s, i);
        lemma_content_at(t, j);
        assert(a@[s[i].0] == b@[t[j].0]);
    }
    lemma_sorted_entries_unique(s, t);
}

/// A set of files keyed by name, held in ascending name order.
pub struct FileSet {
    entries: Vec<(String, String)>,
}

impl View for FileSet {
    type V = Map<Seq<char>, Seq<char>>;

    open spec fn view(&self) -> Map<Seq<char>, Seq<char>> {
        entries_map(self.pairs())
    }
}

impl FileSet {
    /// The files in ascending name order.
    pub closed spec fn pairs(&self) -> Seq<(Seq<char>, Seq<char>)> {
        self.entries@.map_values(|e: (String, String)| entry_view(e))
    }

    /// Names are held in strictly ascending order.
    pub open spec fn wf(&self) -> bool {
        sorted_names(self.pairs())
    }

    /// An empty set.
    pub fn new() -> (r: FileSet)
        ensures
            r.wf(),
            r.pairs().len() == 0,
            r@ == Map::<Seq<char>, Seq<char>>::empty(),
    {
        let r = FileSet { entries: Vec::new() };
        assert(r.pairs() =~= Seq::<(Seq<char>, Seq<char>)>::empty());
        assert(r@ =~= Map::<Seq<char>, Seq<char>>::empty());
        r
    }

    /// The number of files.
    pub fn len(&self) -> (r: usize)
        ensures
            r == self.pairs().len(),
    {
        self.entries.len()
    }

    /// The name and content of the `i`-th file in name order.
    pub fn entry(&self, i: usize) -> (r: (&String, &String))
        requires
            i < self.pairs().len(),
        ensures
            r.0@ == self.pairs()[i as int].0,
            r.1@ == self.pairs()[i as int].1,
    {
        (&self.entries[i].0, &self.entries[i].1)
    }

    /// Adds a file, replacing the content of a file of the same name.
    pub fn insert(&mut self, name: String, content: String)
        requires
            old(self).wf(),
        ensures
            final(self).wf(),
            final(self)@ == old(self)@.insert(name@, content@),
    {
        let ghost s0 = self.pairs();
        let key = chars_of(name.as_str());
        let n = self.entries.len();
        let mut p: usize = 0;
        let mut found = false;
        let mut done = false;
        while !done && p < n
            invariant
                n == self.entries.len(),
                s0 == self.pairs(),
                sorted_names(s0),
                key@ == name@,
                p <= n,
                forall|j: int| 0 <= j < p ==> name_lt(#[trigger] s0[j].0, name@),
                done ==> p < n,
                done && found ==> s0[p as int].0 == name@,
                done && !found ==> name_lt(name@, s0[p as int].0),
                !done ==> !found,
            decreases n - p + (if done { 0int } else { 1int }),
        {
            let other = chars_of(self.entries[p].0.as_str());
            assert(other@ == s0[p as int].0);
            let c = compare_names(&other, &key);
            if c == 0 {
                found = true;
                done = true;
            } else if c > 0 {
                done = true;
            } else {
                p = p + 1;
            }
        }
        let ghost e = (name@, content@);
        if found {
            self.entries.remove(p);
            self.entries.insert(p, (name, content));
            assert(self.pairs() =~= s0.update(p as int, e));
            proof { lemma_update_sorted(s0, p as int, e); }
        } else {
            self.entries.insert(p, (name, content));
            assert(self.pairs() =~= s0.insert(p as int, e));
            proof { lemma_insert_sorted(s0, p as int, e); }
        }
    }

    /// The content of the file called `name`, if there is one.
    pub fn get(&self, name: &str) -> (r: Option<&String>)
        requires
            self.wf(),
        ensures
            r is Some <==> self@.contains_key(name@),
            r matches Some(c) ==> c@ == self@[name@],
    {
        let key = chars_of(name);
        let mut i: usize = 0;
        while i < self.entries.len()
            invariant
                self.wf(),
                key@ == name@,
                forall|j: int| 0 <= j < i ==> #[trigger] self.pairs()[j].0 != name@,
            decreases self.entries.len() - i,
        {
            let other = chars_of(self.entries[i].0.as_str());
            assert(other@ == self.pairs()[i as int].0);
            if compare_names(&other, &key) == 0 {
                proof { lemma_content_at(self.pairs(), i as int); }
                return Some(&self.entries[i].1);
            }
            i = i + 1;
        }
        None
    }
}

} // verus!
