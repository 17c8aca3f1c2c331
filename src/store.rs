//! The capsule store: which directory entries are capsules, and the two
//! orders in which they are shown (by name for restore, newest first for
//! listing).

use vstd::prelude::*;
use vstd::string::StrSliceExecFns;

verus! {

broadcast use vstd::seq_lib::group_to_multiset_ensures;

/// One entry of the capsule store directory as read from disk.
pub struct StoreEntry {
    /// The entry's file name.
    pub name: String,
    /// Whether the entry is a regular file.
    pub is_file: bool,
    /// Modification time, in nanoseconds relative to the Unix epoch.
    pub modified: i128,
}

/// The name of the metadata file that some systems drop into directories.
pub open spec fn ds_store() -> Seq<char> {
    ".DS_Store"@
}

/// An entry is a capsule when it is a regular file not named `.DS_Store`.
pub open spec fn is_capsule(e: StoreEntry) -> bool {
    e.is_file && e.name@ != ds_store()
}

/// The capsule entries of `s`, in their order.
pub open spec fn capsules(s: Seq<StoreEntry>) -> Seq<StoreEntry>
    decreases s.len(),
{
    if s.len() == 0 {
        s
    } else if is_capsule(s.last()) {
        capsules(s.drop_last()).push(s.last())
    } else {
        capsules(s.drop_last())
    }
}

/// The names of the entries of `s`.
pub open spec fn names(s: Seq<StoreEntry>) -> Seq<Seq<char>> {
    s.map_values(|e: StoreEntry| e.name@)
}

/// The views of the strings of `s`.
pub open spec fn views(s: Seq<String>) -> Seq<Seq<char>> {
    s.map_values(|t: String| t@)
}

/// Lexicographic order on names, character by character (which is the
/// byte order of their UTF-8 encodings).
pub open spec fn name_le(a: Seq<char>, b: Seq<char>) -> bool
    decreases a.len(),
{
    if a.len() == 0 {
        true
    } else if b.len() == 0 {
        false
    } else if a[0] != b[0] {
        (a[0] as int) < (b[0] as int)
    } else {
        name_le(a.drop_first(), b.drop_first())
    }
}

/// `x` placed in front of the first name of `s` that is not below it.
pub open spec fn insert_by_name(x: Seq<char>, s: Seq<Seq<char>>) -> Seq<Seq<char>>
    decreases s.len(),
{
    if s.len() == 0 {
        seq![x]
    } else if name_le(x, s[0]) {
        seq![x] + s
    } else {
        seq![s[0]] + insert_by_name(x, s.drop_first())
    }
}

/// The names of `s` in lexicographic order.
pub open spec fn by_name(s: Seq<Seq<char>>) -> Seq<Seq<char>>
    decreases s.len(),
{
    if s.len() == 0 {
        s
    } else {
        insert_by_name(s.last(), by_name(s.drop_last()))
    }
}

/// `x` placed in front of the first entry of `s` that is strictly older.
pub open spec fn insert_newest(x: StoreEntry, s: Seq<StoreEntry>) -> Seq<StoreEntry>
    decreases s.len(),
{
    if s.len() == 0 {
        seq![x]
    } else if s[0].modified < x.modified {
        seq![x] + s
    } else {
        seq![s[0]] + insert_newest(x, s.drop_first())
    }
}

/// The entries of `s` from the most recently modified to the least; entries
/// modified at the same time keep their order.
pub open spec fn newest_first(s: Seq<StoreEntry>) -> Seq<StoreEntry>
    decreases s.len(),
{
    if s.len() == 0 {
        s
    } else {
        insert_newest(s.last(), newest_first(s.drop_last()))
    }
}

pub open spec fn sorted_by_name(s: Seq<Seq<char>>) -> bool {
    forall|i: int, j: int| 0 <= i < j < s.len() ==> name_le(#[trigger] s[i], #[trigger] s[j])
}

pub open spec fn sorted_newest_first(s: Seq<StoreEntry>) -> bool {
    forall|i: int, j: int|
        0 <= i < j < s.len() ==> (#[trigger] s[i]).modified >= (#[trigger] s[j]).modified
}

/// Whether name `a` comes no later than name `b`.
pub fn name_at_most(a: &str, b: &str) -> (r: bool)
    ensures
        r == name_le(a@, b@),
{
    let la = a.unicode_len();
    let lb = b.unicode_len();
    let mut i: usize = 0;
    assert(a@.skip(0) =~= a@);
    assert(b@.skip(0) =~= b@);
    while i < la && i < lb
        invariant
            i <= la,
            i <= lb,
            la == a@.len(),
            lb == b@.len(),
            name_le(a@, b@) == name_le(a@.skip(i as int), b@.skip(i as int)),
        decreases la - i,
    {
        let ca = a.get_char(i);
        let cb = b.get_char(i);
        if ca != cb {
            return (ca as u32) < (cb as u32);
        }
        assert(a@.skip(i as int).drop_first() =~= a@.skip(i + 1));
        assert(b@.skip(i as int).drop_first() =~= b@.skip(i + 1));
        i += 1;
    }
    i == la
}

pub fn is_capsule_entry(e: &StoreEntry) -> (r: bool)
    ensures
        r == is_capsule(*e),
{
    let ds = String::from_str(".DS_Store");
    e.is_file && !(e.name == ds)
}


proof fn lemma_name_le_total(a: Seq<char>, b: Seq<char>)
    ensures
        name_le(a, b) || name_le(b, a),
    decreases a.len(),
{
    if a.len() > 0 && b.len() > 0 {
        if a[0] == b[0] {
            lemma_name_le_total(a.drop_first(), b.drop_first());
        } else {
            assert((a[0] as int) != (b[0] as int));
        }
    }
}

proof fn lemma_name_le_trans(a: Seq<char>, b: Seq<char>, c: Seq<char>)
    requires
        name_le(a, b),
        name_le(b, c),
    ensures
        name_le(a, c),
    decreases a.len(),
{
    if a.len() > 0 && b.len() > 0 && c.len() > 0 && a[0] == b[0] && b[0] == c[0] {
        lemma_name_le_trans(a.drop_first(), b.drop_first(), c.drop_first());
    }
}

proof fn lemma_name_le_antisym(a: Seq<char>, b: Seq<char>)
    requires
        name_le(a, b),
        name_le(b, a),
    ensures
        a == b,
    decreases a.len(),
{
    if a.len() > 0 && b.len() > 0 {
        lemma_name_le_antisym(a.drop_first(), b.drop_first());
        assert(a =~= seq![a[0]] + a.drop_first());
        assert(b =~= seq![b[0]] + b.drop_first());
    }
}

proof fn lemma_insert_by_name_at(x: Seq<char>, s: Seq<Seq<char>>, p: int)
    requires
        0 <= p <= s.len(),
        forall|k: int| 0 <= k < p ==> !name_le(x, #[trigger] s[k]),
        p < s.len() ==> name_le(x, s[p]),
    ensures
        insert_by_name(x, s) == s.insert(p, x),
    decreases p,
{
    if p == 0 {
        assert(s.insert(0, x) =~= seq![x] + s);
    } else {
        assert(!name_le(x, s[0]));
        lemma_insert_by_name_at(x, s.drop_first(), p - 1);
        assert(s.insert(p, x) =~= seq![s[0]] + s.drop_first().insert(p - 1, x));
    }
}

proof fn lemma_insert_newest_at(x: StoreEntry, s: Seq<StoreEntry>, p: int)
    requires
        0 <= p <= s.len(),
        forall|k: int| 0 <= k < p ==> (#[trigger] s[k]).modified >= x.modified,
        p < s.len() ==> s[p].modified < x.modified,
    ensures
        insert_newest(x, s) == s.insert(p, x),
    decreases p,
{
    if p == 0 {
        assert(s.insert(0, x) =~= seq![x] + s);
    } else {
        assert(s[0].modified >= x.modified);
        lemma_insert_newest_at(x, s.drop_first(), p - 1);
        assert(s.insert(p, x) =~= seq![s[0]] + s.drop_first().insert(p - 1, x));
    }
}

proof fn lemma_capsules_step(s: Seq<StoreEntry>, i: int)
    requires
        0 <= i < s.len(),
    ensures
        capsules(s.take(i + 1)) == if is_capsule(s[i]) {
            capsules(s.take(i)).push(s[i])
        } else {
            capsules(s.take(i))
        },
{
    assert(s.take(i + 1).drop_last() =~= s.take(i));
}

proof fn lemma_names_push(s: Seq<StoreEntry>, e: StoreEntry)
    ensures
        names(s.push(e)) == names(s).push(e.name@),
{
    assert(names(s.push(e)) =~= names(s).push(e.name@));
}

/// Names of the capsules among `entries`, in lexicographic order: the order
/// in which restore offers them. Capsule names begin with the weekday and
/// the month's name, so this order is not chronological; it is kept as the
/// menu order all the same, which makes a menu number stable for a given
/// set of files.
pub fn capsules_by_name(entries: &Vec<StoreEntry>) -> (r: Vec<String>)
    ensures
        views(r@) == by_name(names(capsules(entries@))),
{
    let mut out: Vec<String> = Vec::new();
    let mut i: usize = 0;
    assert(views(out@) =~= by_name(names(capsules(entries@.take(0)))));
    while i < entries.len()
        invariant
            i <= entries.len(),
            views(out@) == by_name(names(capsules(entries@.take(i as int)))),
        decreases entries.len() - i,
    {
        let e = &entries[i];
        proof {
            lemma_capsules_step(entries@, i as int);
        }
        if is_capsule_entry(e) {
            let mut p: usize = 0;
            while p < out.len()
                invariant
                    p <= out.len(),
                    forall|k: int| 0 <= k < p ==> !name_le(e.name@, #[trigger] out@[k]@),
                ensures
                    p <= out.len(),
                    forall|k: int| 0 <= k < p ==> !name_le(e.name@, #[trigger] out@[k]@),
                    p < out.len() ==> name_le(e.name@, out@[p as int]@),
                decreases out.len() - p,
            {
                if name_at_most(e.name.as_str(), out[p].as_str()) {
                    break;
                }
                p += 1;
            }
            let ghost prev = out@;
            let ghost c = capsules(entries@.take(i as int));
            proof {
                lemma_insert_by_name_at(e.name@, views(prev), p as int);
                lemma_names_push(c, *e);
                assert(names(c.push(*e)).drop_last() =~= names(c));
            }
            out.insert(p, e.name.clone());
            assert(views(out@) =~= views(prev).insert(p as int, e.name@));
        }
        i += 1;
    }
    assert(entries@.take(entries@.len() as int) =~= entries@);
    out
}

/// The capsules among `entries`, most recently modified first: the order in
/// which the listing shows them.
pub fn capsules_newest_first(entries: &Vec<StoreEntry>) -> (r: Vec<StoreEntry>)
    ensures
        r@ == newest_first(capsules(entries@)),
{
    let mut out: Vec<StoreEntry> = Vec::new();
    let mut i: usize = 0;
    assert(out@ =~= newest_first(capsules(entries@.take(0))));
    while i < entries.len()
        invariant
            i <= entries.len(),
            out@ == newest_first(capsules(entries@.take(i as int))),
        decreases entries.len() - i,
    {
        let e = &entries[i];
        proof {
            lemma_capsules_step(entries@, i as int);
        }
        if is_capsule_entry(e) {
            let mut p: usize = 0;
            while p < out.len()
                invariant
                    p <= out.len(),
                    forall|k: int| 0 <= k < p ==> (#[trigger] out@[k]).modified >= e.modified,
                ensures
                    p <= out.len(),
                    forall|k: int| 0 <= k < p ==> (#[trigger] out@[k]).modified >= e.modified,
                    p < out.len() ==> out@[p as int].modified < e.modified,
                decreases out.len() - p,
            {
                if out[p].modified < e.modified {
                    break;
                }
                p += 1;
            }
            let ghost prev = out@;
            let ghost c = capsules(entries@.take(i as int));
            proof {
                lemma_insert_newest_at(*e, prev, p as int);
                assert(c.push(*e).drop_last() =~= c);
            }
            let copy = StoreEntry { name: e.name.clone(), is_file: e.is_file, modified: e.modified };
            out.insert(p, copy);
        }
        i += 1;
    }
    assert(entries@.take(entries@.len() as int) =~= entries@);
    out
}


proof fn lemma_insert_by_name_multiset(x: Seq<char>, s: Seq<Seq<char>>)
    ensures
        insert_by_name(x, s).to_multiset() =~= s.to_multiset().insert(x),
    decreases s.len(),
{
    if s.len() == 0 {
        assert(seq![x] =~= s.insert(0, x));
    } else if name_le(x, s[0]) {
        assert(seq![x] + s =~= s.insert(0, x));
    } else {
        let t = insert_by_name(x, s.drop_first());
        lemma_insert_by_name_multiset(x, s.drop_first());
        assert(seq![s[0]] + t =~= t.insert(0, s[0]));
        assert(s =~= s.drop_first().insert(0, s[0]));
    }
}

proof fn lemma_insert_newest_multiset(x: StoreEntry, s: Seq<StoreEntry>)
    ensures
        insert_newest(x, s).to_multiset() =~= s.to_multiset().insert(x),
    decreases s.len(),
{
    if s.len() == 0 {
        assert(seq![x] =~= s.insert(0, x));
    } else if s[0].modified < x.modified {
        assert(seq![x] + s =~= s.insert(0, x));
    } else {
        let t = insert_newest(x, s.drop_first());
        lemma_insert_newest_multiset(x, s.drop_first());
        assert(seq![s[0]] + t =~= t.insert(0, s[0]));
        assert(s =~= s.drop_first().insert(0, s[0]));
    }
}

/// Ordering by name keeps exactly the names it was given.
pub proof fn lemma_by_name_permutes(s: Seq<Seq<char>>)
    ensures
        by_name(s).to_multiset() =~= s.to_multiset(),
    decreases s.len(),
{
    if s.len() > 0 {
        lemma_by_name_permutes(s.drop_last());
        lemma_insert_by_name_multiset(s.last(), by_name(s.drop_last()));
        assert(s =~= s.drop_last().push(s.last()));
    }
}

/// Ordering newest first keeps exactly the entries it was given.
pub proof fn lemma_newest_first_permutes(s: Seq<StoreEntry>)
    ensures
        newest_first(s).to_multiset() =~= s.to_multiset(),
    decreases s.len(),
{
    if s.len() > 0 {
        lemma_newest_first_permutes(s.drop_last());
        lemma_insert_newest_multiset(s.last(), newest_first(s.drop_last()));
        assert(s =~= s.drop_last().push(s.last()));
    }
}

proof fn lemma_insert_by_name_sorted(x: Seq<char>, s: Seq<Seq<char>>)
    requires
        sorted_by_name(s),
    ensures
        sorted_by_name(insert_by_name(x, s)),
    decreases s.len(),
{
    if s.len() == 0 {
    } else if name_le(x, s[0]) {
        let r = seq![x] + s;
        assert forall|i: int, j: int| 0 <= i < j < r.len() implies name_le(
            #[trigger] r[i],
            #[trigger] r[j],
        ) by {
            if i == 0 {
                if j > 1 {
                    lemma_name_le_trans(x, s[0], s[j - 1]);
                }
            } else {
                assert(name_le(s[i - 1], s[j - 1]));
            }
        }
    } else {
        lemma_name_le_total(x, s[0]);
        let t = insert_by_name(x, s.drop_first());
        lemma_insert_by_name_sorted(x, s.drop_first());
        lemma_insert_by_name_multiset(x, s.drop_first());
        let r = seq![s[0]] + t;
        assert forall|i: int, j: int| 0 <= i < j < r.len() implies name_le(
            #[trigger] r[i],
            #[trigger] r[j],
        ) by {
            if i == 0 {
                let y = t[j - 1];
                assert(t.to_multiset().count(y) > 0);
                if y != x {
                    assert(s.drop_first().to_multiset().count(y) > 0);
                    let k = choose|k: int| 0 <= k < s.drop_first().len() && s.drop_first()[k] == y;
                    assert(name_le(s[0], s[k + 1]));
                }
            } else {
                assert(name_le(t[i - 1], t[j - 1]));
            }
        }
    }
}

/// The names ordered by name are in non-decreasing lexicographic order.
pub proof fn lemma_by_name_sorted(s: Seq<Seq<char>>)
    ensures
        sorted_by_name(by_name(s)),
    decreases s.len(),
{
    if s.len() > 0 {
        lemma_by_name_sorted(s.drop_last());
        lemma_insert_by_name_sorted(s.last(), by_name(s.drop_last()));
    }
}

proof fn lemma_insert_newest_sorted(x: StoreEntry, s: Seq<StoreEntry>)
    requires
        sorted_newest_first(s),
    ensures
        sorted_newest_first(insert_newest(x, s)),
    decreases s.len(),
{
    if s.len() == 0 {
    } else if s[0].modified < x.modified {
        let r = seq![x] + s;
        assert forall|i: int, j: int| 0 <= i < j < r.len() implies (
        #[trigger] r[i]).modified >= (#[trigger] r[j]).modified by {
            if i > 0 {
                assert(s[i - 1].modified >= s[j - 1].modified);
            } else if j > 1 {
                assert(s[0].modified >= s[j - 1].modified);
            }
        }
    } else {
        let t = insert_newest(x, s.drop_first());
        lemma_insert_newest_sorted(x, s.drop_first());
        lemma_insert_newest_multiset(x, s.drop_first());
        let r = seq![s[0]] + t;
        assert forall|i: int, j: int| 0 <= i < j < r.len() implies (
        #[trigger] r[i]).modified >= (#[trigger] r[j]).modified by {
            if i == 0 {
                let y = t[j - 1];
                assert(t.to_multiset().count(y) > 0);
                if y != x {
                    assert(s.drop_first().to_multiset().count(y) > 0);
                    let k = choose|k: int| 0 <= k < s.drop_first().len() && s.drop_first()[k] == y;
                    assert(s[0].modified >= s[k + 1].modified);
                }
            } else {
                assert(t[i - 1].modified >= t[j - 1].modified);
            }
        }
    }
}

/// Entries ordered newest first are in non-increasing order of
/// modification time.
pub proof fn lemma_newest_first_sorted(s: Seq<StoreEntry>)
    ensures
        sorted_newest_first(newest_first(s)),
    decreases s.len(),
{
    if s.len() > 0 {
        lemma_newest_first_sorted(s.drop_last());
        lemma_insert_newest_sorted(s.last(), newest_first(s.drop_last()));
    }
}


proof fn lemma_insert_newest_last(x: StoreEntry, s: Seq<StoreEntry>)
    requires
        forall|k: int| 0 <= k < s.len() ==> (#[trigger] s[k]).modified >= x.modified,
    ensures
        insert_newest(x, s) == s.push(x),
    decreases s.len(),
{
    if s.len() > 0 {
        lemma_insert_newest_last(x, s.drop_first());
        assert(seq![s[0]] + s.drop_first().push(x) =~= s.push(x));
    } else {
        assert(seq![x] =~= s.push(x));
    }
}

proof fn lemma_insert_by_name_last(x: Seq<char>, s: Seq<Seq<char>>)
    requires
        sorted_by_name(s),
        forall|k: int| 0 <= k < s.len() ==> name_le(#[trigger] s[k], x),
    ensures
        insert_by_name(x, s) == s.push(x),
    decreases s.len(),
{
    if s.len() == 0 {
        assert(seq![x] =~= s.push(x));
    } else if name_le(x, s[0]) {
        lemma_name_le_antisym(x, s[0]);
        assert forall|k: int| 0 <= k < s.len() implies #[trigger] s[k] == x by {
            if k > 0 {
                assert(name_le(s[0], s[k]));
                assert(name_le(s[k], x));
                lemma_name_le_antisym(x, s[k]);
            }
        }
        assert(seq![x] + s =~= s.push(x));
    } else {
        lemma_insert_by_name_last(x, s.drop_first());
        assert(seq![s[0]] + s.drop_first().push(x) =~= s.push(x));
    }
}

proof fn lemma_newest_first_of_sorted(t: Seq<StoreEntry>)
    requires
        sorted_newest_first(t),
    ensures
        newest_first(t) == t,
    decreases t.len(),
{
    if t.len() > 0 {
        let u = t.drop_last();
        lemma_newest_first_of_sorted(u);
        lemma_insert_newest_last(t.last(), u);
        assert(u.push(t.last()) =~= t);
    }
}

proof fn lemma_by_name_of_sorted(t: Seq<Seq<char>>)
    requires
        sorted_by_name(t),
    ensures
        by_name(t) == t,
    decreases t.len(),
{
    if t.len() > 0 {
        let u = t.drop_last();
        lemma_by_name_of_sorted(u);
        lemma_insert_by_name_last(t.last(), u);
        assert(u.push(t.last()) =~= t);
    }
}

/// Ordering an already ordered sequence changes nothing: a listing taken
/// again over the same entries comes out in the same order.
pub proof fn lemma_orderings_settle(s: Seq<StoreEntry>, n: Seq<Seq<char>>)
    ensures
        newest_first(newest_first(s)) == newest_first(s),
        by_name(by_name(n)) == by_name(n),
{
    lemma_newest_first_sorted(s);
    lemma_newest_first_of_sorted(newest_first(s));
    lemma_by_name_sorted(n);
    lemma_by_name_of_sorted(by_name(n));
}

proof fn lemma_capsules_are_capsules(s: Seq<StoreEntry>)
    ensures
        forall|k: int| 0 <= k < capsules(s).len() ==> is_capsule(#[trigger] capsules(s)[k]),
    decreases s.len(),
{
    if s.len() > 0 {
        let p = capsules(s.drop_last());
        lemma_capsules_are_capsules(s.drop_last());
        assert forall|k: int| 0 <= k < capsules(s).len() implies is_capsule(
            #[trigger] capsules(s)[k],
        ) by {
            if k < p.len() {
                assert(capsules(s)[k] == p[k]);
            }
        }
    }
}

/// Neither listing nor restore selection ever shows a directory or an
/// entry named `.DS_Store`.
pub proof fn lemma_only_capsules_shown(entries: Seq<StoreEntry>)
    ensures
        forall|k: int|
            0 <= k < newest_first(capsules(entries)).len() ==> is_capsule(
                #[trigger] newest_first(capsules(entries))[k],
            ),
        forall|k: int|
            0 <= k < by_name(names(capsules(entries))).len() ==> #[trigger] by_name(
                names(capsules(entries)),
            )[k] != ds_store(),
{
    let c = capsules(entries);
    let l = newest_first(c);
    let m = by_name(names(c));
    lemma_capsules_are_capsules(entries);
    lemma_newest_first_permutes(c);
    lemma_by_name_permutes(names(c));
    assert forall|k: int| 0 <= k < l.len() implies is_capsule(#[trigger] l[k]) by {
        assert(l.to_multiset().count(l[k]) > 0);
        assert(c.to_multiset().count(l[k]) > 0);
        let j = choose|j: int| 0 <= j < c.len() && c[j] == l[k];
    }
    assert forall|k: int| 0 <= k < m.len() implies #[trigger] m[k] != ds_store() by {
        assert(m.to_multiset().count(m[k]) > 0);
        assert(names(c).to_multiset().count(m[k]) > 0);
        let j = choose|j: int| 0 <= j < names(c).len() && names(c)[j] == m[k];
        assert(is_capsule(c[j]));
    }
}

} // verus!
