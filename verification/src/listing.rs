//! The snapshot of an input directory: which of its entries count as input
//! files, and the order in which they are kept.

use crate::text::to_chars;
use vstd::prelude::*;
use vstd::relations::sorted_by;
use vstd::seq_lib::{lemma_sorted_unique, to_multiset_insert};

verus! {

/// One entry of a directory as the file system reported it: its name, and
/// whether it is a directory or a symbolic link.
#[derive(Debug, Clone, PartialEq, Eq)]
pub struct ListedEntry {
    pub name: String,
    pub is_dir: bool,
    pub is_symlink: bool,
}

/// A `ListedEntry` with its name as a sequence of characters.
pub struct ListedEntryView {
    pub name: Seq<char>,
    pub is_dir: bool,
    pub is_symlink: bool,
}

impl DeepView for ListedEntry {
    type V = ListedEntryView;

    open spec fn deep_view(&self) -> ListedEntryView {
        ListedEntryView { name: self.name@, is_dir: self.is_dir, is_symlink: self.is_symlink }
    }
}

/// Lexicographic order on strings, character by character by code point; a
/// proper prefix comes before what it is a prefix of.
pub open spec fn lex_le(a: Seq<char>, b: Seq<char>) -> bool
    decreases a.len(),
{
    if a.len() == 0 {
        true
    } else if b.len() == 0 {
        false
    } else if a[0] != b[0] {
        a[0] < b[0]
    } else {
        lex_le(a.drop_first(), b.drop_first())
    }
}

/// Every name is at most the names that follow it.
pub open spec fn is_sorted(names: Seq<Seq<char>>) -> bool {
    forall|i: int, j: int| 0 <= i < j < names.len() ==> lex_le(names[i], names[j])
}

/// An entry that is neither a directory nor a symbolic link.
pub open spec fn is_regular() -> spec_fn(ListedEntryView) -> bool {
    |e: ListedEntryView| !e.is_dir && !e.is_symlink
}

/// The name of an entry.
pub open spec fn name_of() -> spec_fn(ListedEntryView) -> Seq<char> {
    |e: ListedEntryView| e.name
}

/// The names of the regular files among `entries`, in the order of `entries`.
pub open spec fn regular_names(entries: Seq<ListedEntryView>) -> Seq<Seq<char>> {
    entries.filter(is_regular()).map_values(name_of())
}

/// `list` holds the names of the regular files among `entries`, each as often
/// as it is listed, in lexicographic order.
pub open spec fn is_file_list_of(list: Seq<Seq<char>>, entries: Seq<ListedEntryView>) -> bool {
    &&& is_sorted(list)
    &&& list.to_multiset() == regular_names(entries).to_multiset()
}

/// Of two strings, one is at most the other.
pub proof fn lemma_lex_le_total(a: Seq<char>, b: Seq<char>)
    ensures
        lex_le(a, b) || lex_le(b, a),
    decreases a.len(),
{
    if a.len() > 0 && b.len() > 0 && a[0] == b[0] {
        lemma_lex_le_total(a.drop_first(), b.drop_first());
    }
}

/// The order is transitive.
pub proof fn lemma_lex_le_transitive(a: Seq<char>, b: Seq<char>, c: Seq<char>)
    requires
        lex_le(a, b),
        lex_le(b, c),
    ensures
        lex_le(a, c),
    decreases a.len(),
{
    if a.len() > 0 && b.len() > 0 && c.len() > 0 && a[0] == b[0] && b[0] == c[0] {
        lemma_lex_le_transitive(a.drop_first(), b.drop_first(), c.drop_first());
    }
}

/// Two strings that are each at most the other are the same string.
pub proof fn lemma_lex_le_antisymmetric(a: Seq<char>, b: Seq<char>)
    requires
        lex_le(a, b),
        lex_le(b, a),
    ensures
        a == b,
    decreases a.len(),
{
    if a.len() > 0 && b.len() > 0 {
        lemma_lex_le_antisymmetric(a.drop_first(), b.drop_first());
        assert(a =~= seq![a[0]] + a.drop_first());
        assert(b =~= seq![b[0]] + b.drop_first());
    } else {
        assert(a =~= b);
    }
}

/// Every string is at most itself.
pub proof fn lemma_lex_le_reflexive(a: Seq<char>)
    ensures
        lex_le(a, a),
    decreases a.len(),
{
    if a.len() > 0 {
        lemma_lex_le_reflexive(a.drop_first());
    }
}

/// The entries of a directory determine its file list: two sorted lists of
/// the same regular files are the same list.
pub proof fn lemma_file_list_is_unique(
    a: Seq<Seq<char>>,
    b: Seq<Seq<char>>,
    entries: Seq<ListedEntryView>,
)
    requires
        is_file_list_of(a, entries),
        is_file_list_of(b, entries),
    ensures
        a == b,
{
    let leq = |x: Seq<char>, y: Seq<char>| lex_le(x, y);
    assert forall|x: Seq<char>| #[trigger] leq(x, x) by {
        lemma_lex_le_reflexive(x);
    }
    assert forall|x: Seq<char>, y: Seq<char>| #[trigger] leq(x, y) && #[trigger] leq(y, x) implies x
        == y by {
        lemma_lex_le_antisymmetric(x, y);
    }
    assert forall|x: Seq<char>, y: Seq<char>, z: Seq<char>| #[trigger]
        leq(x, y) && #[trigger] leq(y, z) implies leq(x, z) by {
        lemma_lex_le_transitive(x, y, z);
    }
    assert forall|x: Seq<char>, y: Seq<char>| #[trigger] leq(x, y) || #[trigger] leq(y, x) by {
        lemma_lex_le_total(x, y);
    }
    assert(sorted_by(a, leq));
    assert(sorted_by(b, leq));
    lemma_sorted_unique(a, b, leq);
}

/// Whether `a` is at most `b` in lexicographic order.
fn chars_le(a: &Vec<char>, b: &Vec<char>) -> (le: bool)
    ensures
        le == lex_le(a@, b@),
{
    let mut k: usize = 0;
    proof {
        assert(a@.skip(0) =~= a@);
        assert(b@.skip(0) =~= b@);
    }
    while k < a.len() && k < b.len() && a[k] == b[k]
        invariant
            k <= a.len(),
            k <= b.len(),
            lex_le(a@, b@) == lex_le(a@.skip(k as int), b@.skip(k as int)),
        decreases a.len() - k,
    {
        proof {
            assert(a@.skip(k as int).drop_first() =~= a@.skip(k + 1));
            assert(b@.skip(k as int).drop_first() =~= b@.skip(k + 1));
        }
        k = k + 1;
    }
    if k == a.len() {
        true
    } else if k == b.len() {
        false
    } else {
        a[k] < b[k]
    }
}

/// `keys` holds, index by index, the characters of the names in `list`.
spec fn keys_match(keys: Seq<Vec<char>>, list: Seq<String>) -> bool {
    &&& keys.len() == list.len()
    &&& forall|i: int| 0 <= i < keys.len() ==> (#[trigger] keys[i])@ == list[i]@
}

/// Puts `name` into the sorted `list` behind the names that are at most it.
fn insert_sorted(list: &mut Vec<String>, keys: &mut Vec<Vec<char>>, name: String)
    requires
        is_sorted(old(list).deep_view()),
        keys_match(old(keys)@, old(list)@),
    ensures
        is_sorted(final(list).deep_view()),
        keys_match(final(keys)@, final(list)@),
        final(list).deep_view().to_multiset() == old(list).deep_view().to_multiset().insert(name@),
{
    let key = to_chars(name.as_str());
    let ghost before = list.deep_view();
    let mut at: usize = 0;
    while at < list.len() && chars_le(&keys[at], &key)
        invariant
            at <= list.len(),
            list.deep_view() == before,
            keys_match(keys@, list@),
            key@ == name@,
            forall|i: int| 0 <= i < at ==> lex_le(before[i], name@),
        decreases list.len() - at,
    {
        at = at + 1;
    }
    proof {
        if at < list.len() {
            assert(keys@[at as int]@ == list@[at as int]@);
            assert(!lex_le(before[at as int], name@));
            lemma_lex_le_total(before[at as int], name@);
        }
        let after = before.insert(at as int, name@);
        assert forall|i: int, j: int| 0 <= i < j < after.len() implies lex_le(
            after[i],
            after[j],
        ) by {
            if i == at && j - 1 > at {
                lemma_lex_le_transitive(name@, before[at as int], before[j - 1]);
            }
        }
        to_multiset_insert(before, at as int, name@);
    }
    list.insert(at, name);
    keys.insert(at, key);
    proof {
        assert(list.deep_view() =~= before.insert(at as int, name@));
    }
}

/// The names of the regular files among `entries` (those that are neither a
/// directory nor a symbolic link), sorted.  There is one such list only.
pub fn load_input_file_list(entries: &Vec<ListedEntry>) -> (list: Vec<String>)
    ensures
        is_file_list_of(list.deep_view(), entries.deep_view()),
        forall|other: Seq<Seq<char>>| #[trigger]
            is_file_list_of(other, entries.deep_view()) ==> other == list.deep_view(),
{
    let mut list: Vec<String> = Vec::new();
    let mut keys: Vec<Vec<char>> = Vec::new();
    proof {
        assert(entries.deep_view().take(0) =~= Seq::<ListedEntryView>::empty());
        reveal_with_fuel(Seq::filter, 1);
        assert(regular_names(entries.deep_view().take(0)) =~= Seq::<Seq<char>>::empty());
        assert(list.deep_view() =~= Seq::<Seq<char>>::empty());
    }
    for i in 0..entries.len()
        invariant
            is_sorted(list.deep_view()),
            keys_match(keys@, list@),
            list.deep_view().to_multiset() == regular_names(
                entries.deep_view().take(i as int),
            ).to_multiset(),
    {
        let entry = &entries[i];
        proof {
            let seen = entries.deep_view().take(i as int);
            let e = entry.deep_view();
            assert(entries.deep_view().take(i + 1) =~= seen.push(e));
            Seq::lemma_filter_push(seen, e, is_regular());
            if !e.is_dir && !e.is_symlink {
                assert(seen.push(e).filter(is_regular()).map_values(name_of()) =~= seen.filter(
                    is_regular(),
                ).map_values(name_of()).push(e.name));
                vstd::seq_lib::to_multiset_build(regular_names(seen), e.name);
            }
        }
        if !entry.is_dir && !entry.is_symlink {
            insert_sorted(&mut list, &mut keys, entry.name.clone());
        }
    }
    proof {
        assert(entries.deep_view().take(entries.len() as int) =~= entries.deep_view());
        assert forall|other: Seq<Seq<char>>| #[trigger]
            is_file_list_of(other, entries.deep_view()) implies other == list.deep_view() by {
            lemma_file_list_is_unique(other, list.deep_view(), entries.deep_view());
        }
    }
    list
}

} // verus!
