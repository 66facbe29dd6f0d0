//! Directory listings: which children of a folder are shown, and in what order.

use vstd::prelude::*;
use vstd::std_specs::iter::IteratorSpec;
use crate::error::{FsError, FsErrorModel};
use crate::text::{
    begins_with_dot, chars_of, lemma_before_asymmetric, lemma_before_irreflexive,
    lemma_before_total, lemma_before_transitive, lowercase, lowercase_of, precedes,
    starts_with_dot, text_before,
};

verus! {

/// One child of a directory as the enumeration reported it.
#[derive(Clone, Debug, PartialEq, Eq)]
pub struct DirChild {
    pub name: String,
    pub path: String,
    pub is_dir: bool,
}

/// One entry of a listing. `children` stays empty in every listing: a
/// directory is expanded by listing it in turn.
#[derive(Debug, PartialEq, Eq)]
pub struct FileEntry {
    pub name: String,
    pub path: String,
    pub is_dir: bool,
    pub children: Option<Vec<FileEntry>>,
}

/// An entry with its texts as sequences of characters. `expanded` tells
/// whether the entry carries children.
pub struct EntryModel {
    pub name: Seq<char>,
    pub path: Seq<char>,
    pub is_dir: bool,
    pub expanded: bool,
}

impl View for DirChild {
    type V = EntryModel;

    open spec fn view(&self) -> EntryModel {
        EntryModel { name: self.name@, path: self.path@, is_dir: self.is_dir, expanded: false }
    }
}

impl View for FileEntry {
    type V = EntryModel;

    open spec fn view(&self) -> EntryModel {
        EntryModel {
            name: self.name@,
            path: self.path@,
            is_dir: self.is_dir,
            expanded: self.children is Some,
        }
    }
}

impl Clone for FileEntry {
    /// A copy of the entry, with copies of its children.
    fn clone(&self) -> (r: FileEntry)
        ensures
            r@ == self@,
        decreases self,
    {
        let children = match &self.children {
            None => None,
            Some(v) => {
                let mut out: Vec<FileEntry> = Vec::new();
                let mut i: usize = 0;
                while i < v.len()
                    invariant
                        i <= v.len(),
                        self.children == Some(*v),
                    decreases v.len() - i,
                {
                    proof {
                        vstd::std_specs::vec::axiom_vec_index_decreases(*v, i as int);
                        assert(self.children->Some_0 == *v);
                    }
                    out.push(v[i].clone());
                    i += 1;
                }
                Some(out)
            },
        };
        FileEntry {
            name: self.name.clone(),
            path: self.path.clone(),
            is_dir: self.is_dir,
            children,
        }
    }
}

/// An entry together with the case-folded name it is ordered by.
pub struct Keyed {
    pub folded: Seq<char>,
    pub entry: EntryModel,
}

/// Directories come before files; among directories, and among files, the
/// folded names decide in dictionary order.
pub open spec fn key_before(a_dir: bool, a: Seq<char>, b_dir: bool, b: Seq<char>) -> bool {
    if a_dir != b_dir {
        a_dir
    } else {
        text_before(a, b)
    }
}

/// Whether `a` must be listed before `b` whatever order they were found in.
pub open spec fn listed_before(a: Keyed, b: Keyed) -> bool {
    key_before(a.entry.is_dir, a.folded, b.entry.is_dir, b.folded)
}

/// Whether the item at position `a` goes before the one at position `b`:
/// by the order of the listing, and where that does not tell them apart, by
/// the positions themselves.
pub open spec fn in_order(items: Seq<Keyed>, a: int, b: int) -> bool {
    listed_before(items[a], items[b]) || (!listed_before(items[b], items[a]) && a < b)
}

/// `out` holds the entries of `items`, each once, in listing order, and
/// `perm` tells for each place of `out` which item stands there. Items that
/// the order does not tell apart keep the order they had in `items`.
pub open spec fn arranged(items: Seq<Keyed>, perm: Seq<int>, out: Seq<EntryModel>) -> bool {
    &&& perm.len() == items.len()
    &&& out.len() == items.len()
    &&& forall|i: int| 0 <= i < perm.len() ==> 0 <= #[trigger] perm[i] < items.len()
    &&& forall|i: int, j: int| 0 <= i < j < perm.len() ==> perm[i] != perm[j]
    &&& forall|i: int| 0 <= i < out.len() ==> #[trigger] out[i] == items[perm[i]].entry
    &&& forall|i: int, j: int| 0 <= i < j < perm.len() ==> in_order(items, perm[i], perm[j])
}

/// The entries of a listing, each by its view.
pub open spec fn entry_models(entries: Seq<FileEntry>) -> Seq<EntryModel> {
    Seq::new(entries.len(), |i: int| entries[i]@)
}

/// The items that a vector of folded names and entries stands for.
pub open spec fn keyed_models(items: Seq<(String, FileEntry)>) -> Seq<Keyed> {
    Seq::new(items.len(), |i: int| Keyed { folded: items[i].0@, entry: items[i].1@ })
}

/// The order of the listing never puts an item before itself.
pub proof fn lemma_listed_irreflexive(a: Keyed)
    ensures
        !listed_before(a, a),
{
    lemma_before_irreflexive(a.folded);
}

/// The order of the listing is transitive.
pub proof fn lemma_listed_transitive(a: Keyed, b: Keyed, c: Keyed)
    requires
        listed_before(a, b),
        listed_before(b, c),
    ensures
        listed_before(a, c),
{
    if a.entry.is_dir == b.entry.is_dir && b.entry.is_dir == c.entry.is_dir {
        lemma_before_transitive(a.folded, b.folded, c.folded);
    }
}

/// Two items are never each listed before the other.
pub proof fn lemma_listed_asymmetric(a: Keyed, b: Keyed)
    requires
        listed_before(a, b),
    ensures
        !listed_before(b, a),
{
    if a.entry.is_dir == b.entry.is_dir {
        lemma_before_asymmetric(a.folded, b.folded);
    }
}

/// Items that the order does not tell apart agree in kind and folded name.
pub proof fn lemma_listed_total(a: Keyed, b: Keyed)
    ensures
        listed_before(a, b) || listed_before(b, a) || (a.entry.is_dir == b.entry.is_dir
            && a.folded == b.folded),
{
    lemma_before_total(a.folded, b.folded);
}

/// If `x` is not before `e`, nothing that `x` is not after is before `e`.
proof fn lemma_not_before_carries(x: Keyed, y: Keyed, e: Keyed)
    requires
        !listed_before(x, e),
        !listed_before(y, x),
    ensures
        !listed_before(y, e),
{
    lemma_listed_total(x, y);
    if listed_before(y, e) {
        if listed_before(x, y) {
            lemma_listed_transitive(x, y, e);
        }
    }
}

/// Placing item `k` at place `p` keeps an arrangement of the items after `k`
/// in order, when everything before `p` is listed before item `k` and what
/// stands at `p` is not.
proof fn lemma_place(items: Seq<Keyed>, perm: Seq<int>, p: int, k: int)
    requires
        0 <= k < items.len(),
        0 <= p <= perm.len(),
        forall|i: int| 0 <= i < perm.len() ==> k < #[trigger] perm[i] < items.len(),
        forall|i: int, j: int| 0 <= i < j < perm.len() ==> perm[i] != perm[j],
        forall|i: int, j: int| 0 <= i < j < perm.len() ==> in_order(items, perm[i], perm[j]),
        forall|i: int| 0 <= i < p ==> listed_before(items[#[trigger] perm[i]], items[k]),
        p < perm.len() ==> !listed_before(items[perm[p]], items[k]),
    ensures
        forall|i: int|
            0 <= i < perm.insert(p, k).len() ==> k <= #[trigger] perm.insert(p, k)[i]
                < items.len(),
        forall|i: int, j: int|
            0 <= i < j < perm.insert(p, k).len() ==> perm.insert(p, k)[i] != perm.insert(p, k)[j],
        forall|i: int, j: int|
            0 <= i < j < perm.insert(p, k).len() ==> in_order(
                items,
                perm.insert(p, k)[i],
                perm.insert(p, k)[j],
            ),
{
    let next = perm.insert(p, k);
    assert forall|i: int, j: int| 0 <= i < j < next.len() implies in_order(
        items,
        next[i],
        next[j],
    ) by {
        if j == p {
            assert(next[i] == perm[i]);
        } else if i == p {
            assert(next[j] == perm[j - 1]);
            if j - 1 > p {
                assert(in_order(items, perm[p], perm[j - 1]));
                if listed_before(items[perm[p]], items[perm[j - 1]]) {
                    lemma_listed_asymmetric(items[perm[p]], items[perm[j - 1]]);
                }
            } else {
                lemma_listed_irreflexive(items[perm[p]]);
            }
            lemma_not_before_carries(items[perm[p]], items[perm[j - 1]], items[k]);
        } else {
            let a = if i < p { i } else { i - 1 };
            let b = if j < p { j } else { j - 1 };
            assert(next[i] == perm[a]);
            assert(next[j] == perm[b]);
            assert(in_order(items, perm[a], perm[b]));
        }
    }
    assert forall|i: int, j: int| 0 <= i < j < next.len() implies next[i] != next[j] by {
        let a = if i < p { i } else { i - 1 };
        let b = if j < p { j } else { j - 1 };
        if i != p && j != p {
            assert(next[i] == perm[a]);
            assert(next[j] == perm[b]);
        } else if i == p {
            assert(next[j] == perm[b]);
        } else {
            assert(next[i] == perm[a]);
        }
    }
    assert forall|i: int| 0 <= i < next.len() implies k <= #[trigger] next[i] < items.len() by {
        if i < p {
            assert(next[i] == perm[i]);
        } else if i > p {
            assert(next[i] == perm[i - 1]);
        }
    }
}

/// An arrangement leaves no item out: every item stands at some place.
pub proof fn lemma_every_item_placed(
    items: Seq<Keyed>,
    perm: Seq<int>,
    out: Seq<EntryModel>,
    k: int,
)
    requires
        arranged(items, perm, out),
        0 <= k < items.len(),
    ensures
        exists|i: int| 0 <= i < perm.len() && #[trigger] perm[i] == k && out[i] == items[k].entry,
{
    let n = items.len() as int;
    let range = vstd::set_lib::set_int_range(0, n);
    vstd::set_lib::lemma_int_range(0, n);
    assert(perm.no_duplicates());
    perm.unique_seq_to_set();
    assert(perm.to_set().subset_of(range)) by {
        assert forall|v: int| perm.to_set().contains(v) implies range.contains(v) by {
            let i = choose|i: int| 0 <= i < perm.len() && perm[i] == v;
            assert(0 <= perm[i] < n);
        }
    }
    vstd::set_lib::lemma_set_subset_finite(range, perm.to_set());
    vstd::set_lib::lemma_subset_equality(perm.to_set(), range);
    assert(range.contains(k));
    assert(perm.to_set().contains(k));
    let i = choose|i: int| 0 <= i < perm.len() && perm[i] == k;
    assert(out[i] == items[perm[i]].entry);
}

/// Two arrangements of the same items agree on their first `n` places.
proof fn lemma_agree(
    items: Seq<Keyed>,
    first: Seq<int>,
    first_out: Seq<EntryModel>,
    second: Seq<int>,
    second_out: Seq<EntryModel>,
    n: int,
)
    requires
        arranged(items, first, first_out),
        arranged(items, second, second_out),
        0 <= n <= items.len(),
    ensures
        forall|t: int| 0 <= t < n ==> first[t] == second[t],
    decreases n,
{
    if n > 0 {
        lemma_agree(items, first, first_out, second, second_out, n - 1);
        let i = n - 1;
        let a = first[i];
        let b = second[i];
        if a != b {
            lemma_every_item_placed(items, second, second_out, a);
            let j = choose|j: int| 0 <= j < second.len() && #[trigger] second[j] == a;
            lemma_every_item_placed(items, first, first_out, b);
            let h = choose|h: int| 0 <= h < first.len() && #[trigger] first[h] == b;
            if j < i {
                assert(first[j] == second[j]);
                assert(first[j] != first[i]);
            }
            if h < i {
                assert(first[h] == second[h]);
                assert(second[h] != second[i]);
            }
            assert(in_order(items, second[i], second[j]));
            assert(in_order(items, first[i], first[h]));
            if listed_before(items[a], items[b]) {
                lemma_listed_asymmetric(items[a], items[b]);
            }
        }
    }
}

/// The items decide their arrangement: no two listings of the same items
/// differ.
pub proof fn lemma_arrangement_unique(
    items: Seq<Keyed>,
    first: Seq<int>,
    first_out: Seq<EntryModel>,
    second: Seq<int>,
    second_out: Seq<EntryModel>,
)
    requires
        arranged(items, first, first_out),
        arranged(items, second, second_out),
    ensures
        first == second,
        first_out == second_out,
{
    lemma_agree(items, first, first_out, second, second_out, items.len() as int);
    assert(first =~= second);
    assert(first_out =~= second_out) by {
        assert forall|i: int| 0 <= i < first_out.len() implies first_out[i] == second_out[i] by {
            assert(first_out[i] == items[first[i]].entry);
            assert(second_out[i] == items[second[i]].entry);
        }
    }
}

/// Whether an entry with the first kind and folded name is listed before one
/// with the second.
pub fn comes_first(a_dir: bool, a: &Vec<char>, b_dir: bool, b: &Vec<char>) -> (r: bool)
    ensures
        r == key_before(a_dir, a@, b_dir, b@),
{
    if a_dir != b_dir {
        a_dir
    } else {
        precedes(a, b)
    }
}

/// Puts entries into listing order. Each entry comes with the case-folded
/// form of its name, by which it is ordered; entries of the same kind whose
/// folded names are equal keep the order they came in.
pub fn arrange(items: Vec<(String, FileEntry)>) -> (out: Vec<FileEntry>)
    ensures
        exists|perm: Seq<int>| #[trigger] arranged(keyed_models(items@), perm, entry_models(out@)),
{
    let ghost given = items@;
    let ghost models = keyed_models(given);
    let mut items = items;
    let mut out: Vec<FileEntry> = Vec::new();
    let mut keys: Vec<Vec<char>> = Vec::new();
    let ghost mut perm: Seq<int> = Seq::empty();
    while items.len() > 0
        invariant
            models == keyed_models(given),
            items@ == given.take(items.len() as int),
            items.len() <= given.len(),
            out.len() == given.len() - items.len(),
            keys.len() == out.len(),
            perm.len() == out.len(),
            forall|i: int| 0 <= i < perm.len() ==> items.len() <= #[trigger] perm[i] < given.len(),
            forall|i: int, j: int| 0 <= i < j < perm.len() ==> perm[i] != perm[j],
            forall|i: int| 0 <= i < out.len() ==> (#[trigger] out@[i])@ == models[perm[i]].entry,
            forall|i: int| 0 <= i < keys.len() ==> (#[trigger] keys@[i])@ == models[perm[i]].folded,
            forall|i: int, j: int| 0 <= i < j < perm.len() ==> in_order(models, perm[i], perm[j]),
        decreases items.len(),
    {
        let ghost before = items@;
        let (folded, entry) = items.pop().unwrap();
        let ghost k = items.len() as int;
        let key = chars_of(folded.as_str());
        proof {
            assert(before[k] == given[k]);
            assert(items@ =~= given.take(k));
            assert(models[k].folded == key@);
            assert(models[k].entry == entry@);
        }
        let mut p: usize = 0;
        while p < out.len() && comes_first(out[p].is_dir, &keys[p], entry.is_dir, &key)
            invariant
                p <= out.len(),
                keys.len() == out.len(),
                perm.len() == out.len(),
                0 <= k < models.len(),
                models[k].folded == key@,
                models[k].entry == entry@,
                forall|i: int| 0 <= i < perm.len() ==> k < #[trigger] perm[i] < models.len(),
                forall|i: int| 0 <= i < out.len() ==> (#[trigger] out@[i])@ == models[perm[i]].entry,
                forall|i: int|
                    0 <= i < keys.len() ==> (#[trigger] keys@[i])@ == models[perm[i]].folded,
                forall|i: int| 0 <= i < p ==> listed_before(models[#[trigger] perm[i]], models[k]),
            decreases out.len() - p,
        {
            p += 1;
        }
        proof {
            lemma_place(models, perm, p as int, k);
            perm = perm.insert(p as int, k);
        }
        out.insert(p, entry);
        keys.insert(p, key);
    }
    proof {
        assert(arranged(models, perm, entry_models(out@)));
    }
    out
}

/// A child is shown unless its name begins with a dot.
pub open spec fn shown(child: EntryModel) -> bool {
    !starts_with_dot(child.name)
}

/// A child with the key it is ordered by: its name in lowercase.
pub open spec fn keyed_child(child: EntryModel) -> Keyed {
    Keyed { folded: lowercase_of(child.name), entry: child }
}

/// The children that a listing shows, in the order they were found, each
/// with its key.
pub open spec fn candidates(children: Seq<EntryModel>) -> Seq<Keyed> {
    children.filter(|c: EntryModel| shown(c)).map_values(|c: EntryModel| keyed_child(c))
}

/// A sequence read through a one-to-one choice of all its places holds what
/// the sequence holds, each thing as often.
proof fn lemma_same_entries(src: Seq<EntryModel>, perm: Seq<int>, out: Seq<EntryModel>)
    requires
        perm.len() == src.len(),
        out.len() == src.len(),
        forall|i: int| 0 <= i < perm.len() ==> 0 <= #[trigger] perm[i] < src.len(),
        forall|i: int, j: int| 0 <= i < j < perm.len() ==> perm[i] != perm[j],
        forall|i: int| 0 <= i < out.len() ==> #[trigger] out[i] == src[perm[i]],
    ensures
        out.to_multiset() == src.to_multiset(),
    decreases src.len(),
{
    broadcast use vstd::seq_lib::group_to_multiset_ensures;

    if src.len() == 0 {
        assert(out =~= src);
    } else {
        let n = src.len() as int;
        let m = perm[n - 1];
        let rest_src = src.remove(m);
        let rest_out = out.drop_last();
        let rest_perm = Seq::new(
            (n - 1) as nat,
            |i: int| if perm[i] > m { perm[i] - 1 } else { perm[i] },
        );
        assert forall|i: int| 0 <= i < rest_perm.len() implies 0 <= #[trigger] rest_perm[i]
            < rest_src.len() by {
            assert(perm[i] != perm[n - 1]);
        }
        assert forall|i: int, j: int| 0 <= i < j < rest_perm.len() implies rest_perm[i]
            != rest_perm[j] by {
            assert(perm[i] != perm[j]);
            assert(perm[i] != perm[n - 1]);
            assert(perm[j] != perm[n - 1]);
        }
        assert forall|i: int| 0 <= i < rest_out.len() implies #[trigger] rest_out[i]
            == rest_src[rest_perm[i]] by {
            assert(perm[i] != perm[n - 1]);
            assert(out[i] == src[perm[i]]);
        }
        lemma_same_entries(rest_src, rest_perm, rest_out);
        assert(out =~= rest_out.push(out[n - 1]));
        assert(out[n - 1] == src[m]);
        assert(src.to_multiset().count(src[m]) > 0);
        assert(src.to_multiset() =~= rest_src.to_multiset().insert(src[m]));
    }
}

/// What a listing of `children` shows. No name in it begins with a dot, and
/// every child whose name does not is in it, as often as among the children.
/// Directories stand before files, and within each of the two the lowercase
/// names never go down in dictionary order.
pub proof fn lemma_listing_shows(children: Seq<EntryModel>, perm: Seq<int>, out: Seq<EntryModel>)
    requires
        arranged(candidates(children), perm, out),
    ensures
        forall|i: int| 0 <= i < out.len() ==> shown(#[trigger] out[i]) && children.contains(out[i]),
        forall|k: int|
            0 <= k < children.len() && shown(#[trigger] children[k]) ==> out.contains(children[k]),
        out.len() == children.filter(|c: EntryModel| shown(c)).len(),
        out.to_multiset() == children.filter(|c: EntryModel| shown(c)).to_multiset(),
        forall|i: int, j: int|
            0 <= i < j < out.len() ==> !listed_before(
                keyed_child(#[trigger] out[j]),
                keyed_child(#[trigger] out[i]),
            ),
        forall|i: int, j: int|
            0 <= i < j < out.len() && (#[trigger] out[j]).is_dir ==> (#[trigger] out[i]).is_dir,
{
    let pred = |c: EntryModel| shown(c);
    let kept = children.filter(pred);
    let items = candidates(children);
    assert(items.len() == kept.len());
    assert forall|i: int| 0 <= i < out.len() implies shown(#[trigger] out[i]) && children.contains(
        out[i],
    ) by {
        let k = perm[i];
        assert(out[i] == items[k].entry);
        assert(items[k] == keyed_child(kept[k]));
        children.lemma_filter_pred(pred, k);
        children.lemma_filter_contains_rev(pred, kept[k]);
    }
    assert forall|k: int|
        0 <= k < children.len() && shown(#[trigger] children[k]) implies out.contains(
        children[k],
    ) by {
        children.lemma_filter_contains(pred, k);
        let m = choose|m: int| 0 <= m < kept.len() && kept[m] == children[k];
        lemma_every_item_placed(items, perm, out, m);
        let i = choose|i: int| 0 <= i < perm.len() && #[trigger] perm[i] == m && out[i] == items[m].entry;
        assert(out[i] == children[k]);
    }
    assert forall|i: int, j: int| 0 <= i < j < out.len() implies !listed_before(
        keyed_child(#[trigger] out[j]),
        keyed_child(#[trigger] out[i]),
    ) by {
        assert(in_order(items, perm[i], perm[j]));
        assert(items[perm[i]] == keyed_child(out[i]));
        assert(items[perm[j]] == keyed_child(out[j]));
        if listed_before(items[perm[i]], items[perm[j]]) {
            lemma_listed_asymmetric(items[perm[i]], items[perm[j]]);
        }
    }
    assert forall|i: int, j: int|
        0 <= i < j < out.len() && (#[trigger] out[j]).is_dir implies (#[trigger] out[i]).is_dir by {
        assert(!listed_before(keyed_child(out[j]), keyed_child(out[i])));
    }
    assert forall|i: int| 0 <= i < out.len() implies out[i] == kept[perm[i]] by {
        assert(out[i] == items[perm[i]].entry);
    }
    lemma_same_entries(kept, perm, out);
}

/// The children that an enumeration reported, where none of its steps failed.
pub open spec fn reported(steps: Seq<Result<DirChild, String>>) -> Seq<EntryModel> {
    Seq::new(steps.len(), |i: int| steps[i]->Ok_0@)
}

/// No step of the enumeration failed.
pub open spec fn no_failure(steps: Seq<Result<DirChild, String>>) -> bool {
    forall|i: int| 0 <= i < steps.len() ==> #[trigger] steps[i] is Ok
}

/// Step `i` is the first step of the enumeration that failed.
pub open spec fn first_failure(steps: Seq<Result<DirChild, String>>, i: int) -> bool {
    &&& 0 <= i < steps.len()
    &&& steps[i] is Err
    &&& forall|j: int| 0 <= j < i ==> #[trigger] steps[j] is Ok
}

/// Builds the listing of a directory from the steps of its enumeration.
///
/// A failed step fails the whole listing, with the message of the first one.
/// Otherwise the listing holds the children whose names do not begin with a
/// dot, directories first, in case-insensitive order of their names, none of
/// them expanded.
pub fn list_directory(steps: Vec<Result<DirChild, String>>) -> (r: Result<Vec<FileEntry>, FsError>)
    ensures
        r is Ok <==> no_failure(steps@),
        r matches Ok(out) ==> exists|perm: Seq<int>| #[trigger]
            arranged(candidates(reported(steps@)), perm, entry_models(out@)),
        r matches Ok(out) ==> forall|i: int|
            0 <= i < out@.len() ==> (#[trigger] out@[i]).children is None,
        r matches Err(e) ==> exists|i: int| #[trigger]
            first_failure(steps@, i) && e@ == FsErrorModel::IOError(steps@[i]->Err_0@),
{
    let ghost given = steps@;
    let pending = steps;
    let mut items: Vec<(String, FileEntry)> = Vec::new();
    for step in it: pending
        invariant
            given == steps@,
            it.seq() == given,
            forall|j: int| 0 <= j < it.index() ==> #[trigger] given[j] is Ok,
            keyed_models(items@) == candidates(reported(given.take(it.index() as int))),
    {
        let ghost i = it.index() as int;
        match step {
            Err(message) => {
                proof {
                    assert(first_failure(given, i));
                }
                return Err(FsError::IOError(message));
            },
            Ok(child) => {
                proof {
                    let before = reported(given.take(i));
                    let after = reported(given.take(i + 1));
                    assert(after =~= before.push(child@));
                    before.lemma_filter_push(child@, |c: EntryModel| shown(c));
                    assert(candidates(after) =~= if shown(child@) {
                        candidates(before).push(keyed_child(child@))
                    } else {
                        candidates(before)
                    });
                }
                if !begins_with_dot(child.name.as_str()) {
                    let folded = lowercase(child.name.as_str());
                    let entry = FileEntry {
                        name: child.name,
                        path: child.path,
                        is_dir: child.is_dir,
                        children: None,
                    };
                    let ghost old_items = items@;
                    items.push((folded, entry));
                    proof {
                        assert(keyed_models(items@) =~= keyed_models(old_items).push(
                            keyed_child(child@),
                        ));
                    }
                }
            },
        }
    }
    let ghost keyed = keyed_models(items@);
    proof {
        assert(given.take(given.len() as int) =~= given);
    }
    let out = arrange(items);
    let ghost listed = entry_models(out@);
    proof {
        let perm = choose|perm: Seq<int>| #[trigger] arranged(keyed, perm, listed);
        assert(arranged(candidates(reported(steps@)), perm, listed));
        lemma_listing_shows(reported(steps@), perm, listed);
        assert forall|i: int| 0 <= i < out@.len() implies (#[trigger] out@[i]).children is None by {
            assert(reported(steps@).contains(listed[i]));
            assert(!listed[i].expanded);
        }
    }
    let r: Result<Vec<FileEntry>, FsError> = Ok(out);
    assert(entry_models(r->Ok_0@) == listed);
    r
}

} // verus!
