//! Hierarchical checklists: ordered maps from item labels to check items,
//! held in an `IndexMap` that keeps insertion order.
use vstd::prelude::*;
use indexmap::IndexMap;

verus! {

/// An ordered map from labels to check items.
///
/// The map lives in an `IndexMap`; Verus sees it only through
/// `checklist_entries`, the sequence of its (label, item) pairs in order.
#[verifier::external_body]
pub struct Checklist {
    map: IndexMap<String, CheckItem>,
}

/// One item of a checklist: its own check mark and its sub-items.
pub struct CheckItem {
    pub checked: bool,
    pub children: Checklist,
}

/// What the `IndexMap` inside a checklist holds: its (label, item) pairs, in
/// the map's order.
pub uninterp spec fn checklist_entries(c: Checklist) -> Seq<(Seq<char>, CheckItem)>;

/// No entry of `e` carries the label `k`.
pub open spec fn lacks_key(e: Seq<(Seq<char>, CheckItem)>, k: Seq<char>) -> bool {
    forall|j: int| 0 <= j < e.len() ==> #[trigger] e[j].0 != k
}

/// `i` is the first position of `e` whose label is `k`.
pub open spec fn first_key_index(e: Seq<(Seq<char>, CheckItem)>, k: Seq<char>, i: int) -> bool {
    &&& 0 <= i < e.len()
    &&& e[i].0 == k
    &&& forall|j: int| 0 <= j < i ==> #[trigger] e[j].0 != k
}

/// The position of label `k` in `e`, or -1 when `e` lacks it.
pub open spec fn index_of_key(e: Seq<(Seq<char>, CheckItem)>, k: Seq<char>) -> int {
    if exists|i: int| first_key_index(e, k, i) {
        choose|i: int| first_key_index(e, k, i)
    } else {
        -1
    }
}

/// What inserting `(k, v)` does to the entries `e` of an ordered map: an
/// existing label keeps its place and gets the new item; a new label goes last.
pub open spec fn inserted(e: Seq<(Seq<char>, CheckItem)>, k: Seq<char>, v: CheckItem) -> Seq<
    (Seq<char>, CheckItem),
> {
    if index_of_key(e, k) >= 0 {
        e.update(index_of_key(e, k), (k, v))
    } else {
        e.push((k, v))
    }
}

/// Every entry of `e` is checked.
pub open spec fn all_checked(e: Seq<(Seq<char>, CheckItem)>) -> bool {
    forall|j: int| 0 <= j < e.len() ==> (#[trigger] e[j]).1.checked
}


/// No two entries of `e` share a label.
pub open spec fn distinct_labels(e: Seq<(Seq<char>, CheckItem)>) -> bool {
    forall|i: int, j: int| 0 <= i < e.len() && 0 <= j < e.len() && i != j ==> e[i].0 != e[j].0
}

/// Law: inserting keeps the labels of a level distinct, adds the inserted
/// label, and leaves every other label where it was.
pub proof fn lemma_inserted_distinct(e: Seq<(Seq<char>, CheckItem)>, k: Seq<char>, v: CheckItem)
    requires
        distinct_labels(e),
    ensures
        distinct_labels(inserted(e, k, v)),
        !lacks_key(inserted(e, k, v), k),
        forall|j: int| 0 <= j < e.len() ==> (#[trigger] inserted(e, k, v)[j]).0 == e[j].0,
{
    let t = inserted(e, k, v);
    if lacks_key(e, k) {
        lemma_key_missing(e, k);
        assert(t[e.len() as int].0 == k);
    } else {
        lemma_key_found(e, k);
        let i = index_of_key(e, k);
        assert(t[i].0 == k);
        assert forall|a: int, b: int|
            0 <= a < t.len() && 0 <= b < t.len() && a != b implies t[a].0 != t[b].0 by {
            assert(e[a].0 != e[b].0);
        }
    }
}

/// The first index with a given label is unique, so `index_of_key` names it.
pub proof fn lemma_index_of_key(e: Seq<(Seq<char>, CheckItem)>, k: Seq<char>, i: int)
    requires
        first_key_index(e, k, i),
    ensures
        index_of_key(e, k) == i,
{
    let c = choose|c: int| first_key_index(e, k, c);
    assert(first_key_index(e, k, c));
    if c < i {
        assert(e[c].0 != k);
    } else if c > i {
        assert(e[i].0 != k);
    }
}

/// A label that occurs in `e` has a first position.
pub proof fn lemma_key_found(e: Seq<(Seq<char>, CheckItem)>, k: Seq<char>)
    requires
        !lacks_key(e, k),
    ensures
        index_of_key(e, k) >= 0,
        first_key_index(e, k, index_of_key(e, k)),
    decreases e.len(),
{
    if e.len() > 0 && e[0].0 == k {
        assert(first_key_index(e, k, 0));
        lemma_index_of_key(e, k, 0);
    } else {
        let t = e.subrange(1, e.len() as int);
        assert(!lacks_key(t, k)) by {
            let j = choose|j: int| 0 <= j < e.len() && #[trigger] e[j].0 == k;
            assert(t[j - 1] == e[j]);
        }
        lemma_key_found(t, k);
        let i = index_of_key(t, k);
        assert(first_key_index(e, k, i + 1)) by {
            assert forall|j: int| 0 <= j < i + 1 implies #[trigger] e[j].0 != k by {
                if j > 0 {
                    assert(e[j] == t[j - 1]);
                }
            }
        }
        lemma_index_of_key(e, k, i + 1);
    }
}

/// A label that `e` lacks has no position.
pub proof fn lemma_key_missing(e: Seq<(Seq<char>, CheckItem)>, k: Seq<char>)
    requires
        lacks_key(e, k),
    ensures
        index_of_key(e, k) == -1,
{
    if exists|i: int| first_key_index(e, k, i) {
        let i = choose|i: int| first_key_index(e, k, i);
        assert(e[i].0 == k);
    }
}


/// An item whose sub-items are all checked, and that has some, is checked.
pub open spec fn item_complete(item: CheckItem) -> bool {
    (checklist_entries(item.children).len() > 0 && all_checked(checklist_entries(item.children)))
        ==> item.checked
}

/// The mark that clicking `item` gives it: an item whose sub-items are all
/// checked (and that has some) stays or becomes checked; any other item's
/// mark flips.
pub open spec fn clicked_mark(item: CheckItem) -> bool {
    if checklist_entries(item.children).len() > 0 && all_checked(checklist_entries(item.children)) {
        true
    } else {
        !item.checked
    }
}

/// Toggling item `ci` of section `si` turns `before` into `after`: the item
/// gets its clicked mark (see `clicked_mark`), everything else but the
/// section's own mark stays, and the section is checked exactly when all its
/// items are.
pub open spec fn toggle_outcome(
    before: Seq<(Seq<char>, CheckItem)>,
    after: Seq<(Seq<char>, CheckItem)>,
    si: int,
    ci: int,
) -> bool {
    let kids = checklist_entries(before[si].1.children);
    let kids2 = checklist_entries(after[si].1.children);
    &&& after.len() == before.len()
    &&& forall|j: int| 0 <= j < before.len() && j != si ==> after[j] == before[j]
    &&& after[si].0 == before[si].0
    &&& kids2.len() == kids.len()
    &&& forall|j: int| 0 <= j < kids.len() && j != ci ==> kids2[j] == kids[j]
    &&& kids2[ci].0 == kids[ci].0
    &&& kids2[ci].1.checked == clicked_mark(kids[ci].1)
    &&& kids2[ci].1.children == kids[ci].1.children
    &&& after[si].1.checked == all_checked(kids2)
}

/// The position of section `section`'s item `child`, as a pair, when both exist.
pub open spec fn item_position(e: Seq<(Seq<char>, CheckItem)>, section: Seq<char>, child: Seq<
    char,
>) -> (int, int) {
    let si = index_of_key(e, section);
    if si >= 0 {
        (si, index_of_key(checklist_entries(e[si].1.children), child))
    } else {
        (-1, -1)
    }
}

/// Section `section` exists and holds an item labelled `child`.
pub open spec fn has_item(e: Seq<(Seq<char>, CheckItem)>, section: Seq<char>, child: Seq<char>) -> bool {
    item_position(e, section, child).0 >= 0 && item_position(e, section, child).1 >= 0
}

/// `after` is `before` with item `child` of section `section` toggled.
pub open spec fn toggled(
    before: Seq<(Seq<char>, CheckItem)>,
    after: Seq<(Seq<char>, CheckItem)>,
    section: Seq<char>,
    child: Seq<char>,
) -> bool {
    &&& has_item(before, section, child)
    &&& toggle_outcome(
        before,
        after,
        item_position(before, section, child).0,
        item_position(before, section, child).1,
    )
}

/// Section `si` is checked exactly when all its items are.
pub open spec fn section_consistent(e: Seq<(Seq<char>, CheckItem)>, si: int) -> bool {
    e[si].1.checked == all_checked(checklist_entries(e[si].1.children))
}


/// Law: after a toggle the section keeps its position and label, and is
/// checked exactly when all of its items are.
pub proof fn lemma_toggle_completes_section(
    before: Seq<(Seq<char>, CheckItem)>,
    after: Seq<(Seq<char>, CheckItem)>,
    section: Seq<char>,
    child: Seq<char>,
)
    requires
        toggled(before, after, section, child),
    ensures
        index_of_key(after, section) == index_of_key(before, section),
        after[index_of_key(after, section)].1.checked == all_checked(
            checklist_entries(after[index_of_key(after, section)].1.children),
        ),
{
    let si = index_of_key(before, section);
    lemma_key_found(before, section);
    assert forall|j: int| 0 <= j < si implies #[trigger] after[j].0 != section by {
        assert(after[j] == before[j]);
    }
    lemma_index_of_key(after, section, si);
}

/// Replacing the item at the first position of a label keeps that position first.
pub proof fn lemma_update_keeps_index(
    e: Seq<(Seq<char>, CheckItem)>,
    k: Seq<char>,
    i: int,
    v: CheckItem,
)
    requires
        first_key_index(e, k, i),
    ensures
        first_key_index(e.update(i, (k, v)), k, i),
        index_of_key(e.update(i, (k, v)), k) == i,
{
    let u = e.update(i, (k, v));
    assert forall|j: int| 0 <= j < i implies #[trigger] u[j].0 != k by {
        assert(u[j] == e[j]);
    }
    lemma_index_of_key(u, k, i);
}


/// Every item of `c`, and of its sub-items down to `depth` levels below, is
/// complete: an item whose sub-items are all checked, and that has some, is
/// checked.
pub open spec fn completes(c: Checklist, depth: nat) -> bool
    decreases depth,
{
    let e = checklist_entries(c);
    forall|i: int|
        #![trigger e[i]]
        0 <= i < e.len() ==> {
            &&& item_complete(e[i].1)
            &&& (depth > 0 ==> completes(e[i].1.children, (depth - 1) as nat))
        }
}

/// Law: toggling keeps every item complete, at every depth: parents are
/// checked whenever all their children are.
pub proof fn lemma_toggle_keeps_completion(
    before: Checklist,
    after: Checklist,
    section: Seq<char>,
    child: Seq<char>,
    depth: nat,
)
    requires
        toggled(checklist_entries(before), checklist_entries(after), section, child),
        completes(before, depth),
    ensures
        completes(after, depth),
{
    let e = checklist_entries(before);
    let e2 = checklist_entries(after);
    let si = index_of_key(e, section);
    let kids = checklist_entries(e[si].1.children);
    let kids2 = checklist_entries(e2[si].1.children);
    let ci = index_of_key(kids, child);
    assert forall|i: int| 0 <= i < e2.len() implies {
        &&& item_complete(#[trigger] e2[i].1)
        &&& (depth > 0 ==> completes(e2[i].1.children, (depth - 1) as nat))
    } by {
        if i != si {
            assert(e2[i] == e[i]);
        } else {
            assert(item_complete(e2[i].1));
            if depth > 0 {
                let d1 = (depth - 1) as nat;
                assert(completes(e[si].1.children, d1));
                assert forall|j: int| 0 <= j < kids2.len() implies {
                    &&& item_complete(#[trigger] kids2[j].1)
                    &&& (d1 > 0 ==> completes(kids2[j].1.children, (d1 - 1) as nat))
                } by {
                    assert(kids[j] == kids[j]);
                    if j != ci {
                        assert(kids2[j] == kids[j]);
                    } else {
                        assert(item_complete(kids[ci].1));
                    }
                }
                assert(completes(e2[si].1.children, d1));
            }
        }
    }
}


/// The labels of a path of items, from the top level down.
pub open spec fn path_labels(path: Seq<String>) -> Seq<Seq<char>> {
    path.map_values(|l: String| l@)
}

/// `c` has an item at `path`: the first label names an item of `c`, the next
/// one a sub-item of it, and so on.
pub open spec fn has_path(c: Checklist, path: Seq<Seq<char>>) -> bool
    decreases path.len(),
{
    if path.len() == 0 {
        false
    } else {
        let e = checklist_entries(c);
        let i = index_of_key(e, path[0]);
        i >= 0 && (path.len() == 1 || has_path(e[i].1.children, path.drop_first()))
    }
}

/// Clicking the item at `path` turns `before` into `after`: the item gets
/// its clicked mark (see `clicked_mark`) and keeps its sub-items, every item on
/// the way down to it is then checked exactly when all its sub-items are, and
/// everything else stays.
pub open spec fn path_clicked(before: Checklist, after: Checklist, path: Seq<Seq<char>>) -> bool
    decreases path.len(),
{
    if path.len() == 0 {
        false
    } else {
        let e = checklist_entries(before);
        let e2 = checklist_entries(after);
        let i = index_of_key(e, path[0]);
        &&& i >= 0
        &&& e2.len() == e.len()
        &&& forall|j: int| 0 <= j < e.len() && j != i ==> e2[j] == e[j]
        &&& e2[i].0 == e[i].0
        &&& if path.len() == 1 {
            &&& e2[i].1.children == e[i].1.children
            &&& e2[i].1.checked == clicked_mark(e[i].1)
        } else {
            &&& path_clicked(e[i].1.children, e2[i].1.children, path.drop_first())
            &&& e2[i].1.checked == all_checked(checklist_entries(e2[i].1.children))
        }
    }
}

/// The item reached by following `path` down from the top level of `c`.
pub open spec fn item_at(c: Checklist, path: Seq<Seq<char>>) -> CheckItem
    decreases path.len(),
{
    let e = checklist_entries(c);
    let i = index_of_key(e, path[0]);
    if path.len() <= 1 {
        e[i].1
    } else {
        item_at(e[i].1.children, path.drop_first())
    }
}

/// Two levels with the same labels in the same order find every label at
/// the same position.
pub proof fn lemma_same_labels_index(
    e: Seq<(Seq<char>, CheckItem)>,
    e2: Seq<(Seq<char>, CheckItem)>,
    k: Seq<char>,
)
    requires
        e2.len() == e.len(),
        forall|j: int| 0 <= j < e.len() ==> (#[trigger] e2[j]).0 == e[j].0,
    ensures
        index_of_key(e2, k) == index_of_key(e, k),
{
    if exists|i: int| first_key_index(e, k, i) {
        let i = choose|i: int| first_key_index(e, k, i);
        assert(first_key_index(e2, k, i)) by {
            assert(e2[i].0 == e[i].0);
            assert forall|j: int| 0 <= j < i implies #[trigger] e2[j].0 != k by {
                assert(e2[j].0 == e[j].0);
            }
        }
        lemma_index_of_key(e, k, i);
        lemma_index_of_key(e2, k, i);
    } else if exists|i: int| first_key_index(e2, k, i) {
        let i = choose|i: int| first_key_index(e2, k, i);
        assert(first_key_index(e, k, i)) by {
            assert(e2[i].0 == e[i].0);
            assert forall|j: int| 0 <= j < i implies #[trigger] e[j].0 != k by {
                assert(e2[j].0 == e[j].0);
            }
        }
    }
}

/// Law: clicking the item at `path`, at any depth, keeps its sub-items and
/// gives it a mark that depends on them: when it has sub-items and all are
/// checked, it is checked; when it has none, or one of them is open, its mark
/// flips (an unchecked item becomes checked, a checked one unchecked). Every
/// item on the way down to it is then checked if and only if every one of its
/// sub-items is checked.
pub proof fn lemma_path_click_marks(before: Checklist, after: Checklist, path: Seq<Seq<char>>)
    requires
        path_clicked(before, after, path),
    ensures
        item_at(after, path).children == item_at(before, path).children,
        ({
            let subs = checklist_entries(item_at(before, path).children);
            subs.len() > 0 && (forall|j: int| 0 <= j < subs.len() ==> (#[trigger] subs[j]).1.checked)
                ==> item_at(after, path).checked
        }),
        ({
            let subs = checklist_entries(item_at(before, path).children);
            subs.len() == 0 || (exists|j: int| 0 <= j < subs.len() && !(#[trigger] subs[j]).1.checked)
                ==> item_at(after, path).checked == !item_at(before, path).checked
        }),
        forall|m: int|
            1 <= m < path.len() ==> {
                let a = item_at(after, #[trigger] path.take(m));
                let kids = checklist_entries(a.children);
                a.checked == (forall|j: int| 0 <= j < kids.len() ==> (#[trigger] kids[j]).1.checked)
            },
    decreases path.len(),
{
    let e = checklist_entries(before);
    let e2 = checklist_entries(after);
    let k = path[0];
    let i = index_of_key(e, k);
    assert forall|j: int| 0 <= j < e.len() implies (#[trigger] e2[j]).0 == e[j].0 by {
        if j != i {
            assert(e2[j] == e[j]);
        }
    }
    lemma_same_labels_index(e, e2, k);
    if path.len() > 1 {
        let rest = path.drop_first();
        lemma_path_click_marks(e[i].1.children, e2[i].1.children, rest);
        assert forall|m: int| 1 <= m < path.len() implies {
            let a = item_at(after, #[trigger] path.take(m));
            let kids = checklist_entries(a.children);
            a.checked == (forall|j: int| 0 <= j < kids.len() ==> (#[trigger] kids[j]).1.checked)
        } by {
            assert(path.take(m)[0] == k);
            if m > 1 {
                assert(path.take(m).drop_first() =~= rest.take(m - 1));
            }
        }
    }
}

/// Law: toggling item `child` of section `section` keeps the item's
/// sub-items and gives it a mark that depends on them: when it has sub-items
/// and all are checked, it is checked; when it has none, or one of them is
/// open, its mark flips (an unchecked item becomes checked, a checked one
/// unchecked). The section is then checked if and only if every one of its
/// items is checked.
pub proof fn lemma_toggle_item_marks(
    before: Seq<(Seq<char>, CheckItem)>,
    after: Seq<(Seq<char>, CheckItem)>,
    section: Seq<char>,
    child: Seq<char>,
)
    requires
        toggled(before, after, section, child),
    ensures
        ({
            let si = index_of_key(before, section);
            let kids = checklist_entries(before[si].1.children);
            let kids2 = checklist_entries(after[si].1.children);
            let ci = index_of_key(kids, child);
            let subs = checklist_entries(kids[ci].1.children);
            &&& kids2[ci].1.children == kids[ci].1.children
            &&& subs.len() > 0 && (forall|j: int| 0 <= j < subs.len() ==> (#[trigger] subs[j]).1.checked)
                ==> kids2[ci].1.checked
            &&& subs.len() == 0 || (exists|j: int| 0 <= j < subs.len() && !(#[trigger] subs[j]).1.checked)
                ==> kids2[ci].1.checked == !kids[ci].1.checked
            &&& after[si].1.checked == (forall|j: int| 0 <= j < kids2.len() ==> (#[trigger] kids2[j]).1.checked)
        }),
{
}

/// Law: clicking an item at any depth keeps every item complete, at every
/// depth: parents are checked whenever all their children are.
pub proof fn lemma_path_click_keeps_completion(
    before: Checklist,
    after: Checklist,
    path: Seq<Seq<char>>,
    depth: nat,
)
    requires
        path_clicked(before, after, path),
        completes(before, depth),
    ensures
        completes(after, depth),
    decreases path.len(),
{
    let e = checklist_entries(before);
    let e2 = checklist_entries(after);
    let i = index_of_key(e, path[0]);
    assert forall|j: int| 0 <= j < e2.len() implies {
        &&& item_complete(#[trigger] e2[j].1)
        &&& (depth > 0 ==> completes(e2[j].1.children, (depth - 1) as nat))
    } by {
        if j != i {
            assert(e2[j] == e[j]);
        } else {
            assert(e[i] == e[i]);
            if path.len() > 1 && depth > 0 {
                lemma_path_click_keeps_completion(
                    e[i].1.children,
                    e2[i].1.children,
                    path.drop_first(),
                    (depth - 1) as nat,
                );
            }
        }
    }
}

/// Law: toggling item `child` of section `section` is clicking the item at the
/// path made of the two labels.
pub proof fn lemma_toggle_is_path_click(
    before: Checklist,
    after: Checklist,
    section: Seq<char>,
    child: Seq<char>,
)
    ensures
        has_item(checklist_entries(before), section, child) == has_path(before, seq![section, child]),
        toggled(checklist_entries(before), checklist_entries(after), section, child)
            == path_clicked(before, after, seq![section, child]),
{
    reveal_with_fuel(has_path, 2);
    reveal_with_fuel(path_clicked, 2);
    let path = seq![section, child];
    assert(path.drop_first() =~= seq![child]);
    assert(path[0] == section);
    assert(seq![child][0] == child);
}

/// Law: toggling the same item twice gives back the labels, the marks and the
/// items of a checklist whose section was consistent with its items and whose
/// item was complete (see `item_complete`).
pub proof fn lemma_toggle_twice_restores(
    e0: Seq<(Seq<char>, CheckItem)>,
    e1: Seq<(Seq<char>, CheckItem)>,
    e2: Seq<(Seq<char>, CheckItem)>,
    section: Seq<char>,
    child: Seq<char>,
)
    requires
        toggled(e0, e1, section, child),
        toggled(e1, e2, section, child),
        section_consistent(e0, index_of_key(e0, section)),
        item_complete(
            checklist_entries(e0[index_of_key(e0, section)].1.children)[index_of_key(
                checklist_entries(e0[index_of_key(e0, section)].1.children),
                child,
            )].1,
        ),
    ensures
        e2.len() == e0.len(),
        forall|j: int| 0 <= j < e0.len() && j != index_of_key(e0, section) ==> e2[j] == e0[j],
        e2[index_of_key(e0, section)].0 == e0[index_of_key(e0, section)].0,
        e2[index_of_key(e0, section)].1.checked == e0[index_of_key(e0, section)].1.checked,
        checklist_entries(e2[index_of_key(e0, section)].1.children) == checklist_entries(
            e0[index_of_key(e0, section)].1.children,
        ),
{
    let si = index_of_key(e0, section);
    let k0 = checklist_entries(e0[si].1.children);
    let ci = index_of_key(k0, child);
    lemma_key_found(e0, section);
    lemma_key_found(k0, child);
    assert(first_key_index(e1, section, si)) by {
        assert forall|j: int| 0 <= j < si implies #[trigger] e1[j].0 != section by {
            assert(e1[j] == e0[j]);
        }
    }
    lemma_index_of_key(e1, section, si);
    let k1 = checklist_entries(e1[si].1.children);
    assert(first_key_index(k1, child, ci)) by {
        assert forall|j: int| 0 <= j < ci implies #[trigger] k1[j].0 != child by {
            assert(k1[j] == k0[j]);
        }
    }
    lemma_index_of_key(k1, child, ci);
    let k2 = checklist_entries(e2[si].1.children);
    assert(k2[ci] == k0[ci]);
    assert(k2 =~= k0);
}


/// The shape of an untouched checklist level: labels in order, each with the
/// shape of its own sub-items.
pub struct Outline {
    pub title: Seq<char>,
    pub children: Seq<Outline>,
}

/// A label without sub-items.
pub open spec fn leaf(title: Seq<char>) -> Outline {
    Outline { title, children: Seq::empty() }
}

/// A label with the given sub-items.
pub open spec fn group(title: Seq<char>, children: Seq<Outline>) -> Outline {
    Outline { title, children }
}

/// `c` has exactly the labels of `outline`, in its order, at every depth, and
/// no item of it is checked.
pub open spec fn follows(c: Checklist, outline: Seq<Outline>) -> bool
    decreases outline,
{
    let e = checklist_entries(c);
    &&& e.len() == outline.len()
    &&& forall|i: int|
        #![trigger outline[i]]
        0 <= i < outline.len() ==> {
            &&& e[i].0 == outline[i].title
            &&& !e[i].1.checked
            &&& follows(e[i].1.children, outline[i].children)
        }
}

/// A checklist without entries follows the empty outline.
pub proof fn lemma_follows_empty(c: Checklist)
    requires
        checklist_entries(c).len() == 0,
    ensures
        follows(c, Seq::empty()),
{
}

/// The labels of the "Home Tab" section.
pub open spec fn home_items() -> Seq<Outline> {
    seq![
        leaf("Update Status to Treating"@),
        leaf("Primary Contact: Attorney Assigned"@),
        leaf("Case Manager: Secretary for attorney assigned"@),
        leaf("Lead Attorney: Attorney assigned"@),
        leaf("Supervising Attorney: Should be blank"@),
    ]
}

/// The labels under "Index Information".
pub open spec fn index_information_items() -> Seq<Outline> {
    seq![
        leaf("DOB"@),
        leaf("SSN"@),
        leaf("Date of Incident"@),
        leaf("Check name spelling"@),
        leaf("Check DOL"@),
    ]
}

/// The labels under "Spouse".
pub open spec fn spouse_items() -> Seq<Outline> {
    seq![
        leaf("Marital Status"@),
        leaf("First Name"@),
        leaf("Last Name"@),
        leaf("Phone Number"@),
        leaf("OK to Discuss"@),
    ]
}

/// The labels under "Emergency Contact".
pub open spec fn emergency_contact_items() -> Seq<Outline> {
    seq![leaf("First Name"@), leaf("Last Name"@), leaf("Phone Number"@)]
}

/// The labels under "Contact Details".
pub open spec fn contact_details_items() -> Seq<Outline> {
    seq![
        leaf("Cell"@),
        leaf("Email"@),
        leaf("Home Address"@),
        group("Spouse"@, spouse_items()),
        group("Emergency Contact"@, emergency_contact_items()),
    ]
}

/// The labels of the "Client Tab" section.
pub open spec fn client_items() -> Seq<Outline> {
    seq![
        group("Index Information"@, index_information_items()),
        group("Contact Details"@, contact_details_items()),
    ]
}

/// The labels of the "Defendant Tab" section.
pub open spec fn defendant_items() -> Seq<Outline> {
    seq![
        leaf("Defendant Name"@),
        leaf("Insurance Company"@),
        leaf("Policy Number"@),
        leaf("Claim Number"@),
    ]
}

/// The labels of the "Incident Tab" section.
pub open spec fn incident_items() -> Seq<Outline> {
    seq![
        leaf("Date of Incident"@),
        leaf("Location"@),
        leaf("Description"@),
        leaf("Police Report Number"@),
    ]
}

/// The labels of the "Injuries Tab" section.
pub open spec fn injuries_items() -> Seq<Outline> {
    seq![
        leaf("Primary Injuries"@),
        leaf("Treatment Facilities"@),
        leaf("Current Treatment Status"@),
        leaf("Pre-existing Conditions"@),
    ]
}

/// The labels of the "Health Insurance Tab" section.
pub open spec fn health_insurance_items() -> Seq<Outline> {
    seq![
        leaf("Insurance Provider"@),
        leaf("Policy Number"@),
        leaf("Group Number"@),
        leaf("Coverage Details"@),
    ]
}

/// The labels of the "Employment Tab" section.
pub open spec fn employment_items() -> Seq<Outline> {
    seq![
        leaf("Current Employer"@),
        leaf("Job Title"@),
        leaf("Work Status"@),
        leaf("Lost Wages Documentation"@),
    ]
}

/// The checklist that every new document starts with.
pub open spec fn default_outline() -> Seq<Outline> {
    seq![
        group("Home Tab"@, home_items()),
        group("Client Tab"@, client_items()),
        group("Defendant Tab"@, defendant_items()),
        group("Incident Tab"@, incident_items()),
        group("Injuries Tab"@, injuries_items()),
        group("Health Insurance Tab"@, health_insurance_items()),
        group("Employment Tab"@, employment_items()),
    ]
}

impl Checklist {
    /// `IndexMap::new`: a map with no entries.
    #[verifier::external_body]
    fn empty_map() -> (c: Checklist)
        ensures
            checklist_entries(c) == Seq::<(Seq<char>, CheckItem)>::empty(),
    {
        Checklist { map: IndexMap::new() }
    }

    /// `IndexMap::len`: the number of entries.
    #[verifier::external_body]
    fn map_len(&self) -> (n: usize)
        ensures
            n == checklist_entries(*self).len(),
    {
        self.map.len()
    }

    /// `IndexMap::get_index`: the entry at a position, `None` past the end.
    #[verifier::external_body]
    fn map_get_index(&self, index: usize) -> (r: Option<(&String, &CheckItem)>)
        ensures
            match r {
                Some(p) => {
                    &&& index < checklist_entries(*self).len()
                    &&& p.0@ == checklist_entries(*self)[index as int].0
                    &&& *p.1 == checklist_entries(*self)[index as int].1
                },
                None => index >= checklist_entries(*self).len(),
            },
    {
        self.map.get_index(index)
    }

    /// `IndexMap::get_index_of`: the position of a label, `None` when absent.
    #[verifier::external_body]
    fn map_get_index_of(&self, key: &String) -> (r: Option<usize>)
        ensures
            match r {
                Some(i) => first_key_index(checklist_entries(*self), key@, i as int),
                None => lacks_key(checklist_entries(*self), key@),
            },
    {
        self.map.get_index_of(key)
    }

    /// `IndexMap::insert`: an existing label keeps its place and gets the new
    /// item, whose predecessor is returned; a new label goes last.
    #[verifier::external_body]
    fn map_insert(&mut self, key: String, value: CheckItem) -> (prev: Option<CheckItem>)
        ensures
            lacks_key(checklist_entries(*old(self)), key@) ==> {
                &&& checklist_entries(*final(self)) == checklist_entries(*old(self)).push(
                    (key@, value),
                )
                &&& prev is None
            },
            forall|i: int|
                first_key_index(checklist_entries(*old(self)), key@, i) ==> {
                    &&& checklist_entries(*final(self)) == checklist_entries(*old(self)).update(
                        i,
                        (key@, value),
                    )
                    &&& prev == Some(checklist_entries(*old(self))[i].1)
                },
    {
        self.map.insert(key, value)
    }

    /// An empty checklist.
    pub fn new() -> (c: Checklist)
        ensures
            checklist_entries(c) == Seq::<(Seq<char>, CheckItem)>::empty(),
    {
        Checklist::empty_map()
    }

    /// The number of items at this level.
    pub fn len(&self) -> (n: usize)
        ensures
            n == checklist_entries(*self).len(),
    {
        self.map_len()
    }

    /// The label and item at position `index`, or `None` past the end.
    pub fn get_index(&self, index: usize) -> (r: Option<(&String, &CheckItem)>)
        ensures
            match r {
                Some(p) => {
                    &&& index < checklist_entries(*self).len()
                    &&& p.0@ == checklist_entries(*self)[index as int].0
                    &&& *p.1 == checklist_entries(*self)[index as int].1
                },
                None => index >= checklist_entries(*self).len(),
            },
    {
        self.map_get_index(index)
    }

    /// The position of the item labelled `key`, or `None`.
    pub fn get_index_of(&self, key: &String) -> (r: Option<usize>)
        ensures
            match r {
                Some(i) => i == index_of_key(checklist_entries(*self), key@),
                None => index_of_key(checklist_entries(*self), key@) == -1,
            },
            r is Some <==> !lacks_key(checklist_entries(*self), key@),
    {
        let r = self.map_get_index_of(key);
        proof {
            match r {
                Some(i) => lemma_index_of_key(checklist_entries(*self), key@, i as int),
                None => lemma_key_missing(checklist_entries(*self), key@),
            }
        }
        r
    }

    /// Inserts `value` under `key`: an existing label keeps its place and its
    /// previous item is returned; a new label goes last.
    pub fn insert(&mut self, key: String, value: CheckItem) -> (prev: Option<CheckItem>)
        ensures
            checklist_entries(*final(self)) == inserted(checklist_entries(*old(self)), key@, value),
            prev == (if index_of_key(checklist_entries(*old(self)), key@) >= 0 {
                Some(checklist_entries(*old(self))[index_of_key(checklist_entries(*old(self)), key@)].1)
            } else {
                None::<CheckItem>
            }),
    {
        let ghost e = checklist_entries(*self);
        let ghost k = key@;
        proof {
            if lacks_key(e, k) {
                lemma_key_missing(e, k);
            } else {
                lemma_key_found(e, k);
            }
        }
        self.map_insert(key, value)
    }


    /// Clicks item `child` of section `section`: its mark flips, except that
    /// an item whose sub-items are all checked (and that has some) stays or
    /// becomes checked (see `clicked_mark`); then marks the section
    /// checked exactly when all its items are checked. Returns whether the item
    /// exists; when it does not, nothing changes.
    pub fn toggle_item(&mut self, section: &String, child: &String) -> (found: bool)
        ensures
            found == has_item(checklist_entries(*old(self)), section@, child@),
            found ==> toggled(checklist_entries(*old(self)), checklist_entries(*final(self)), section@, child@),
            !found ==> *final(self) == *old(self),
    {
        let ghost e = checklist_entries(*self);
        let si = match self.get_index_of(section) {
            Some(i) => i,
            None => {
                return false;
            },
        };
        let ci = match self.get_index(si) {
            Some(p) => match p.1.children.get_index_of(child) {
                Some(c) => c,
                None => {
                    return false;
                },
            },
            None => {
                return false;
            },
        };
        proof {
            lemma_key_found(e, section@);
            lemma_key_found(checklist_entries(e[si as int].1.children), child@);
        }
        let mut sec = self.insert(section.clone(), CheckItem::new()).unwrap();
        let ghost e1 = checklist_entries(*self);
        let ghost kids = checklist_entries(sec.children);
        proof {
            lemma_update_keeps_index(e, section@, si as int, e1[si as int].1);
        }
        let kid = sec.children.insert(child.clone(), CheckItem::new()).unwrap();
        let ghost kids1 = checklist_entries(sec.children);
        proof {
            lemma_update_keeps_index(kids, child@, ci as int, kids1[ci as int].1);
        }
        let complete = kid.children.len() > 0 && kid.children.all_checked();
        let flipped = CheckItem { checked: if complete { true } else { !kid.checked }, children: kid.children };
        let _ = sec.children.insert(child.clone(), flipped);
        sec.checked = sec.children.all_checked();
        let _ = self.insert(section.clone(), sec);
        proof {
            let e2 = checklist_entries(*self);
            let kids2 = checklist_entries(e2[si as int].1.children);
            assert(kids2 == kids.update(ci as int, (child@, kids2[ci as int].1)));
            assert forall|j: int| 0 <= j < e.len() && j != si implies e2[j] == e[j] by {}
        }
        true
    }

    /// Whether there is an item at `path[k..]` (see `has_path`).
    fn contains_path(&self, path: &Vec<String>, k: usize) -> (b: bool)
        requires
            k <= path@.len(),
        ensures
            b == has_path(*self, path_labels(path@).subrange(k as int, path@.len() as int)),
        decreases path@.len() - k,
    {
        let ghost rest = path_labels(path@).subrange(k as int, path@.len() as int);
        if k >= path.len() {
            return false;
        }
        proof {
            assert(rest[0] == path@[k as int]@);
        }
        match self.get_index_of(&path[k]) {
            None => false,
            Some(i) => {
                if k + 1 == path.len() {
                    true
                } else {
                    proof {
                        assert(rest.drop_first() =~= path_labels(path@).subrange(
                            k + 1,
                            path@.len() as int,
                        ));
                    }
                    match self.get_index(i) {
                        Some(p) => p.1.children.contains_path(path, k + 1),
                        None => false,
                    }
                }
            },
        }
    }

    /// Clicks the item at `path[k..]` (see `path_clicked`).
    fn click_path(&mut self, path: &Vec<String>, k: usize)
        requires
            k < path@.len(),
            has_path(*old(self), path_labels(path@).subrange(k as int, path@.len() as int)),
        ensures
            path_clicked(*old(self), *final(self), path_labels(path@).subrange(k as int, path@.len() as int)),
        decreases path@.len() - k,
    {
        let ghost rest = path_labels(path@).subrange(k as int, path@.len() as int);
        let ghost e = checklist_entries(*self);
        proof {
            assert(rest[0] == path@[k as int]@);
            lemma_key_found(e, rest[0]);
        }
        let ghost i = index_of_key(e, rest[0]);
        let mut item = self.insert(path[k].clone(), CheckItem::new()).unwrap();
        proof {
            lemma_update_keeps_index(e, rest[0], i, checklist_entries(*self)[i].1);
        }
        if path.len() - k == 1 {
            let complete = item.children.len() > 0 && item.children.all_checked();
            item.checked = if complete { true } else { !item.checked };
        } else {
            proof {
                assert(rest.drop_first() =~= path_labels(path@).subrange(k + 1, path@.len() as int));
            }
            item.children.click_path(path, k + 1);
            item.checked = item.children.all_checked();
        }
        let _ = self.insert(path[k].clone(), item);
        proof {
            let e2 = checklist_entries(*self);
            assert forall|j: int| 0 <= j < e.len() && j != i implies e2[j] == e[j] by {}
        }
    }

    /// Clicks the item at `path`, at any depth: the item gets its clicked mark
    /// (see `clicked_mark`), and then each item on the way down to it, from
    /// the deepest up, is checked exactly when all its sub-items are. Returns
    /// whether there is an item at `path`; when there is not, nothing changes.
    pub fn toggle_path(&mut self, path: &Vec<String>) -> (found: bool)
        ensures
            found == has_path(*old(self), path_labels(path@)),
            found ==> path_clicked(*old(self), *final(self), path_labels(path@)),
            !found ==> *final(self) == *old(self),
    {
        proof {
            assert(path_labels(path@).subrange(0, path@.len() as int) =~= path_labels(path@));
        }
        if self.contains_path(path, 0) {
            self.click_path(path, 0);
            true
        } else {
            false
        }
    }

    /// Whether every item at this level is checked.
    pub fn all_checked(&self) -> (b: bool)
        ensures
            b == all_checked(checklist_entries(*self)),
    {
        let n = self.map_len();
        let mut i: usize = 0;
        while i < n
            invariant
                n == checklist_entries(*self).len(),
                i <= n,
                forall|j: int| 0 <= j < i ==> (#[trigger] checklist_entries(*self)[j]).1.checked,
            decreases n - i,
        {
            match self.map_get_index(i) {
                Some(p) => {
                    if !p.1.checked {
                        return false;
                    }
                },
                None => {
                    return false;
                },
            }
            i = i + 1;
        }
        true
    }
}

impl CheckItem {
    /// An unchecked item without sub-items.
    pub fn new() -> (item: CheckItem)
        ensures
            !item.checked,
            checklist_entries(item.children) == Seq::<(Seq<char>, CheckItem)>::empty(),
    {
        CheckItem { checked: false, children: Checklist::new() }
    }
}


/// Appends an unchecked item without sub-items labelled `label`.
fn add_leaf(c: &mut Checklist, label: &str)
    requires
        lacks_key(checklist_entries(*old(c)), label@),
    ensures
        checklist_entries(*final(c)).len() == checklist_entries(*old(c)).len() + 1,
        checklist_entries(*final(c)).drop_last() == checklist_entries(*old(c)),
        checklist_entries(*final(c)).last().0 == label@,
        !checklist_entries(*final(c)).last().1.checked,
        follows(checklist_entries(*final(c)).last().1.children, Seq::empty()),
{
    let item = CheckItem::new();
    proof {
        lemma_follows_empty(item.children);
        lemma_key_missing(checklist_entries(*c), label@);
    }
    let _ = c.insert(label.to_owned(), item);
    assert(checklist_entries(*c).drop_last() =~= checklist_entries(*old(c)));
}

/// Appends `item` under the new label `label`.
fn add_group(c: &mut Checklist, label: &str, item: CheckItem)
    requires
        lacks_key(checklist_entries(*old(c)), label@),
    ensures
        checklist_entries(*final(c)) == checklist_entries(*old(c)).push((label@, item)),
{
    proof {
        lemma_key_missing(checklist_entries(*c), label@);
    }
    let _ = c.insert(label.to_owned(), item);
}


/// Builds the "Home Tab" section.
fn home_tab() -> (item: CheckItem)
    ensures
        !item.checked,
        follows(item.children, home_items()),
{
    let mut item = CheckItem::new();
    proof {
        reveal_strlit("Update Status to Treating");
        reveal_strlit("Primary Contact: Attorney Assigned");
        reveal_strlit("Case Manager: Secretary for attorney assigned");
        reveal_strlit("Lead Attorney: Attorney assigned");
        reveal_strlit("Supervising Attorney: Should be blank");
        assert(0 < "Update Status to Treating"@.len());
        assert(0 < "Primary Contact: Attorney Assigned"@.len());
        assert(0 < "Case Manager: Secretary for attorney assigned"@.len());
        assert(0 < "Lead Attorney: Attorney assigned"@.len());
        assert(0 < "Supervising Attorney: Should be blank"@.len());
    }
    add_leaf(&mut item.children, "Update Status to Treating");
    let ghost e1 = checklist_entries(item.children);
    add_leaf(&mut item.children, "Primary Contact: Attorney Assigned");
    let ghost e2 = checklist_entries(item.children);
    add_leaf(&mut item.children, "Case Manager: Secretary for attorney assigned");
    let ghost e3 = checklist_entries(item.children);
    add_leaf(&mut item.children, "Lead Attorney: Attorney assigned");
    let ghost e4 = checklist_entries(item.children);
    add_leaf(&mut item.children, "Supervising Attorney: Should be blank");
    let ghost e5 = checklist_entries(item.children);
    proof {
        assert(e5[0] == e1[0]);
        assert(e5[1] == e2[1]);
        assert(e5[2] == e3[2]);
        assert(e5[3] == e4[3]);
    }
    item
}

/// Builds the "Index Information" group.
fn index_information() -> (item: CheckItem)
    ensures
        !item.checked,
        follows(item.children, index_information_items()),
{
    let mut item = CheckItem::new();
    proof {
        reveal_strlit("DOB");
        reveal_strlit("SSN");
        reveal_strlit("Date of Incident");
        reveal_strlit("Check name spelling");
        reveal_strlit("Check DOL");
        assert(0 < "DOB"@.len());
        assert(0 < "SSN"@.len());
        assert(0 < "Date of Incident"@.len());
        assert(0 < "Check name spelling"@.len());
        assert(0 < "Check DOL"@.len());
        assert("DOB"@[0] != "SSN"@[0]);
    }
    add_leaf(&mut item.children, "DOB");
    let ghost e1 = checklist_entries(item.children);
    add_leaf(&mut item.children, "SSN");
    let ghost e2 = checklist_entries(item.children);
    add_leaf(&mut item.children, "Date of Incident");
    let ghost e3 = checklist_entries(item.children);
    add_leaf(&mut item.children, "Check name spelling");
    let ghost e4 = checklist_entries(item.children);
    add_leaf(&mut item.children, "Check DOL");
    let ghost e5 = checklist_entries(item.children);
    proof {
        assert(e5[0] == e1[0]);
        assert(e5[1] == e2[1]);
        assert(e5[2] == e3[2]);
        assert(e5[3] == e4[3]);
    }
    item
}

/// Builds the "Spouse" group.
fn spouse() -> (item: CheckItem)
    ensures
        !item.checked,
        follows(item.children, spouse_items()),
{
    let mut item = CheckItem::new();
    proof {
        reveal_strlit("Marital Status");
        reveal_strlit("First Name");
        reveal_strlit("Last Name");
        reveal_strlit("Phone Number");
        reveal_strlit("OK to Discuss");
        assert(0 < "Marital Status"@.len());
        assert(0 < "First Name"@.len());
        assert(0 < "Last Name"@.len());
        assert(0 < "Phone Number"@.len());
        assert(0 < "OK to Discuss"@.len());
    }
    add_leaf(&mut item.children, "Marital Status");
    let ghost e1 = checklist_entries(item.children);
    add_leaf(&mut item.children, "First Name");
    let ghost e2 = checklist_entries(item.children);
    add_leaf(&mut item.children, "Last Name");
    let ghost e3 = checklist_entries(item.children);
    add_leaf(&mut item.children, "Phone Number");
    let ghost e4 = checklist_entries(item.children);
    add_leaf(&mut item.children, "OK to Discuss");
    let ghost e5 = checklist_entries(item.children);
    proof {
        assert(e5[0] == e1[0]);
        assert(e5[1] == e2[1]);
        assert(e5[2] == e3[2]);
        assert(e5[3] == e4[3]);
    }
    item
}

/// Builds the "Emergency Contact" group.
fn emergency_contact() -> (item: CheckItem)
    ensures
        !item.checked,
        follows(item.children, emergency_contact_items()),
{
    let mut item = CheckItem::new();
    proof {
        reveal_strlit("First Name");
        reveal_strlit("Last Name");
        reveal_strlit("Phone Number");
        assert(0 < "First Name"@.len());
        assert(0 < "Last Name"@.len());
        assert(0 < "Phone Number"@.len());
    }
    add_leaf(&mut item.children, "First Name");
    let ghost e1 = checklist_entries(item.children);
    add_leaf(&mut item.children, "Last Name");
    let ghost e2 = checklist_entries(item.children);
    add_leaf(&mut item.children, "Phone Number");
    let ghost e3 = checklist_entries(item.children);
    proof {
        assert(e3[0] == e1[0]);
        assert(e3[1] == e2[1]);
    }
    item
}

/// Builds the "Contact Details" group.
fn contact_details() -> (item: CheckItem)
    ensures
        !item.checked,
        follows(item.children, contact_details_items()),
{
    let mut item = CheckItem::new();
    proof {
        reveal_strlit("Cell");
        reveal_strlit("Email");
        reveal_strlit("Home Address");
        reveal_strlit("Spouse");
        reveal_strlit("Emergency Contact");
        assert(0 < "Cell"@.len());
        assert(0 < "Email"@.len());
        assert(0 < "Home Address"@.len());
        assert(0 < "Spouse"@.len());
        assert(0 < "Emergency Contact"@.len());
    }
    add_leaf(&mut item.children, "Cell");
    let ghost e1 = checklist_entries(item.children);
    add_leaf(&mut item.children, "Email");
    let ghost e2 = checklist_entries(item.children);
    add_leaf(&mut item.children, "Home Address");
    let ghost e3 = checklist_entries(item.children);
    let sub3 = spouse();
    add_group(&mut item.children, "Spouse", sub3);
    let ghost e4 = checklist_entries(item.children);
    let sub4 = emergency_contact();
    add_group(&mut item.children, "Emergency Contact", sub4);
    let ghost e5 = checklist_entries(item.children);
    proof {
        assert(e5[0] == e1[0]);
        assert(e5[1] == e2[1]);
        assert(e5[2] == e3[2]);
        assert(e5[3] == e4[3]);
    }
    item
}

/// Builds the "Client Tab" section.
fn client_tab() -> (item: CheckItem)
    ensures
        !item.checked,
        follows(item.children, client_items()),
{
    let mut item = CheckItem::new();
    proof {
        reveal_strlit("Index Information");
        reveal_strlit("Contact Details");
        assert(0 < "Index Information"@.len());
        assert(0 < "Contact Details"@.len());
    }
    let sub0 = index_information();
    add_group(&mut item.children, "Index Information", sub0);
    let ghost e1 = checklist_entries(item.children);
    let sub1 = contact_details();
    add_group(&mut item.children, "Contact Details", sub1);
    let ghost e2 = checklist_entries(item.children);
    proof {
        assert(e2[0] == e1[0]);
    }
    item
}

/// Builds the "Defendant Tab" section.
fn defendant_tab() -> (item: CheckItem)
    ensures
        !item.checked,
        follows(item.children, defendant_items()),
{
    let mut item = CheckItem::new();
    proof {
        reveal_strlit("Defendant Name");
        reveal_strlit("Insurance Company");
        reveal_strlit("Policy Number");
        reveal_strlit("Claim Number");
        assert(0 < "Defendant Name"@.len());
        assert(0 < "Insurance Company"@.len());
        assert(0 < "Policy Number"@.len());
        assert(0 < "Claim Number"@.len());
    }
    add_leaf(&mut item.children, "Defendant Name");
    let ghost e1 = checklist_entries(item.children);
    add_leaf(&mut item.children, "Insurance Company");
    let ghost e2 = checklist_entries(item.children);
    add_leaf(&mut item.children, "Policy Number");
    let ghost e3 = checklist_entries(item.children);
    add_leaf(&mut item.children, "Claim Number");
    let ghost e4 = checklist_entries(item.children);
    proof {
        assert(e4[0] == e1[0]);
        assert(e4[1] == e2[1]);
        assert(e4[2] == e3[2]);
    }
    item
}

/// Builds the "Incident Tab" section.
fn incident_tab() -> (item: CheckItem)
    ensures
        !item.checked,
        follows(item.children, incident_items()),
{
    let mut item = CheckItem::new();
    proof {
        reveal_strlit("Date of Incident");
        reveal_strlit("Location");
        reveal_strlit("Description");
        reveal_strlit("Police Report Number");
        assert(0 < "Date of Incident"@.len());
        assert(0 < "Location"@.len());
        assert(0 < "Description"@.len());
        assert(0 < "Police Report Number"@.len());
    }
    add_leaf(&mut item.children, "Date of Incident");
    let ghost e1 = checklist_entries(item.children);
    add_leaf(&mut item.children, "Location");
    let ghost e2 = checklist_entries(item.children);
    add_leaf(&mut item.children, "Description");
    let ghost e3 = checklist_entries(item.children);
    add_leaf(&mut item.children, "Police Report Number");
    let ghost e4 = checklist_entries(item.children);
    proof {
        assert(e4[0] == e1[0]);
        assert(e4[1] == e2[1]);
        assert(e4[2] == e3[2]);
    }
    item
}

/// Builds the "Injuries Tab" section.
fn injuries_tab() -> (item: CheckItem)
    ensures
        !item.checked,
        follows(item.children, injuries_items()),
{
    let mut item = CheckItem::new();
    proof {
        reveal_strlit("Primary Injuries");
        reveal_strlit("Treatment Facilities");
        reveal_strlit("Current Treatment Status");
        reveal_strlit("Pre-existing Conditions");
        assert(0 < "Primary Injuries"@.len());
        assert(0 < "Treatment Facilities"@.len());
        assert(0 < "Current Treatment Status"@.len());
        assert(0 < "Pre-existing Conditions"@.len());
    }
    add_leaf(&mut item.children, "Primary Injuries");
    let ghost e1 = checklist_entries(item.children);
    add_leaf(&mut item.children, "Treatment Facilities");
    let ghost e2 = checklist_entries(item.children);
    add_leaf(&mut item.children, "Current Treatment Status");
    let ghost e3 = checklist_entries(item.children);
    add_leaf(&mut item.children, "Pre-existing Conditions");
    let ghost e4 = checklist_entries(item.children);
    proof {
        assert(e4[0] == e1[0]);
        assert(e4[1] == e2[1]);
        assert(e4[2] == e3[2]);
    }
    item
}

/// Builds the "Health Insurance Tab" section.
fn health_insurance_tab() -> (item: CheckItem)
    ensures
        !item.checked,
        follows(item.children, health_insurance_items()),
{
    let mut item = CheckItem::new();
    proof {
        reveal_strlit("Insurance Provider");
        reveal_strlit("Policy Number");
        reveal_strlit("Group Number");
        reveal_strlit("Coverage Details");
        assert(0 < "Insurance Provider"@.len());
        assert(0 < "Policy Number"@.len());
        assert(0 < "Group Number"@.len());
        assert(0 < "Coverage Details"@.len());
    }
    add_leaf(&mut item.children, "Insurance Provider");
    let ghost e1 = checklist_entries(item.children);
    add_leaf(&mut item.children, "Policy Number");
    let ghost e2 = checklist_entries(item.children);
    add_leaf(&mut item.children, "Group Number");
    let ghost e3 = checklist_entries(item.children);
    add_leaf(&mut item.children, "Coverage Details");
    let ghost e4 = checklist_entries(item.children);
    proof {
        assert(e4[0] == e1[0]);
        assert(e4[1] == e2[1]);
        assert(e4[2] == e3[2]);
    }
    item
}

/// Builds the "Employment Tab" section.
fn employment_tab() -> (item: CheckItem)
    ensures
        !item.checked,
        follows(item.children, employment_items()),
{
    let mut item = CheckItem::new();
    proof {
        reveal_strlit("Current Employer");
        reveal_strlit("Job Title");
        reveal_strlit("Work Status");
        reveal_strlit("Lost Wages Documentation");
        assert(0 < "Current Employer"@.len());
        assert(0 < "Job Title"@.len());
        assert(0 < "Work Status"@.len());
        assert(0 < "Lost Wages Documentation"@.len());
    }
    add_leaf(&mut item.children, "Current Employer");
    let ghost e1 = checklist_entries(item.children);
    add_leaf(&mut item.children, "Job Title");
    let ghost e2 = checklist_entries(item.children);
    add_leaf(&mut item.children, "Work Status");
    let ghost e3 = checklist_entries(item.children);
    add_leaf(&mut item.children, "Lost Wages Documentation");
    let ghost e4 = checklist_entries(item.children);
    proof {
        assert(e4[0] == e1[0]);
        assert(e4[1] == e2[1]);
        assert(e4[2] == e3[2]);
    }
    item
}

/// The checklist that a new document starts with: seven sections, in a
/// fixed order, with their items and sub-items, all unchecked.
pub fn create_default_checklist() -> (checklist: Checklist)
    ensures
        follows(checklist, default_outline()),
{
    let mut checklist = Checklist::new();
    proof {
        reveal_strlit("Home Tab");
        reveal_strlit("Client Tab");
        reveal_strlit("Defendant Tab");
        reveal_strlit("Incident Tab");
        reveal_strlit("Injuries Tab");
        reveal_strlit("Health Insurance Tab");
        reveal_strlit("Employment Tab");
        assert(0 < "Home Tab"@.len());
        assert(0 < "Client Tab"@.len());
        assert(0 < "Defendant Tab"@.len());
        assert(0 < "Incident Tab"@.len());
        assert(0 < "Injuries Tab"@.len());
        assert(0 < "Health Insurance Tab"@.len());
        assert(0 < "Employment Tab"@.len());
        assert("Incident Tab"@[2] != "Injuries Tab"@[2]);
    }
    let section0 = home_tab();
    add_group(&mut checklist, "Home Tab", section0);
    let ghost e1 = checklist_entries(checklist);
    let section1 = client_tab();
    add_group(&mut checklist, "Client Tab", section1);
    let ghost e2 = checklist_entries(checklist);
    let section2 = defendant_tab();
    add_group(&mut checklist, "Defendant Tab", section2);
    let ghost e3 = checklist_entries(checklist);
    let section3 = incident_tab();
    add_group(&mut checklist, "Incident Tab", section3);
    let ghost e4 = checklist_entries(checklist);
    let section4 = injuries_tab();
    add_group(&mut checklist, "Injuries Tab", section4);
    let ghost e5 = checklist_entries(checklist);
    let section5 = health_insurance_tab();
    add_group(&mut checklist, "Health Insurance Tab", section5);
    let ghost e6 = checklist_entries(checklist);
    let section6 = employment_tab();
    add_group(&mut checklist, "Employment Tab", section6);
    let ghost e7 = checklist_entries(checklist);
    proof {
        assert(e7[0] == e1[0]);
        assert(e7[1] == e2[1]);
        assert(e7[2] == e3[2]);
        assert(e7[3] == e4[3]);
        assert(e7[4] == e5[4]);
        assert(e7[5] == e6[5]);
    }
    checklist
}

} // verus!
