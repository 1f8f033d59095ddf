//! Which entries become items, and in which order the items are renamed.

use crate::item::{classified, Entry, FsItem, ItemView};
use crate::timestamp::Timestamp;
use vstd::multiset::Multiset;
use vstd::prelude::*;
use vstd::seq_lib::{to_multiset_build, to_multiset_insert, to_multiset_len};

verus! {

/// The items of `items` as the contracts see them.
pub open spec fn views(items: Seq<FsItem>) -> Seq<ItemView> {
    items.map_values(|item: FsItem| item@)
}

/// The item that an entry yields, if it yields one.
pub open spec fn yielded(entry: Result<Entry, std::io::Error>) -> Option<ItemView> {
    match classified(entry) {
        Ok(item) => Some(item),
        Err(_) => None,
    }
}

/// `yielded`, as a value.
pub open spec fn yield_of() -> spec_fn(Result<Entry, std::io::Error>) -> Option<ItemView> {
    |entry: Result<Entry, std::io::Error>| yielded(entry)
}

/// The items that the entries of a scan yield, in the order of the scan.
/// An entry that is turned down leaves no trace.
pub open spec fn accepted(entries: Seq<Result<Entry, std::io::Error>>) -> Seq<ItemView> {
    entries.filter_map(yield_of())
}

/// Classifies every entry of a scan and keeps the items, in the order of
/// the scan.
pub fn accept(entries: Vec<Result<Entry, std::io::Error>>) -> (items: Vec<FsItem>)
    ensures
        views(items@) == accepted(entries@),
{
    let mut items: Vec<FsItem> = Vec::new();
    for entry in it: entries
        invariant
            it.seq() == entries@,
            views(items@) == accepted(it.seq().take(it.index() as int)),
    {
        proof {
            it.seq().lemma_filter_map_take_succ(yield_of(), it.index() as int);
        }
        let ghost before = items@;
        match FsItem::new(entry) {
            Ok(item) => {
                items.push(item);
                assert(views(items@) =~= views(before) + seq![item@]);
            },
            Err(_) => {},
        }
    }
    assert(entries@.take(entries@.len() as int) =~= entries@);
    items
}

/// Whether an entry is a file of which the scan could read all that is
/// needed: its creation time, its name as text, and its directory.
pub open spec fn is_file(entry: Result<Entry, std::io::Error>) -> bool {
    &&& entry matches Ok(entry)
    &&& entry.metadata matches Ok(metadata)
    &&& metadata.created is Ok
    &&& !metadata.is_dir
    &&& entry.name is Some
    &&& entry.parent is Some
}

/// Whether an entry is known to be a directory.
pub open spec fn is_directory(entry: Result<Entry, std::io::Error>) -> bool {
    &&& entry matches Ok(entry)
    &&& entry.metadata matches Ok(metadata)
    &&& metadata.is_dir
}

/// The test whether an entry is anything but a directory.
pub open spec fn not_directory() -> spec_fn(Result<Entry, std::io::Error>) -> bool {
    |entry: Result<Entry, std::io::Error>| !is_directory(entry)
}

/// A file yields an item, and the item's new name is the stamp of the
/// file's creation time, a space, and the file's name.
pub proof fn lemma_file_yields_item(entry: Result<Entry, std::io::Error>)
    requires
        is_file(entry),
    ensures
        yielded(entry) matches Some(item) && {
            let found = entry->Ok_0;
            let created = found.metadata->Ok_0.created->Ok_0;
            &&& item == ItemView::of(created, found.name->Some_0@, found.parent->Some_0@)
            &&& item.new_name == created.stamp_text() + seq![' '] + found.name->Some_0@
            &&& item.wf()
        },
{
}

/// A directory that holds nothing but files yields one item for each of
/// them, in the order of the scan.
pub proof fn lemma_files_yield_one_each(entries: Seq<Result<Entry, std::io::Error>>)
    requires
        forall|i: int| 0 <= i < entries.len() ==> is_file(#[trigger] entries[i]),
    ensures
        accepted(entries).len() == entries.len(),
        forall|i: int|
            0 <= i < entries.len() ==> yielded(#[trigger] entries[i]) == Some(accepted(entries)[i]),
    decreases entries.len(),
{
    if entries.len() > 0 {
        let rest = entries.drop_last();
        lemma_files_yield_one_each(rest);
        lemma_file_yields_item(entries.last());
        assert forall|i: int| 0 <= i < entries.len() implies yielded(#[trigger] entries[i])
            == Some(accepted(entries)[i]) by {
            if i < rest.len() {
                assert(entries[i] == rest[i]);
            }
        }
    }
}

/// The test whether an entry is a file.
pub open spec fn file_test() -> spec_fn(Result<Entry, std::io::Error>) -> bool {
    |entry: Result<Entry, std::io::Error>| is_file(entry)
}

/// What is not a file leaves no trace.
proof fn lemma_accepted_of_files(entries: Seq<Result<Entry, std::io::Error>>)
    ensures
        accepted(entries) == accepted(entries.filter(file_test())),
    decreases entries.len(),
{
    reveal(Seq::filter);
    if entries.len() > 0 {
        let rest = entries.drop_last();
        let last = entries.last();
        lemma_accepted_of_files(rest);
        if is_file(last) {
            let kept = rest.filter(file_test());
            assert(kept.push(last).drop_last() =~= kept);
        }
    }
}

/// Whatever a directory holds, the scan yields one item for each file in
/// it and nothing else: the items are those of the files, in the order of
/// the scan.
pub proof fn lemma_one_item_for_each_file(entries: Seq<Result<Entry, std::io::Error>>)
    ensures
        accepted(entries).len() == entries.filter(file_test()).len(),
        forall|i: int|
            0 <= i < entries.filter(file_test()).len() ==> yielded(
                #[trigger] entries.filter(file_test())[i],
            ) == Some(accepted(entries)[i]),
{
    let files = entries.filter(file_test());
    lemma_accepted_of_files(entries);
    assert forall|i: int| 0 <= i < files.len() implies is_file(#[trigger] files[i]) by {
        entries.lemma_filter_pred(file_test(), i);
    }
    lemma_files_yield_one_each(files);
}

/// Every item that a scan yields is well formed: its new name is derived
/// from its creation time and its old name, and it stays in its directory.
pub proof fn lemma_accepted_wf(entries: Seq<Result<Entry, std::io::Error>>, i: int)
    requires
        0 <= i < accepted(entries).len(),
    ensures
        accepted(entries)[i].wf(),
    decreases entries.len(),
{
    if entries.len() > 0 {
        let rest = entries.drop_last();
        if i < accepted(rest).len() {
            lemma_accepted_wf(rest, i);
        }
    }
}

/// A directory yields no item.
pub proof fn lemma_directory_yields_nothing(entry: Result<Entry, std::io::Error>)
    requires
        is_directory(entry),
    ensures
        yielded(entry) is None,
{
}

/// The directories among the entries leave no trace: the scan yields the
/// same items with them as without them.
pub proof fn lemma_directories_leave_no_trace(entries: Seq<Result<Entry, std::io::Error>>)
    ensures
        accepted(entries) == accepted(entries.filter(not_directory())),
    decreases entries.len(),
{
    reveal(Seq::filter);
    if entries.len() > 0 {
        let rest = entries.drop_last();
        let last = entries.last();
        lemma_directories_leave_no_trace(rest);
        if !is_directory(last) {
            let kept = rest.filter(not_directory());
            assert(kept.push(last).drop_last() =~= kept);
        }
    }
}

/// Creation times never go down along the sequence.
pub open spec fn created_ascending(items: Seq<ItemView>) -> bool {
    forall|i: int, j: int| 0 <= i <= j < items.len() ==> items[i].created@ <= items[j].created@
}

/// The test whether an item was created at `instant`.
pub open spec fn created_is(instant: int) -> spec_fn(ItemView) -> bool {
    |item: ItemView| item.created@ == instant
}

/// The items created at `instant`, in the order that they have in `items`.
pub open spec fn created_at(items: Seq<ItemView>, instant: int) -> Seq<ItemView> {
    items.filter(created_is(instant))
}

/// `output` holds the items of `input` in ascending order of creation, and
/// those created at one instant in the order that they have in `input`.
pub open spec fn is_stable_sort(input: Seq<ItemView>, output: Seq<ItemView>) -> bool {
    &&& created_ascending(output)
    &&& forall|instant: int| #[trigger] created_at(output, instant) == created_at(input, instant)
}

/// The items created at one instant end with the last item of all, if that
/// is one of them, and are otherwise those found before it.
proof fn lemma_created_at_last(items: Seq<ItemView>, instant: int)
    requires
        items.len() > 0,
    ensures
        created_at(items, instant) == if items.last().created@ == instant {
            created_at(items.drop_last(), instant).push(items.last())
        } else {
            created_at(items.drop_last(), instant)
        },
{
    reveal(Seq::filter);
}

/// In a sorted sequence no item was created later than the last.
proof fn lemma_created_at_bounded(items: Seq<ItemView>, instant: int)
    requires
        created_ascending(items),
        created_at(items, instant).len() > 0,
    ensures
        items.len() > 0,
        instant <= items.last().created@,
{
    let found = created_at(items, instant);
    items.lemma_filter_pred(created_is(instant), 0);
    assert(found.contains(found[0]));
    items.lemma_filter_contains_rev(created_is(instant), found[0]);
    let j = choose|j: int| 0 <= j < items.len() && items[j] == found[0];
    assert(items[j].created@ <= items[items.len() - 1].created@);
}

/// Two sorted sequences that hold, for each instant, the same items in the
/// same order are one and the same.
proof fn lemma_same_order(a: Seq<ItemView>, b: Seq<ItemView>)
    requires
        created_ascending(a),
        created_ascending(b),
        forall|instant: int| #[trigger] created_at(a, instant) == created_at(b, instant),
    ensures
        a == b,
    decreases a.len() + b.len(),
{
    if a.len() == 0 && b.len() == 0 {
        assert(a =~= b);
    } else {
        let instant = if a.len() > 0 {
            a.last().created@
        } else {
            b.last().created@
        };
        if a.len() > 0 {
            lemma_created_at_last(a, instant);
        } else {
            lemma_created_at_last(b, instant);
        }
        assert(created_at(a, instant) == created_at(b, instant));
        lemma_created_at_bounded(a, instant);
        lemma_created_at_bounded(b, instant);
        let x = a.last();
        let y = b.last();
        lemma_created_at_last(a, x.created@);
        lemma_created_at_last(b, y.created@);
        assert(created_at(a, x.created@) == created_at(b, x.created@));
        assert(created_at(a, y.created@) == created_at(b, y.created@));
        lemma_created_at_bounded(b, x.created@);
        lemma_created_at_bounded(a, y.created@);
        assert(x.created@ == y.created@);
        lemma_created_at_last(b, x.created@);
        let a_head = created_at(a.drop_last(), x.created@);
        let b_head = created_at(b.drop_last(), x.created@);
        assert(a_head.push(x) == b_head.push(y));
        assert(a_head.push(x).last() == x);
        assert(b_head.push(y).last() == y);
        assert(x == y);
        assert forall|instant: int| #[trigger]
            created_at(a.drop_last(), instant) == created_at(b.drop_last(), instant) by {
            lemma_created_at_last(a, instant);
            lemma_created_at_last(b, instant);
            assert(created_at(a, instant) == created_at(b, instant));
            if instant == x.created@ {
                let u = created_at(a.drop_last(), instant);
                let v = created_at(b.drop_last(), instant);
                assert(u.push(x).drop_last() =~= u);
                assert(v.push(x).drop_last() =~= v);
            }
        }
        assert forall|i: int, j: int| 0 <= i <= j < a.drop_last().len() implies a.drop_last()[i].created@
            <= a.drop_last()[j].created@ by {
            assert(a[i].created@ <= a[j].created@);
        }
        assert forall|i: int, j: int| 0 <= i <= j < b.drop_last().len() implies b.drop_last()[i].created@
            <= b.drop_last()[j].created@ by {
            assert(b[i].created@ <= b[j].created@);
        }
        lemma_same_order(a.drop_last(), b.drop_last());
        assert(a =~= a.drop_last().push(x));
        assert(b =~= b.drop_last().push(y));
    }
}

/// The order that a stable sort gives is the only one: whatever puts the
/// items of `input` in ascending order of creation and keeps the order
/// among those of one instant arrives at the same sequence.
pub proof fn lemma_stable_sort_unique(input: Seq<ItemView>, a: Seq<ItemView>, b: Seq<ItemView>)
    requires
        is_stable_sort(input, a),
        is_stable_sort(input, b),
    ensures
        a == b,
{
    assert forall|instant: int| #[trigger] created_at(a, instant) == created_at(b, instant) by {
        assert(created_at(a, instant) == created_at(input, instant));
        assert(created_at(b, instant) == created_at(input, instant));
    }
    lemma_same_order(a, b);
}

/// Among the items created at `instant`, an item occurs as often as it
/// does among all items if it was created then, and not at all otherwise.
proof fn lemma_created_at_count(items: Seq<ItemView>, instant: int, item: ItemView)
    ensures
        created_at(items, instant).to_multiset().count(item) == if item.created@ == instant {
            items.to_multiset().count(item)
        } else {
            0
        },
    decreases items.len(),
{
    broadcast use vstd::seq_lib::group_to_multiset_ensures;

    if items.len() == 0 {
        reveal(Seq::filter);
        assert(created_at(items, instant) =~= Seq::empty());
        assert(items =~= Seq::empty());
    } else {
        lemma_created_at_last(items, instant);
        lemma_created_at_count(items.drop_last(), instant, item);
        assert(items =~= items.drop_last().push(items.last()));
    }
}

/// A stable sort neither drops an item nor makes one up: the output holds
/// each item as often as the input does.
pub proof fn lemma_stable_sort_permutes(input: Seq<ItemView>, output: Seq<ItemView>)
    requires
        is_stable_sort(input, output),
    ensures
        output.to_multiset() == input.to_multiset(),
        output.len() == input.len(),
{
    broadcast use vstd::seq_lib::group_to_multiset_ensures;

    assert forall|item: ItemView|
        output.to_multiset().count(item) == input.to_multiset().count(item) by {
        lemma_created_at_count(input, item.created@, item);
        lemma_created_at_count(output, item.created@, item);
        assert(created_at(output, item.created@) == created_at(input, item.created@));
    }
    assert(output.to_multiset() =~= input.to_multiset());
    to_multiset_len(input);
    to_multiset_len(output);
}

/// Putting an item in front of everything that is not older than it puts
/// it first among the items of its own instant, and leaves the items of
/// every other instant as they were.
proof fn lemma_created_at_insert(items: Seq<ItemView>, p: int, item: ItemView, instant: int)
    requires
        0 <= p <= items.len(),
        forall|i: int| 0 <= i < p ==> items[i].created@ < item.created@,
    ensures
        created_at(items.insert(p, item), instant) == if item.created@ == instant {
            seq![item] + created_at(items, instant)
        } else {
            created_at(items, instant)
        },
{
    let pred = created_is(instant);
    let head = items.take(p);
    let tail = items.skip(p);
    assert(items =~= head + tail);
    assert(items.insert(p, item) =~= head.push(item) + tail);
    Seq::filter_distributes_over_add(head, tail, pred);
    Seq::filter_distributes_over_add(head.push(item), tail, pred);
    head.lemma_filter_push(item, pred);
    if item.created@ == instant {
        assert(head.all(|x: ItemView| !pred(x)));
        head.lemma_all_neg_filter_empty(pred);
        assert(head.filter(pred) =~= Seq::empty());
        assert(head.filter(pred).push(item) + tail.filter(pred) =~= seq![item] + (head.filter(pred)
            + tail.filter(pred)));
    }
}

/// An item put in front of a sequence comes first among the items of its
/// own instant.
proof fn lemma_created_at_prepend(items: Seq<ItemView>, item: ItemView, instant: int)
    ensures
        created_at(seq![item] + items, instant) == if item.created@ == instant {
            seq![item] + created_at(items, instant)
        } else {
            created_at(items, instant)
        },
{
    let pred = created_is(instant);
    Seq::filter_distributes_over_add(seq![item], items, pred);
    Seq::<ItemView>::empty().lemma_filter_push(item, pred);
    assert(Seq::<ItemView>::empty().push(item) =~= seq![item]);
    assert(Seq::<ItemView>::empty().filter(pred) =~= Seq::empty()) by {
        reveal(Seq::filter);
    }
    if item.created@ != instant {
        assert(Seq::<ItemView>::empty() + created_at(items, instant) =~= created_at(
            items,
            instant,
        ));
    }
}

/// Where an item created at `created` goes into a sorted sequence so that
/// it comes before every item that is not older: the number of items that
/// are older.
fn insertion_point(sorted: &Vec<FsItem>, created: &Timestamp) -> (p: usize)
    requires
        created_ascending(views(sorted@)),
    ensures
        p <= sorted.len(),
        forall|i: int| 0 <= i < p ==> sorted[i].created@ < created@,
        forall|i: int| p <= i < sorted.len() ==> created@ <= sorted[i].created@,
{
    let mut p: usize = 0;
    while p < sorted.len()
        invariant
            p <= sorted.len(),
            created_ascending(views(sorted@)),
            forall|i: int| 0 <= i < p ==> sorted[i].created@ < created@,
        decreases sorted.len() - p,
    {
        if created.not_after(&sorted[p].created) {
            assert forall|i: int| p <= i < sorted.len() implies created@ <= sorted[i].created@ by {
                assert(views(sorted@)[p as int].created@ <= views(sorted@)[i].created@);
            }
            return p;
        }
        p += 1;
    }
    p
}

/// Puts items in ascending order of creation. Items created at the same
/// instant keep the order in which they came.
pub fn sort_by_created(items: Vec<FsItem>) -> (sorted: Vec<FsItem>)
    ensures
        is_stable_sort(views(items@), views(sorted@)),
        sorted@.to_multiset() == items@.to_multiset(),
{
    let mut rest = items;
    let mut sorted: Vec<FsItem> = Vec::new();
    assert(items@.skip(rest@.len() as int) =~= Seq::empty());
    assert(items@.to_multiset() =~= rest@.to_multiset().add(sorted@.to_multiset())) by {
        broadcast use vstd::seq_lib::group_to_multiset_ensures;
    }
    while rest.len() > 0
        invariant
            rest@ == items@.take(rest@.len() as int),
            rest@.len() <= items@.len(),
            is_stable_sort(views(items@.skip(rest@.len() as int)), views(sorted@)),
            items@.to_multiset() == rest@.to_multiset().add(sorted@.to_multiset()),
        decreases rest.len(),
    {
        let ghost n = rest@.len() as int;
        let ghost before = sorted@;
        let ghost later = views(items@.skip(n));
        let item = rest.pop().unwrap();
        let p = insertion_point(&sorted, &item.created);
        sorted.insert(p, item);
        proof {
            assert(item == items@[n - 1]);
            assert(rest@ =~= items@.take(n - 1));
            assert(views(sorted@) =~= views(before).insert(p as int, item@));
            assert(views(items@.skip(n - 1)) =~= seq![item@] + later);
            assert forall|instant: int| #[trigger]
                created_at(views(sorted@), instant) == created_at(
                    views(items@.skip(n - 1)),
                    instant,
                ) by {
                lemma_created_at_insert(views(before), p as int, item@, instant);
                lemma_created_at_prepend(later, item@, instant);
                assert(created_at(views(before), instant) == created_at(later, instant));
            }
            to_multiset_insert(before, p as int, item);
            assert(items@.take(n) =~= rest@.push(item));
            to_multiset_build(rest@, item);
            assert(items@.to_multiset() =~= rest@.to_multiset().add(sorted@.to_multiset()));
        }
    }
    assert(items@.skip(0) =~= items@);
    assert(rest@.to_multiset() =~= Multiset::empty()) by {
        broadcast use vstd::seq_lib::group_to_multiset_ensures;
    }
    assert(items@.to_multiset() =~= sorted@.to_multiset());
    sorted
}

} // verus!
