//! Ordering a loaded set newest first, and cutting pages out of it.

use crate::dates::{date_before, CalendarDate};
use vstd::prelude::*;

verus! {

/// Something that carries the date by which listings are ordered.
pub trait HasDate {
    /// Year, month and day of that date.
    spec fn date_key(&self) -> (int, int, int);
}

/// A `HasDate` whose date can be read when the program runs.
pub trait Dated: HasDate {
    fn date(&self) -> (d: CalendarDate)
        ensures
            d@ == self.date_key(),
    ;
}

/// Where `item` goes into `sorted`: in front of the first entry that is
/// not newer than it.
pub open spec fn slot_for<T: HasDate>(sorted: Seq<T>, item: T) -> int
    decreases sorted.len(),
{
    if sorted.len() == 0 || !date_before(item.date_key(), sorted[0].date_key()) {
        0
    } else {
        1 + slot_for(sorted.skip(1), item)
    }
}

/// The items ordered newest first. Items of one date keep the order in
/// which they were given.
pub open spec fn newest_first<T: HasDate>(items: Seq<T>) -> Seq<T>
    decreases items.len(),
{
    if items.len() == 0 {
        Seq::empty()
    } else {
        let rest = newest_first(items.skip(1));
        rest.insert(slot_for(rest, items[0]), items[0])
    }
}

/// No entry is followed, anywhere further on, by a newer one.
pub open spec fn is_newest_first<T: HasDate>(items: Seq<T>) -> bool {
    forall|i: int, j: int|
        0 <= i < j < items.len() ==> !date_before(
            #[trigger] items[i].date_key(),
            #[trigger] items[j].date_key(),
        )
}

/// The test for items of one date.
pub open spec fn on_date<T: HasDate>(date: (int, int, int)) -> spec_fn(T) -> bool {
    |item: T| item.date_key() == date
}

/// The items of one date, in order.
pub open spec fn of_date<T: HasDate>(items: Seq<T>, date: (int, int, int)) -> Seq<T> {
    items.filter(on_date(date))
}

/// The slot lies inside the sequence; everything in front of it is newer
/// than the item, and what stands at it is not.
pub proof fn lemma_slot_for<T: HasDate>(sorted: Seq<T>, item: T)
    ensures
        0 <= slot_for(sorted, item) <= sorted.len(),
        forall|i: int|
            0 <= i < slot_for(sorted, item) ==> date_before(
                item.date_key(),
                #[trigger] sorted[i].date_key(),
            ),
        slot_for(sorted, item) < sorted.len() ==> !date_before(
            item.date_key(),
            sorted[slot_for(sorted, item)].date_key(),
        ),
    decreases sorted.len(),
{
    if sorted.len() == 0 || !date_before(item.date_key(), sorted[0].date_key()) {
    } else {
        lemma_slot_for(sorted.skip(1), item);
        let tail = sorted.skip(1);
        assert forall|i: int| 0 <= i < slot_for(sorted, item) implies date_before(
            item.date_key(),
            #[trigger] sorted[i].date_key(),
        ) by {
            if i > 0 {
                assert(sorted[i] == tail[i - 1]);
            }
        }
        if slot_for(sorted, item) < sorted.len() {
            assert(sorted[slot_for(sorted, item)] == tail[slot_for(tail, item)]);
        }
    }
}

/// Ordering keeps every item: the result has the length of what was given.
pub proof fn lemma_newest_first_len<T: HasDate>(items: Seq<T>)
    ensures
        newest_first(items).len() == items.len(),
    decreases items.len(),
{
    if items.len() > 0 {
        lemma_newest_first_len(items.skip(1));
        lemma_slot_for(newest_first(items.skip(1)), items[0]);
    }
}

/// The order is non-increasing by date: no result is followed by a newer one.
pub proof fn lemma_newest_first_sorted<T: HasDate>(items: Seq<T>)
    ensures
        is_newest_first(newest_first(items)),
    decreases items.len(),
{
    if items.len() > 0 {
        let rest = newest_first(items.skip(1));
        let item = items[0];
        let p = slot_for(rest, item);
        let out = rest.insert(p, item);
        lemma_newest_first_sorted(items.skip(1));
        lemma_slot_for(rest, item);
        assert forall|i: int, j: int| 0 <= i < j < out.len() implies !date_before(
            #[trigger] out[i].date_key(),
            #[trigger] out[j].date_key(),
        ) by {
            if j < p {
                assert(out[i] == rest[i] && out[j] == rest[j]);
            } else if j == p {
                assert(out[i] == rest[i]);
                assert(date_before(item.date_key(), rest[i].date_key()));
            } else if i < p {
                assert(out[i] == rest[i] && out[j] == rest[j - 1]);
            } else if i == p {
                assert(out[j] == rest[j - 1]);
                assert(!date_before(item.date_key(), rest[p].date_key()));
                if j - 1 > p {
                    assert(!date_before(rest[p].date_key(), rest[j - 1].date_key()));
                }
            } else {
                assert(out[i] == rest[i - 1] && out[j] == rest[j - 1]);
            }
        }
    }
}

/// The order loses and invents nothing: the result holds each item as
/// often as it was given.
pub proof fn lemma_newest_first_permutes<T: HasDate>(items: Seq<T>)
    ensures
        newest_first(items).to_multiset() == items.to_multiset(),
    decreases items.len(),
{
    broadcast use vstd::seq_lib::to_multiset_insert;

    if items.len() == 0 {
        assert(newest_first(items) == items);
    } else {
        let rest = newest_first(items.skip(1));
        lemma_newest_first_permutes(items.skip(1));
        lemma_slot_for(rest, items[0]);
        assert(items == items.skip(1).insert(0, items[0]));
    }
}

/// The order is stable: for every date, the items of that date stand in
/// the result in the order in which they were given.
pub proof fn lemma_newest_first_stable<T: HasDate>(items: Seq<T>, date: (int, int, int))
    ensures
        of_date(newest_first(items), date) == of_date(items, date),
    decreases items.len(),
{
    let pred = on_date::<T>(date);
    if items.len() == 0 {
        assert(newest_first(items) == items);
    } else {
        let rest = newest_first(items.skip(1));
        let item = items[0];
        let p = slot_for(rest, item);
        let out = rest.insert(p, item);
        lemma_newest_first_stable(items.skip(1), date);
        lemma_slot_for(rest, item);
        let front = rest.take(p);
        let back = rest.skip(p);
        let head = if pred(item) {
            seq![item]
        } else {
            Seq::<T>::empty()
        };
        assert(rest == front + back);
        assert(out == front + (seq![item] + back));
        assert(items == seq![item] + items.skip(1));
        Seq::filter_distributes_over_add(front, back, pred);
        Seq::filter_distributes_over_add(front, seq![item] + back, pred);
        back.lemma_filter_prepend(item, pred);
        items.skip(1).lemma_filter_prepend(item, pred);
        assert(out.filter(pred) == front.filter(pred) + (head + back.filter(pred)));
        assert(items.filter(pred) == head + rest.filter(pred));
        if pred(item) {
            assert forall|i: int| 0 <= i < front.len() implies !pred(#[trigger] front[i]) by {
                assert(front[i] == rest[i]);
                assert(date_before(item.date_key(), rest[i].date_key()));
            }
            assert(front.all(|x: T| !pred(x)));
            front.lemma_all_neg_filter_empty(pred);
            assert(front.filter(pred) == Seq::<T>::empty());
            assert(Seq::<T>::empty() + (head + back.filter(pred)) == head + back.filter(pred));
            assert(Seq::<T>::empty() + back.filter(pred) == back.filter(pred));
        } else {
            assert(head + back.filter(pred) == back.filter(pred));
            assert(head + rest.filter(pred) == rest.filter(pred));
        }
    }
}

/// An ordered sequence without its first item is ordered, and holds of
/// each date what it held before, less that item.
proof fn lemma_tail_of_date<T: HasDate>(items: Seq<T>, date: (int, int, int))
    requires
        items.len() > 0,
    ensures
        is_newest_first(items) ==> is_newest_first(items.skip(1)),
        of_date(items, date) == (if items[0].date_key() == date {
            seq![items[0]]
        } else {
            Seq::<T>::empty()
        }) + of_date(items.skip(1), date),
{
    let tail = items.skip(1);
    assert(items == seq![items[0]] + tail);
    tail.lemma_filter_prepend(items[0], on_date::<T>(date));
    if is_newest_first(items) {
        assert forall|i: int, j: int| 0 <= i < j < tail.len() implies !date_before(
            #[trigger] tail[i].date_key(),
            #[trigger] tail[j].date_key(),
        ) by {
            assert(tail[i] == items[i + 1] && tail[j] == items[j + 1]);
        }
    }
}

/// Every item stands among the items of its date.
proof fn lemma_of_date_holds<T: HasDate>(items: Seq<T>, i: int)
    requires
        0 <= i < items.len(),
    ensures
        of_date(items, items[i].date_key()).contains(items[i]),
{
    let pred = on_date::<T>(items[i].date_key());
    assert(pred(items[i]));
    items.lemma_filter_contains(pred, i);
}

/// What stands among the items of a date stands in the sequence, and has
/// that date.
proof fn lemma_of_date_from<T: HasDate>(items: Seq<T>, date: (int, int, int), item: T)
    requires
        of_date(items, date).contains(item),
    ensures
        items.contains(item),
        item.date_key() == date,
{
    let pred = on_date::<T>(date);
    let found = of_date(items, date);
    let k = choose|k: int| 0 <= k < found.len() && found[k] == item;
    items.lemma_filter_pred(pred, k);
    items.lemma_filter_contains_rev(pred, item);
}

/// Newest first, with the items of each date in their given order, is one
/// order and no other: two sequences that are both ordered so, and hold
/// of each date the same items in the same order, are the same sequence.
pub proof fn lemma_order_is_unique<T: HasDate>(a: Seq<T>, b: Seq<T>)
    requires
        is_newest_first(a),
        is_newest_first(b),
        forall|date: (int, int, int)| #[trigger] of_date(a, date) == of_date(b, date),
    ensures
        a == b,
    decreases a.len(),
{
    if a.len() == 0 {
        if b.len() > 0 {
            lemma_of_date_holds(b, 0);
            assert(of_date(a, b[0].date_key()) == of_date(b, b[0].date_key()));
            lemma_of_date_from(a, b[0].date_key(), b[0]);
            assert(false);
        }
        assert(a =~= b);
    } else {
        let d = a[0].date_key();
        lemma_of_date_holds(a, 0);
        assert(of_date(a, d) == of_date(b, d));
        lemma_of_date_from(b, d, a[0]);
        assert(b.len() > 0);
        let e = b[0].date_key();
        lemma_of_date_holds(b, 0);
        assert(of_date(a, e) == of_date(b, e));
        lemma_of_date_from(a, e, b[0]);
        let i = choose|i: int| 0 <= i < a.len() && a[i] == b[0];
        let j = choose|j: int| 0 <= j < b.len() && b[j] == a[0];
        assert(!date_before(d, e)) by {
            if i > 0 {
                assert(!date_before(a[0].date_key(), a[i].date_key()));
            }
        }
        assert(!date_before(e, d)) by {
            if j > 0 {
                assert(!date_before(b[0].date_key(), b[j].date_key()));
            }
        }
        assert(d == e);
        lemma_tail_of_date(a, d);
        lemma_tail_of_date(b, d);
        assert(of_date(a, d)[0] == a[0]);
        assert(of_date(b, d)[0] == b[0]);
        assert(a[0] == b[0]);
        assert forall|date: (int, int, int)| #[trigger]
            of_date(a.skip(1), date) == of_date(b.skip(1), date) by {
            lemma_tail_of_date(a, date);
            lemma_tail_of_date(b, date);
            assert(of_date(a, date) == of_date(b, date));
            let head = if d == date {
                seq![a[0]]
            } else {
                Seq::<T>::empty()
            };
            let x = of_date(a.skip(1), date);
            let y = of_date(b.skip(1), date);
            assert(head + x == head + y);
            assert(x =~= (head + x).skip(head.len() as int));
            assert(y =~= (head + y).skip(head.len() as int));
        }
        lemma_order_is_unique(a.skip(1), b.skip(1));
        assert(a =~= seq![a[0]] + a.skip(1));
        assert(b =~= seq![b[0]] + b.skip(1));
    }
}

/// Whatever is ordered newest first and holds of each date the given
/// items in the given order is `newest_first` of what was given.
pub proof fn lemma_newest_first_is_the_order<T: HasDate>(items: Seq<T>, ordered: Seq<T>)
    requires
        is_newest_first(ordered),
        forall|date: (int, int, int)| #[trigger] of_date(ordered, date) == of_date(items, date),
    ensures
        ordered == newest_first(items),
{
    lemma_newest_first_sorted(items);
    assert forall|date: (int, int, int)| #[trigger]
        of_date(ordered, date) == of_date(newest_first(items), date) by {
        lemma_newest_first_stable(items, date);
        assert(of_date(ordered, date) == of_date(items, date));
    }
    lemma_order_is_unique(ordered, newest_first(items));
}

/// A map that keeps every item's date keeps every slot.
pub proof fn lemma_slot_for_map<T: HasDate, U: HasDate>(
    sorted: Seq<T>,
    item: T,
    f: spec_fn(T) -> U,
)
    requires
        forall|x: T| #[trigger] f(x).date_key() == x.date_key(),
    ensures
        slot_for(sorted.map_values(f), f(item)) == slot_for(sorted, item),
    decreases sorted.len(),
{
    if sorted.len() > 0 {
        assert(sorted.map_values(f)[0] == f(sorted[0]));
        assert(sorted.map_values(f).skip(1) == sorted.skip(1).map_values(f));
        lemma_slot_for_map(sorted.skip(1), item, f);
    }
}

/// Ordering and then mapping gives what mapping and then ordering gives,
/// for a map that keeps every item's date: the order looks at dates only.
pub proof fn lemma_newest_first_map<T: HasDate, U: HasDate>(items: Seq<T>, f: spec_fn(T) -> U)
    requires
        forall|x: T| #[trigger] f(x).date_key() == x.date_key(),
    ensures
        newest_first(items.map_values(f)) == newest_first(items).map_values(f),
    decreases items.len(),
{
    if items.len() == 0 {
        assert(newest_first(items).map_values(f) =~= Seq::<U>::empty());
    } else {
        let rest = newest_first(items.skip(1));
        assert(items.map_values(f)[0] == f(items[0]));
        assert(items.map_values(f).skip(1) == items.skip(1).map_values(f));
        lemma_newest_first_map(items.skip(1), f);
        lemma_slot_for_map(rest, items[0], f);
        lemma_slot_for(rest, items[0]);
        let p = slot_for(rest, items[0]);
        assert(rest.map_values(f).insert(p, f(items[0])) =~= rest.insert(p, items[0]).map_values(
            f,
        ));
    }
}

/// Cutting a page and then mapping gives what mapping and then cutting gives.
pub proof fn lemma_page_of_map<T, U>(all: Seq<T>, f: spec_fn(T) -> U, page: int, size: int)
    requires
        1 <= page,
        0 <= size,
    ensures
        page_of(all.map_values(f), page, size) == page_of(all, page, size).map_values(f),
{
    lemma_page_bounds(all.len() as int, page, size);
    assert(page_of(all.map_values(f), page, size) =~= page_of(all, page, size).map_values(f));
}

/// Finds the slot for `item` in a vector that is ordered already.
fn find_slot<T: Dated>(sorted: &Vec<T>, item: &T) -> (p: usize)
    ensures
        p == slot_for(sorted@, *item),
        p <= sorted.len(),
{
    let key = item.date();
    let mut p: usize = 0;
    assert(sorted@.skip(0) == sorted@);
    while p < sorted.len()
        invariant
            p <= sorted.len(),
            key@ == item.date_key(),
            slot_for(sorted@, *item) == p + slot_for(sorted@.skip(p as int), *item),
        decreases sorted.len() - p,
    {
        let there = sorted[p].date();
        assert(sorted@.skip(p as int)[0] == sorted@[p as int]);
        if !key.is_before(&there) {
            return p;
        }
        assert(sorted@.skip(p as int).skip(1) == sorted@.skip(p + 1));
        p = p + 1;
    }
    p
}

/// Orders the items newest first, keeping the given order among items of
/// one date.
pub fn sort_newest_first<T: Dated>(items: Vec<T>) -> (out: Vec<T>)
    ensures
        out@ == newest_first(items@),
        out@.len() == items@.len(),
        is_newest_first(out@),
        out@.to_multiset() == items@.to_multiset(),
        forall|date: (int, int, int)| #[trigger] of_date(out@, date) == of_date(items@, date),
{
    let ghost given = items@;
    let mut pending = items;
    let mut out: Vec<T> = Vec::new();
    assert(given.skip(given.len() as int) == Seq::<T>::empty());
    while pending.len() > 0
        invariant
            pending@ == given.take(pending.len() as int),
            pending.len() <= given.len(),
            out@ == newest_first(given.skip(pending.len() as int)),
        decreases pending.len(),
    {
        let ghost n = pending.len() as int;
        let item = pending.pop().unwrap();
        assert(item == given[n - 1]);
        assert(given.skip(n - 1).skip(1) == given.skip(n));
        assert(given.skip(n - 1)[0] == item);
        assert(pending@ == given.take(n - 1));
        let p = find_slot(&out, &item);
        out.insert(p, item);
    }
    proof {
        assert(given.skip(0) == given);
        lemma_newest_first_len(given);
        lemma_newest_first_sorted(given);
        lemma_newest_first_permutes(given);
        assert forall|date: (int, int, int)| #[trigger]
            of_date(out@, date) == of_date(given, date) by {
            lemma_newest_first_stable(given, date);
        }
    }
    out
}

/// The index at which page `page` starts in a listing of `total` entries:
/// `(page - 1) * size`, or `total` where the page lies beyond the end.
pub open spec fn page_start(total: int, page: int, size: int) -> int {
    if (page - 1) * size < total {
        (page - 1) * size
    } else {
        total
    }
}

/// The index at which page `page` ends: `size` entries after its start, or
/// at `total` where fewer are left.
pub open spec fn page_end(total: int, page: int, size: int) -> int {
    if page_start(total, page, size) + size < total {
        page_start(total, page, size) + size
    } else {
        total
    }
}

/// Page `page`, counted from 1, of a listing cut into pages of `size` entries.
pub open spec fn page_of<T>(all: Seq<T>, page: int, size: int) -> Seq<T> {
    all.subrange(page_start(all.len() as int, page, size), page_end(all.len() as int, page, size))
}

/// The pages 1 to `pages`, one after the other.
pub open spec fn pages_through<T>(all: Seq<T>, size: int, pages: int) -> Seq<T>
    decreases pages,
{
    if pages <= 0 {
        Seq::empty()
    } else {
        pages_through(all, size, pages - 1) + page_of(all, pages, size)
    }
}

/// A page starts and ends inside the listing, and start comes first.
pub proof fn lemma_page_bounds(total: int, page: int, size: int)
    requires
        0 <= total,
        1 <= page,
        0 <= size,
    ensures
        0 <= page_start(total, page, size) <= page_end(total, page, size) <= total,
        page_end(total, page, size) - page_start(total, page, size) <= size,
{
    assert(0 <= (page - 1) * size) by (nonlinear_arith)
        requires
            1 <= page,
            0 <= size,
    ;
}

/// No page holds more than `size` entries.
pub proof fn lemma_page_len<T>(all: Seq<T>, page: int, size: int)
    requires
        1 <= page,
        0 <= size,
    ensures
        page_of(all, page, size).len() <= size,
{
    lemma_page_bounds(all.len() as int, page, size);
}

/// A page beyond the last one is empty.
pub proof fn lemma_page_beyond_last<T>(all: Seq<T>, page: int, size: int)
    requires
        1 <= page,
        0 <= size,
        (page - 1) * size >= all.len(),
    ensures
        page_of(all, page, size) == Seq::<T>::empty(),
{
    assert(page_of(all, page, size) =~= Seq::<T>::empty());
}

/// The first `pages` pages, laid end to end, are the first `pages * size`
/// entries of the listing, each once and in order.
pub proof fn lemma_pages_through<T>(all: Seq<T>, size: int, pages: int)
    requires
        1 <= size,
        0 <= pages,
    ensures
        pages * size < all.len() ==> pages_through(all, size, pages) == all.take(pages * size),
        pages * size >= all.len() ==> pages_through(all, size, pages) == all,
    decreases pages,
{
    if pages == 0 {
        assert(pages * size == 0) by (nonlinear_arith)
            requires
                pages == 0,
        ;
        assert(all.take(0) =~= Seq::<T>::empty());
        if all.len() == 0 {
            assert(all =~= Seq::<T>::empty());
        }
    } else {
        lemma_pages_through(all, size, pages - 1);
        lemma_page_bounds(all.len() as int, pages, size);
        assert(pages * size == (pages - 1) * size + size) by (nonlinear_arith);
        assert(0 <= (pages - 1) * size) by (nonlinear_arith)
            requires
                1 <= pages,
                1 <= size,
        ;
        let before = pages_through(all, size, pages - 1);
        let page = page_of(all, pages, size);
        if (pages - 1) * size >= all.len() {
            assert(page =~= Seq::<T>::empty());
            assert(before + page =~= all);
        } else if pages * size >= all.len() {
            assert(before + page =~= all);
        } else {
            assert(before + page =~= all.take(pages * size));
        }
    }
}

/// Cut into pages and laid end to end again, page after page, a listing
/// comes back whole: nothing twice, nothing left out.
pub proof fn lemma_pages_cover<T>(all: Seq<T>, size: int, pages: int)
    requires
        1 <= size,
        0 <= pages,
        pages * size >= all.len(),
    ensures
        pages_through(all, size, pages) == all,
{
    lemma_pages_through(all, size, pages);
}

/// Cuts page `page` out of a listing.
pub fn paginate<T>(items: Vec<T>, page: u32, page_size: u32) -> (out: Vec<T>)
    requires
        page >= 1,
    ensures
        out@ == page_of(items@, page as int, page_size as int),
        out@.len() <= page_size,
        (page - 1) * page_size >= items@.len() ==> out@.len() == 0,
{
    let mut items = items;
    let ghost all = items@;
    let total: usize = items.len();
    let skipped: u64 = (page - 1) as u64;
    let size: u64 = page_size as u64;
    assert(skipped * size <= 0xffff_ffff * 0xffff_ffff) by (nonlinear_arith)
        requires
            0 <= skipped <= 0xffff_ffff,
            0 <= size <= 0xffff_ffff,
    ;
    let offset: u64 = skipped * size;
    proof {
        lemma_page_bounds(all.len() as int, page as int, page_size as int);
    }
    let start: usize = if offset < total as u64 {
        offset as usize
    } else {
        total
    };
    let end: usize = if size < (total - start) as u64 {
        start + size as usize
    } else {
        total
    };
    items.truncate(end);
    let out = items.split_off(start);
    assert(all.subrange(0, end as int).subrange(start as int, end as int) == all.subrange(
        start as int,
        end as int,
    ));
    out
}

/// Turns a vector round: the last item comes first.
pub fn reversed<T>(items: Vec<T>) -> (out: Vec<T>)
    ensures
        out@ == items@.reverse(),
{
    let ghost given = items@;
    let mut rest = items;
    let mut out: Vec<T> = Vec::new();
    while rest.len() > 0
        invariant
            rest@ == given.take(rest.len() as int),
            rest.len() <= given.len(),
            out.len() == given.len() - rest.len(),
            forall|k: int| 0 <= k < out.len() ==> #[trigger] out@[k] == given[given.len() - 1 - k],
        decreases rest.len(),
    {
        let ghost n = rest.len() as int;
        let item = rest.pop().unwrap();
        assert(item == given[n - 1]);
        assert(rest@ == given.take(n - 1));
        out.push(item);
    }
    assert(out@ =~= given.reverse());
    out
}

} // verus!
