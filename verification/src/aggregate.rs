//! The decisions of bulk fetches: which pages to ask for, how many at a
//! time, how to put the answers together and when a scan may stop.
//!
//! Fetching is the transport's business. Every function here takes what
//! was fetched as plain values and says what follows.

use crate::error::prefixed;
use crate::models::post::{LightPost, Post};
use crate::models::topic::{Topic, TopicOrder};
use crate::number::{decimal_text, format_i64, parse_i64, parsed_i64};
use crate::text::{chars_of, lowercase, lowered, slice, str_eq};
use vstd::prelude::*;
use vstd::string::StringExecFns;

verus! {

/// The number of requests to keep in flight when the caller asks for
/// `requested` and the host can run `available` at a time: the request,
/// at most what the host can run and never less than one.
pub open spec fn concurrency_for(requested: int, available: int) -> int {
    if requested > available {
        if available < 1 {
            1
        } else {
            available
        }
    } else if requested < 1 {
        1
    } else {
        requested
    }
}

/// Clamps a concurrency hint to what the host can run.
pub fn effective_concurrency(requested: usize, available: usize) -> (r: usize)
    ensures
        r == concurrency_for(requested as int, available as int),
        r >= 1,
        available >= 1 ==> r <= available,
{
    let capped = if requested > available {
        available
    } else {
        requested
    };
    if capped < 1 {
        1
    } else {
        capped
    }
}

/// Which pages a listing is made of.
#[derive(Debug, Clone, Copy, PartialEq, Eq, Structural)]
pub struct PagePlan {
    /// The first page, fetched before all others.
    pub start_page: u32,
    /// The last page of the listing.
    pub end_page: u32,
}

/// The plan for `num_pages` pages from `start_page` on, of a listing with
/// `total_pages` pages: it starts at page one at the earliest and ends
/// with the listing at the latest. The first page is part of it even
/// where no page was asked for or the listing has fewer pages.
pub open spec fn page_plan(start_page: u32, num_pages: u32, total_pages: u32) -> PagePlan {
    let start: int = if start_page < 1 {
        1
    } else {
        start_page as int
    };
    let left: int = if total_pages as int >= start - 1 {
        total_pages - (start - 1)
    } else {
        0
    };
    let actual: int = if num_pages as int <= left {
        num_pages as int
    } else {
        left
    };
    PagePlan {
        start_page: start as u32,
        end_page: if actual <= 1 {
            start as u32
        } else {
            (start + actual - 1) as u32
        },
    }
}

/// Plans the pages of a listing once its first page has told how many
/// there are.
pub fn plan_pages(start_page: u32, num_pages: u32, total_pages: u32) -> (r: PagePlan)
    ensures
        r == page_plan(start_page, num_pages, total_pages),
        1 <= r.start_page <= r.end_page,
        r.end_page - r.start_page < num_pages || r.end_page == r.start_page,
        r.end_page <= total_pages || r.end_page == r.start_page,
{
    let start: u32 = if start_page < 1 {
        1
    } else {
        start_page
    };
    let left: u32 = if total_pages >= start - 1 {
        total_pages - (start - 1)
    } else {
        0
    };
    let actual: u32 = if num_pages <= left {
        num_pages
    } else {
        left
    };
    if actual <= 1 {
        PagePlan { start_page: start, end_page: start }
    } else {
        PagePlan { start_page: start, end_page: start + (actual - 1) }
    }
}

/// The pages after the first that the plan asks for, in order.
pub open spec fn later_pages(plan: PagePlan) -> Seq<u32> {
    Seq::new(
        (plan.end_page - plan.start_page) as nat,
        |i: int| (plan.start_page + 1 + i) as u32,
    )
}

/// Lists the pages to fetch after the first.
pub fn pages_to_fetch(plan: PagePlan) -> (r: Vec<u32>)
    requires
        plan.start_page <= plan.end_page,
    ensures
        r@ == later_pages(plan),
{
    let mut out: Vec<u32> = Vec::new();
    let mut p: u32 = plan.start_page;
    while p < plan.end_page
        invariant
            plan.start_page <= p <= plan.end_page,
            out@.len() == p - plan.start_page,
            forall|i: int| 0 <= i < out@.len() ==> out@[i] == plan.start_page + 1 + i,
        decreases plan.end_page - p,
    {
        p = p + 1;
        out.push(p);
    }
    assert(out@ =~= later_pages(plan));
    out
}

/// What fetching one page gave: the page's number and its items, `None`
/// where the fetch failed.
pub struct PageResult<T> {
    pub page: u32,
    pub items: Option<Vec<T>>,
}

/// The items that the results hold for the page `page`: those of the
/// first result for it; none where there is no result or the fetch failed.
pub open spec fn items_of_page<T>(results: Seq<PageResult<T>>, page: u32, i: int) -> Seq<T>
    decreases results.len() - i,
{
    if i < 0 || i >= results.len() {
        Seq::empty()
    } else if results[i].page == page {
        match results[i].items {
            Some(items) => items@,
            None => Seq::empty(),
        }
    } else {
        items_of_page(results, page, i + 1)
    }
}

/// The items of the pages from `from` to `to`, inclusive, in the order of
/// the pages, whatever the order of the results.
pub open spec fn items_in_order<T>(results: Seq<PageResult<T>>, from: int, to: int) -> Seq<T>
    decreases to - from + 1,
{
    if from > to || from < 0 || to > u32::MAX {
        Seq::empty()
    } else {
        items_in_order(results, from, to - 1) + items_of_page(results, to as u32, 0)
    }
}

/// What a listing shows: the items of the first page, then those of the
/// later pages in the order of the pages. A page whose fetch failed adds
/// nothing.
pub open spec fn merged<T>(first: Seq<T>, results: Seq<PageResult<T>>, plan: PagePlan) -> Seq<T> {
    first + items_in_order(results, plan.start_page + 1, plan.end_page as int)
}

/// Takes the items of the page `page` out of the results.
fn take_page<T>(results: &mut Vec<PageResult<T>>, page: u32) -> (r: Vec<T>)
    ensures
        r@ == items_of_page(old(results)@, page, 0),
        final(results)@.len() == old(results)@.len(),
        forall|p: u32, i: int|
            p != page && 0 <= i <= old(results)@.len() ==> #[trigger] items_of_page(
                final(results)@,
                p,
                i,
            ) == items_of_page(old(results)@, p, i),
{
    let mut i: usize = 0;
    while i < results.len()
        invariant
            i <= results.len(),
            results@ == old(results)@,
            items_of_page(results@, page, 0) == items_of_page(results@, page, i as int),
        decreases results.len() - i,
    {
        if results[i].page == page {
            let ghost before = results@;
            let taken = results[i].items.take();
            let found = match taken {
                Some(items) => items,
                None => Vec::new(),
            };
            proof {
                assert forall|p: u32, k: int|
                    p != page && 0 <= k <= before.len() implies #[trigger] items_of_page(
                    results@,
                    p,
                    k,
                ) == items_of_page(before, p, k) by {
                    lemma_other_pages(before, results@, page, p, k);
                }
            }
            return found;
        }
        i = i + 1;
    }
    Vec::new()
}

/// Appends all of `more` to `out`, emptying it.
pub fn append_all<T>(out: &mut Vec<T>, more: Vec<T>)
    ensures
        final(out)@ == old(out)@ + more@,
{
    let mut more = more;
    out.append(&mut more);
}

/// Changing only the items of results for `page` changes nothing for any
/// other page.
pub proof fn lemma_other_pages<T>(
    before: Seq<PageResult<T>>,
    after: Seq<PageResult<T>>,
    page: u32,
    p: u32,
    k: int,
)
    requires
        p != page,
        0 <= k <= before.len(),
        after.len() == before.len(),
        forall|j: int| 0 <= j < before.len() ==> (#[trigger] after[j]).page == before[j].page,
        forall|j: int|
            0 <= j < before.len() && before[j].page != page ==> (#[trigger] after[j]).items
                == before[j].items,
    ensures
        items_of_page(after, p, k) == items_of_page(before, p, k),
    decreases before.len() - k,
{
    if k < before.len() {
        if before[k].page != p {
            lemma_other_pages(before, after, page, p, k + 1);
        }
    }
}

/// Puts the pages of a listing together: the items of the first page,
/// then those of every later page that was fetched, in the order of the
/// pages and not of their arrival.
pub fn merge_pages<T>(first: Vec<T>, results: Vec<PageResult<T>>, plan: PagePlan) -> (r: Vec<T>)
    requires
        plan.start_page <= plan.end_page,
    ensures
        r@ == merged(first@, results@, plan),
{
    let mut out = first;
    let mut results = results;
    let ghost all = results@;
    let mut p: u32 = plan.start_page;
    assert(items_in_order(all, plan.start_page + 1, plan.start_page as int) =~= Seq::<T>::empty());
    assert(out@ + Seq::<T>::empty() =~= out@);
    while p < plan.end_page
        invariant
            plan.start_page <= p <= plan.end_page,
            results@.len() == all.len(),
            out@ == first@ + items_in_order(all, plan.start_page + 1, p as int),
            forall|q: u32, i: int|
                q > p && 0 <= i <= all.len() ==> #[trigger] items_of_page(results@, q, i)
                    == items_of_page(all, q, i),
        decreases plan.end_page - p,
    {
        p = p + 1;
        let ghost before = out@;
        let items = take_page(&mut results, p);
        append_all(&mut out, items);
        assert(out@ =~= first@ + items_in_order(all, plan.start_page + 1, p as int));
    }
    out
}

/// Puts the pages after the page `after`, up to the page `to`, together
/// in the order of the pages and not of their arrival. A page whose fetch
/// failed adds nothing. With `after` zero these are all pages up to `to`;
/// the units of any other numbered work are put together likewise.
pub fn merge_later<T>(results: Vec<PageResult<T>>, after: u32, to: u32) -> (r: Vec<T>)
    ensures
        r@ == items_in_order(results@, after + 1, to as int),
{
    if after >= to {
        let out: Vec<T> = Vec::new();
        assert(out@ =~= items_in_order(results@, after + 1, to as int));
        out
    } else {
        let out = merge_pages(Vec::new(), results, PagePlan { start_page: after, end_page: to });
        assert(Seq::<T>::empty() + items_in_order(results@, after + 1, to as int)
            =~= items_in_order(results@, after + 1, to as int));
        out
    }
}

/// A page that fails takes nothing but its own items away. Where the
/// results `failed` differ from `full` only in that the fetch of the page
/// `page` failed, the listing merged from them is that merged from `full`
/// without the items of that page: every other item is there, in the same
/// order.
pub proof fn lemma_failed_page_is_skipped<T>(
    first: Seq<T>,
    full: Seq<PageResult<T>>,
    failed: Seq<PageResult<T>>,
    plan: PagePlan,
    page: u32,
)
    requires
        plan.start_page < page <= plan.end_page,
        failed.len() == full.len(),
        forall|j: int| 0 <= j < full.len() ==> (#[trigger] failed[j]).page == full[j].page,
        forall|j: int|
            0 <= j < full.len() && full[j].page != page ==> (#[trigger] failed[j]).items
                == full[j].items,
        forall|j: int| 0 <= j < full.len() && full[j].page == page ==> (#[trigger] failed[j]).items
            is None,
    ensures
        merged(first, failed, plan) == first + items_in_order(
            full,
            plan.start_page + 1,
            page - 1,
        ) + items_in_order(full, page + 1, plan.end_page as int),
        merged(first, full, plan) == first + items_in_order(full, plan.start_page + 1, page - 1)
            + items_of_page(full, page, 0) + items_in_order(full, page + 1, plan.end_page as int),
{
    lemma_failed_page_empty(failed, full, page, 0);
    lemma_range_with_hole(full, failed, plan.start_page + 1, plan.end_page as int, page);
    lemma_range_split(full, plan.start_page + 1, plan.end_page as int, page);
}

/// The results hold no items for a page whose every fetch failed.
pub proof fn lemma_failed_page_empty<T>(
    failed: Seq<PageResult<T>>,
    full: Seq<PageResult<T>>,
    page: u32,
    k: int,
)
    requires
        0 <= k <= full.len(),
        failed.len() == full.len(),
        forall|j: int| 0 <= j < full.len() ==> (#[trigger] failed[j]).page == full[j].page,
        forall|j: int| 0 <= j < full.len() && full[j].page == page ==> (#[trigger] failed[j]).items
            is None,
    ensures
        items_of_page(failed, page, k) == Seq::<T>::empty(),
    decreases full.len() - k,
{
    if k < full.len() {
        if failed[k].page != page {
            lemma_failed_page_empty(failed, full, page, k + 1);
        }
    }
}

/// The items of a range of pages are those before a page, those of the
/// page and those after it.
pub proof fn lemma_range_split<T>(results: Seq<PageResult<T>>, from: int, to: int, page: u32)
    requires
        0 <= from <= page <= to <= u32::MAX,
    ensures
        items_in_order(results, from, to) == items_in_order(results, from, page - 1)
            + items_of_page(results, page, 0) + items_in_order(results, page + 1, to),
    decreases to - page,
{
    if to == page {
        assert(items_in_order(results, page + 1, to) =~= Seq::<T>::empty());
        assert(items_in_order(results, from, to) =~= items_in_order(results, from, page - 1)
            + items_of_page(results, page, 0) + Seq::<T>::empty());
    } else {
        lemma_range_split(results, from, to - 1, page);
        assert(items_in_order(results, from, to) =~= items_in_order(results, from, page - 1)
            + items_of_page(results, page, 0) + (items_in_order(results, page + 1, to - 1)
            + items_of_page(results, to as u32, 0)));
    }
}

/// With the page `page` failed, the items of a range of pages are those
/// of the full results before and after that page.
pub proof fn lemma_range_with_hole<T>(
    full: Seq<PageResult<T>>,
    failed: Seq<PageResult<T>>,
    from: int,
    to: int,
    page: u32,
)
    requires
        0 <= from <= to + 1 <= u32::MAX + 1,
        failed.len() == full.len(),
        forall|j: int| 0 <= j < full.len() ==> (#[trigger] failed[j]).page == full[j].page,
        forall|j: int|
            0 <= j < full.len() && full[j].page != page ==> (#[trigger] failed[j]).items
                == full[j].items,
        forall|j: int| 0 <= j < full.len() && full[j].page == page ==> (#[trigger] failed[j]).items
            is None,
    ensures
        items_in_order(failed, from, to) == if from <= page <= to {
            items_in_order(full, from, page - 1) + items_in_order(full, page + 1, to)
        } else {
            items_in_order(full, from, to)
        },
    decreases to - from + 1,
{
    if from > to {
        if from <= page <= to {
        }
    } else {
        lemma_range_with_hole(full, failed, from, to - 1, page);
        if to == page {
            lemma_failed_page_empty(failed, full, page, 0);
            assert(items_in_order(full, page + 1, to) =~= Seq::<T>::empty());
            assert(items_in_order(failed, from, to) =~= items_in_order(full, from, page - 1)
                + Seq::<T>::empty());
        } else {
            lemma_other_pages(full, failed, page, to as u32, 0);
            if from <= page <= to {
                assert(items_in_order(failed, from, to) =~= items_in_order(full, from, page - 1)
                    + (items_in_order(full, page + 1, to - 1) + items_of_page(
                    full,
                    to as u32,
                    0,
                )));
            }
        }
    }
}

/// What has a time by which a scan can tell the recent from the old.
pub trait Timed {
    /// The time of the item, under the given order of the listing.
    spec fn time_under(&self, order: TopicOrder) -> i64;

    /// Reads the time of the item.
    fn time(&self, order: TopicOrder) -> (r: i64)
        ensures
            r == self.time_under(order),
    ;
}

impl Timed for Post {
    open spec fn time_under(&self, order: TopicOrder) -> i64 {
        self.post_date
    }

    fn time(&self, order: TopicOrder) -> (r: i64) {
        self.post_date
    }
}

impl Timed for LightPost {
    open spec fn time_under(&self, order: TopicOrder) -> i64 {
        self.post_date
    }

    fn time(&self, order: TopicOrder) -> (r: i64) {
        self.post_date
    }
}

impl Timed for Topic {
    /// A topic counts by its creation where the listing is ordered by
    /// creation, else by its last post.
    open spec fn time_under(&self, order: TopicOrder) -> i64 {
        if order == TopicOrder::PostDate {
            self.post_date
        } else {
            self.last_post_date
        }
    }

    fn time(&self, order: TopicOrder) -> (r: i64) {
        match order {
            TopicOrder::PostDate => self.post_date,
            _ => self.last_post_date,
        }
    }
}

/// The items that are recent: those not older than `cutoff`, in order.
pub open spec fn recent<T: Timed>(items: Seq<T>, cutoff: i64, order: TopicOrder) -> Seq<T>
    decreases items.len(),
{
    if items.len() == 0 {
        Seq::empty()
    } else if items.first().time_under(order) >= cutoff {
        seq![items.first()] + recent(items.drop_first(), cutoff, order)
    } else {
        recent(items.drop_first(), cutoff, order)
    }
}

/// Keeps the recent items.
pub fn keep_recent<T: Timed>(items: Vec<T>, cutoff: i64, order: TopicOrder) -> (r: Vec<T>)
    ensures
        r@ == recent(items@, cutoff, order),
{
    let ghost all = items@;
    let mut rest = items;
    let mut out: Vec<T> = Vec::new();
    assert(all.subrange(all.len() as int, all.len() as int) =~= Seq::<T>::empty());
    assert(rest@ =~= all.subrange(0, all.len() as int));
    while rest.len() > 0
        invariant
            rest@ == all.subrange(0, rest@.len() as int),
            rest@.len() <= all.len(),
            out@ == recent(all.subrange(rest@.len() as int, all.len() as int), cutoff, order),
        decreases rest.len(),
    {
        let ghost n = rest@.len() as int;
        let ghost before = out@;
        let item = rest.pop().unwrap();
        proof {
            let tail = all.subrange(n - 1, all.len() as int);
            assert(tail.drop_first() =~= all.subrange(n, all.len() as int));
            assert(tail.first() == item);
            assert(rest@ =~= all.subrange(0, n - 1));
        }
        if item.time(order) >= cutoff {
            out.insert(0, item);
            assert(out@ =~= seq![item] + before);
        }
    }
    assert(all.subrange(0, all.len() as int) =~= all);
    out
}

/// Whether any of the items is recent.
pub open spec fn any_recent<T: Timed>(items: Seq<T>, cutoff: i64, order: TopicOrder) -> bool {
    recent(items, cutoff, order).len() > 0
}

/// The page that a backward scan reads after `page`: the one before it,
/// unless the page held nothing recent or was the first. The feed is in
/// ascending order of time, so a page without recent items has none
/// before it.
pub open spec fn page_before(found_recent: bool, page: u32) -> Option<u32> {
    if !found_recent || page <= 1 {
        None
    } else {
        Some((page - 1) as u32)
    }
}

/// The page that a forward scan reads after `page`: the one after it,
/// unless the page held nothing recent or was the last.
pub open spec fn page_after(found_recent: bool, page: u32, total_pages: u32) -> Option<u32> {
    if !found_recent || page >= total_pages {
        None
    } else {
        Some((page + 1) as u32)
    }
}

/// One step of a scan from the last page toward the first: keeps the
/// recent items of the page just read and says which page to read next,
/// if any.
pub fn scan_back<T: Timed>(items: Vec<T>, cutoff: i64, page: u32) -> (r: (Vec<T>, Option<u32>))
    ensures
        r.0@ == recent(items@, cutoff, TopicOrder::LastPost),
        r.1 == page_before(any_recent(items@, cutoff, TopicOrder::LastPost), page),
{
    let kept = keep_recent(items, cutoff, TopicOrder::LastPost);
    let next = if kept.len() == 0 || page <= 1 {
        None
    } else {
        Some(page - 1)
    };
    (kept, next)
}

/// One step of a scan from the first page toward the last.
pub fn scan_forward<T: Timed>(
    items: Vec<T>,
    cutoff: i64,
    order: TopicOrder,
    page: u32,
    total_pages: u32,
) -> (r: (Vec<T>, Option<u32>))
    ensures
        r.0@ == recent(items@, cutoff, order),
        r.1 == page_after(any_recent(items@, cutoff, order), page, total_pages),
{
    let kept = keep_recent(items, cutoff, order);
    let next = if kept.len() == 0 || page >= total_pages {
        None
    } else {
        Some(page + 1)
    };
    (kept, next)
}

/// What a backward scan gathers from the page `page` on, where the page
/// `n` holds `pages[n - 1]`: the recent items of that page, and, while a
/// page holds any and is not the first, those of the page before it.
pub open spec fn gathered_back<T: Timed>(pages: Seq<Seq<T>>, page: int, cutoff: i64) -> Seq<T>
    decreases page,
{
    if page < 1 || page > pages.len() {
        Seq::empty()
    } else {
        let kept = recent(pages[page - 1], cutoff, TopicOrder::LastPost);
        if kept.len() == 0 || page <= 1 {
            kept
        } else {
            kept + gathered_back(pages, page - 1, cutoff)
        }
    }
}

/// The views of a list of pages.
pub open spec fn page_views<T>(pages: Seq<Vec<T>>) -> Seq<Seq<T>> {
    Seq::new(pages.len(), |i: int| pages[i]@)
}

/// Runs a backward scan over pages known in advance, from the last: the
/// page `n` is `pages[n - 1]`.
pub fn scan_back_over<T: Timed>(pages: Vec<Vec<T>>, cutoff: i64) -> (r: Vec<T>)
    requires
        pages@.len() <= u32::MAX,
    ensures
        r@ == gathered_back(page_views(pages@), pages@.len() as int, cutoff),
{
    let ghost all = page_views(pages@);
    let mut rest = pages;
    let mut out: Vec<T> = Vec::new();
    let mut scanning = true;
    assert(out@ + gathered_back(all, all.len() as int, cutoff) =~= gathered_back(
        all,
        all.len() as int,
        cutoff,
    ));
    while scanning && rest.len() > 0
        invariant
            rest@.len() <= all.len() <= u32::MAX,
            page_views(rest@) == all.subrange(0, rest@.len() as int),
            scanning ==> gathered_back(all, all.len() as int, cutoff) == out@ + gathered_back(
                all,
                rest@.len() as int,
                cutoff,
            ),
            !scanning ==> gathered_back(all, all.len() as int, cutoff) == out@,
        decreases rest.len(),
    {
        let ghost n = rest@.len() as int;
        let ghost before = out@;
        let ghost prev = rest@;
        let page_number = rest.len() as u32;
        let page = rest.pop().unwrap();
        proof {
            assert(page_views(prev)[n - 1] == page@);
            assert(all[n - 1] == all.subrange(0, n)[n - 1]);
            assert(page_views(rest@) =~= all.subrange(0, n - 1));
        }
        let (kept, next) = scan_back(page, cutoff, page_number);
        let ghost kept_view = kept@;
        append_all(&mut out, kept);
        proof {
            if kept_view.len() == 0 || n <= 1 {
                assert(out@ =~= before + kept_view);
            } else {
                assert(before + (kept_view + gathered_back(all, n - 1, cutoff)) =~= out@
                    + gathered_back(all, n - 1, cutoff));
            }
        }
        if next.is_none() {
            scanning = false;
        }
    }
    proof {
        if scanning {
            assert(out@ + Seq::<T>::empty() =~= out@);
        }
    }
    out
}

/// The cutoff of a scan for what is at most `range` seconds old at the
/// time `now`, kept within the range of `i64`.
pub open spec fn cutoff_for(now: i64, range: i64) -> i64 {
    if now - range > i64::MAX {
        i64::MAX
    } else if now - range < i64::MIN {
        i64::MIN
    } else {
        (now - range) as i64
    }
}

/// Computes the cutoff of a scan.
pub fn cutoff_time(now: i64, range: i64) -> (r: i64)
    ensures
        r == cutoff_for(now, range),
{
    let d: i128 = now as i128 - range as i128;
    if d > i64::MAX as i128 {
        i64::MAX
    } else if d < i64::MIN as i128 {
        i64::MIN
    } else {
        d as i64
    }
}

/// Where `x` goes in a list sorted by key so that it stands before every
/// member whose key is not less than its own: the first such member's
/// index at or after `i`, or the end.
pub open spec fn place_of<T>(sorted: Seq<(i128, T)>, key: i128, i: int) -> int
    decreases sorted.len() - i,
{
    if i < 0 || i >= sorted.len() {
        sorted.len() as int
    } else if sorted[i].0 >= key {
        i
    } else {
        place_of(sorted, key, i + 1)
    }
}

/// The members of `s` in ascending order of their keys, members of equal
/// key in the order in which they stand in `s`.
pub open spec fn stable_sorted<T>(s: Seq<(i128, T)>) -> Seq<(i128, T)>
    decreases s.len(),
{
    if s.len() == 0 {
        Seq::empty()
    } else {
        let rest = stable_sorted(s.drop_first());
        rest.insert(place_of(rest, s.first().0, 0), s.first())
    }
}

/// Whether the keys of `s` never decrease.
pub open spec fn is_ascending<T>(s: Seq<(i128, T)>) -> bool {
    forall|i: int, j: int| 0 <= i < j < s.len() ==> (#[trigger] s[i]).0 <= (#[trigger] s[j]).0
}

pub proof fn lemma_place_of<T>(sorted: Seq<(i128, T)>, key: i128, i: int)
    requires
        0 <= i <= sorted.len(),
    ensures
        i <= place_of(sorted, key, i) <= sorted.len(),
        forall|j: int| i <= j < place_of(sorted, key, i) ==> (#[trigger] sorted[j]).0 < key,
        place_of(sorted, key, i) < sorted.len() ==> sorted[place_of(sorted, key, i)].0 >= key,
    decreases sorted.len() - i,
{
    if i < sorted.len() && sorted[i].0 < key {
        lemma_place_of(sorted, key, i + 1);
    }
}

/// Sorting gives an ascending list with the same members, each as often
/// as before.
pub proof fn lemma_stable_sorted<T>(s: Seq<(i128, T)>)
    ensures
        is_ascending(stable_sorted(s)),
        stable_sorted(s).len() == s.len(),
        stable_sorted(s).to_multiset() == s.to_multiset(),
    decreases s.len(),
{
    broadcast use vstd::seq_lib::group_to_multiset_ensures;

    if s.len() == 0 {
        assert(stable_sorted(s).to_multiset() =~= s.to_multiset());
    } else {
        let rest = stable_sorted(s.drop_first());
        lemma_stable_sorted(s.drop_first());
        let x = s.first();
        let p = place_of(rest, x.0, 0);
        lemma_place_of(rest, x.0, 0);
        let out = rest.insert(p, x);
        assert forall|i: int, j: int| 0 <= i < j < out.len() implies (#[trigger] out[i]).0 <= (
        #[trigger] out[j]).0 by {
            if i < p && j > p {
                assert(out[i] == rest[i]);
                assert(out[j] == rest[j - 1]);
                if p < rest.len() {
                    assert(rest[p].0 >= x.0);
                    if j - 1 > p {
                        assert(rest[p].0 <= rest[j - 1].0);
                    }
                }
            } else if i < p && j < p {
                assert(out[i] == rest[i] && out[j] == rest[j]);
            } else if i < p && j == p {
                assert(out[i] == rest[i]);
            } else if i == p {
                assert(out[j] == rest[j - 1]);
                assert(rest[p].0 >= x.0);
                if j - 1 > p {
                    assert(rest[p].0 <= rest[j - 1].0);
                }
            } else {
                assert(out[i] == rest[i - 1] && out[j] == rest[j - 1]);
            }
        }
        vstd::seq_lib::to_multiset_insert(rest, p, x);
        assert(s =~= s.drop_first().insert(0, x));
        vstd::seq_lib::to_multiset_insert(s.drop_first(), 0, x);
    }
}

/// Sorts by key, ascending and stable.
pub fn sort_by_key<T>(items: Vec<(i128, T)>) -> (r: Vec<(i128, T)>)
    ensures
        r@ == stable_sorted(items@),
        is_ascending(r@),
        r@.len() == items@.len(),
        r@.to_multiset() == items@.to_multiset(),
{
    let ghost all = items@;
    let mut rest = items;
    let mut out: Vec<(i128, T)> = Vec::new();
    assert(all.subrange(all.len() as int, all.len() as int) =~= Seq::<(i128, T)>::empty());
    assert(rest@ =~= all.subrange(0, all.len() as int));
    while rest.len() > 0
        invariant
            rest@ == all.subrange(0, rest@.len() as int),
            rest@.len() <= all.len(),
            out@ == stable_sorted(all.subrange(rest@.len() as int, all.len() as int)),
        decreases rest.len(),
    {
        let ghost n = rest@.len() as int;
        let ghost sorted = out@;
        let item = rest.pop().unwrap();
        proof {
            let tail = all.subrange(n - 1, all.len() as int);
            assert(tail.drop_first() =~= all.subrange(n, all.len() as int));
            assert(tail.first() == item);
            assert(rest@ =~= all.subrange(0, n - 1));
        }
        let mut p: usize = 0;
        while p < out.len() && out[p].0 < item.0
            invariant
                p <= out.len(),
                out@ == sorted,
                place_of(sorted, item.0, 0) == place_of(sorted, item.0, p as int),
            decreases out.len() - p,
        {
            p = p + 1;
        }
        out.insert(p, item);
    }
    assert(all.subrange(0, all.len() as int) =~= all);
    proof {
        lemma_stable_sorted(all);
    }
    out
}

/// Each post with its floor as the key.
pub open spec fn keyed_by_floor(posts: Seq<Post>) -> Seq<(i128, Post)> {
    Seq::new(posts.len(), |i: int| (posts[i].floor as i128, posts[i]))
}

/// The second members of the pairs.
pub open spec fn unkeyed<T>(pairs: Seq<(i128, T)>) -> Seq<T> {
    Seq::new(pairs.len(), |i: int| pairs[i].1)
}

/// Pairs every item with a key.
fn with_keys(posts: Vec<Post>) -> (r: Vec<(i128, Post)>)
    ensures
        r@ == keyed_by_floor(posts@),
{
    let ghost all = posts@;
    let mut rest = posts;
    let mut out: Vec<(i128, Post)> = Vec::new();
    while rest.len() > 0
        invariant
            rest@ == all.subrange(0, rest@.len() as int),
            rest@.len() <= all.len(),
            out@ == keyed_by_floor(all).subrange(rest@.len() as int, all.len() as int),
        decreases rest.len(),
    {
        let ghost n = rest@.len() as int;
        let ghost before = out@;
        let post = rest.pop().unwrap();
        assert(rest@ =~= all.subrange(0, n - 1));
        out.insert(0, (post.floor as i128, post));
        assert(out@ =~= keyed_by_floor(all).subrange(n - 1, all.len() as int));
    }
    assert(keyed_by_floor(all).subrange(0, all.len() as int) =~= keyed_by_floor(all));
    out
}

/// Drops the keys.
fn without_keys<T>(pairs: Vec<(i128, T)>) -> (r: Vec<T>)
    ensures
        r@ == unkeyed(pairs@),
{
    let ghost all = pairs@;
    let mut rest = pairs;
    let mut out: Vec<T> = Vec::new();
    while rest.len() > 0
        invariant
            rest@ == all.subrange(0, rest@.len() as int),
            rest@.len() <= all.len(),
            out@ == unkeyed(all).subrange(rest@.len() as int, all.len() as int),
        decreases rest.len(),
    {
        let ghost n = rest@.len() as int;
        let pair = rest.pop().unwrap();
        assert(rest@ =~= all.subrange(0, n - 1));
        out.insert(0, pair.1);
        assert(out@ =~= unkeyed(all).subrange(n - 1, all.len() as int));
    }
    assert(unkeyed(all).subrange(0, all.len() as int) =~= unkeyed(all));
    out
}

/// The posts in ascending order of their floors, posts of one floor in the
/// order in which they came.
pub open spec fn by_floor(posts: Seq<Post>) -> Seq<Post> {
    unkeyed(stable_sorted(keyed_by_floor(posts)))
}

/// Sorts the posts of a topic by floor.
pub fn sort_by_floor(posts: Vec<Post>) -> (r: Vec<Post>)
    ensures
        r@ == by_floor(posts@),
        r@.len() == posts@.len(),
        forall|i: int, j: int| 0 <= i < j < r@.len() ==> r@[i].floor <= r@[j].floor,
{
    let ghost keyed = keyed_by_floor(posts@);
    let sorted = sort_by_key(with_keys(posts));
    let out = without_keys(sorted);
    proof {
        assert forall|i: int| 0 <= i < sorted@.len() implies (#[trigger] sorted@[i]).0
            == sorted@[i].1.floor as i128 by {
            lemma_keys_kept(keyed, sorted@[i]);
        }
        assert forall|i: int, j: int| 0 <= i < j < out@.len() implies out@[i].floor
            <= out@[j].floor by {
            assert(sorted@[i].0 <= sorted@[j].0);
        }
    }
    out
}

/// A member of the sorted list is a member of the list that was sorted.
pub proof fn lemma_keys_kept(keyed: Seq<(i128, Post)>, pair: (i128, Post))
    requires
        stable_sorted(keyed).contains(pair),
        forall|i: int| 0 <= i < keyed.len() ==> (#[trigger] keyed[i]).0 == keyed[i].1.floor as i128,
    ensures
        pair.0 == pair.1.floor as i128,
{
    broadcast use vstd::seq_lib::group_to_multiset_ensures;

    lemma_stable_sorted(keyed);
    assert(stable_sorted(keyed).to_multiset().count(pair) > 0);
    assert(keyed.to_multiset().count(pair) > 0);
    assert(keyed.contains(pair));
}

/// One entry of a scan for recent activity: a post or a comment on one.
#[derive(Debug, Clone)]
pub struct RecentPost {
    /// The topic of the post.
    pub topic_id: String,
    /// The subject of the topic, without its tags.
    pub topic_subject: String,
    /// `post` or `comment`.
    pub post_type: String,
    /// The post, or the post that the comment is on.
    pub post_id: String,
    /// The floor for display: `#N`, or `#N comment`.
    pub floor: String,
    /// The author's name for display.
    pub author_name: String,
    /// The author's identifier.
    pub author_id: String,
    /// The content as plain text.
    pub content: String,
    /// The time of the post or comment.
    pub post_date: i64,
    /// The score.
    pub score: i32,
}

/// The floor of a post for display.
pub open spec fn floor_label(floor: i32) -> Seq<char> {
    seq!['#'] + decimal_text(floor as int)
}

/// Whether `r` is the entry for the post `p` of the topic `t`.
pub open spec fn is_entry_of_post(r: RecentPost, t: Topic, p: Post) -> bool {
    &&& r.topic_id@ == t.id.0@
    &&& r.topic_subject@ == t.subject.content@
    &&& r.post_type@ == "post"@
    &&& r.post_id@ == p.id.0@
    &&& r.floor@ == floor_label(p.floor)
    &&& r.author_name@ == crate::models::user::display_name(p.author.name.model())
    &&& r.author_id@ == p.author.id.0@
    &&& r.content@ == p.content.plain_text()
    &&& r.post_date == p.post_date
    &&& r.score == p.score
}

/// Whether `r` is the entry for the comment `c` on the post `p` of the
/// topic `t`.
pub open spec fn is_entry_of_comment(r: RecentPost, t: Topic, p: Post, c: LightPost) -> bool {
    &&& r.topic_id@ == t.id.0@
    &&& r.topic_subject@ == t.subject.content@
    &&& r.post_type@ == "comment"@
    &&& r.post_id@ == p.id.0@
    &&& r.floor@ == floor_label(p.floor) + " comment"@
    &&& r.author_name@ == crate::models::user::display_name(c.author.name.model())
    &&& r.author_id@ == c.author.id.0@
    &&& r.content@ == c.content.plain_text()
    &&& r.post_date == c.post_date
    &&& r.score == c.score
}

/// The label of a floor.
pub fn label_floor(floor: i32) -> (r: String)
    ensures
        r@ == floor_label(floor),
{
    proof {
        reveal_strlit("#");
    }
    let r = prefixed("#", format_i64(floor as i64).as_str());
    assert("#"@ =~= seq!['#']);
    r
}

/// The entry of a scan for a post.
pub fn entry_of_post(topic: &Topic, post: &Post) -> (r: RecentPost)
    ensures
        is_entry_of_post(r, *topic, *post),
{
    RecentPost {
        topic_id: topic.id.to_string(),
        topic_subject: topic.subject.content.clone(),
        post_type: "post".to_owned(),
        post_id: post.id.to_string(),
        floor: label_floor(post.floor),
        author_name: post.author.name.display().to_owned(),
        author_id: post.author.id.to_string(),
        content: post.content.to_plain_text(),
        post_date: post.post_date,
        score: post.score,
    }
}

/// The entry of a scan for a comment on a post.
pub fn entry_of_comment(topic: &Topic, post: &Post, comment: &LightPost) -> (r: RecentPost)
    ensures
        is_entry_of_comment(r, *topic, *post, *comment),
{
    let mut floor = label_floor(post.floor);
    floor.append(" comment");
    RecentPost {
        topic_id: topic.id.to_string(),
        topic_subject: topic.subject.content.clone(),
        post_type: "comment".to_owned(),
        post_id: post.id.to_string(),
        floor,
        author_name: comment.author.name.display().to_owned(),
        author_id: comment.author.id.to_string(),
        content: comment.content.to_plain_text(),
        post_date: comment.post_date,
        score: comment.score,
    }
}

/// Whether a recent post has comments to scan.
pub fn has_comments(post: &Post) -> (r: bool)
    ensures
        r == (post.comment_count > 0),
{
    post.comment_count > 0
}

/// Each entry with the negative of its time as the key.
pub open spec fn keyed_by_age(entries: Seq<RecentPost>) -> Seq<(i128, RecentPost)> {
    Seq::new(entries.len(), |i: int| ((-(entries[i].post_date as int)) as i128, entries[i]))
}

/// The entries from the newest to the oldest, entries of one time in the
/// order in which they came.
pub open spec fn newest_first(entries: Seq<RecentPost>) -> Seq<RecentPost> {
    unkeyed(stable_sorted(keyed_by_age(entries)))
}

/// Sorts the entries of a scan from the newest to the oldest.
pub fn sort_newest_first(entries: Vec<RecentPost>) -> (r: Vec<RecentPost>)
    ensures
        r@ == newest_first(entries@),
        r@.len() == entries@.len(),
{
    let ghost all = entries@;
    let mut rest = entries;
    let mut keyed: Vec<(i128, RecentPost)> = Vec::new();
    while rest.len() > 0
        invariant
            rest@ == all.subrange(0, rest@.len() as int),
            rest@.len() <= all.len(),
            keyed@ == keyed_by_age(all).subrange(rest@.len() as int, all.len() as int),
        decreases rest.len(),
    {
        let ghost n = rest@.len() as int;
        let entry = rest.pop().unwrap();
        assert(rest@ =~= all.subrange(0, n - 1));
        keyed.insert(0, (-(entry.post_date as i128), entry));
        assert(keyed@ =~= keyed_by_age(all).subrange(n - 1, all.len() as int));
    }
    assert(keyed_by_age(all).subrange(0, all.len() as int) =~= keyed_by_age(all));
    without_keys(sort_by_key(keyed))
}

/// The unit of a time range.
#[derive(Debug, Clone, Copy, PartialEq, Eq, Structural)]
pub enum RangeUnit {
    Second,
    Minute,
    Hour,
    Day,
    Week,
    Month,
    Year,
}

impl RangeUnit {
    /// The seconds in one unit; a month has thirty days and a year 365.
    pub open spec fn length(&self) -> int {
        match self {
            RangeUnit::Second => 1,
            RangeUnit::Minute => 60,
            RangeUnit::Hour => 3600,
            RangeUnit::Day => 86400,
            RangeUnit::Week => 604800,
            RangeUnit::Month => 2592000,
            RangeUnit::Year => 31536000,
        }
    }

    /// The seconds in one unit.
    pub fn seconds(&self) -> (r: i64)
        ensures
            r == self.length(),
    {
        match self {
            RangeUnit::Second => 1,
            RangeUnit::Minute => 60,
            RangeUnit::Hour => 3600,
            RangeUnit::Day => 86400,
            RangeUnit::Week => 604800,
            RangeUnit::Month => 2592000,
            RangeUnit::Year => 31536000,
        }
    }
}

/// A span of time back from now: so many units.
#[derive(Debug, Clone, Copy, PartialEq, Eq, Structural)]
pub struct TimeRange {
    pub count: i64,
    pub unit: RangeUnit,
    /// The span in seconds.
    pub seconds: i64,
}

/// The unit that a one-letter suffix names.
pub open spec fn unit_of_suffix(c: char) -> Option<RangeUnit> {
    if c == 's' {
        Some(RangeUnit::Second)
    } else if c == 'm' {
        Some(RangeUnit::Minute)
    } else if c == 'h' {
        Some(RangeUnit::Hour)
    } else if c == 'd' {
        Some(RangeUnit::Day)
    } else {
        None
    }
}

/// The unit that a word names.
pub open spec fn unit_of_word(w: Seq<char>) -> Option<RangeUnit> {
    if w == "second"@ {
        Some(RangeUnit::Second)
    } else if w == "minute"@ {
        Some(RangeUnit::Minute)
    } else if w == "hour"@ {
        Some(RangeUnit::Hour)
    } else if w == "day"@ {
        Some(RangeUnit::Day)
    } else if w == "week"@ {
        Some(RangeUnit::Week)
    } else if w == "month"@ {
        Some(RangeUnit::Month)
    } else if w == "year"@ {
        Some(RangeUnit::Year)
    } else {
        None
    }
}

/// The range that a lowercase text names: a count with a one-letter unit,
/// as in `30m` or `2d`, where the seconds fit an `i64`; or else the word
/// for one unit.
pub open spec fn range_of(low: Seq<char>) -> Option<TimeRange> {
    let counted = if low.len() >= 2 {
        match (parsed_i64(low.subrange(0, low.len() - 1)), unit_of_suffix(low.last())) {
            (Some(n), Some(unit)) => if i64::MIN <= n * unit.length() <= i64::MAX {
                Some(TimeRange { count: n, unit, seconds: (n * unit.length()) as i64 })
            } else {
                None
            },
            _ => None,
        }
    } else {
        None
    };
    match counted {
        Some(r) => Some(r),
        None => match unit_of_word(low) {
            Some(unit) => Some(TimeRange { count: 1, unit, seconds: unit.length() as i64 }),
            None => None,
        },
    }
}

/// `n` times `m`, where it fits an `i64`.
pub fn checked_times(n: i64, m: i64) -> (r: Option<i64>)
    ensures
        match r {
            Some(p) => p == n * m,
            None => n * m < i64::MIN || n * m > i64::MAX,
        },
{
    assert(-0x8000_0000_0000_0000 * 0x8000_0000_0000_0000 <= n * m <= 0x8000_0000_0000_0000
        * 0x8000_0000_0000_0000) by (nonlinear_arith)
        requires
            -0x8000_0000_0000_0000 <= n <= 0x7fff_ffff_ffff_ffff,
            -0x8000_0000_0000_0000 <= m <= 0x7fff_ffff_ffff_ffff,
    ;
    let p: i128 = (n as i128) * (m as i128);
    if p < i64::MIN as i128 || p > i64::MAX as i128 {
        None
    } else {
        Some(p as i64)
    }
}

/// The range that a lowercase text names, or one hour where it names
/// none.
pub open spec fn range_or_hour_of(low: Seq<char>) -> TimeRange {
    match range_of(low) {
        Some(r) => r,
        None => TimeRange { count: 1, unit: RangeUnit::Hour, seconds: 3600 },
    }
}

/// The range that a text names, in any case, or one hour where it names
/// none.
pub fn range_or_hour(range: &str) -> (r: TimeRange)
    ensures
        r == range_or_hour_of(lowered(range@)),
{
    match parse_time_range(range) {
        Some(r) => r,
        None => TimeRange { count: 1, unit: RangeUnit::Hour, seconds: 3600 },
    }
}

/// Parse time range string, in any case: `45s`, `30m`, `12h`, `7d`, or
/// one of `second`, `minute`, `hour`, `day`, `week`, `month`, `year`.
pub fn parse_time_range(range: &str) -> (r: Option<TimeRange>)
    ensures
        r == range_of(lowered(range@)),
{
    let low_text = lowercase(range);
    let low = chars_of(low_text.as_str());
    if low.len() >= 2 {
        let suffix = low[low.len() - 1];
        let unit = if suffix == 's' {
            Some(RangeUnit::Second)
        } else if suffix == 'm' {
            Some(RangeUnit::Minute)
        } else if suffix == 'h' {
            Some(RangeUnit::Hour)
        } else if suffix == 'd' {
            Some(RangeUnit::Day)
        } else {
            None
        };
        match (parse_i64(&slice(&low, 0, low.len() - 1)), unit) {
            (Some(n), Some(unit)) => {
                match checked_times(n, unit.seconds()) {
                    Some(seconds) => {
                        return Some(TimeRange { count: n, unit, seconds });
                    },
                    None => {},
                }
            },
            _ => {},
        }
    }
    let w = low_text.as_str();
    let unit = if str_eq(w, "second") {
        Some(RangeUnit::Second)
    } else if str_eq(w, "minute") {
        Some(RangeUnit::Minute)
    } else if str_eq(w, "hour") {
        Some(RangeUnit::Hour)
    } else if str_eq(w, "day") {
        Some(RangeUnit::Day)
    } else if str_eq(w, "week") {
        Some(RangeUnit::Week)
    } else if str_eq(w, "month") {
        Some(RangeUnit::Month)
    } else if str_eq(w, "year") {
        Some(RangeUnit::Year)
    } else {
        None
    };
    match unit {
        Some(unit) => Some(TimeRange { count: 1, unit, seconds: unit.seconds() }),
        None => None,
    }
}

/// The order that a word names: `postdate`, `recommend`, or else the
/// default, by last post.
pub fn parse_order(order: &str) -> (r: TopicOrder)
    ensures
        r == if order@ == "postdate"@ {
            TopicOrder::PostDate
        } else if order@ == "recommend"@ {
            TopicOrder::Recommend
        } else {
            TopicOrder::LastPost
        },
{
    if str_eq(order, "postdate") {
        TopicOrder::PostDate
    } else if str_eq(order, "recommend") {
        TopicOrder::Recommend
    } else {
        TopicOrder::LastPost
    }
}

/// How the posts of a topic are fetched once its first page is there.
#[derive(Debug, Clone, Copy, PartialEq, Eq, Structural)]
pub enum ReadMode {
    /// The first page is all there is: its posts are shown, the recent
    /// ones only where a cutoff is set, under the page number asked for.
    FirstPage { shown_page: u32 },
    /// The posts of this one page are shown.
    OnePage { page: u32 },
    /// The pages are scanned from the last backward for recent posts, and
    /// what is found is sorted by floor.
    ScanBack,
    /// Every page is fetched, and the posts are sorted by floor.
    AllPages,
}

/// The mode in which a topic is read. Without a wish for all pages, a
/// topic of one page is shown as it is; without a cutoff either, the page
/// asked for is shown, the first at the least. Else a cutoff asks for a
/// scan backward, and the wish for all pages for all of them.
pub open spec fn mode_for(fetch_all: bool, has_cutoff: bool, total_pages: u32, page: u32) -> ReadMode {
    if !fetch_all && total_pages == 1 {
        ReadMode::FirstPage { shown_page: page }
    } else if !fetch_all && !has_cutoff {
        ReadMode::OnePage {
            page: if page < 1 {
                1
            } else {
                page
            },
        }
    } else if has_cutoff {
        ReadMode::ScanBack
    } else {
        ReadMode::AllPages
    }
}

/// Decides how a topic is read.
pub fn read_mode(fetch_all: bool, has_cutoff: bool, total_pages: u32, page: u32) -> (r: ReadMode)
    ensures
        r == mode_for(fetch_all, has_cutoff, total_pages, page),
{
    if !fetch_all && total_pages == 1 {
        ReadMode::FirstPage { shown_page: page }
    } else if !fetch_all && !has_cutoff {
        ReadMode::OnePage {
            page: if page < 1 {
                1
            } else {
                page
            },
        }
    } else if has_cutoff {
        ReadMode::ScanBack
    } else {
        ReadMode::AllPages
    }
}

/// Whether a scan for recent activity goes on to the posts of the topics
/// found: it does where posts are asked for and a topic was found.
pub fn scans_posts(with_posts: bool, topics_found: usize) -> (r: bool)
    ensures
        r == (with_posts && topics_found > 0),
{
    with_posts && topics_found > 0
}

} // verus!
