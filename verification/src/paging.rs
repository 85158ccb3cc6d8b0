//! Skip-then-take pagination over a forward-only sequence of rows.
//!
//! A row arrives together with the verdict on its moments: `true` where all
//! of them are representable. Page `page` of width `limit` passes over the
//! first `(page - 1) * limit` rows whatever their verdict, then keeps rows
//! with a good verdict until it holds `limit` of them.
//!
//! Two kinds of bad rows are told apart, and deliberately so. A malformed
//! row, one that does not have the entity's shape, says that the query and
//! the table disagree, which no later row will mend: it fails the whole
//! page. A row of the right shape whose moment the calendar cannot represent
//! is the fault of that row alone: it is dropped while collecting, counted,
//! and the page goes on with the next row. The price of dropping is that a
//! page reaches further into the sequence than its width, so that the pages
//! cut the sequence into disjoint runs only where no row is dropped.

use vstd::prelude::*;
use vstd::multiset::Multiset;
use vstd::seq_lib::{to_multiset_build, to_multiset_insert, to_multiset_len};
use crate::errors::RepoError;
use crate::models::{PaginatedResponse, PaginationMeta, MAX_LIMIT};

verus! {

/// The items of the rows that carry a good verdict, in order.
pub open spec fn kept<T>(rows: Seq<(T, bool)>) -> Seq<T>
    decreases rows.len(),
{
    if rows.len() == 0 {
        Seq::empty()
    } else if rows.last().1 {
        kept(rows.drop_last()).push(rows.last().0)
    } else {
        kept(rows.drop_last())
    }
}

/// The number of rows that page `page` of width `limit` passes over.
pub open spec fn skip_count(page: u32, limit: u32) -> nat {
    if page >= 1 {
        ((page - 1) * limit) as nat
    } else {
        0
    }
}

/// What is left of `rows` once the first `n` are passed over.
pub open spec fn beyond<A>(rows: Seq<A>, n: nat) -> Seq<A> {
    if n >= rows.len() {
        Seq::empty()
    } else {
        rows.skip(n as int)
    }
}

/// The first `n` items of `items`, or all of them where there are fewer.
pub open spec fn at_most<A>(items: Seq<A>, n: nat) -> Seq<A> {
    if n >= items.len() {
        items
    } else {
        items.take(n as int)
    }
}

/// Page `page` of width `limit` of the row sequence `rows`.
pub open spec fn page_of<T>(rows: Seq<(T, bool)>, page: u32, limit: u32) -> Seq<T> {
    at_most(kept(beyond(rows, skip_count(page, limit))), limit as nat)
}

/// The number of rows with a bad verdict among `rows`.
pub open spec fn bad_count<T>(rows: Seq<(T, bool)>) -> nat {
    (rows.len() - kept(rows).len()) as nat
}

/// `n` as far as a 64-bit counter reaches.
pub open spec fn saturated(n: nat) -> nat {
    if n >= u64::MAX {
        u64::MAX as nat
    } else {
        n
    }
}

/// An entity that carries the moment of its creation.
pub trait Stamped: Sized {
    /// The moment by which a page of such entities is ordered.
    spec fn moment(&self) -> i64;

    /// The verdict on the entity's moments: whether each is representable.
    spec fn moments_ok(&self) -> bool;

    fn created(&self) -> (r: i64)
        ensures
            r == self.moment(),
    ;

    fn check_moments(&self) -> (ok: bool)
        ensures
            ok == self.moments_ok(),
    ;
}

/// What a reader wants after it was handed a row.
#[derive(Debug, Clone, Copy, PartialEq, Eq, Structural)]
pub enum Progress {
    /// The page is not full: hand over the next row, if there is one.
    NeedMore,
    /// The page is full: stop reading, whatever the store still holds.
    Full,
    /// A malformed row was met before the page was full: stop reading.
    Failed,
}

/// Collects one page from rows that are handed over one at a time.
pub struct PageReader<T> {
    page: u32,
    limit: u32,
    skipped: u64,
    dropped: u64,
    items: Vec<T>,
    failure: Option<String>,
    consumed: Ghost<Seq<(T, bool)>>,
}

impl<T> PageReader<T> {
    /// The rows taken in so far, each with its verdict.
    pub closed spec fn consumed(&self) -> Seq<(T, bool)> {
        self.consumed@
    }

    /// The items collected so far.
    pub closed spec fn items(&self) -> Seq<T> {
        self.items@
    }

    /// The page that the reader collects.
    pub closed spec fn page(&self) -> u32 {
        self.page
    }

    /// The width of the page.
    pub closed spec fn limit(&self) -> u32 {
        self.limit
    }

    /// The message of the malformed row that stopped the reader, if any.
    pub closed spec fn failure(&self) -> Option<String> {
        self.failure
    }

    /// The number of rows that were dropped for a bad verdict, as far as
    /// the counter reaches.
    pub closed spec fn dropped(&self) -> nat {
        self.dropped as nat
    }

    /// Whether the reader still takes rows in.
    pub open spec fn reading(&self) -> bool {
        self.failure() is None && self.items().len() < self.limit()
    }

    /// The reader's invariant: what it holds is the page of what it took in.
    pub closed spec fn wf(&self) -> bool {
        &&& 1 <= self.page
        &&& 1 <= self.limit <= MAX_LIMIT
        &&& self.skipped as nat == (if self.consumed@.len() <= skip_count(self.page, self.limit) {
            self.consumed@.len()
        } else {
            skip_count(self.page, self.limit)
        })
        &&& self.items@ == page_of(self.consumed@, self.page, self.limit)
        &&& self.items@ == kept(beyond(self.consumed@, skip_count(self.page, self.limit)))
        &&& self.dropped as nat == saturated(
            bad_count(beyond(self.consumed@, skip_count(self.page, self.limit))),
        )
    }

    /// A reader for page `page` of width `limit` that has taken in nothing.
    pub fn new(page: u32, limit: u32) -> (r: Self)
        requires
            1 <= page,
            1 <= limit <= MAX_LIMIT,
        ensures
            r.wf(),
            r.page() == page,
            r.limit() == limit,
            r.consumed() == Seq::<(T, bool)>::empty(),
            r.items() == Seq::<T>::empty(),
            r.failure() is None,
            r.dropped() == 0,
    {
        let r = PageReader {
            page,
            limit,
            skipped: 0,
            dropped: 0,
            items: Vec::new(),
            failure: None,
            consumed: Ghost(Seq::empty()),
        };
        proof {
            assert(beyond(r.consumed@, skip_count(page, limit)) == Seq::<(T, bool)>::empty());
            assert(kept(Seq::<(T, bool)>::empty()) == Seq::<T>::empty());
        }
        r
    }

    /// The number of rows that were dropped for a bad verdict, as far as
    /// the counter reaches.
    pub fn dropped_rows(&self) -> (n: u64)
        ensures
            n == self.dropped(),
    {
        self.dropped
    }

    /// Whether the reader still takes rows in.
    pub fn is_reading(&self) -> (r: bool)
        requires
            self.wf(),
        ensures
            r == self.reading(),
    {
        self.failure.is_none() && self.items.len() < self.limit as usize
    }

    /// What the reader wants next.
    pub fn progress(&self) -> (r: Progress)
        requires
            self.wf(),
        ensures
            r == self.wanted(),
    {
        if self.failure.is_some() {
            Progress::Failed
        } else if self.items.len() < self.limit as usize {
            Progress::NeedMore
        } else {
            Progress::Full
        }
    }

    /// What the reader wants next: nothing after a failure, nothing once the
    /// page is full, the next row otherwise.
    pub open spec fn wanted(&self) -> Progress {
        if self.failure() is Some {
            Progress::Failed
        } else if self.items().len() < self.limit() {
            Progress::NeedMore
        } else {
            Progress::Full
        }
    }

    /// Hands the reader the next row of the sequence, with the verdict
    /// `keep` on its moments. A reader that has stopped ignores the row.
    pub fn feed(&mut self, item: T, keep: bool) -> (r: Progress)
        requires
            old(self).wf(),
        ensures
            final(self).wf(),
            final(self).page() == old(self).page(),
            final(self).limit() == old(self).limit(),
            final(self).failure() == old(self).failure(),
            final(self).consumed() == (if old(self).reading() {
                old(self).consumed().push((item, keep))
            } else {
                old(self).consumed()
            }),
            final(self).items() == page_of(
                final(self).consumed(),
                old(self).page(),
                old(self).limit(),
            ),
            final(self).dropped() == saturated(
                bad_count(
                    beyond(final(self).consumed(), skip_count(old(self).page(), old(self).limit())),
                ),
            ),
            r == final(self).wanted(),
    {
        if self.failure.is_some() || self.items.len() >= self.limit as usize {
            return self.progress();
        }
        let ghost before = self.consumed@;
        let ghost skip = skip_count(self.page, self.limit);
        proof {
            assert((self.page as u64 - 1) * (self.limit as u64) <= u64::MAX) by (nonlinear_arith)
                requires
                    1 <= self.page <= u32::MAX,
                    1 <= self.limit <= 100,
            ;
        }
        let skip_exec: u64 = (self.page as u64 - 1) * (self.limit as u64);
        proof {
            lemma_beyond_push(before, (item, keep), skip);
            lemma_kept_len(beyond(before, skip));
            assert(beyond(before, skip).push((item, keep)).drop_last() == beyond(before, skip));
            assert(skip == (self.page as u64 - 1) * (self.limit as u64)) by (nonlinear_arith)
                requires
                    skip == skip_count(self.page, self.limit),
                    1 <= self.page,
                    1 <= self.limit <= 100,
            ;
        }
        if self.skipped < skip_exec {
            self.skipped = self.skipped + 1;
        } else if keep {
            self.items.push(item);
        } else if self.dropped < u64::MAX {
            self.dropped = self.dropped + 1;
        }
        self.consumed = Ghost(before.push((item, keep)));
        self.progress()
    }

    /// Tells the reader that the sequence yielded a malformed row, described
    /// by `message`. A reader that is still reading stops and keeps the
    /// message; one that has stopped ignores it.
    pub fn feed_malformed(&mut self, message: String) -> (r: Progress)
        requires
            old(self).wf(),
        ensures
            final(self).wf(),
            final(self).page() == old(self).page(),
            final(self).limit() == old(self).limit(),
            final(self).consumed() == old(self).consumed(),
            final(self).items() == old(self).items(),
            final(self).failure() == (if old(self).reading() {
                Some(message)
            } else {
                old(self).failure()
            }),
            r == final(self).wanted(),
    {
        if self.failure.is_none() && self.items.len() < self.limit as usize {
            self.failure = Some(message);
        }
        self.progress()
    }

    /// Ends the reading: the page with its metadata, or the failure that a
    /// malformed row caused.
    pub fn finish(self) -> (r: Result<PaginatedResponse<T>, RepoError>)
        requires
            self.wf(),
        ensures
            match r {
                Ok(response) => {
                    &&& self.failure() is None
                    &&& response.data@ == self.items()
                    &&& response.data@ == page_of(self.consumed(), self.page(), self.limit())
                    &&& response.data@.len() <= self.limit()
                    &&& response.meta == meta_of(self.page(), self.limit(), self.items().len())
                },
                Err(e) => self.failure() is Some && e == RepoError::RowDecode(
                    self.failure()->Some_0,
                ),
            },
    {
        match self.failure {
            Some(message) => Err(RepoError::RowDecode(message)),
            None => {
                let meta = PaginationMeta::for_page(self.page, self.limit, self.items.len());
                Ok(PaginatedResponse { meta, data: self.items })
            },
        }
    }
}

/// The metadata of page `page` at width `limit` that holds `fetched` items.
pub open spec fn meta_of(page: u32, limit: u32, fetched: nat) -> PaginationMeta {
    PaginationMeta {
        page,
        limit,
        total: None,
        total_pages: if fetched == limit {
            None
        } else {
            Some(page)
        },
    }
}

/// No more items are kept than there are rows.
proof fn lemma_kept_len<T>(rows: Seq<(T, bool)>)
    ensures
        kept(rows).len() <= rows.len(),
    decreases rows.len(),
{
    if rows.len() > 0 {
        lemma_kept_len(rows.drop_last());
    }
}

/// Taking one more row in, seen from behind the rows that are passed over.
proof fn lemma_beyond_push<A>(rows: Seq<A>, row: A, skip: nat)
    ensures
        rows.len() < skip ==> beyond(rows.push(row), skip) == Seq::<A>::empty(),
        rows.len() >= skip ==> beyond(rows.push(row), skip) == beyond(rows, skip).push(row),
{
    if rows.len() >= skip {
        assert(beyond(rows.push(row), skip) =~= beyond(rows, skip).push(row));
    }
}

impl<T: Stamped> PageReader<T> {
    /// Hands the reader the next row of the sequence. The verdict on the
    /// row is that on its moments.
    pub fn offer(&mut self, row: T) -> (r: Progress)
        requires
            old(self).wf(),
        ensures
            final(self).wf(),
            final(self).page() == old(self).page(),
            final(self).limit() == old(self).limit(),
            final(self).failure() == old(self).failure(),
            final(self).consumed() == (if old(self).reading() {
                old(self).consumed().push((row, row.moments_ok()))
            } else {
                old(self).consumed()
            }),
            final(self).items() == page_of(
                final(self).consumed(),
                old(self).page(),
                old(self).limit(),
            ),
            r == final(self).wanted(),
    {
        let keep = row.check_moments();
        self.feed(row, keep)
    }
}

/// The place of an item in a page's order: by its moment, counted backwards
/// where the newest comes first.
pub open spec fn rank<T: Stamped>(item: T, newest_first: bool) -> int {
    if newest_first {
        -(item.moment() as int)
    } else {
        item.moment() as int
    }
}

/// Whether `items` stand in the order of their ranks.
pub open spec fn ordered<T: Stamped>(items: Seq<T>, newest_first: bool) -> bool {
    forall|i: int, j: int|
        0 <= i < j < items.len() ==> rank(items[i], newest_first) <= rank(items[j], newest_first)
}

/// Whether the item at `a` of `items` goes before the one at `b`: by rank,
/// and among items of one rank by place.
pub open spec fn goes_before<T: Stamped>(items: Seq<T>, a: int, b: int, newest_first: bool) -> bool {
    rank(items[a], newest_first) < rank(items[b], newest_first) || (rank(items[a], newest_first)
        == rank(items[b], newest_first) && a < b)
}

/// Whether `out` holds the items of `items` by rank, items of one rank in
/// the order they had: `from[k]` is the place in `items` of the item that
/// stands at `k` in `out`.
pub open spec fn stably_ordered<T: Stamped>(
    items: Seq<T>,
    out: Seq<T>,
    from: Seq<int>,
    newest_first: bool,
) -> bool {
    &&& out.len() == items.len()
    &&& from.len() == out.len()
    &&& forall|k: int|
        0 <= k < out.len() ==> 0 <= #[trigger] from[k] < items.len() && out[k] == items[from[k]]
    &&& forall|k: int, l: int|
        0 <= k < l < out.len() ==> goes_before(items, #[trigger] from[k], #[trigger] from[l], newest_first)
}

/// Orders the items of one page by their moments: the newest first where
/// `newest_first` holds, the oldest first otherwise. Items of one moment
/// keep the order they came in, and nothing is added or lost.
pub fn sort_by_moment<T: Stamped>(items: Vec<T>, newest_first: bool) -> (out: Vec<T>)
    ensures
        ordered(out@, newest_first),
        out@.to_multiset() == items@.to_multiset(),
        out@.len() == items@.len(),
        exists|from: Seq<int>| stably_ordered(items@, out@, from, newest_first),
{
    let ghost input = items@;
    let ghost mut from: Seq<int> = Seq::empty();
    let mut rest = items;
    let mut out: Vec<T> = Vec::new();
    proof {
        lemma_nothing_holds_nothing(out@);
        assert(out@.to_multiset().add(rest@.to_multiset()) =~= input.to_multiset());
    }
    while rest.len() > 0
        invariant
            ordered(out@, newest_first),
            out@.to_multiset().add(rest@.to_multiset()) == input.to_multiset(),
            out@.len() + rest@.len() == input.len(),
            rest@ == input.take(rest@.len() as int),
            from.len() == out@.len(),
            forall|k: int|
                0 <= k < out@.len() ==> rest@.len() <= #[trigger] from[k] < input.len()
                    && out@[k] == input[from[k]],
            forall|k: int, l: int|
                0 <= k < l < out@.len() ==> goes_before(
                    input,
                    #[trigger] from[k],
                    #[trigger] from[l],
                    newest_first,
                ),
        decreases rest.len(),
    {
        let ghost before = rest@;
        let x = rest.pop().unwrap();
        let ghost place = rest@.len() as int;
        let key = x.created();
        let mut p: usize = 0;
        loop
            invariant
                p <= out.len(),
                key == x.moment(),
                forall|k: int| 0 <= k < p ==> rank(out@[k], newest_first) < rank(x, newest_first),
            ensures
                p <= out.len(),
                forall|k: int| 0 <= k < p ==> rank(out@[k], newest_first) < rank(x, newest_first),
                p < out.len() ==> rank(out@[p as int], newest_first) >= rank(x, newest_first),
            decreases out.len() - p,
        {
            if p >= out.len() {
                break;
            }
            let other = out[p].created();
            let goes_first = if newest_first {
                other > key
            } else {
                other < key
            };
            if !goes_first {
                break;
            }
            p = p + 1;
        }
        proof {
            assert(before =~= rest@.push(x));
            assert(x == input[place]);
            assert(rest@ =~= input.take(place));
            to_multiset_build(rest@, x);
            to_multiset_insert(out@, p as int, x);
            assert(out@.insert(p as int, x).to_multiset().add(rest@.to_multiset())
                =~= out@.to_multiset().add(before.to_multiset()));
            let after = out@.insert(p as int, x);
            let from_after = from.insert(p as int, place);
            assert(ordered(after, newest_first)) by {
                assert forall|i: int, j: int| 0 <= i < j < after.len() implies rank(
                    after[i],
                    newest_first,
                ) <= rank(after[j], newest_first) by {
                    if j > p {
                        assert(after[j] == out@[j - 1]);
                    }
                }
            }
            assert forall|k: int| 0 <= k < after.len() implies place <= #[trigger] from_after[k]
                < input.len() && after[k] == input[from_after[k]] by {
                if k > p {
                    assert(from_after[k] == from[k - 1]);
                    assert(after[k] == out@[k - 1]);
                } else if k < p {
                    assert(from_after[k] == from[k]);
                }
            }
            assert forall|k: int, l: int| 0 <= k < l < after.len() implies goes_before(
                input,
                #[trigger] from_after[k],
                #[trigger] from_after[l],
                newest_first,
            ) by {
                let fk = if k < p {
                    k
                } else {
                    k - 1
                };
                let fl = if l < p {
                    l
                } else {
                    l - 1
                };
                if k != p && l != p {
                    assert(from_after[k] == from[fk]);
                    assert(from_after[l] == from[fl]);
                    assert(goes_before(input, from[fk], from[fl], newest_first));
                } else if k == p {
                    assert(from_after[l] == from[fl]);
                    assert(after[l] == out@[fl]);
                    assert(rank(out@[p as int], newest_first) <= rank(out@[fl], newest_first));
                } else {
                    assert(from_after[k] == from[fk]);
                    assert(after[k] == out@[fk]);
                }
            }
            from = from_after;
        }
        out.insert(p, x);
    }
    proof {
        lemma_nothing_holds_nothing(rest@);
        assert(out@.to_multiset().add(rest@.to_multiset()) =~= out@.to_multiset());
        assert(stably_ordered(input, out@, from, newest_first));
    }
    out
}

/// The items of an empty sequence, counted, are none.
proof fn lemma_nothing_holds_nothing<A>(items: Seq<A>)
    requires
        items.len() == 0,
    ensures
        items.to_multiset() == Multiset::<A>::empty(),
{
    to_multiset_len(items);
    vstd::multiset::lemma_multiset_empty_len(items.to_multiset());
}

/// A page never holds more than `limit` items.
pub proof fn lemma_page_within_limit<T>(rows: Seq<(T, bool)>, page: u32, limit: u32)
    ensures
        page_of(rows, page, limit).len() <= limit,
{
}

/// Whether every row of `rows` carries a good verdict.
pub open spec fn all_good<T>(rows: Seq<(T, bool)>) -> bool {
    forall|i: int| 0 <= i < rows.len() ==> (#[trigger] rows[i]).1
}

/// Where every verdict is good, every item is kept, in its place.
pub proof fn lemma_kept_all<T>(rows: Seq<(T, bool)>)
    requires
        all_good(rows),
    ensures
        kept(rows).len() == rows.len(),
        forall|i: int| 0 <= i < rows.len() ==> (#[trigger] kept(rows)[i]) == rows[i].0,
    decreases rows.len(),
{
    if rows.len() > 0 {
        let init = rows.drop_last();
        assert(all_good(init)) by {
            assert forall|i: int| 0 <= i < init.len() implies (#[trigger] init[i]).1 by {
                assert(init[i] == rows[i]);
            }
        }
        lemma_kept_all(init);
        assert(rows.last() == rows[rows.len() - 1]);
    }
}

/// The number of pages of width `limit` that `n` rows fill, the last one
/// perhaps in part.
pub open spec fn pages_needed(n: nat, limit: u32) -> nat {
    if limit == 0 {
        0
    } else {
        ((n + limit - 1) / (limit as int)) as nat
    }
}

/// Slot `slot` of page `page` holds the row that stands at
/// `(page - 1) * limit + slot`: where every verdict is good, the pages cut
/// the sequence into consecutive runs, so that no row is served twice.
pub proof fn lemma_page_slot<T>(rows: Seq<(T, bool)>, page: u32, limit: u32, slot: int)
    requires
        1 <= page,
        1 <= limit <= MAX_LIMIT,
        all_good(rows),
        0 <= slot < page_of(rows, page, limit).len(),
    ensures
        slot < limit,
        (page - 1) * limit + slot < rows.len(),
        page_of(rows, page, limit)[slot] == rows[(page - 1) * limit + slot].0,
{
    let skip = skip_count(page, limit);
    let tail = beyond(rows, skip);
    assert(all_good(tail)) by {
        assert forall|i: int| 0 <= i < tail.len() implies (#[trigger] tail[i]).1 by {
            assert(tail[i] == rows[i + skip]);
        }
    }
    lemma_kept_all(tail);
    assert(kept(tail)[slot] == tail[slot].0);
}

/// Row `index` is served on page `index / limit + 1`, in slot
/// `index % limit`: where every verdict is good, no row is left out by the
/// pages 1 to `pages_needed(rows.len(), limit)`.
pub proof fn lemma_row_is_served<T>(rows: Seq<(T, bool)>, limit: u32, index: int)
    requires
        1 <= limit <= MAX_LIMIT,
        all_good(rows),
        0 <= index < rows.len(),
        index / (limit as int) + 1 <= u32::MAX,
    ensures
        1 <= index / (limit as int) + 1 <= pages_needed(rows.len(), limit),
        index % (limit as int) < page_of(rows, (index / (limit as int) + 1) as u32, limit).len(),
        page_of(rows, (index / (limit as int) + 1) as u32, limit)[index % (limit as int)]
            == rows[index].0,
{
    let l = limit as int;
    let page = (index / l + 1) as u32;
    let skip = skip_count(page, limit);
    assert(skip == (index / l) * l);
    assert(index == (index / l) * l + index % l && 0 <= index % l < l && index / l >= 0)
        by (nonlinear_arith)
        requires
            l >= 1,
            index >= 0,
    ;
    assert(index / l + 1 <= (rows.len() + l - 1) / l) by (nonlinear_arith)
        requires
            l >= 1,
            0 <= index < rows.len(),
    ;
    let tail = beyond(rows, skip);
    assert(all_good(tail)) by {
        assert forall|i: int| 0 <= i < tail.len() implies (#[trigger] tail[i]).1 by {
            assert(tail[i] == rows[i + skip]);
        }
    }
    lemma_kept_all(tail);
    assert(tail.len() == rows.len() - skip);
    assert(kept(tail)[index % l] == tail[index % l].0);
}

/// A page beyond the last one that the rows fill is empty.
pub proof fn lemma_page_beyond_the_last_is_empty<T>(rows: Seq<(T, bool)>, page: u32, limit: u32)
    requires
        1 <= limit <= MAX_LIMIT,
        page > pages_needed(rows.len(), limit),
    ensures
        page_of(rows, page, limit).len() == 0,
{
    let l = limit as int;
    let n = rows.len() as int;
    assert((page - 1) * l >= n) by (nonlinear_arith)
        requires
            l >= 1,
            n >= 0,
            page - 1 >= (n + l - 1) / l,
    ;
}

/// Two slots that hold the same key are the same slot: where every verdict
/// is good and no two rows share a key, no key is served twice, on one page
/// or on two.
pub proof fn lemma_no_key_twice<T>(
    rows: Seq<(T, bool)>,
    limit: u32,
    key: spec_fn(T) -> int,
    page_a: u32,
    slot_a: int,
    page_b: u32,
    slot_b: int,
)
    requires
        1 <= limit <= MAX_LIMIT,
        1 <= page_a,
        1 <= page_b,
        all_good(rows),
        forall|i: int, j: int|
            0 <= i < j < rows.len() ==> key(rows[i].0) != key(rows[j].0),
        0 <= slot_a < page_of(rows, page_a, limit).len(),
        0 <= slot_b < page_of(rows, page_b, limit).len(),
        key(page_of(rows, page_a, limit)[slot_a]) == key(page_of(rows, page_b, limit)[slot_b]),
    ensures
        page_a == page_b,
        slot_a == slot_b,
{
    lemma_page_slot(rows, page_a, limit, slot_a);
    lemma_page_slot(rows, page_b, limit, slot_b);
    let ia = (page_a - 1) * limit + slot_a;
    let ib = (page_b - 1) * limit + slot_b;
    assert(ia == ib) by {
        if ia < ib {
            assert(key(rows[ia].0) != key(rows[ib].0));
        } else if ib < ia {
            assert(key(rows[ib].0) != key(rows[ia].0));
        }
    }
    assert(page_a == page_b && slot_a == slot_b) by (nonlinear_arith)
        requires
            (page_a - 1) * limit + slot_a == (page_b - 1) * limit + slot_b,
            0 <= slot_a < limit,
            0 <= slot_b < limit,
            page_a >= 1,
            page_b >= 1,
    ;
}

} // verus!
