//! The resumable candle-ingestion worker: resumption point, progress
//! accounting, page stepping, and the ingestion loop against a candle
//! store.

use crate::models::{candle_eq, Candle};
use crate::services::{
    candles_eq, lemma_store_insert_all_append, store_sorted, CandleStore,
};
use crate::timeframe::{spec_to_ms, Timeframe};
use vstd::arithmetic::div_mod::{
    lemma_div_is_ordered, lemma_div_is_ordered_by_denominator, lemma_div_pos_is_pos,
    lemma_fundamental_div_mod, lemma_fundamental_div_mod_converse_div, lemma_multiply_divide_lt,
};
use vstd::prelude::*;

verus! {

/// Result of a completed fetch task.
#[derive(Debug, Clone)]
pub struct FetchCandlesResult {
    pub symbol: String,
    pub exchange: String,
    pub timeframe: Timeframe,
    pub records: u64,
}

/// Content equality of fetch results.
pub open spec fn fetch_result_eq(a: FetchCandlesResult, b: FetchCandlesResult) -> bool {
    a.symbol@ == b.symbol@ && a.exchange@ == b.exchange@ && a.timeframe == b.timeframe
        && a.records == b.records
}

impl FetchCandlesResult {
    /// A content-equal copy.
    pub fn duplicate(&self) -> (r: FetchCandlesResult)
        ensures
            fetch_result_eq(r, *self),
    {
        FetchCandlesResult {
            symbol: self.symbol.clone(),
            exchange: self.exchange.clone(),
            timeframe: self.timeframe,
            records: self.records,
        }
    }
}

/// Lifecycle of a standalone fetch task.
#[derive(Debug, Clone, Copy, PartialEq, Eq, Structural)]
pub enum FetchCandlesStatus {
    Pending,
    Running,
    Completed,
    Failed,
}

/// Why a fetch could not start.
#[derive(Debug, Clone, Copy, PartialEq, Eq, Structural)]
pub enum FetchError {
    NoData,
    Overflow,
}

impl FetchError {
    /// Human-readable description.
    pub fn message(&self) -> (r: String)
        ensures
            *self is NoData ==> r@ == "No candles data available"@,
            *self is Overflow ==> r@ == "Timestamp overflow"@,
    {
        match self {
            FetchError::NoData => "No candles data available".to_owned(),
            FetchError::Overflow => "Timestamp overflow".to_owned(),
        }
    }
}

/// Task progress in whole percent, capped at 100.
pub open spec fn spec_progress(count: int, total: int) -> int {
    if count >= total {
        100
    } else {
        (100 * count) / total
    }
}

/// Progress of `count` finished pieces out of `total`.
pub fn progress_pct(count: u64, total: u64) -> (p: u8)
    ensures
        p as int == spec_progress(count as int, total as int),
        p <= 100,
{
    if count >= total {
        100
    } else {
        let q = (100u128 * (count as u128)) / (total as u128);
        proof {
            lemma_div_pos_is_pos(100 * (count as int), total as int);
            lemma_multiply_divide_lt(100 * (count as int), total as int, 100);
        }
        q as u8
    }
}

/// Monotone progress: more finished pieces never report less
/// progress, and progress stays within 0 and 100.
pub proof fn lemma_progress_monotone(c1: int, c2: int, total: int)
    requires
        0 <= c1 <= c2,
        total >= 0,
    ensures
        spec_progress(c1, total) <= spec_progress(c2, total),
        0 <= spec_progress(c1, total) <= 100,
{
    if c1 < total {
        lemma_div_pos_is_pos(100 * c1, total);
        lemma_multiply_divide_lt(100 * c1, total, 100);
        if c2 < total {
            lemma_div_is_ordered(100 * c1, 100 * c2, total);
        }
    }
}

/// The resumption point: one bar past the newest stored bar, or the
/// source's earliest bar when the store is empty; no data means the
/// fetch fails.
pub open spec fn spec_resume_since(latest: Option<i64>, first: Option<i64>, tf: int) -> Result<
    int,
    FetchError,
> {
    match latest {
        Some(l) => if l + tf <= i64::MAX {
            Ok(l + tf)
        } else {
            Err(FetchError::Overflow)
        },
        None => match first {
            Some(f) => Ok(f as int),
            None => Err(FetchError::NoData),
        },
    }
}

/// Compute the resumption point. See `spec_resume_since`.
pub fn resume_since(latest: Option<i64>, first: Option<i64>, tf_ms: u64) -> (r: Result<
    i64,
    FetchError,
>)
    requires
        tf_ms <= 0x7fff_ffff_ffff_ffff,
    ensures
        match r {
            Ok(v) => spec_resume_since(latest, first, tf_ms as int) == Ok::<int, FetchError>(
                v as int,
            ),
            Err(e) => spec_resume_since(latest, first, tf_ms as int) == Err::<int, FetchError>(e),
        },
{
    match latest {
        Some(l) => match l.checked_add(tf_ms as i64) {
            Some(v) => Ok(v),
            None => Err(FetchError::Overflow),
        },
        None => match first {
            Some(f) => Ok(f),
            None => Err(FetchError::NoData),
        },
    }
}

/// The progress denominator: the number of whole bars between the
/// resumption point and now, rounded up; zero when already caught up.
pub open spec fn spec_fetch_total(now: int, next_since: int, tf: int) -> int {
    if now < next_since {
        0
    } else {
        ((now - next_since) + tf - 1) / tf
    }
}

/// Compute the progress denominator. See `spec_fetch_total`.
pub fn fetch_total(now: i64, next_since: i64, tf_ms: u64) -> (r: u64)
    requires
        tf_ms >= 1,
    ensures
        r == spec_fetch_total(now as int, next_since as int, tf_ms as int),
{
    if now < next_since {
        return 0;
    }
    let d = ((now as i128) - (next_since as i128)) as u128;
    let t = tf_ms as u128;
    let q = d / t;
    let rem = d % t;
    proof {
        let di = d as int;
        let ti = t as int;
        lemma_fundamental_div_mod(di, ti);
        if rem == 0 {
            if ti > 1 {
                lemma_fundamental_div_mod_converse_div(di + ti - 1, ti, di / ti, ti - 1);
            } else {
                lemma_fundamental_div_mod_converse_div(di + ti - 1, ti, di / ti, 0);
            }
        } else {
            assert(ti * (di / ti + 1) == ti * (di / ti) + ti) by (nonlinear_arith);
            lemma_fundamental_div_mod_converse_div(di + ti - 1, ti, di / ti + 1, di % ti - 1);
        }
        // The result fits in a u64.
        if ti >= 2 {
            lemma_div_is_ordered_by_denominator(di, 2, ti);
            lemma_div_is_ordered(di, 0xffff_ffff_ffff_ffffint * 2, 2);
        }
    }
    if rem == 0 {
        q as u64
    } else {
        (q + 1) as u64
    }
}

/// State of one resumable fetch: the next `since` to ask the source
/// for, how many bars came in, and the progress denominator.
#[derive(Debug, Clone, Copy, PartialEq, Eq, Structural)]
pub struct FetchRun {
    pub next_since: i64,
    pub count: u64,
    pub total: u64,
    pub tf_ms: u64,
    pub done: bool,
}

impl FetchRun {
    /// Begin a fetch at the given resumption point. A resumption
    /// point in the future means the store is already caught up.
    pub fn start(next_since: i64, now: i64, tf_ms: u64) -> (r: FetchRun)
        requires
            tf_ms >= 1,
        ensures
            r.next_since == next_since,
            r.count == 0,
            r.tf_ms == tf_ms,
            r.total == spec_fetch_total(now as int, next_since as int, tf_ms as int),
            r.done == (now < next_since),
    {
        let total = fetch_total(now, next_since, tf_ms);
        FetchRun { next_since, count: 0, total, tf_ms, done: now < next_since }
    }

    /// Account for one page from the source. Returns whether the page
    /// should be stored. An empty page, or one that does not strictly
    /// advance the resumption point, ends the fetch; otherwise the
    /// point advances one bar past the page's last bar.
    pub fn on_page(&mut self, page_len: u64, page_last_ts: i64) -> (insert: bool)
        requires
            !old(self).done,
            old(self).tf_ms <= 0x7fff_ffff_ffff_ffff,
        ensures
            final(self).total == old(self).total,
            final(self).tf_ms == old(self).tf_ms,
            final(self).count >= old(self).count,
            if page_len == 0 || page_last_ts + old(self).tf_ms > i64::MAX
                || page_last_ts + old(self).tf_ms <= old(self).next_since {
                !insert && final(self).done && final(self).count == old(self).count
                    && final(self).next_since == old(self).next_since
            } else {
                insert && !final(self).done
                    && final(self).next_since == page_last_ts + old(self).tf_ms
                    && final(self).next_since > old(self).next_since
                    && final(self).count == (if old(self).count + page_len <= u64::MAX {
                    old(self).count + page_len
                } else {
                    u64::MAX as int
                })
            },
    {
        if page_len == 0 {
            self.done = true;
            return false;
        }
        let adv = match page_last_ts.checked_add(self.tf_ms as i64) {
            Some(v) => v,
            None => {
                self.done = true;
                return false;
            },
        };
        if adv <= self.next_since {
            self.done = true;
            return false;
        }
        self.next_since = adv;
        self.count = match self.count.checked_add(page_len) {
            Some(c) => c,
            None => u64::MAX,
        };
        true
    }

    /// Progress of this run in whole percent.
    pub fn progress(&self) -> (p: u8)
        ensures
            p as int == spec_progress(self.count as int, self.total as int),
            p <= 100,
    {
        progress_pct(self.count, self.total)
    }

    /// The record count reported by a completed fetch: the progress
    /// denominator computed at the start.
    pub fn records(&self) -> (r: u64)
        ensures
            r == self.total,
    {
        self.total
    }
}

/// Monotone progress: as a fetch run takes in pages, its reported
/// progress never decreases and stays within 0 and 100 (`on_page`
/// never decreases the count, and a completed task's progress is
/// forced to 100 by the registry).
pub proof fn lemma_fetch_progress_monotone(before: FetchRun, after: FetchRun)
    requires
        after.total == before.total,
        after.count >= before.count,
    ensures
        spec_progress(before.count as int, before.total as int) <= spec_progress(
            after.count as int,
            after.total as int,
        ),
        0 <= spec_progress(before.count as int, before.total as int) <= 100,
{
    lemma_progress_monotone(before.count as int, after.count as int, before.total as int);
}

/// Index of the first bar at or past `since` (the length of the
/// strictly earlier prefix).
pub open spec fn spec_first_ge(source: Seq<Candle>, since: int) -> int
    decreases source.len(),
{
    if source.len() == 0 {
        0
    } else if source[0].timestamp >= since {
        0
    } else {
        1 + spec_first_ge(source.drop_first(), since)
    }
}

/// The bars a fetch starting at `since` will ingest: the suffix of
/// the source stream from the first bar at or past `since`.
pub open spec fn spec_source_from(source: Seq<Candle>, since: int) -> Seq<Candle> {
    source.subrange(spec_first_ge(source, since), source.len() as int)
}

/// Consecutive source bars are at least one bar apart.
pub open spec fn source_spaced(source: Seq<Candle>, tf: int) -> bool {
    forall|i: int|
        #![trigger source[i], source[i + 1]]
        0 <= i && i + 1 < source.len() ==> source[i].timestamp + tf <= source[i + 1].timestamp
}

pub proof fn lemma_first_ge_at(source: Seq<Candle>, since: int, k: int)
    requires
        0 <= k <= source.len(),
        forall|j: int| 0 <= j < k ==> (#[trigger] source[j]).timestamp < since,
        k < source.len() ==> source[k].timestamp >= since,
    ensures
        spec_first_ge(source, since) == k,
    decreases k,
{
    if k > 0 {
        lemma_first_ge_at(source.drop_first(), since, k - 1);
    }
}

pub proof fn lemma_first_ge_props(source: Seq<Candle>, since: int)
    requires
        store_sorted(source),
    ensures
        0 <= spec_first_ge(source, since) <= source.len(),
        forall|j: int|
            0 <= j < spec_first_ge(source, since) ==> (#[trigger] source[j]).timestamp < since,
        forall|j: int|
            spec_first_ge(source, since) <= j < source.len() ==> (#[trigger] source[j]).timestamp
                >= since,
    decreases source.len(),
{
    if source.len() > 0 && source[0].timestamp < since {
        assert forall|i: int, j: int|
            0 <= i < j < source.drop_first().len() implies (#[trigger] source.drop_first()[i]).timestamp
            < (#[trigger] source.drop_first()[j]).timestamp by {
            assert(source.drop_first()[i] == source[i + 1]);
            assert(source.drop_first()[j] == source[j + 1]);
        }
        lemma_first_ge_props(source.drop_first(), since);
        assert forall|j: int|
            spec_first_ge(source, since) <= j < source.len() implies (#[trigger] source[j]).timestamp
            >= since by {
            assert(source[j] == source.drop_first()[j - 1]);
        }
        assert forall|j: int|
            0 <= j < spec_first_ge(source, since) implies (#[trigger] source[j]).timestamp
            < since by {
            if j > 0 {
                assert(source[j] == source.drop_first()[j - 1]);
            }
        }
    }
}

/// A stream whose consecutive bars are at least one (positive) bar
/// apart is strictly ascending.
pub proof fn lemma_spaced_sorted(source: Seq<Candle>, tf: int)
    requires
        tf >= 1,
        source_spaced(source, tf),
    ensures
        store_sorted(source),
{
    assert forall|i: int, j: int| 0 <= i < j < source.len() implies (#[trigger] source[i]).timestamp
        < (#[trigger] source[j]).timestamp by {
        lemma_spaced_chain(source, tf, i, j);
    }
}

proof fn lemma_spaced_chain(source: Seq<Candle>, tf: int, i: int, j: int)
    requires
        tf >= 1,
        source_spaced(source, tf),
        0 <= i < j < source.len(),
    ensures
        source[i].timestamp < source[j].timestamp,
    decreases j - i,
{
    if j == i + 1 {
        assert(source[i].timestamp + tf <= source[i + 1].timestamp);
    } else {
        lemma_spaced_chain(source, tf, i, j - 1);
        assert(source[j - 1].timestamp + tf <= source[j - 1 + 1].timestamp);
    }
}

/// Up to `limit` source bars starting at the first bar at or past
/// `since` (returned as copies).
pub fn source_page(source: &Vec<Candle>, since: i64, limit: usize) -> (r: Vec<Candle>)
    requires
        store_sorted(source@),
        limit >= 1,
    ensures
        ({
            let cut = spec_first_ge(source@, since as int);
            let end = if cut + limit <= source@.len() {
                cut + limit
            } else {
                source@.len() as int
            };
            candles_eq(r@, source@.subrange(cut, end))
        }),
{
    let mut i: usize = 0;
    while i < source.len() && source[i].timestamp < since
        invariant
            i <= source@.len(),
            forall|j: int| 0 <= j < i ==> (#[trigger] source@[j]).timestamp < since,
        decreases source@.len() - i,
    {
        i = i + 1;
    }
    proof {
        lemma_first_ge_at(source@, since as int, i as int);
    }
    let cut = i;
    let mut out: Vec<Candle> = Vec::new();
    while i < source.len() && i - cut < limit
        invariant
            cut == spec_first_ge(source@, since as int),
            cut <= i <= source@.len(),
            i - cut <= limit,
            candles_eq(out@, source@.subrange(cut as int, i as int)),
        decreases source@.len() - i,
    {
        out.push(source[i].duplicate());
        proof {
            assert(forall|k: int|
                0 <= k < i - cut ==> source@.subrange(cut as int, i + 1)[k] == source@.subrange(
                    cut as int,
                    i as int,
                )[k]);
            assert(source@.subrange(cut as int, i + 1)[i - cut] == source@[i as int]);
        }
        i = i + 1;
    }
    out
}

/// One complete resumable fetch against an in-memory store and a
/// source stream: resume one bar past the newest stored bar (or at
/// the source's first bar), then ingest page by page until the
/// source is drained. Every source bar at or past the resumption
/// point is stored, none twice.
#[verifier::rlimit(60)]
pub fn run_fetch(
    store: &mut CandleStore,
    source: &Vec<Candle>,
    timeframe: Timeframe,
    now: i64,
    page_limit: usize,
) -> (r: Result<u64, FetchError>)
    requires
        old(store).wf(),
        page_limit >= 1,
        source_spaced(source@, spec_to_ms(timeframe) as int),
        source@.len() > 0 ==> source@.last().timestamp + spec_to_ms(timeframe) <= i64::MAX,
    ensures
        final(store).wf(),
        ({
            let tf = spec_to_ms(timeframe) as int;
            let since = spec_resume_since(
                spec_store_latest_ts(old(store).bars()),
                spec_source_first_ts(source@),
                tf,
            );
            match r {
                Ok(records) => since is Ok && records == spec_fetch_total(
                    now as int,
                    since->Ok_0,
                    tf,
                ) && (if now >= since->Ok_0 {
                    candles_eq(
                        final(store).bars(),
                        old(store).bars() + spec_source_from(source@, since->Ok_0),
                    )
                } else {
                    final(store).bars() == old(store).bars()
                }),
                Err(e) => since == Err::<int, FetchError>(e) && final(store).bars() == old(
                    store,
                ).bars(),
            }
        }),
{
    let tf_ms = timeframe.to_ms();
    proof {
        assert(spec_to_ms(timeframe) <= 2_592_000_000);
    }
    let latest_ts: Option<i64> = match store.latest() {
        Some(c) => Some(c.timestamp),
        None => None,
    };
    let first_ts: Option<i64> = if source.len() > 0 {
        Some(source[0].timestamp)
    } else {
        None
    };
    let since0 = match resume_since(latest_ts, first_ts, tf_ms) {
        Ok(v) => v,
        Err(e) => {
            return Err(e);
        },
    };
    let mut run = FetchRun::start(since0, now, tf_ms);
    if run.done {
        return Ok(run.records());
    }
    proof {
        lemma_spaced_sorted(source@, tf_ms as int);
        lemma_first_ge_props(source@, since0 as int);
    }
    let ghost bars0 = store.bars();
    let ghost cut0 = spec_first_ge(source@, since0 as int);
    proof {
        assert(source@.subrange(cut0, cut0) =~= Seq::<Candle>::empty());
        assert(store.bars() =~= bars0 + source@.subrange(cut0, cut0));
        if bars0.len() > 0 {
            assert(bars0.last().timestamp < since0);
        }
    }
    while !run.done
        invariant
            store.wf(),
            store_sorted(source@),
            source_spaced(source@, tf_ms as int),
            source@.len() > 0 ==> source@.last().timestamp + tf_ms <= i64::MAX,
            tf_ms == spec_to_ms(timeframe),
            1000 <= tf_ms <= 2_592_000_000,
            page_limit >= 1,
            run.tf_ms == tf_ms,
            run.total == spec_fetch_total(now as int, since0 as int, tf_ms as int),
            bars0 == old(store).bars(),
            cut0 == spec_first_ge(source@, since0 as int),
            0 <= cut0 <= spec_first_ge(source@, run.next_since as int) <= source@.len(),
            candles_eq(
                store.bars(),
                bars0 + source@.subrange(cut0, spec_first_ge(source@, run.next_since as int)),
            ),
            store.bars().len() > 0 ==> store.bars().last().timestamp < run.next_since,
            forall|j: int|
                0 <= j < spec_first_ge(source@, run.next_since as int) ==> (
                #[trigger] source@[j]).timestamp < run.next_since,
            forall|j: int|
                spec_first_ge(source@, run.next_since as int) <= j < source@.len() ==> (
                #[trigger] source@[j]).timestamp >= run.next_since,
            run.done ==> spec_first_ge(source@, run.next_since as int) == source@.len(),
        decreases
                source@.len() - spec_first_ge(source@, run.next_since as int),
                (if run.done {
                    0int
                } else {
                    1int
                }),
    {
        let ghost cut = spec_first_ge(source@, run.next_since as int);
        let ghost end: int = if cut + (page_limit as int) <= source@.len() {
            cut + (page_limit as int)
        } else {
            source@.len() as int
        };
        let page = source_page(source, run.next_since, page_limit);
        if page.len() == 0 {
            let _ = run.on_page(0, 0);
            proof {
                assert(end == cut);
                assert(cut == source@.len());
            }
        } else {
            let last_ts = page[page.len() - 1].timestamp;
            proof {
                assert(candle_ts_eq(page@, source@.subrange(cut, end)));
                assert(last_ts == source@[end - 1].timestamp);
                assert(source@[end - 1].timestamp <= source@.last().timestamp);
                assert(source@[end - 1].timestamp >= run.next_since);
            }
            let ghost pre_bars = store.bars();
            let ghost ns0 = run.next_since;
            let _ = run.on_page(page.len() as u64, last_ts);
            proof {
                // The page is sorted and lies beyond every stored bar.
                assert forall|a: int, b: int| 0 <= a < b < page@.len() implies (
                #[trigger] page@[a]).timestamp < (#[trigger] page@[b]).timestamp by {
                    assert(page@[a].timestamp == source@[cut + a].timestamp);
                    assert(page@[b].timestamp == source@[cut + b].timestamp);
                }
                assert forall|a: int, b: int|
                    0 <= a < pre_bars.len() && 0 <= b < page@.len() implies (
                #[trigger] pre_bars[a]).timestamp < (#[trigger] page@[b]).timestamp by {
                    assert(page@[b].timestamp == source@[cut + b].timestamp);
                    assert(source@[cut + b].timestamp >= ns0);
                    assert(pre_bars[a].timestamp <= pre_bars.last().timestamp);
                }
            }
            let ghost page_view = page@;
            store.insert_many(page);
            proof {
                lemma_store_insert_all_append(pre_bars, page_view);
                assert forall|j: int| 0 <= j < end implies (#[trigger] source@[j]).timestamp
                    < run.next_since by {
                    if j < end - 1 {
                        assert(source@[j].timestamp < source@[end - 1].timestamp);
                    }
                }
                if end < source@.len() {
                    assert(source@[end - 1].timestamp + tf_ms <= source@[end - 1 + 1].timestamp);
                }
                lemma_first_ge_at(source@, run.next_since as int, end);
                // Extend the accumulated-stream equality by the page.
                assert(candles_eq(store.bars(), bars0 + source@.subrange(cut0, end))) by {
                    assert(store.bars() =~= pre_bars + page_view);
                    let target = bars0 + source@.subrange(cut0, end);
                    assert(candles_eq(pre_bars, bars0 + source@.subrange(cut0, cut)));
                    assert(pre_bars.len() == bars0.len() + (cut - cut0));
                    assert(page_view.len() == end - cut);
                    assert forall|k: int|
                        0 <= k < store.bars().len() implies candle_eq(
                        store.bars()[k],
                        target[k],
                    ) by {
                        if k < pre_bars.len() {
                            assert(store.bars()[k] == pre_bars[k]);
                            if k < bars0.len() {
                                assert(target[k] == bars0[k]);
                                assert((bars0 + source@.subrange(cut0, cut))[k] == bars0[k]);
                            } else {
                                assert(target[k] == source@.subrange(cut0, end)[k - bars0.len()]);
                                assert(source@.subrange(cut0, end)[k - bars0.len()] == source@[cut0
                                    + k - bars0.len()]);
                                assert((bars0 + source@.subrange(cut0, cut))[k] == source@
                                    .subrange(cut0, cut)[k - bars0.len()]);
                                assert(source@.subrange(cut0, cut)[k - bars0.len()] == source@[
                                cut0 + k - bars0.len()]);
                            }
                            assert(candle_eq(
                                pre_bars[k],
                                (bars0 + source@.subrange(cut0, cut))[k],
                            ));
                        } else {
                            assert(store.bars()[k] == page_view[k - pre_bars.len()]);
                            assert(target[k] == source@.subrange(cut0, end)[k - bars0.len()]);
                            assert(source@.subrange(cut0, end)[k - bars0.len()] == source@[cut0 + k
                                - bars0.len()]);
                            assert(source@.subrange(cut, end)[k - pre_bars.len()] == source@[cut
                                + k - pre_bars.len()]);
                            assert(cut0 + k - bars0.len() == cut + k - pre_bars.len());
                            assert(candle_eq(
                                page_view[k - pre_bars.len()],
                                source@.subrange(cut, end)[k - pre_bars.len()],
                            ));
                        }
                    }
                }
            }
        }
    }
    proof {
        assert(source@.subrange(cut0, source@.len() as int) == spec_source_from(
            source@,
            since0 as int,
        ));
    }
    Ok(run.records())
}

/// Timestamp-wise equality of two streams.
pub open spec fn candle_ts_eq(a: Seq<Candle>, b: Seq<Candle>) -> bool {
    a.len() == b.len() && forall|i: int|
        0 <= i < a.len() ==> (#[trigger] a[i]).timestamp == (#[trigger] b[i]).timestamp
}

/// The newest stored bar's timestamp, if any.
pub open spec fn spec_store_latest_ts(bars: Seq<Candle>) -> Option<i64> {
    if bars.len() > 0 {
        Some(bars.last().timestamp)
    } else {
        None
    }
}

/// The source's earliest bar's timestamp, if any.
pub open spec fn spec_source_first_ts(source: Seq<Candle>) -> Option<i64> {
    if source.len() > 0 {
        Some(source[0].timestamp)
    } else {
        None
    }
}

/// Resumption idempotence: a fetch into an empty store ingests the
/// whole source stream, and a second fetch, resuming one bar past the
/// newest stored bar, finds nothing left to ingest — the stored set
/// is the same after one fetch and after two.
pub proof fn lemma_fetch_idempotent(source: Seq<Candle>, tf: int)
    requires
        tf >= 1,
        source_spaced(source, tf),
        source.len() > 0,
    ensures
        spec_source_from(source, source[0].timestamp as int) == source,
        spec_source_from(source, source.last().timestamp + tf) =~= Seq::<Candle>::empty(),
{
    lemma_spaced_sorted(source, tf);
    lemma_first_ge_at(source, source[0].timestamp as int, 0);
    assert(spec_source_from(source, source[0].timestamp as int) =~= source);
    assert forall|j: int| 0 <= j < source.len() implies (#[trigger] source[j]).timestamp
        < source.last().timestamp + tf by {
        if j < source.len() - 1 {
            lemma_spaced_chain(source, tf, j, source.len() - 1);
        }
    }
    lemma_first_ge_at(source, source.last().timestamp + tf, source.len() as int);
    assert(source.subrange(source.len() as int, source.len() as int) =~= Seq::<Candle>::empty());
}

} // verus!
