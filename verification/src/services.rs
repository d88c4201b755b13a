//! In-memory model of the candle repository: an append-only store of
//! bars for one `(exchange, symbol, timeframe)` stream, kept in
//! strictly ascending timestamp order and deduplicated on timestamp.

use crate::models::{candle_eq, Candle};
use vstd::prelude::*;

verus! {

/// Whether a bar's timestamp lies within an inclusive optional range.
pub open spec fn in_time_range(c: Candle, start: Option<i64>, end: Option<i64>) -> bool {
    (match start {
        Some(s) => c.timestamp >= s,
        None => true,
    }) && (match end {
        Some(e) => c.timestamp <= e,
        None => true,
    })
}

/// Element-wise candle equality of two streams.
pub open spec fn candles_eq(a: Seq<Candle>, b: Seq<Candle>) -> bool {
    a.len() == b.len() && forall|i: int| 0 <= i < a.len() ==> candle_eq(a[i], b[i])
}

/// Bars in strictly ascending timestamp order (so timestamps are
/// unique).
pub open spec fn store_sorted(bars: Seq<Candle>) -> bool {
    forall|i: int, j: int|
        0 <= i < j < bars.len() ==> (#[trigger] bars[i]).timestamp < (#[trigger] bars[j]).timestamp
}

/// Insert one bar into a sorted stream; a bar whose timestamp is
/// already present is dropped (the stored bar wins).
pub open spec fn spec_store_insert(bars: Seq<Candle>, c: Candle) -> Seq<Candle>
    decreases bars.len(),
{
    if bars.len() == 0 {
        seq![c]
    } else if c.timestamp < bars[0].timestamp {
        seq![c] + bars
    } else if c.timestamp == bars[0].timestamp {
        bars
    } else {
        seq![bars[0]] + spec_store_insert(bars.drop_first(), c)
    }
}

/// Insert a batch, front to back.
pub open spec fn spec_store_insert_all(bars: Seq<Candle>, batch: Seq<Candle>) -> Seq<Candle>
    decreases batch.len(),
{
    if batch.len() == 0 {
        bars
    } else {
        spec_store_insert_all(spec_store_insert(bars, batch[0]), batch.drop_first())
    }
}

/// A bar later than every stored bar lands at the end.
pub proof fn lemma_store_insert_at_end(bars: Seq<Candle>, c: Candle)
    requires
        forall|i: int| 0 <= i < bars.len() ==> (#[trigger] bars[i]).timestamp < c.timestamp,
    ensures
        spec_store_insert(bars, c) =~= bars + seq![c],
    decreases bars.len(),
{
    if bars.len() > 0 {
        lemma_store_insert_at_end(bars.drop_first(), c);
    }
}

/// Inserting a batch of bars that all lie beyond the stored stream,
/// in ascending order, appends the batch.
pub proof fn lemma_store_insert_all_append(bars: Seq<Candle>, batch: Seq<Candle>)
    requires
        store_sorted(batch),
        forall|i: int, j: int|
            0 <= i < bars.len() && 0 <= j < batch.len() ==> (#[trigger] bars[i]).timestamp < (
            #[trigger] batch[j]).timestamp,
    ensures
        spec_store_insert_all(bars, batch) =~= bars + batch,
    decreases batch.len(),
{
    if batch.len() > 0 {
        lemma_store_insert_at_end(bars, batch[0]);
        lemma_store_insert_all_append(bars + seq![batch[0]], batch.drop_first());
        assert((bars + seq![batch[0]]) + batch.drop_first() =~= bars + batch);
    }
}

/// Inserting keeps the stream sorted and its timestamp set is the
/// union of the old timestamps and the bar's.
pub proof fn lemma_store_insert_sorted(bars: Seq<Candle>, c: Candle)
    requires
        store_sorted(bars),
    ensures
        store_sorted(spec_store_insert(bars, c)),
        spec_store_insert(bars, c).len() >= bars.len(),
        forall|i: int|
            0 <= i < spec_store_insert(bars, c).len() ==> ((#[trigger] spec_store_insert(
                bars,
                c,
            )[i]).timestamp == c.timestamp || exists|j: int|
                0 <= j < bars.len() && spec_store_insert(bars, c)[i] == bars[j]),
        exists|i: int|
            0 <= i < spec_store_insert(bars, c).len() && (#[trigger] spec_store_insert(
                bars,
                c,
            )[i]).timestamp == c.timestamp,
    decreases bars.len(),
{
    let out = spec_store_insert(bars, c);
    if bars.len() == 0 {
        assert(out[0].timestamp == c.timestamp);
    } else if c.timestamp < bars[0].timestamp {
        assert(out[0].timestamp == c.timestamp);
    } else if c.timestamp == bars[0].timestamp {
        assert(out[0].timestamp == c.timestamp);
    } else {
        lemma_store_insert_sorted(bars.drop_first(), c);
        let rec = spec_store_insert(bars.drop_first(), c);
        assert forall|i: int, j: int| 0 <= i < j < out.len() implies out[i].timestamp
            < out[j].timestamp by {
            if i > 0 {
                assert(out[i] == rec[i - 1]);
                assert(out[j] == rec[j - 1]);
            } else {
                assert(out[j] == rec[j - 1]);
                if rec[j - 1].timestamp != c.timestamp {
                    let k = choose|k: int|
                        0 <= k < bars.drop_first().len() && rec[j - 1] == bars.drop_first()[k];
                    assert(bars.drop_first()[k] == bars[k + 1]);
                }
            }
        }
        assert forall|i: int|
            0 <= i < out.len() implies (out[i].timestamp == c.timestamp || exists|j: int|
            0 <= j < bars.len() && out[i] == bars[j]) by {
            if i > 0 {
                assert(out[i] == rec[i - 1]);
                if rec[i - 1].timestamp != c.timestamp {
                    let k = choose|k: int|
                        0 <= k < bars.drop_first().len() && rec[i - 1] == bars.drop_first()[k];
                    assert(out[i] == bars[k + 1]);
                }
            } else {
                assert(out[0] == bars[0]);
            }
        }
        let w = choose|i: int| 0 <= i < rec.len() && rec[i].timestamp == c.timestamp;
        assert(out[w + 1].timestamp == c.timestamp);
    }
}

/// The in-memory candle store.
#[derive(Debug)]
pub struct CandleStore {
    pub(crate) candles: Vec<Candle>,
}

impl CandleStore {
    /// The stored stream, oldest bar first.
    pub closed spec fn bars(self) -> Seq<Candle> {
        self.candles@
    }

    /// A well-formed store: strictly ascending timestamps.
    pub open spec fn wf(self) -> bool {
        store_sorted(self.bars())
    }

    /// An empty store.
    pub fn new() -> (r: CandleStore)
        ensures
            r.wf(),
            r.bars() == Seq::<Candle>::empty(),
    {
        CandleStore { candles: Vec::new() }
    }

    /// Number of stored bars.
    pub fn len(&self) -> (r: usize)
        ensures
            r == self.bars().len(),
    {
        self.candles.len()
    }

    /// The stored bars.
    pub fn all(&self) -> (r: &Vec<Candle>)
        ensures
            r@ == self.bars(),
    {
        &self.candles
    }

    /// The newest stored bar, if any.
    pub fn latest(&self) -> (r: Option<&Candle>)
        ensures
            match r {
                Some(c) => self.bars().len() > 0 && *c == self.bars().last(),
                None => self.bars().len() == 0,
            },
    {
        let n = self.candles.len();
        if n == 0 {
            None
        } else {
            Some(&self.candles[n - 1])
        }
    }

    /// Insert one bar at its timestamp position; a duplicate
    /// timestamp is dropped.
    pub fn insert(&mut self, c: Candle)
        requires
            old(self).wf(),
        ensures
            final(self).wf(),
            final(self).bars() == spec_store_insert(old(self).bars(), c),
    {
        let ghost bars = self.candles@;
        let mut i: usize = 0;
        while i < self.candles.len() && self.candles[i].timestamp < c.timestamp
            invariant
                bars == self.candles@,
                i <= bars.len(),
                forall|j: int| 0 <= j < i ==> (#[trigger] bars[j]).timestamp < c.timestamp,
            decreases bars.len() - i,
        {
            i = i + 1;
        }
        proof {
            lemma_store_insert_split(bars, c, i as int);
            lemma_store_insert_sorted(bars, c);
        }
        if i < self.candles.len() {
            let same = self.candles[i].timestamp == c.timestamp;
            if same {
                return ;
            }
        }
        self.candles.insert(i, c);
        proof {
            assert(self.candles@ =~= bars.subrange(0, i as int) + seq![c] + bars.subrange(
                i as int,
                bars.len() as int,
            ));
        }
    }

    /// Bulk insert; deduplicates on timestamp.
    pub fn insert_many(&mut self, batch: Vec<Candle>)
        requires
            old(self).wf(),
        ensures
            final(self).wf(),
            final(self).bars() == spec_store_insert_all(old(self).bars(), batch@),
    {
        let mut rest = batch;
        while rest.len() > 0
            invariant
                self.wf(),
                spec_store_insert_all(self.bars(), rest@) == spec_store_insert_all(
                    old(self).bars(),
                    batch@,
                ),
            decreases rest@.len(),
        {
            let ghost prev = rest@;
            let c = rest.remove(0);
            proof {
                assert(prev.remove(0) =~= prev.drop_first());
            }
            self.insert(c);
        }
    }

    /// Stored bars within the inclusive time range, oldest first
    /// (returned as copies).
    pub fn range(&self, start: Option<i64>, end: Option<i64>) -> (r: Vec<Candle>)
        ensures
            candles_eq(r@, self.bars().filter(|c: Candle| in_time_range(c, start, end))),
    {
        let mut out: Vec<Candle> = Vec::new();
        let mut i: usize = 0;
        while i < self.candles.len()
            invariant
                i <= self.candles@.len(),
                candles_eq(
                    out@,
                    self.candles@.subrange(0, i as int).filter(
                        |c: Candle| in_time_range(c, start, end),
                    ),
                ),
            decreases self.candles@.len() - i,
        {
            let c = &self.candles[i];
            let keep = (match start {
                Some(s) => c.timestamp >= s,
                None => true,
            }) && (match end {
                Some(e) => c.timestamp <= e,
                None => true,
            });
            proof {
                assert(self.candles@.subrange(0, i + 1).drop_last() =~= self.candles@.subrange(
                    0,
                    i as int,
                ));
                assert(self.candles@.subrange(0, i + 1).last() == self.candles@[i as int]);
                reveal(Seq::filter);
            }
            if keep {
                out.push(c.duplicate());
            }
            i = i + 1;
        }
        proof {
            assert(self.candles@.subrange(0, self.candles@.len() as int) =~= self.candles@);
        }
        out
    }
}

/// `spec_store_insert` on a sorted stream splits at the first index
/// whose timestamp is not below the bar's.
pub proof fn lemma_store_insert_split(bars: Seq<Candle>, c: Candle, i: int)
    requires
        store_sorted(bars),
        0 <= i <= bars.len(),
        forall|j: int| 0 <= j < i ==> (#[trigger] bars[j]).timestamp < c.timestamp,
        i < bars.len() ==> bars[i].timestamp >= c.timestamp,
    ensures
        i < bars.len() && bars[i].timestamp == c.timestamp ==> spec_store_insert(bars, c) == bars,
        !(i < bars.len() && bars[i].timestamp == c.timestamp) ==> spec_store_insert(bars, c)
            =~= bars.subrange(0, i) + seq![c] + bars.subrange(i, bars.len() as int),
    decreases i,
{
    if i == 0 {
        if bars.len() == 0 {
        } else if c.timestamp < bars[0].timestamp {
            assert(spec_store_insert(bars, c) =~= bars.subrange(0, 0) + seq![c] + bars.subrange(
                0,
                bars.len() as int,
            ));
        }
    } else {
        lemma_store_insert_split(bars.drop_first(), c, i - 1);
        if i < bars.len() && bars[i].timestamp == c.timestamp {
            assert(bars.drop_first()[i - 1] == bars[i]);
            assert(spec_store_insert(bars.drop_first(), c) == bars.drop_first());
            assert(spec_store_insert(bars, c) =~= bars);
        } else {
            assert(spec_store_insert(bars, c) =~= bars.subrange(0, i) + seq![c] + bars.subrange(
                i,
                bars.len() as int,
            ));
        }
    }
}

} // verus!
