//! The market-data snapshot store: one snapshot per subscribed symbol, kept up
//! to date from the feed.
use vstd::prelude::*;
use vstd::string::*;

use crate::decimal::{dec_less, dec_lt, lemma_dec_le_trans, Dec};
use crate::platform::positions::OptionType;
use crate::text::{push_char, str_eq};
use crate::tt_api::mktdata::{FeedEvent, Greeks, Quote, QuoteView};

verus! {

/// How long a snapshot may go without an update before it is reported stale
/// (30 seconds, in nanoseconds).
pub const STALE_AFTER_NANOS: u64 = 30_000_000_000;

/// The latest market data of one subscribed symbol.
#[derive(Debug)]
pub struct Snapshot {
    pub symbol: String,
    pub underlying: String,
    pub streamer_symbol: String,
    /// When the snapshot was last updated (monotonic clock, nanoseconds).
    pub last_update: u64,
    pub strike_price: Option<Dec>,
    pub quote: Option<Quote>,
    pub greeks: Option<Greeks>,
}

/// The mathematical content of a snapshot.
pub struct SnapshotView {
    pub symbol: Seq<char>,
    pub underlying: Seq<char>,
    pub streamer_symbol: Seq<char>,
    pub last_update: u64,
    pub strike_price: Option<Dec>,
    pub quote: Option<QuoteView>,
    pub greeks: Option<Seq<char>>,
}

impl View for Snapshot {
    type V = SnapshotView;

    open spec fn view(&self) -> SnapshotView {
        SnapshotView {
            symbol: self.symbol@,
            underlying: self.underlying@,
            streamer_symbol: self.streamer_symbol@,
            last_update: self.last_update,
            strike_price: self.strike_price,
            quote: match self.quote {
                Some(q) => Some(q@),
                None => None,
            },
            greeks: match self.greeks {
                Some(g) => Some(g.event_symbol@),
                None => None,
            },
        }
    }
}

impl Snapshot {
    /// Quotes and strikes held are well formed.
    pub open spec fn wf(self) -> bool {
        &&& self.quote matches Some(q) ==> q.wf()
        &&& self.strike_price matches Some(k) ==> k.wf()
    }

    /// A copy of the snapshot.
    pub fn copy(&self) -> (r: Snapshot)
        ensures
            r@ == self@,
            self.wf() ==> r.wf(),
    {
        Snapshot {
            symbol: self.symbol.clone(),
            underlying: self.underlying.clone(),
            streamer_symbol: self.streamer_symbol.clone(),
            last_update: self.last_update,
            strike_price: self.strike_price,
            quote: match &self.quote {
                Some(q) => Some(q.copy()),
                None => None,
            },
            greeks: match &self.greeks {
                Some(g) => Some(g.copy()),
                None => None,
            },
        }
    }

    /// The snapshot's quote mid-point, or zero without a quote.
    pub open spec fn spec_mid_price(self) -> Dec {
        match self.quote {
            Some(q) => q.mid_price,
            None => Dec { mantissa: 0, scale: 0 },
        }
    }

    /// The snapshot's quote mid-point, or zero without a quote.
    pub fn mid_price(&self) -> (m: Dec)
        requires
            self.wf(),
        ensures
            m == self.spec_mid_price(),
            m.wf(),
    {
        match &self.quote {
            Some(q) => q.midprice(),
            None => Dec::zero(),
        }
    }
}

/// The views of snapshots.
pub open spec fn snapshots_view(s: Seq<Snapshot>) -> Seq<SnapshotView> {
    s.map_values(|x: Snapshot| x@)
}

/// Every snapshot of the sequence is well formed.
pub open spec fn all_wf(s: Seq<Snapshot>) -> bool {
    forall|i: int| 0 <= i < s.len() ==> (#[trigger] s[i]).wf()
}

/// The index of the first snapshot for `symbol`, if any.
pub open spec fn first_with_symbol(s: Seq<SnapshotView>, symbol: Seq<char>) -> Option<int> {
    if exists|i: int| 0 <= i < s.len() && #[trigger] s[i].symbol == symbol {
        Some(
            choose|i: int|
                0 <= i < s.len() && s[i].symbol == symbol && forall|j: int|
                    0 <= j < i ==> #[trigger] s[j].symbol != symbol,
        )
    } else {
        None
    }
}

/// The snapshots of the options on `symbol`: those whose underlying is
/// `symbol` and that are not `symbol` itself, in store order.
pub open spec fn options_of(s: Seq<SnapshotView>, symbol: Seq<char>) -> Seq<SnapshotView> {
    s.filter(|x: SnapshotView| x.underlying == symbol && x.symbol != symbol)
}

/// The strike of a snapshot (zero where it has none).
pub open spec fn strike_of(x: SnapshotView) -> Dec {
    match x.strike_price {
        Some(k) => k,
        None => Dec { mantissa: 0, scale: 0 },
    }
}

/// Inserts `x` into snapshots sorted by strike, lowest first, after every
/// snapshot whose strike is at most `x`'s.
pub open spec fn insert_by_strike_asc(sorted: Seq<SnapshotView>, x: SnapshotView) -> Seq<
    SnapshotView,
>
    decreases sorted.len(),
{
    if sorted.len() == 0 {
        seq![x]
    } else if dec_less(strike_of(x), strike_of(sorted.last())) {
        insert_by_strike_asc(sorted.drop_last(), x).push(sorted.last())
    } else {
        sorted.push(x)
    }
}

/// The stable sort of snapshots by strike, lowest first.
pub open spec fn sort_by_strike_asc(s: Seq<SnapshotView>) -> Seq<SnapshotView>
    decreases s.len(),
{
    if s.len() == 0 {
        s
    } else {
        insert_by_strike_asc(sort_by_strike_asc(s.drop_last()), s.last())
    }
}

/// Sorting the option snapshots needs a strike that one of them lacks (two
/// or more snapshots are compared, so every one of them is read).
pub open spec fn grouping_panics(s: Seq<SnapshotView>, symbol: Seq<char>) -> bool {
    let g = options_of(s, symbol);
    g.len() >= 2 && exists|i: int| 0 <= i < g.len() && (#[trigger] g[i]).strike_price is None
}

/// A snapshot after the feed events, in order: the last quote and the last
/// greeks for its streamer symbol replace its own, and any matching event
/// stamps it with `now`.
pub open spec fn apply_events(x: SnapshotView, events: Seq<FeedEvent>, now: u64) -> SnapshotView
    decreases events.len(),
{
    if events.len() == 0 {
        x
    } else {
        let y = apply_events(x, events.drop_last(), now);
        let e = events.last();
        if e.symbol() != y.streamer_symbol {
            y
        } else {
            match e {
                FeedEvent::QuoteEvent(q) => SnapshotView { quote: Some(q@), last_update: now, ..y },
                FeedEvent::GreeksEvent(g) => SnapshotView {
                    greeks: Some(g.event_symbol@),
                    last_update: now,
                    ..y
                },
            }
        }
    }
}

/// The snapshot has gone more than 30 seconds without an update.
pub open spec fn is_stale(x: SnapshotView, now: u64) -> bool {
    (if now >= x.last_update {
        now - x.last_update
    } else {
        0
    }) > STALE_AFTER_NANOS
}

/// The snapshot store.
pub struct MktData {
    pub events: Vec<Snapshot>,
}

impl MktData {
    /// The snapshots held, in subscription order.
    pub open spec fn view(&self) -> Seq<SnapshotView> {
        snapshots_view(self.events@)
    }

    /// Every snapshot is well formed.
    pub open spec fn wf(&self) -> bool {
        all_wf(self.events@)
    }

    /// An empty store.
    pub fn new() -> (m: MktData)
        ensures
            m.view() == Seq::<SnapshotView>::empty(),
            m.wf(),
    {
        let m = MktData { events: Vec::new() };
        assert(m.view() =~= Seq::<SnapshotView>::empty());
        m
    }

    /// Records a new subscription: a snapshot with no market data yet.
    pub fn stash_subscription(
        &mut self,
        symbol: &str,
        underlying: &str,
        streamer_symbol: &str,
        strike_price: Option<Dec>,
        now: u64,
    )
        requires
            old(self).wf(),
            strike_price matches Some(k) ==> k.wf(),
        ensures
            final(self).wf(),
            final(self).view() == old(self).view().push(
                SnapshotView {
                    symbol: symbol@,
                    underlying: underlying@,
                    streamer_symbol: streamer_symbol@,
                    last_update: now,
                    strike_price,
                    quote: None,
                    greeks: None,
                },
            ),
    {
        let snapshot = Snapshot {
            symbol: symbol.to_string(),
            underlying: underlying.to_string(),
            streamer_symbol: streamer_symbol.to_string(),
            last_update: now,
            strike_price,
            quote: None,
            greeks: None,
        };
        let ghost before = self.events@;
        self.events.push(snapshot);
        proof {
            assert(self.view() =~= snapshots_view(before).push(snapshot@));
            assert forall|i: int| 0 <= i < self.events@.len() implies (
            #[trigger] self.events@[i]).wf() by {
                if i < before.len() {
                    assert(self.events@[i] == before[i]);
                }
            }
        }
    }

    /// A copy of the first snapshot for `symbol`.
    pub fn get_snapshot_by_symbol(&self, symbol: &str) -> (r: Option<Snapshot>)
        requires
            self.wf(),
        ensures
            r is Some <==> first_with_symbol(self.view(), symbol@) is Some,
            r matches Some(x) ==> x@ == self.view()[first_with_symbol(self.view(), symbol@)->0]
                && x.wf(),
    {
        let mut i: usize = 0;
        while i < self.events.len()
            invariant
                0 <= i <= self.events.len(),
                self.wf(),
                forall|j: int| 0 <= j < i ==> #[trigger] self.view()[j].symbol != symbol@,
            decreases self.events.len() - i,
        {
            if str_eq(self.events[i].symbol.as_str(), symbol) {
                proof {
                    let v = self.view();
                    assert(v[i as int].symbol == symbol@);
                    let c = first_with_symbol(v, symbol@)->0;
                    assert(0 <= c < v.len() && v[c].symbol == symbol@);
                    if c < i {
                        assert(v[c].symbol != symbol@);
                    }
                    if c > i {
                        assert(v[i as int].symbol != symbol@);
                    }
                    assert(self.events@[i as int].wf());
                }
                return Some(self.events[i].copy());
            }
            i = i + 1;
        }
        None
    }

    /// Applies a message of feed events to every snapshot, stamping the
    /// updated ones with `now`.
    pub fn handle_msg(&mut self, msg: &Vec<FeedEvent>, now: u64)
        requires
            old(self).wf(),
            forall|k: int| 0 <= k < msg.len() ==> (#[trigger] msg@[k]).wf(),
        ensures
            final(self).wf(),
            final(self).view().len() == old(self).view().len(),
            forall|i: int|
                0 <= i < old(self).view().len() ==> #[trigger] final(self).view()[i]
                    == apply_events(old(self).view()[i], msg@, now),
            final(self).view() == store_after_events(old(self).view(), msg@, now),
    {
        let ghost before = self.view();
        let mut i: usize = 0;
        while i < self.events.len()
            invariant
                0 <= i <= self.events.len(),
                self.view().len() == before.len(),
                self.wf(),
                forall|k: int| 0 <= k < msg.len() ==> (#[trigger] msg@[k]).wf(),
                forall|j: int|
                    0 <= j < i ==> #[trigger] self.view()[j] == apply_events(before[j], msg@, now),
                forall|j: int| i <= j < before.len() ==> #[trigger] self.view()[j] == before[j],
            decreases self.events.len() - i,
        {
            let mut snap = self.events[i].copy();
            proof {
                assert(self.events@[i as int].wf());
                assert(self.view()[i as int] == self.events@[i as int]@);
            }
            let ghost x0 = snap@;
            let mut k: usize = 0;
            assert(msg@.take(0) =~= Seq::<FeedEvent>::empty());
            while k < msg.len()
                invariant
                    0 <= k <= msg.len(),
                    snap.wf(),
                    forall|t: int| 0 <= t < msg.len() ==> (#[trigger] msg@[t]).wf(),
                    snap@ == apply_events(x0, msg@.take(k as int), now),
                decreases msg.len() - k,
            {
                proof {
                    assert(msg@.take(k + 1).drop_last() =~= msg@.take(k as int));
                    assert(msg@.take(k + 1).last() == msg@[k as int]);
                }
                match &msg[k] {
                    FeedEvent::QuoteEvent(q) => {
                        if str_eq(q.event_symbol.as_str(), snap.streamer_symbol.as_str()) {
                            assert(msg@[k as int].wf());
                            snap.quote = Some(q.copy());
                            snap.last_update = now;
                        }
                    },
                    FeedEvent::GreeksEvent(g) => {
                        if str_eq(g.event_symbol.as_str(), snap.streamer_symbol.as_str()) {
                            snap.greeks = Some(g.copy());
                            snap.last_update = now;
                        }
                    },
                }
                k = k + 1;
            }
            assert(msg@.take(msg.len() as int) =~= msg@);
            let ghost pre = self.events@;
            self.events.set(i, snap);
            proof {
                assert(self.events@ == pre.update(i as int, snap));
                assert forall|j: int| 0 <= j < self.events@.len() implies (
                #[trigger] self.events@[j]).wf() by {
                    if j != i {
                        assert(self.events@[j] == pre[j]);
                    }
                }
                assert forall|j: int| 0 <= j < i + 1 implies #[trigger] self.view()[j]
                    == apply_events(before[j], msg@, now) by {
                    assert(self.view()[j] == self.events@[j]@);
                    if j < i {
                        assert(self.events@[j] == pre[j]);
                        assert(snapshots_view(pre)[j] == pre[j]@);
                    }
                }
                assert forall|j: int| i + 1 <= j < before.len() implies #[trigger] self.view()[j]
                    == before[j] by {
                    assert(self.view()[j] == self.events@[j]@);
                    assert(self.events@[j] == pre[j]);
                    assert(snapshots_view(pre)[j] == pre[j]@);
                }
            }
            i = i + 1;
        }
        assert(self.view() =~= store_after_events(before, msg@, now));
    }

    /// Finds the snapshots that have gone stale, restarts their clocks, and
    /// returns their streamer symbols (which the caller reports).
    pub fn refresh_stale(&mut self, now: u64) -> (stale: Vec<String>)
        requires
            old(self).wf(),
        ensures
            final(self).wf(),
            final(self).view().len() == old(self).view().len(),
            forall|i: int|
                0 <= i < old(self).view().len() ==> #[trigger] final(self).view()[i] == (if is_stale(
                    old(self).view()[i],
                    now,
                ) {
                    SnapshotView { last_update: now, ..old(self).view()[i] }
                } else {
                    old(self).view()[i]
                }),
            stale@.map_values(|s: String| s@) == old(self).view().filter(
                |x: SnapshotView| is_stale(x, now),
            ).map_values(|x: SnapshotView| x.streamer_symbol),
    {
        let ghost before = self.view();
        let mut out: Vec<String> = Vec::new();
        let mut i: usize = 0;
        assert(before.take(0).filter(|x: SnapshotView| is_stale(x, now)) =~= Seq::<
            SnapshotView,
        >::empty());
        while i < self.events.len()
            invariant
                0 <= i <= self.events.len(),
                self.view().len() == before.len(),
                self.wf(),
                forall|j: int|
                    0 <= j < i ==> #[trigger] self.view()[j] == (if is_stale(before[j], now) {
                        SnapshotView { last_update: now, ..before[j] }
                    } else {
                        before[j]
                    }),
                forall|j: int| i <= j < before.len() ==> #[trigger] self.view()[j] == before[j],
                out@.map_values(|s: String| s@) == before.take(i as int).filter(
                    |x: SnapshotView| is_stale(x, now),
                ).map_values(|x: SnapshotView| x.streamer_symbol),
            decreases self.events.len() - i,
        {
            let last = self.events[i].last_update;
            let elapsed: u64 = if now >= last {
                now - last
            } else {
                0
            };
            let ghost out_before = out@;
            proof {
                assert(before.take(i + 1).drop_last() =~= before.take(i as int));
                assert(before.take(i + 1).last() == before[i as int]);
                assert(self.view()[i as int] == before[i as int]);
            }
            if elapsed > STALE_AFTER_NANOS {
                out.push(self.events[i].streamer_symbol.clone());
                let mut snap = self.events[i].copy();
                proof {
                    assert(self.events@[i as int].wf());
                }
                snap.last_update = now;
                let ghost pre = self.events@;
                self.events.set(i, snap);
                proof {
                    assert(self.events@ == pre.update(i as int, snap));
                    assert forall|j: int| 0 <= j < self.events@.len() implies (
                    #[trigger] self.events@[j]).wf() by {
                        if j != i {
                            assert(self.events@[j] == pre[j]);
                        }
                    }
                    assert forall|j: int| 0 <= j < i + 1 implies #[trigger] self.view()[j] == (
                    if is_stale(before[j], now) {
                        SnapshotView { last_update: now, ..before[j] }
                    } else {
                        before[j]
                    }) by {
                        assert(self.view()[j] == self.events@[j]@);
                        if j < i {
                            assert(self.events@[j] == pre[j]);
                            assert(snapshots_view(pre)[j] == pre[j]@);
                        } else {
                            assert(snapshots_view(pre)[j] == pre[j]@);
                        }
                    }
                    assert forall|j: int| i + 1 <= j < before.len() implies #[trigger] self.view()[j]
                        == before[j] by {
                        assert(self.view()[j] == self.events@[j]@);
                        assert(self.events@[j] == pre[j]);
                        assert(snapshots_view(pre)[j] == pre[j]@);
                    }
                    reveal_with_fuel(Seq::filter, 1);
                    assert(out@.map_values(|s: String| s@) =~= out_before.map_values(
                        |s: String| s@,
                    ).push(before[i as int].streamer_symbol));
                }
            } else {
                proof {
                    reveal_with_fuel(Seq::filter, 1);
                }
            }
            i = i + 1;
        }
        assert(before.take(before.len() as int) =~= before);
        out
    }
}

/// Every strike is present and well formed.
pub open spec fn strikes_present(s: Seq<SnapshotView>) -> bool {
    forall|i: int|
        0 <= i < s.len() ==> (#[trigger] s[i]).strike_price is Some && s[i].strike_price->0.wf()
}

/// Inserting keeps the strikes present and adds one snapshot.
proof fn lemma_insert_asc(sorted: Seq<SnapshotView>, x: SnapshotView)
    requires
        strikes_present(sorted),
        strikes_present(seq![x]),
    ensures
        strikes_present(insert_by_strike_asc(sorted, x)),
        insert_by_strike_asc(sorted, x).len() == sorted.len() + 1,
    decreases sorted.len(),
{
    assert(seq![x][0] == x);
    if sorted.len() > 0 && dec_less(strike_of(x), strike_of(sorted.last())) {
        lemma_insert_asc(sorted.drop_last(), x);
        let r = insert_by_strike_asc(sorted.drop_last(), x);
        assert forall|i: int| 0 <= i < r.push(sorted.last()).len() implies (#[trigger] r.push(
            sorted.last(),
        )[i]).strike_price is Some && r.push(sorted.last())[i].strike_price->0.wf() by {
            if i < r.len() {
                assert(r.push(sorted.last())[i] == r[i]);
            } else {
                assert(sorted.last() == sorted[sorted.len() - 1]);
            }
        }
    } else if sorted.len() > 0 {
        assert forall|i: int| 0 <= i < sorted.push(x).len() implies (#[trigger] sorted.push(
            x,
        )[i]).strike_price is Some && sorted.push(x)[i].strike_price->0.wf() by {
            if i < sorted.len() {
                assert(sorted.push(x)[i] == sorted[i]);
            }
        }
    }
}

/// Sorting keeps the strikes present.
proof fn lemma_sort_asc_present(s: Seq<SnapshotView>)
    requires
        strikes_present(s),
    ensures
        strikes_present(sort_by_strike_asc(s)),
    decreases s.len(),
{
    if s.len() > 0 {
        assert forall|i: int| 0 <= i < s.drop_last().len() implies (
        #[trigger] s.drop_last()[i]).strike_price is Some && s.drop_last()[i].strike_price->0.wf() by {
            assert(s.drop_last()[i] == s[i]);
        }
        lemma_sort_asc_present(s.drop_last());
        assert(seq![s.last()][0] == s.last());
        assert(s.last() == s[s.len() - 1]);
        lemma_insert_asc(sort_by_strike_asc(s.drop_last()), s.last());
    }
}

impl MktData {
    /// Inserts `x` into `out`, which holds snapshots sorted by strike, lowest first.
    fn insert_asc(out: &mut Vec<Snapshot>, x: Snapshot)
        requires
            all_wf(old(out)@),
            x.wf(),
            old(out).len() > 0 ==> strikes_present(snapshots_view(old(out)@)) && x.strike_price is Some,
        ensures
            snapshots_view(final(out)@) == insert_by_strike_asc(snapshots_view(old(out)@), x@),
            all_wf(final(out)@),
    {
        let ghost target = insert_by_strike_asc(snapshots_view(out@), x@);
        let mut tail: Vec<Snapshot> = Vec::new();
        let ghost all0 = out@;
        while out.len() > 0 && dec_lt(
            &x.strike_price.unwrap(),
            &out[out.len() - 1].strike_price.unwrap(),
        )
            invariant
                all_wf(out@),
                all_wf(tail@),
                x.wf(),
                out.len() > 0 ==> strikes_present(snapshots_view(out@)) && x.strike_price is Some,
                target == insert_by_strike_asc(snapshots_view(out@), x@) + snapshots_view(tail@),
            decreases out.len(),
        {
            let ghost before = snapshots_view(out@);
            let ghost bw = out@;
            let ghost tail_before = snapshots_view(tail@);
            let ghost tw = tail@;
            let last = out.pop().unwrap();
            proof {
                assert(snapshots_view(out@) =~= before.drop_last());
                assert(before.last() == last@);
                assert(before[before.len() - 1] == last@);
                assert(bw[bw.len() - 1] == last);
                assert(all_wf(out@)) by {
                    assert forall|i: int| 0 <= i < out@.len() implies (#[trigger] out@[i]).wf() by {
                        assert(out@[i] == bw[i]);
                    }
                }
                assert(out.len() > 0 ==> strikes_present(snapshots_view(out@))) by {
                    assert forall|i: int| 0 <= i < snapshots_view(out@).len() implies (
                    #[trigger] snapshots_view(out@)[i]).strike_price is Some && snapshots_view(
                        out@,
                    )[i].strike_price->0.wf() by {
                        assert(snapshots_view(out@)[i] == before[i]);
                    }
                }
            }
            tail.insert(0, last);
            proof {
                assert(snapshots_view(tail@) =~= seq![last@] + tail_before);
                assert forall|i: int| 0 <= i < tail@.len() implies (#[trigger] tail@[i]).wf() by {
                    if i > 0 {
                        assert(tail@[i] == tw[i - 1]);
                    }
                }
                assert(strike_of(x@) == x.strike_price.unwrap());
                assert(insert_by_strike_asc(before, x@) == insert_by_strike_asc(
                    before.drop_last(),
                    x@,
                ).push(before.last()));
                assert(insert_by_strike_asc(before.drop_last(), x@).push(before.last())
                    + tail_before =~= insert_by_strike_asc(before.drop_last(), x@) + (seq![
                    before.last(),
                ] + tail_before));
            }
        }
        let ghost before = snapshots_view(out@);
        let ghost bw = out@;
        proof {
            if before.len() > 0 {
                assert(before.last() == before[before.len() - 1]);
                assert(strike_of(x@) == x.strike_price.unwrap());
            }
        }
        out.push(x);
        proof {
            assert(snapshots_view(out@) =~= insert_by_strike_asc(before, x@));
            assert forall|i: int| 0 <= i < out@.len() implies (#[trigger] out@[i]).wf() by {
                if i < bw.len() {
                    assert(out@[i] == bw[i]);
                }
            }
        }
        while tail.len() > 0
            invariant
                target == snapshots_view(out@) + snapshots_view(tail@),
                all_wf(out@),
                all_wf(tail@),
            decreases tail.len(),
        {
            let ghost o = snapshots_view(out@);
            let ghost ow = out@;
            let ghost t = snapshots_view(tail@);
            let ghost tw = tail@;
            let first = tail.remove(0);
            proof {
                assert(tw[0] == first);
            }
            out.push(first);
            proof {
                assert(snapshots_view(out@) =~= o.push(t[0]));
                assert(snapshots_view(tail@) =~= t.drop_first());
                assert(o + t =~= o.push(t[0]) + t.drop_first());
                assert forall|i: int| 0 <= i < out@.len() implies (#[trigger] out@[i]).wf() by {
                    if i < ow.len() {
                        assert(out@[i] == ow[i]);
                    }
                }
                assert forall|i: int| 0 <= i < tail@.len() implies (#[trigger] tail@[i]).wf() by {
                    assert(tail@[i] == tw[i + 1]);
                }
            }
        }
        assert(snapshots_view(tail@) =~= Seq::<SnapshotView>::empty());
        assert(target =~= snapshots_view(out@));
    }

    /// The snapshots of the options on `symbol`, sorted by strike, lowest
    /// first (copies).
    pub fn group_snapshots_by_underlying(&self, symbol: &str) -> (r: Vec<Snapshot>)
        requires
            self.wf(),
            !grouping_panics(self.view(), symbol@),
        ensures
            snapshots_view(r@) == sort_by_strike_asc(options_of(self.view(), symbol@)),
            all_wf(r@),
    {
        let ghost v = self.view();
        let ghost pred = |x: SnapshotView| x.underlying == symbol@ && x.symbol != symbol@;
        let mut g: Vec<Snapshot> = Vec::new();
        let mut i: usize = 0;
        assert(v.take(0).filter(pred) =~= Seq::<SnapshotView>::empty());
        while i < self.events.len()
            invariant
                0 <= i <= self.events.len(),
                v == self.view(),
                self.wf(),
                pred == (|x: SnapshotView| x.underlying == symbol@ && x.symbol != symbol@),
                snapshots_view(g@) == v.take(i as int).filter(pred),
                all_wf(g@),
            decreases self.events.len() - i,
        {
            proof {
                assert(v.take(i + 1).drop_last() =~= v.take(i as int));
                assert(v.take(i + 1).last() == v[i as int]);
                assert(v[i as int] == self.events@[i as int]@);
                reveal_with_fuel(Seq::filter, 1);
            }
            if str_eq(self.events[i].underlying.as_str(), symbol) && !str_eq(
                self.events[i].symbol.as_str(),
                symbol,
            ) {
                let ghost gb = snapshots_view(g@);
                let ghost gw = g@;
                assert(self.events@[i as int].wf());
                g.push(self.events[i].copy());
                proof {
                    assert(snapshots_view(g@) =~= gb.push(v[i as int]));
                    assert forall|k: int| 0 <= k < g@.len() implies (#[trigger] g@[k]).wf() by {
                        if k < gw.len() {
                            assert(g@[k] == gw[k]);
                        }
                    }
                }
            }
            i = i + 1;
        }
        assert(v.take(v.len() as int) =~= v);
        let ghost gv = snapshots_view(g@);
        assert(gv == options_of(v, symbol@));
        proof {
            if gv.len() >= 2 {
                assert forall|k: int| 0 <= k < gv.len() implies (#[trigger] gv[k]).strike_price is Some
                    && gv[k].strike_price->0.wf() by {
                    assert(gv[k] == g@[k]@);
                    assert(g@[k].wf());
                }
            }
        }
        // insertion sort, stable, ascending by strike
        let ghost orig = gv;
        let ghost ow = g@;
        let mut src = g;
        let mut out: Vec<Snapshot> = Vec::new();
        let n = src.len();
        let mut k: usize = 0;
        assert(orig.take(0) =~= Seq::<SnapshotView>::empty());
        assert(snapshots_view(src@) =~= orig.skip(0));
        while k < n
            invariant
                n == orig.len(),
                0 <= k <= n,
                src.len() == n - k,
                snapshots_view(src@) == orig.skip(k as int),
                all_wf(src@),
                snapshots_view(out@) == sort_by_strike_asc(orig.take(k as int)),
                all_wf(out@),
                n >= 2 ==> strikes_present(orig),
            decreases n - k,
        {
            let ghost s_before = snapshots_view(src@);
            let ghost sw = src@;
            let x = src.remove(0);
            proof {
                assert(sw[0] == x);
                assert(x@ == s_before[0]);
                assert(s_before[0] == orig[k as int]);
                assert(snapshots_view(src@) =~= s_before.drop_first());
                assert(s_before.drop_first() =~= orig.skip(k + 1));
                assert forall|t: int| 0 <= t < src@.len() implies (#[trigger] src@[t]).wf() by {
                    assert(src@[t] == sw[t + 1]);
                }
                assert(orig.take(k + 1).drop_last() =~= orig.take(k as int));
                assert(orig.take(k + 1).last() == orig[k as int]);
                if k > 0 {
                    assert(n >= 2);
                    assert(strikes_present(orig.take(k as int))) by {
                        assert forall|t: int| 0 <= t < orig.take(k as int).len() implies (
                        #[trigger] orig.take(k as int)[t]).strike_price is Some && orig.take(
                            k as int,
                        )[t].strike_price->0.wf() by {
                            assert(orig.take(k as int)[t] == orig[t]);
                        }
                    }
                    lemma_sort_asc_present(orig.take(k as int));
                    assert(x.strike_price is Some);
                }
            }
            Self::insert_asc(&mut out, x);
            k = k + 1;
        }
        assert(orig.take(n as int) =~= orig);
        out
    }
}

/// An uppercase hexadecimal digit.
pub open spec fn hex_digit(n: u8) -> char {
    if n < 10 {
        (n + 48) as char
    } else {
        (n + 55) as char
    }
}

/// A byte escaped in a URL: `%` and its two uppercase hexadecimal digits.
pub open spec fn escaped_byte(b: u8) -> Seq<char> {
    seq!['%', hex_digit(b / 16), hex_digit(b % 16)]
}

/// The bytes a path segment escapes: the control characters, space, `/` and
/// every byte outside ASCII.
pub open spec fn escaped_in_path(b: u8) -> bool {
    b < 0x20 || b >= 0x7F || b == 0x20 || b == 0x2F
}

/// A text's UTF-8 bytes as a path segment: escaped bytes percent-encoded,
/// the others kept.
pub open spec fn path_encoded(bytes: Seq<u8>) -> Seq<char>
    decreases bytes.len(),
{
    if bytes.len() == 0 {
        Seq::empty()
    } else {
        let rest = path_encoded(bytes.drop_last());
        if escaped_in_path(bytes.last()) {
            rest + escaped_byte(bytes.last())
        } else {
            rest.push(bytes.last() as char)
        }
    }
}

/// `percent_encoding::percent_encode_byte`: the crate's table entry for a
/// byte, `%` followed by its two uppercase hexadecimal digits.
#[verifier::external_body]
fn percent_encode_byte(b: u8) -> (r: &'static str)
    ensures
        r@ == escaped_byte(b),
{
    percent_encoding::percent_encode_byte(b)
}

/// Percent-encodes a symbol for use as a path segment.
pub fn encode_path_segment(symbol: &str) -> (r: String)
    ensures
        r@ == path_encoded(symbol.spec_bytes()),
{
    let bytes = symbol.as_bytes();
    let mut out = String::new();
    let mut i: usize = 0;
    assert(bytes@.take(0) =~= Seq::<u8>::empty());
    while i < bytes.len()
        invariant
            0 <= i <= bytes.len(),
            bytes@ == symbol.spec_bytes(),
            out@ == path_encoded(bytes@.take(i as int)),
        decreases bytes.len() - i,
    {
        let b = bytes[i];
        proof {
            assert(bytes@.take(i + 1).drop_last() =~= bytes@.take(i as int));
            assert(bytes@.take(i + 1).last() == b);
        }
        if b < 0x20 || b >= 0x7F || b == 0x20 || b == 0x2F {
            out.append(percent_encode_byte(b));
        } else {
            push_char(&mut out, b as char);
        }
        i = i + 1;
    }
    assert(bytes@.take(bytes.len() as int) =~= bytes@);
    out
}

/// The instruments path the broker lists an instrument type under.
pub open spec fn instruments_path(t: OptionType) -> Seq<char> {
    match t {
        OptionType::Equity => "instruments/equities/"@,
        OptionType::Future => "instruments/futures/"@,
        OptionType::EquityOption => "instruments/equity-options/"@,
        OptionType::FutureOption => "instruments/future-options/"@,
    }
}

/// The endpoint that describes an instrument (and names its streamer
/// symbol): the instrument type's path and the percent-encoded symbol.
pub fn streamer_symbol_endpoint(symbol: &str, instrument_type: OptionType) -> (r: String)
    ensures
        r@ == instruments_path(instrument_type) + path_encoded(symbol.spec_bytes()),
{
    let mut r = match instrument_type {
        OptionType::Equity => "instruments/equities/".to_string(),
        OptionType::Future => "instruments/futures/".to_string(),
        OptionType::EquityOption => "instruments/equity-options/".to_string(),
        OptionType::FutureOption => "instruments/future-options/".to_string(),
    };
    let encoded = encode_path_segment(symbol);
    r.append(encoded.as_str());
    r
}

/// Snapshots ordered by strike, lowest first.
pub open spec fn strikes_ascending(s: Seq<SnapshotView>) -> bool {
    forall|i: int, j: int|
        0 <= i < j < s.len() ==> !dec_less(strike_of(#[trigger] s[j]), strike_of(#[trigger] s[i]))
}

/// Inserting into snapshots ordered by strike keeps them ordered, adds
/// exactly the new snapshot, and brings in nothing else.
proof fn lemma_insert_by_strike_asc_sorted(sorted: Seq<SnapshotView>, x: SnapshotView)
    requires
        strikes_ascending(sorted),
    ensures
        strikes_ascending(insert_by_strike_asc(sorted, x)),
        insert_by_strike_asc(sorted, x).to_multiset() =~= sorted.to_multiset().insert(x),
        forall|i: int|
            0 <= i < insert_by_strike_asc(sorted, x).len() ==> #[trigger] insert_by_strike_asc(
                sorted,
                x,
            )[i] == x || sorted.contains(insert_by_strike_asc(sorted, x)[i]),
    decreases sorted.len(),
{
    broadcast use vstd::seq_lib::group_to_multiset_ensures;
    broadcast use vstd::multiset::group_multiset_axioms;

    let r = insert_by_strike_asc(sorted, x);
    if sorted.len() == 0 {
        assert(r =~= Seq::<SnapshotView>::empty().push(x));
    } else {
        let dl = sorted.drop_last();
        let last = sorted.last();
        assert(sorted =~= dl.push(last));
        assert(strikes_ascending(dl)) by {
            assert forall|i: int, j: int| 0 <= i < j < dl.len() implies !dec_less(
                strike_of(#[trigger] dl[j]),
                strike_of(#[trigger] dl[i]),
            ) by {
                assert(dl[i] == sorted[i] && dl[j] == sorted[j]);
            }
        }
        if dec_less(strike_of(x), strike_of(last)) {
            lemma_insert_by_strike_asc_sorted(dl, x);
            let r1 = insert_by_strike_asc(dl, x);
            assert(r == r1.push(last));
            assert forall|i: int| 0 <= i < r1.len() implies !dec_less(
                strike_of(last),
                strike_of(#[trigger] r1[i]),
            ) by {
                if r1[i] != x {
                    assert(dl.contains(r1[i]));
                    let k = choose|k: int| 0 <= k < dl.len() && dl[k] == r1[i];
                    assert(sorted[k] == dl[k]);
                    assert(sorted[sorted.len() - 1] == last);
                }
            }
            assert forall|i: int, j: int| 0 <= i < j < r.len() implies !dec_less(
                strike_of(#[trigger] r[j]),
                strike_of(#[trigger] r[i]),
            ) by {
                assert(r[i] == r1[i]);
                if j < r1.len() {
                    assert(r[j] == r1[j]);
                } else {
                    assert(r[j] == last);
                }
            }
            assert forall|i: int| 0 <= i < r.len() implies #[trigger] r[i] == x || sorted.contains(
                r[i],
            ) by {
                if i < r1.len() {
                    assert(r[i] == r1[i]);
                    if r1[i] != x {
                        let k = choose|k: int| 0 <= k < dl.len() && dl[k] == r1[i];
                        assert(sorted[k] == dl[k]);
                    }
                } else {
                    assert(r[i] == last);
                    assert(sorted[sorted.len() - 1] == last);
                }
            }
        } else {
            assert(r == sorted.push(x));
            assert forall|i: int, j: int| 0 <= i < j < r.len() implies !dec_less(
                strike_of(#[trigger] r[j]),
                strike_of(#[trigger] r[i]),
            ) by {
                assert(r[i] == sorted[i]);
                if j < sorted.len() {
                    assert(r[j] == sorted[j]);
                } else {
                    assert(r[j] == x);
                    if i < sorted.len() - 1 {
                        assert(!dec_less(
                            strike_of(sorted[sorted.len() - 1]),
                            strike_of(sorted[i]),
                        ));
                    }
                    lemma_dec_le_trans(strike_of(sorted[i]), strike_of(last), strike_of(x));
                }
            }
            assert forall|i: int| 0 <= i < r.len() implies #[trigger] r[i] == x || sorted.contains(
                r[i],
            ) by {
                if i < sorted.len() {
                    assert(r[i] == sorted[i]);
                }
            }
        }
    }
}

/// Sorting orders the snapshots by strike and keeps exactly the same ones.
proof fn lemma_sort_by_strike_asc_sorted(s: Seq<SnapshotView>)
    ensures
        strikes_ascending(sort_by_strike_asc(s)),
        sort_by_strike_asc(s).to_multiset() =~= s.to_multiset(),
    decreases s.len(),
{
    broadcast use vstd::seq_lib::group_to_multiset_ensures;

    if s.len() > 0 {
        lemma_sort_by_strike_asc_sorted(s.drop_last());
        lemma_insert_by_strike_asc_sorted(sort_by_strike_asc(s.drop_last()), s.last());
        assert(s =~= s.drop_last().push(s.last()));
    }
}

/// The snapshots grouped under an underlying are exactly its option
/// snapshots, ordered by strike from lowest to highest.
pub proof fn lemma_grouped_snapshots_sorted(md: Seq<SnapshotView>, symbol: Seq<char>)
    ensures
        strikes_ascending(sort_by_strike_asc(options_of(md, symbol))),
        sort_by_strike_asc(options_of(md, symbol)).to_multiset() =~= options_of(
            md,
            symbol,
        ).to_multiset(),
{
    lemma_sort_by_strike_asc_sorted(options_of(md, symbol));
}

/// Where some snapshot has the symbol, a first one does.
proof fn lemma_first_exists(s: Seq<SnapshotView>, symbol: Seq<char>, n: int)
    requires
        0 <= n <= s.len(),
        exists|i: int| 0 <= i < n && #[trigger] s[i].symbol == symbol,
    ensures
        exists|m: int|
            0 <= m < n && s[m].symbol == symbol && forall|j: int|
                0 <= j < m ==> #[trigger] s[j].symbol != symbol,
    decreases n,
{
    if exists|i: int| 0 <= i < n - 1 && #[trigger] s[i].symbol == symbol {
        lemma_first_exists(s, symbol, n - 1);
        let m = choose|m: int|
            0 <= m < n - 1 && s[m].symbol == symbol && forall|j: int|
                0 <= j < m ==> #[trigger] s[j].symbol != symbol;
        assert(0 <= m < n && s[m].symbol == symbol);
    } else {
        assert(s[n - 1].symbol == symbol);
        assert forall|j: int| 0 <= j < n - 1 implies #[trigger] s[j].symbol != symbol by {}
    }
}

/// The first snapshot for a symbol is the one of lowest index that has it.
pub proof fn lemma_first_with_symbol(s: Seq<SnapshotView>, symbol: Seq<char>)
    ensures
        first_with_symbol(s, symbol) is Some <==> exists|i: int|
            0 <= i < s.len() && #[trigger] s[i].symbol == symbol,
        first_with_symbol(s, symbol) matches Some(k) ==> 0 <= k < s.len() && s[k].symbol == symbol
            && forall|j: int| 0 <= j < k ==> #[trigger] s[j].symbol != symbol,
{
    if exists|i: int| 0 <= i < s.len() && #[trigger] s[i].symbol == symbol {
        lemma_first_exists(s, symbol, s.len() as int);
    }
}

/// Read after write: once a subscription is stashed for a symbol the store
/// did not hold, looking the symbol up finds that subscription's snapshot; a
/// symbol the store held keeps the snapshot it had.
pub proof fn lemma_stash_then_get(md: Seq<SnapshotView>, x: SnapshotView, symbol: Seq<char>)
    ensures
        first_with_symbol(md, symbol) is None && x.symbol == symbol ==> first_with_symbol(
            md.push(x),
            symbol,
        ) == Some(md.len() as int),
        first_with_symbol(md, symbol) is Some ==> first_with_symbol(md.push(x), symbol)
            == first_with_symbol(md, symbol),
        first_with_symbol(md, symbol) is None && x.symbol != symbol ==> first_with_symbol(
            md.push(x),
            symbol,
        ) is None,
{
    let m = md.push(x);
    lemma_first_with_symbol(md, symbol);
    lemma_first_with_symbol(m, symbol);
    assert forall|j: int| 0 <= j < md.len() implies #[trigger] m[j] == md[j] by {}
    if first_with_symbol(md, symbol) is None {
        if x.symbol == symbol {
            assert(m[md.len() as int].symbol == symbol);
            let k = first_with_symbol(m, symbol)->0;
            if k < md.len() {
                assert(m[k] == md[k]);
            }
        } else {
            if first_with_symbol(m, symbol) is Some {
                let k = first_with_symbol(m, symbol)->0;
                if k < md.len() {
                    assert(m[k] == md[k]);
                }
            }
        }
    } else {
        let k0 = first_with_symbol(md, symbol)->0;
        assert(m[k0] == md[k0]);
        let k = first_with_symbol(m, symbol)->0;
        if k < k0 {
            assert(m[k] == md[k]);
        }
        if k > k0 {
            assert(m[k0].symbol == symbol);
        }
    }
}

/// Feed events for other streamer symbols leave a snapshot as it was.
pub proof fn lemma_events_for_other_symbols(x: SnapshotView, events: Seq<FeedEvent>, now: u64)
    requires
        forall|k: int| 0 <= k < events.len() ==> (#[trigger] events[k]).symbol() != x.streamer_symbol,
    ensures
        apply_events(x, events, now) == x,
    decreases events.len(),
{
    if events.len() > 0 {
        lemma_events_for_other_symbols(x, events.drop_last(), now);
        assert(events.last() == events[events.len() - 1]);
    }
}

/// The latest quote wins: when the last event is a quote for the snapshot's
/// streamer symbol, the snapshot holds that quote, stamped now.
pub proof fn lemma_latest_quote_wins(x: SnapshotView, events: Seq<FeedEvent>, now: u64)
    requires
        events.len() > 0,
        events.last() is QuoteEvent,
        events.last().symbol() == x.streamer_symbol,
    ensures
        apply_events(x, events, now).quote == Some(events.last()->QuoteEvent_0@),
        apply_events(x, events, now).last_update == now,
        apply_events(x, events, now).symbol == x.symbol,
        apply_events(x, events, now).streamer_symbol == x.streamer_symbol,
{
    lemma_apply_events_keeps_identity(x, events.drop_last(), now);
}

/// Feed events change neither a snapshot's symbols nor its strike.
pub proof fn lemma_apply_events_keeps_identity(x: SnapshotView, events: Seq<FeedEvent>, now: u64)
    ensures
        apply_events(x, events, now).symbol == x.symbol,
        apply_events(x, events, now).underlying == x.underlying,
        apply_events(x, events, now).streamer_symbol == x.streamer_symbol,
        apply_events(x, events, now).strike_price == x.strike_price,
    decreases events.len(),
{
    if events.len() > 0 {
        lemma_apply_events_keeps_identity(x, events.drop_last(), now);
    }
}

/// A snapshot just refreshed is not stale at that instant.
pub proof fn lemma_refreshed_not_stale(x: SnapshotView, now: u64)
    ensures
        !is_stale(SnapshotView { last_update: now, ..x }, now),
{
}

/// A character a path segment keeps as it is: printable ASCII other than
/// space and `/`.
pub open spec fn plain_in_path(c: char) -> bool {
    '!' <= c <= '~' && c != '/'
}

/// Bytes none of which is escaped are kept, each as its character.
proof fn lemma_path_encoded_plain_bytes(bytes: Seq<u8>)
    requires
        forall|i: int| 0 <= i < bytes.len() ==> !escaped_in_path(#[trigger] bytes[i]),
    ensures
        path_encoded(bytes) == bytes.map_values(|b: u8| b as char),
    decreases bytes.len(),
{
    if bytes.len() > 0 {
        let init = bytes.drop_last();
        assert forall|i: int| 0 <= i < init.len() implies !escaped_in_path(#[trigger] init[i]) by {
            assert(init[i] == bytes[i]);
        }
        lemma_path_encoded_plain_bytes(init);
        assert(bytes.last() == bytes[bytes.len() - 1]);
        assert(bytes.map_values(|b: u8| b as char) =~= init.map_values(|b: u8| b as char).push(
            bytes.last() as char,
        ));
    }
}

/// A symbol of printable ASCII without space or `/` is its own path segment:
/// encoding leaves it unchanged.
pub proof fn lemma_plain_symbol_unchanged(symbol: Seq<char>)
    requires
        forall|i: int| 0 <= i < symbol.len() ==> plain_in_path(#[trigger] symbol[i]),
    ensures
        path_encoded(vstd::utf8::encode_utf8(symbol)) == symbol,
{
    let bytes = vstd::utf8::encode_utf8(symbol);
    assert(vstd::utf8::is_ascii_chars(symbol)) by {
        assert forall|i: int| 0 <= i < symbol.len() implies '\0' <= #[trigger] symbol[i] <= '\u{7f}' by {
            assert(plain_in_path(symbol[i]));
        }
    }
    vstd::utf8::is_ascii_chars_encode_utf8(symbol);
    assert forall|i: int| 0 <= i < bytes.len() implies !escaped_in_path(#[trigger] bytes[i]) by {
        assert(plain_in_path(symbol[i]));
        assert(symbol[i] as u8 == bytes[i]);
    }
    lemma_path_encoded_plain_bytes(bytes);
    let kept = bytes.map_values(|b: u8| b as char);
    assert forall|i: int| 0 <= i < symbol.len() implies #[trigger] kept[i] == symbol[i] by {
        assert(symbol[i] as u8 == bytes[i]);
        assert(plain_in_path(symbol[i]));
    }
    assert(kept =~= symbol);
}

/// What a feed update makes of the store: each snapshot with the events
/// applied, in the same order.
pub open spec fn store_after_events(md: Seq<SnapshotView>, events: Seq<FeedEvent>, now: u64) -> Seq<
    SnapshotView,
> {
    md.map_values(|x: SnapshotView| apply_events(x, events, now))
}

/// Reads after a feed update: looking a symbol up finds the same snapshot as
/// before the update, now carrying the latest quote for its streamer symbol
/// when the last event is one.
pub proof fn lemma_feed_update_visible(
    md: Seq<SnapshotView>,
    events: Seq<FeedEvent>,
    now: u64,
    symbol: Seq<char>,
)
    ensures
        first_with_symbol(store_after_events(md, events, now), symbol) == first_with_symbol(
            md,
            symbol,
        ),
        first_with_symbol(md, symbol) matches Some(k) ==> (events.len() > 0
            && events.last() is QuoteEvent && events.last().symbol() == md[k].streamer_symbol
            ==> store_after_events(md, events, now)[k].quote == Some(
            events.last()->QuoteEvent_0@,
        )),
{
    let m = store_after_events(md, events, now);
    assert forall|i: int| 0 <= i < md.len() implies #[trigger] m[i].symbol == md[i].symbol by {
        lemma_apply_events_keeps_identity(md[i], events, now);
    }
    lemma_first_with_symbol(md, symbol);
    lemma_first_with_symbol(m, symbol);
    if first_with_symbol(md, symbol) is Some {
        let k = first_with_symbol(md, symbol)->0;
        assert(m[k].symbol == symbol);
        let k2 = first_with_symbol(m, symbol)->0;
        if k2 < k {
            assert(m[k2].symbol == md[k2].symbol);
        }
        if k2 > k {
            assert(m[k].symbol == symbol);
        }
        if events.len() > 0 && events.last() is QuoteEvent && events.last().symbol()
            == md[k].streamer_symbol {
            lemma_latest_quote_wins(md[k], events, now);
        }
    } else {
        if first_with_symbol(m, symbol) is Some {
            let k2 = first_with_symbol(m, symbol)->0;
            assert(m[k2].symbol == md[k2].symbol);
        }
    }
}


/// The last quote event for `symbol` among `events`, if any.
pub open spec fn last_quote_for(events: Seq<FeedEvent>, symbol: Seq<char>) -> Option<QuoteView>
    decreases events.len(),
{
    if events.len() == 0 {
        None
    } else {
        match events.last() {
            FeedEvent::QuoteEvent(q) => if q.event_symbol@ == symbol {
                Some(q@)
            } else {
                last_quote_for(events.drop_last(), symbol)
            },
            FeedEvent::GreeksEvent(_) => last_quote_for(events.drop_last(), symbol),
        }
    }
}

/// Whether some greeks event among `events` is for `symbol`.
pub open spec fn has_greeks_for(events: Seq<FeedEvent>, symbol: Seq<char>) -> bool {
    exists|i: int|
        0 <= i < events.len() && #[trigger] events[i] is GreeksEvent && events[i].symbol() == symbol
}

/// Whether some event among `events` is for `symbol`.
pub open spec fn has_event_for(events: Seq<FeedEvent>, symbol: Seq<char>) -> bool {
    exists|i: int| 0 <= i < events.len() && #[trigger] events[i].symbol() == symbol
}

/// What feed events do to a snapshot: its quote becomes that of the last
/// quote event for its streamer symbol, and stays as it was when there is
/// none, whatever greeks events come with them; its greeks are those of a
/// greeks event for its streamer symbol where there is one and otherwise stay; it is stamped
/// `now` exactly when some event is for its streamer symbol.
pub proof fn lemma_events_set_quote_and_greeks(x: SnapshotView, events: Seq<FeedEvent>, now: u64)
    ensures
        apply_events(x, events, now).quote == (match last_quote_for(events, x.streamer_symbol) {
            Some(q) => Some(q),
            None => x.quote,
        }),
        has_greeks_for(events, x.streamer_symbol) ==> apply_events(x, events, now).greeks == Some(
            x.streamer_symbol,
        ),
        !has_greeks_for(events, x.streamer_symbol) ==> apply_events(x, events, now).greeks
            == x.greeks,
        apply_events(x, events, now).last_update == (if has_event_for(events, x.streamer_symbol) {
            now
        } else {
            x.last_update
        }),
    decreases events.len(),
{
    if events.len() > 0 {
        let init = events.drop_last();
        let e = events.last();
        lemma_events_set_quote_and_greeks(x, init, now);
        lemma_apply_events_keeps_identity(x, init, now);
        let sym = x.streamer_symbol;
        assert(e == events[events.len() - 1]);
        if has_greeks_for(init, sym) {
            let i = choose|i: int| 0 <= i < init.len() && #[trigger] init[i] is GreeksEvent
                && init[i].symbol() == sym;
            assert(events[i] == init[i]);
        }
        if has_greeks_for(events, sym) {
            let i = choose|i: int| 0 <= i < events.len() && #[trigger] events[i] is GreeksEvent
                && events[i].symbol() == sym;
            if i < init.len() {
                assert(init[i] == events[i]);
            }
        }
        if has_event_for(init, sym) {
            let i = choose|i: int| 0 <= i < init.len() && #[trigger] init[i].symbol() == sym;
            assert(events[i] == init[i]);
        }
        if has_event_for(events, sym) {
            let i = choose|i: int| 0 <= i < events.len() && #[trigger] events[i].symbol() == sym;
            if i < init.len() {
                assert(init[i] == events[i]);
            }
        }
    }
}

/// A greeks event leaves a snapshot's quote as it was.
pub proof fn lemma_greeks_keep_quote(x: SnapshotView, events: Seq<FeedEvent>, g: Greeks, now: u64)
    ensures
        apply_events(x, events.push(FeedEvent::GreeksEvent(g)), now).quote == apply_events(
            x,
            events,
            now,
        ).quote,
{
    let all = events.push(FeedEvent::GreeksEvent(g));
    assert(all.drop_last() =~= events);
    lemma_events_set_quote_and_greeks(x, all, now);
    lemma_events_set_quote_and_greeks(x, events, now);
}


/// A snapshot is stale exactly when more than thirty seconds (in
/// nanoseconds) have passed since its last update.
pub proof fn lemma_stale_after_thirty_seconds(x: SnapshotView, now: u64)
    ensures
        is_stale(x, now) <==> now > x.last_update + 30_000_000_000,
{
}


/// Encoding a path segment works byte by byte: the encoding of two byte
/// strings one after the other is the two encodings one after the other.
pub proof fn lemma_path_encoded_append(a: Seq<u8>, b: Seq<u8>)
    ensures
        path_encoded(a + b) == path_encoded(a) + path_encoded(b),
    decreases b.len(),
{
    if b.len() == 0 {
        assert(a + b =~= a);
        assert(path_encoded(a) + path_encoded(b) =~= path_encoded(a));
    } else {
        lemma_path_encoded_append(a, b.drop_last());
        assert((a + b).drop_last() =~= a + b.drop_last());
        assert((a + b).last() == b.last());
        let pa = path_encoded(a);
        let pb = path_encoded(b.drop_last());
        if escaped_in_path(b.last()) {
            assert(pa + pb + escaped_byte(b.last()) =~= pa + (pb + escaped_byte(b.last())));
        } else {
            assert((pa + pb).push(b.last() as char) =~= pa + pb.push(b.last() as char));
        }
    }
}

/// An encoded path segment is printable ASCII with neither a space nor a
/// `/` in it: whatever the symbol holds, it stays one segment of the path.
pub proof fn lemma_path_encoded_is_one_segment(bytes: Seq<u8>)
    ensures
        forall|i: int|
            0 <= i < path_encoded(bytes).len() ==> plain_in_path(#[trigger] path_encoded(bytes)[i]),
    decreases bytes.len(),
{
    if bytes.len() > 0 {
        let rest = path_encoded(bytes.drop_last());
        lemma_path_encoded_is_one_segment(bytes.drop_last());
        let b = bytes.last();
        if escaped_in_path(b) {
            let e = escaped_byte(b);
            assert(b / 16 < 16 && b % 16 < 16);
            assert forall|i: int| 0 <= i < (rest + e).len() implies plain_in_path(
                #[trigger] (rest + e)[i],
            ) by {
                if i < rest.len() {
                    assert((rest + e)[i] == rest[i]);
                } else {
                    assert((rest + e)[i] == e[i - rest.len()]);
                }
            }
        } else {
            assert forall|i: int| 0 <= i < rest.push(b as char).len() implies plain_in_path(
                #[trigger] rest.push(b as char)[i],
            ) by {
                if i < rest.len() {
                    assert(rest.push(b as char)[i] == rest[i]);
                }
            }
        }
    }
}

} // verus!
