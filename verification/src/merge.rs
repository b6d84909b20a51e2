//! K-way merge of historical sources by event time.

use crate::bar::{bar_event, bar_fits, ticks_dec, BarSeriesSource};
use crate::events::{event_ts, Event, MarketEvent};
use vstd::multiset::Multiset;
use vstd::prelude::*;

verus! {

/// A stream of historical events.
pub trait HistoricalSource {
    /// The events the source still gives, in order.
    spec fn pending(&self) -> Seq<Event>;

    /// The source is able to give its events.
    spec fn ready(&self) -> bool;

    /// The next event, if any.
    fn next_event(&mut self) -> (r: Option<Event>)
        requires
            old(self).ready(),
        ensures
            final(self).ready(),
            match r {
                Some(e) => old(self).pending().len() > 0 && e == old(self).pending()[0]
                    && final(self).pending() == old(self).pending().drop_first(),
                None => old(self).pending().len() == 0 && final(self).pending() == old(
                    self,
                ).pending(),
            },
    ;
}

impl HistoricalSource for BarSeriesSource {
    /// The bars from the current one on, as market events stamped with their bar times.
    open spec fn pending(&self) -> Seq<Event> {
        let n = self.series.bars@.len() - self.idx;
        Seq::new(
            if n > 0 {
                n as nat
            } else {
                0
            },
            |k: int|
                bar_event(
                    self.instrument,
                    self.series.bars@[self.idx + k],
                    self.series.tick_size,
                    self.series.bars@[self.idx + k].ts_unix_nanos as i128,
                ),
        )
    }

    /// The tick size is well formed and every bar's values fit decimals.
    open spec fn ready(&self) -> bool {
        &&& self.series.tick_size.wf()
        &&& self.idx <= self.series.bars@.len()
        &&& forall|k: int|
            0 <= k < self.series.bars@.len() ==> bar_fits(
                #[trigger] self.series.bars@[k],
                self.series.tick_size,
            )
    }

    fn next_event(&mut self) -> (r: Option<Event>) {
        let ghost before = self.pending();
        let (bar, ts) = match self.next_bar() {
            Some(p) => p,
            None => {
                return None;
            },
        };
        let e = self.bar_to_event(&bar, ts);
        proof {
            assert(self.pending() =~= before.drop_first());
        }
        Some(e)
    }
}

/// Each event a bar series replays carries its own bar's fields: the `k`-th pending event is the
/// bar at `idx + k`, stamped with that bar's time, for the source's instrument, with each price
/// and the volume converted from that bar's own tick counts.
pub proof fn law_bar_events_keep_bar_fields(s: BarSeriesSource, k: int)
    requires
        0 <= k < s.pending().len(),
    ensures
        ({
            let bar = s.series.bars@[s.idx + k];
            let tick = s.series.tick_size;
            s.pending()[k] == Event::Market(
                MarketEvent::Bar {
                    instrument: s.instrument,
                    ts: bar.ts_unix_nanos as i128,
                    open: ticks_dec(bar.open_ticks, tick),
                    high: ticks_dec(bar.high_ticks, tick),
                    low: ticks_dec(bar.low_ticks, tick),
                    close: ticks_dec(bar.close_ticks, tick),
                    volume: ticks_dec(bar.volume_lots, tick),
                },
            )
        }),
{
}

/// Merge key: the event time, or the Unix epoch for events without one.
pub open spec fn merge_key(e: Event) -> int {
    match event_ts(e) {
        Some(t) => t as int,
        None => 0,
    }
}

/// Among the first `n` queues, the one whose head comes first: the smallest key, the earliest
/// queue on ties; `None` when they are all empty.
pub open spec fn first_queue(qs: Seq<Seq<Event>>, n: int) -> Option<int>
    decreases n,
{
    if n <= 0 {
        None
    } else {
        let b = first_queue(qs, n - 1);
        if qs[n - 1].len() == 0 {
            b
        } else {
            match b {
                None => Some(n - 1),
                Some(j) => if merge_key(qs[n - 1][0]) < merge_key(qs[j][0]) {
                    Some(n - 1)
                } else {
                    Some(j)
                },
            }
        }
    }
}

/// Events in the first `n` queues.
pub open spec fn total_len(qs: Seq<Seq<Event>>, n: int) -> nat
    decreases n,
{
    if n <= 0 {
        0
    } else {
        total_len(qs, n - 1) + qs[n - 1].len()
    }
}

/// The queues once the head of queue `i` is taken.
pub open spec fn take_head(qs: Seq<Seq<Event>>, i: int) -> Seq<Seq<Event>> {
    qs.update(i, qs[i].drop_first())
}

/// The first `k` events of the merge: repeatedly the head of the first queue.
pub open spec fn merged(qs: Seq<Seq<Event>>, k: nat) -> Seq<Event>
    decreases k,
{
    if k == 0 {
        Seq::empty()
    } else {
        match first_queue(qs, qs.len() as int) {
            None => Seq::empty(),
            Some(i) => seq![qs[i][0]] + merged(take_head(qs, i), (k - 1) as nat),
        }
    }
}

/// The whole merge of the queues.
pub open spec fn merge_all(qs: Seq<Seq<Event>>) -> Seq<Event> {
    merged(qs, total_len(qs, qs.len() as int))
}

/// A chosen queue is one of the first `n` and is not empty; none is chosen only when all are
/// empty.
proof fn lemma_first_queue(qs: Seq<Seq<Event>>, n: int)
    requires
        0 <= n <= qs.len(),
    ensures
        first_queue(qs, n) matches Some(i) ==> 0 <= i < n && qs[i].len() > 0,
        first_queue(qs, n).is_none() ==> total_len(qs, n) == 0,
        first_queue(qs, n).is_none() ==> forall|j: int| 0 <= j < n ==> (#[trigger] qs[j]).len() == 0,
    decreases n,
{
    if n > 0 {
        lemma_first_queue(qs, n - 1);
    }
}

/// Taking a head leaves one event fewer.
proof fn lemma_total_take_head(qs: Seq<Seq<Event>>, i: int, n: int)
    requires
        0 <= i < qs.len(),
        qs[i].len() > 0,
        0 <= n <= qs.len(),
    ensures
        total_len(take_head(qs, i), n) == if i < n {
            total_len(qs, n) - 1
        } else {
            total_len(qs, n) as int
        },
    decreases n,
{
    if n > 0 {
        lemma_total_take_head(qs, i, n - 1);
    }
}

/// The merge of queues that still hold events starts with the head of the first queue.
proof fn lemma_merge_step(qs: Seq<Seq<Event>>, i: int)
    requires
        first_queue(qs, qs.len() as int) == Some(i),
    ensures
        0 <= i < qs.len(),
        qs[i].len() > 0,
        merge_all(qs) == seq![qs[i][0]] + merge_all(take_head(qs, i)),
{
    lemma_first_queue(qs, qs.len() as int);
    lemma_total_take_head(qs, i, qs.len() as int);
    let t = total_len(qs, qs.len() as int);
    assert(t > 0) by {
        lemma_total_positive(qs, i, qs.len() as int);
    }
    assert(take_head(qs, i).len() == qs.len());
}

/// A non-empty queue among the first `n` makes the total positive.
proof fn lemma_total_positive(qs: Seq<Seq<Event>>, i: int, n: int)
    requires
        0 <= i < n <= qs.len(),
        qs[i].len() > 0,
    ensures
        total_len(qs, n) > 0,
    decreases n,
{
    if i < n - 1 {
        lemma_total_positive(qs, i, n - 1);
    }
}

/// Events in time order (by merge key).
pub open spec fn in_time_order(s: Seq<Event>) -> bool {
    forall|a: int, b: int| 0 <= a < b < s.len() ==> merge_key(#[trigger] s[a]) <= merge_key(#[trigger] s[b])
}

/// Every event of every queue has a key of at least `b`.
pub open spec fn all_from(qs: Seq<Seq<Event>>, b: int) -> bool {
    forall|q: int, e: int| 0 <= q < qs.len() && 0 <= e < qs[q].len() ==> merge_key(#[trigger] qs[q][e]) >= b
}

/// The chosen head is no later than any other head.
proof fn lemma_first_queue_min(qs: Seq<Seq<Event>>, n: int)
    requires
        0 <= n <= qs.len(),
    ensures
        first_queue(qs, n) matches Some(i) ==> forall|j: int|
            0 <= j < n && qs[j].len() > 0 ==> merge_key(qs[i][0]) <= merge_key(#[trigger] qs[j][0]),
    decreases n,
{
    if n > 0 {
        lemma_first_queue_min(qs, n - 1);
        lemma_first_queue(qs, n - 1);
        if let Some(i) = first_queue(qs, n) {
            assert forall|j: int| 0 <= j < n && qs[j].len() > 0 implies merge_key(qs[i][0]) <= merge_key(
                #[trigger] qs[j][0],
            ) by {
                match first_queue(qs, n - 1) {
                    None => {
                        if j < n - 1 {
                            assert(qs[j].len() == 0);
                        }
                    },
                    Some(b) => {
                        if j < n - 1 {
                            assert(merge_key(qs[b][0]) <= merge_key(qs[j][0]));
                        }
                    },
                }
            }
        }
    }
}

/// A bound on every queued event bounds every merged event.
proof fn lemma_merged_from(qs: Seq<Seq<Event>>, k: nat, b: int)
    requires
        all_from(qs, b),
    ensures
        forall|e: int| 0 <= e < merged(qs, k).len() ==> merge_key(#[trigger] merged(qs, k)[e]) >= b,
    decreases k,
{
    if k > 0 {
        lemma_first_queue(qs, qs.len() as int);
        if let Some(i) = first_queue(qs, qs.len() as int) {
            let t = take_head(qs, i);
            assert(all_from(t, b)) by {
                assert forall|q: int, e: int| 0 <= q < t.len() && 0 <= e < t[q].len() implies merge_key(
                    #[trigger] t[q][e],
                ) >= b by {
                    if q == i {
                        assert(t[q][e] == qs[q][e + 1]);
                    } else {
                        assert(t[q][e] == qs[q][e]);
                    }
                }
            }
            lemma_merged_from(t, (k - 1) as nat, b);
            let m = merged(qs, k);
            assert(m == seq![qs[i][0]] + merged(t, (k - 1) as nat));
            assert forall|e: int| 0 <= e < m.len() implies merge_key(#[trigger] m[e]) >= b by {
                if e > 0 {
                    assert(m[e] == merged(t, (k - 1) as nat)[e - 1]);
                } else {
                    assert(m[0] == qs[i][0]);
                }
            }
        }
    }
}

/// The events of the first `n` queues, counted with multiplicity.
pub open spec fn queued_events(qs: Seq<Seq<Event>>, n: int) -> Multiset<Event>
    decreases n,
{
    if n <= 0 {
        Multiset::empty()
    } else {
        queued_events(qs, n - 1).add(qs[n - 1].to_multiset())
    }
}

/// A sequence's events are its head and the events after it.
proof fn lemma_head_multiset(s: Seq<Event>)
    requires
        s.len() > 0,
    ensures
        s.to_multiset() == s.drop_first().to_multiset().insert(s[0]),
{
    broadcast use vstd::seq_lib::group_to_multiset_ensures;
    broadcast use vstd::multiset::group_multiset_axioms;

    assert(s.remove(0) =~= s.drop_first());
    assert(s.contains(s[0]));
    assert(s.to_multiset().remove(s[0]).insert(s[0]) =~= s.to_multiset());
}

/// Taking the head of queue `i` takes one copy of that event out of the queued events.
proof fn lemma_queued_take_head(qs: Seq<Seq<Event>>, i: int, n: int)
    requires
        0 <= i < qs.len(),
        qs[i].len() > 0,
        0 <= n <= qs.len(),
    ensures
        queued_events(qs, n) == if i < n {
            queued_events(take_head(qs, i), n).insert(qs[i][0])
        } else {
            queued_events(take_head(qs, i), n)
        },
    decreases n,
{
    broadcast use vstd::multiset::group_multiset_axioms;

    if n > 0 {
        lemma_queued_take_head(qs, i, n - 1);
        let t = take_head(qs, i);
        if n - 1 == i {
            lemma_head_multiset(qs[i]);
            assert(t[i] == qs[i].drop_first());
            assert(queued_events(qs, n) =~= queued_events(t, n).insert(qs[i][0]));
        } else {
            assert(t[n - 1] == qs[n - 1]);
            if i < n {
                assert(queued_events(qs, n) =~= queued_events(t, n).insert(qs[i][0]));
            } else {
                assert(queued_events(qs, n) =~= queued_events(t, n));
            }
        }
    }
}

/// When every queue is empty there is nothing queued.
proof fn lemma_queued_empty(qs: Seq<Seq<Event>>, n: int)
    requires
        0 <= n <= qs.len(),
        forall|j: int| 0 <= j < n ==> (#[trigger] qs[j]).len() == 0,
    ensures
        queued_events(qs, n) == Multiset::<Event>::empty(),
    decreases n,
{
    broadcast use vstd::seq_lib::group_to_multiset_ensures;
    broadcast use vstd::multiset::group_multiset_axioms;

    if n > 0 {
        lemma_queued_empty(qs, n - 1);
        let q = qs[n - 1];
        assert(q.to_multiset().len() == 0);
        vstd::multiset::lemma_multiset_empty_len(q.to_multiset());
        assert(queued_events(qs, n) =~= Multiset::<Event>::empty());
    }
}

/// The first `k` merged events, when `k` is all that is queued, are exactly the queued events.
proof fn lemma_merged_multiset(qs: Seq<Seq<Event>>, k: nat)
    requires
        k == total_len(qs, qs.len() as int),
    ensures
        merged(qs, k).to_multiset() == queued_events(qs, qs.len() as int),
    decreases k,
{
    broadcast use vstd::seq_lib::group_to_multiset_ensures;
    broadcast use vstd::multiset::group_multiset_axioms;

    lemma_first_queue(qs, qs.len() as int);
    match first_queue(qs, qs.len() as int) {
        None => {
            lemma_queued_empty(qs, qs.len() as int);
            assert(merged(qs, k) =~= Seq::<Event>::empty());
            vstd::multiset::lemma_multiset_empty_len(merged(qs, k).to_multiset());
        },
        Some(i) => {
            let t = take_head(qs, i);
            lemma_total_take_head(qs, i, qs.len() as int);
            lemma_total_positive(qs, i, qs.len() as int);
            lemma_merged_multiset(t, (k - 1) as nat);
            lemma_queued_take_head(qs, i, qs.len() as int);
            let m = merged(qs, k);
            assert(m == seq![qs[i][0]] + merged(t, (k - 1) as nat));
            lemma_head_multiset(m);
            assert(m.drop_first() =~= merged(t, (k - 1) as nat));
        },
    }
}

/// Merging loses and invents nothing: the merge holds exactly the queued events, each as
/// often as it is queued.
pub proof fn law_merge_keeps_every_event(qs: Seq<Seq<Event>>)
    ensures
        merge_all(qs).to_multiset() == queued_events(qs, qs.len() as int),
        merge_all(qs).len() == total_len(qs, qs.len() as int),
{
    broadcast use vstd::seq_lib::group_to_multiset_ensures;
    broadcast use vstd::multiset::group_multiset_axioms;

    lemma_merged_multiset(qs, total_len(qs, qs.len() as int));
    lemma_queued_len(qs, qs.len() as int);
}

/// The queued events are as many as the queues hold.
proof fn lemma_queued_len(qs: Seq<Seq<Event>>, n: int)
    requires
        0 <= n <= qs.len(),
    ensures
        queued_events(qs, n).len() == total_len(qs, n),
    decreases n,
{
    broadcast use vstd::seq_lib::group_to_multiset_ensures;
    broadcast use vstd::multiset::group_multiset_axioms;

    if n > 0 {
        lemma_queued_len(qs, n - 1);
    }
}

/// The queue each of the first `k` merged events is taken from.
pub open spec fn merged_from(qs: Seq<Seq<Event>>, k: nat) -> Seq<int>
    decreases k,
{
    if k == 0 {
        Seq::empty()
    } else {
        match first_queue(qs, qs.len() as int) {
            None => Seq::empty(),
            Some(i) => seq![i] + merged_from(take_head(qs, i), (k - 1) as nat),
        }
    }
}

/// How many of the first `n` entries of `p` are `q`.
pub open spec fn count_before(p: Seq<int>, q: int, n: int) -> nat
    decreases n,
{
    if n <= 0 {
        0
    } else {
        count_before(p, q, n - 1) + if p[n - 1] == q {
            1nat
        } else {
            0nat
        }
    }
}

proof fn lemma_count_shift(p: Seq<int>, i: int, q: int, n: int)
    requires
        0 <= n <= p.len(),
    ensures
        count_before(seq![i] + p, q, n + 1) == count_before(p, q, n) + if q == i {
            1nat
        } else {
            0nat
        },
    decreases n,
{
    let t = seq![i] + p;
    if n > 0 {
        lemma_count_shift(p, i, q, n - 1);
        assert(t[n] == p[n - 1]);
        assert(count_before(t, q, n + 1) == count_before(t, q, n) + if t[n] == q {
            1nat
        } else {
            0nat
        });
        assert(count_before(p, q, n) == count_before(p, q, n - 1) + if p[n - 1] == q {
            1nat
        } else {
            0nat
        });
    } else {
        assert(t[0] == i);
        assert(count_before(t, q, 0) == 0);
        assert(count_before(p, q, 0) == 0);
        assert(count_before(t, q, 1) == count_before(t, q, 0) + if t[0] == q {
            1nat
        } else {
            0nat
        });
    }
}

/// The chosen head is strictly earlier than the heads of lower queues and no later than the
/// heads of higher ones: among equal times the lowest queue goes first.
pub proof fn law_merge_ties_go_to_lower_source(qs: Seq<Seq<Event>>, n: int)
    requires
        0 <= n <= qs.len(),
    ensures
        first_queue(qs, n) matches Some(i) ==> (forall|j: int|
            0 <= j < n && qs[j].len() > 0 ==> (j < i ==> merge_key(#[trigger] qs[j][0]) > merge_key(
                qs[i][0],
            )) && (j > i ==> merge_key(qs[j][0]) >= merge_key(qs[i][0]))),
    decreases n,
{
    if n > 0 {
        law_merge_ties_go_to_lower_source(qs, n - 1);
        lemma_first_queue(qs, n - 1);
        lemma_first_queue_min(qs, n);
        lemma_first_queue(qs, n);
    }
}

/// Each merged event is the next unused event of the queue it comes from: every queue is
/// consumed in its own order, front to back.
pub proof fn law_merge_keeps_each_source_order(qs: Seq<Seq<Event>>, k: nat)
    ensures
        merged_from(qs, k).len() == merged(qs, k).len(),
        forall|j: int|
            0 <= j < merged(qs, k).len() ==> {
                let q = #[trigger] merged_from(qs, k)[j];
                &&& 0 <= q < qs.len()
                &&& count_before(merged_from(qs, k), q, j) < qs[q].len()
                &&& merged(qs, k)[j] == qs[q][count_before(merged_from(qs, k), q, j) as int]
            },
    decreases k,
{
    if k > 0 {
        lemma_first_queue(qs, qs.len() as int);
        if let Some(i) = first_queue(qs, qs.len() as int) {
            let t = take_head(qs, i);
            law_merge_keeps_each_source_order(t, (k - 1) as nat);
            let m = merged(qs, k);
            let p = merged_from(qs, k);
            let mt = merged(t, (k - 1) as nat);
            let pt = merged_from(t, (k - 1) as nat);
            assert(m == seq![qs[i][0]] + mt);
            assert(p == seq![i] + pt);
            assert forall|j: int| 0 <= j < m.len() implies {
                let q = #[trigger] p[j];
                &&& 0 <= q < qs.len()
                &&& count_before(p, q, j) < qs[q].len()
                &&& m[j] == qs[q][count_before(p, q, j) as int]
            } by {
                if j == 0 {
                    assert(p[0] == i);
                    assert(count_before(p, i, 0) == 0);
                } else {
                    let q = p[j];
                    assert(q == pt[j - 1]);
                    assert(m[j] == mt[j - 1]);
                    lemma_count_shift(pt, i, q, j - 1);
                    assert(count_before(p, q, j) == count_before(pt, q, j - 1) + if q == i {
                        1nat
                    } else {
                        0nat
                    });
                    let c = count_before(pt, q, j - 1) as int;
                    assert(t[q] == if q == i {
                        qs[i].drop_first()
                    } else {
                        qs[q]
                    });
                    assert(mt[j - 1] == t[q][c]);
                }
            }
        }
    }
}

/// Merging queues that are each in time order gives events in time order.
pub proof fn law_merge_keeps_time_order(qs: Seq<Seq<Event>>, k: nat)
    requires
        forall|q: int| 0 <= q < qs.len() ==> in_time_order(#[trigger] qs[q]),
    ensures
        in_time_order(merged(qs, k)),
    decreases k,
{
    if k > 0 {
        lemma_first_queue(qs, qs.len() as int);
        lemma_first_queue_min(qs, qs.len() as int);
        if let Some(i) = first_queue(qs, qs.len() as int) {
            let h = qs[i][0];
            let t = take_head(qs, i);
            assert forall|q: int| 0 <= q < t.len() implies in_time_order(#[trigger] t[q]) by {
                if q == i {
                    assert forall|a: int, b: int| 0 <= a < b < t[q].len() implies merge_key(
                        #[trigger] t[q][a],
                    ) <= merge_key(#[trigger] t[q][b]) by {
                        assert(t[q][a] == qs[q][a + 1]);
                        assert(t[q][b] == qs[q][b + 1]);
                    }
                }
            }
            assert(all_from(t, merge_key(h))) by {
                assert forall|q: int, e: int| 0 <= q < t.len() && 0 <= e < t[q].len() implies merge_key(
                    #[trigger] t[q][e],
                ) >= merge_key(h) by {
                    if q == i {
                        assert(t[q][e] == qs[q][e + 1]);
                        assert(merge_key(qs[q][0]) <= merge_key(qs[q][e + 1]));
                    } else {
                        assert(t[q][e] == qs[q][e]);
                        assert(merge_key(h) <= merge_key(qs[q][0]));
                        if e > 0 {
                            assert(merge_key(qs[q][0]) <= merge_key(qs[q][e]));
                        }
                    }
                }
            }
            law_merge_keeps_time_order(t, (k - 1) as nat);
            lemma_merged_from(t, (k - 1) as nat, merge_key(h));
            let rest = merged(t, (k - 1) as nat);
            let m = merged(qs, k);
            assert(m == seq![h] + rest);
            assert forall|a: int, b: int| 0 <= a < b < m.len() implies merge_key(#[trigger] m[a])
                <= merge_key(#[trigger] m[b]) by {
                assert(m[b] == rest[b - 1]);
                if a == 0 {
                    assert(m[0] == h);
                } else {
                    assert(m[a] == rest[a - 1]);
                }
            }
        }
    }
}

/// Streams the events of several sources in time order, holding the next event of each.
pub struct MergedSources<S> {
    pub sources: Vec<S>,
    /// The next event of each source, taken ahead.
    pub heads: Vec<Option<Event>>,
}

/// The queue of one source: its event taken ahead, then the ones it still gives.
pub open spec fn queue_of<S: HistoricalSource>(head: Option<Event>, src: S) -> Seq<Event> {
    match head {
        Some(e) => seq![e] + src.pending(),
        None => Seq::empty(),
    }
}

impl<S: HistoricalSource> MergedSources<S> {
    /// The event queues of the sources, in source order.
    pub open spec fn queues(&self) -> Seq<Seq<Event>> {
        Seq::new(self.sources@.len(), |i: int| queue_of(self.heads@[i], self.sources@[i]))
    }

    /// One head per source; every source ready; a source without a head has nothing left.
    pub open spec fn wf(&self) -> bool {
        &&& self.heads@.len() == self.sources@.len()
        &&& forall|i: int| 0 <= i < self.sources@.len() ==> (#[trigger] self.sources@[i]).ready()
        &&& forall|i: int|
            0 <= i < self.sources@.len() ==> (#[trigger] self.heads@[i]).is_none()
                ==> self.sources@[i].pending().len() == 0
    }

    /// Take one event ahead from each source.
    pub fn new(sources: Vec<S>) -> (r: Self)
        requires
            forall|i: int| 0 <= i < sources@.len() ==> (#[trigger] sources@[i]).ready(),
        ensures
            r.wf(),
            r.queues() == Seq::new(sources@.len(), |i: int| sources@[i].pending()),
    {
        let ghost all = sources@;
        let mut rest = sources;
        let mut taken: Vec<S> = Vec::new();
        let mut heads: Vec<Option<Event>> = Vec::new();
        let ghost mut k: int = 0;
        while rest.len() > 0
            invariant
                0 <= k,
                k + rest@.len() == all.len(),
                rest@ == all.subrange(k, all.len() as int),
                forall|i: int| 0 <= i < all.len() ==> (#[trigger] all[i]).ready(),
                taken@.len() == k,
                heads@.len() == k,
                forall|i: int| 0 <= i < k ==> (#[trigger] taken@[i]).ready(),
                forall|i: int|
                    0 <= i < k ==> (#[trigger] heads@[i]).is_none() ==> taken@[i].pending().len()
                        == 0,
                forall|i: int|
                    0 <= i < k ==> queue_of(#[trigger] heads@[i], taken@[i]) == all[i].pending(),
            decreases rest@.len(),
        {
            let mut src = rest.remove(0);
            assert(src == all[k]);
            let h = src.next_event();
            proof {
                assert(queue_of(h, src) =~= all[k].pending());
            }
            taken.push(src);
            heads.push(h);
            proof {
                k = k + 1;
            }
        }
        let r = MergedSources { sources: taken, heads };
        proof {
            assert(r.queues() =~= Seq::new(all.len(), |i: int| all[i].pending()));
        }
        r
    }

    /// The next event in time order: the head of the source whose head has the smallest time,
    /// the earliest source on ties; that source is then read one event further.
    pub fn next(&mut self) -> (r: Option<Event>)
        requires
            old(self).wf(),
        ensures
            final(self).wf(),
            match first_queue(old(self).queues(), old(self).queues().len() as int) {
                None => r.is_none() && final(self).queues() == old(self).queues(),
                Some(i) => r == Some(old(self).queues()[i][0]) && final(self).queues() == take_head(
                    old(self).queues(),
                    i,
                ),
            },
    {
        let ghost qs = self.queues();
        let n = self.heads.len();
        let mut best: Option<usize> = None;
        let mut best_key: i128 = 0;
        let mut j: usize = 0;
        while j < n
            invariant
                n == self.heads@.len(),
                self.wf(),
                qs == self.queues(),
                j <= n,
                match best {
                    Some(b) => first_queue(qs, j as int) == Some(b as int) && best_key as int
                        == merge_key(qs[b as int][0]),
                    None => first_queue(qs, j as int).is_none(),
                },
            decreases n - j,
        {
            match &self.heads[j] {
                Some(e) => {
                    let key = match e.timestamp() {
                        Some(t) => t,
                        None => 0,
                    };
                    proof {
                        assert(qs[j as int][0] == *e);
                    }
                    match best {
                        None => {
                            best = Some(j);
                            best_key = key;
                        },
                        Some(_) => {
                            if key < best_key {
                                best = Some(j);
                                best_key = key;
                            }
                        },
                    }
                },
                None => {
                    assert(qs[j as int].len() == 0);
                },
            }
            j = j + 1;
        }
        let i = match best {
            Some(i) => i,
            None => {
                return None;
            },
        };
        proof {
            lemma_first_queue(qs, n as int);
        }
        let head = self.heads.remove(i);
        let mut src = self.sources.remove(i);
        let next_head = src.next_event();
        self.sources.insert(i, src);
        self.heads.insert(i, next_head);
        proof {
            assert(self.queues() =~= take_head(qs, i as int)) by {
                assert forall|k: int| 0 <= k < qs.len() implies #[trigger] self.queues()[k]
                    == take_head(qs, i as int)[k] by {
                    if k == i {
                        assert(queue_of(self.heads@[k], self.sources@[k]) =~= qs[k].drop_first());
                    }
                }
            }
        }
        head
    }
}

/// Stream the events of several sources in time order.
pub fn merge_sources_iter<S: HistoricalSource>(sources: Vec<S>) -> (r: MergedSources<S>)
    requires
        forall|i: int| 0 <= i < sources@.len() ==> (#[trigger] sources@[i]).ready(),
    ensures
        r.wf(),
        r.queues() == Seq::new(sources@.len(), |i: int| sources@[i].pending()),
{
    MergedSources::new(sources)
}

/// All events of several sources in time order: repeatedly the pending event with the
/// smallest time, the earliest source on ties.
pub fn merge_sources<S: HistoricalSource>(sources: Vec<S>) -> (r: Vec<Event>)
    requires
        forall|i: int| 0 <= i < sources@.len() ==> (#[trigger] sources@[i]).ready(),
    ensures
        r@ == merge_all(Seq::new(sources@.len(), |i: int| sources@[i].pending())),
{
    let ghost q0 = Seq::new(sources@.len(), |i: int| sources@[i].pending());
    let mut m = merge_sources_iter(sources);
    let mut out: Vec<Event> = Vec::new();
    loop
        invariant
            m.wf(),
            out@ + merge_all(m.queues()) == merge_all(q0),
        ensures
            out@ == merge_all(q0),
        decreases total_len(m.queues(), m.queues().len() as int),
    {
        let ghost qs = m.queues();
        match m.next() {
            Some(e) => {
                proof {
                    let i = first_queue(qs, qs.len() as int)->0;
                    lemma_merge_step(qs, i);
                    lemma_total_take_head(qs, i, qs.len() as int);
                    assert(out@.push(e) + merge_all(m.queues()) =~= out@ + merge_all(qs));
                }
                out.push(e);
            },
            None => {
                proof {
                    lemma_first_queue(qs, qs.len() as int);
                    assert(merge_all(qs) =~= Seq::<Event>::empty());
                    assert(out@ =~= out@ + merge_all(qs));
                }
                break;
            },
        }
    }
    out
}


/// Taking a head keeps every queue in time order.
proof fn lemma_take_head_in_order(qs: Seq<Seq<Event>>, i: int)
    requires
        0 <= i < qs.len(),
        qs[i].len() > 0,
        forall|q: int| 0 <= q < qs.len() ==> in_time_order(#[trigger] qs[q]),
    ensures
        forall|q: int| 0 <= q < take_head(qs, i).len() ==> in_time_order(#[trigger] take_head(qs, i)[q]),
{
    let t = take_head(qs, i);
    assert forall|q: int| 0 <= q < t.len() implies in_time_order(#[trigger] t[q]) by {
        if q == i {
            assert forall|a: int, b: int| 0 <= a < b < t[q].len() implies merge_key(
                #[trigger] t[q][a],
            ) <= merge_key(#[trigger] t[q][b]) by {
                assert(t[q][a] == qs[q][a + 1]);
                assert(t[q][b] == qs[q][b + 1]);
            }
        }
    }
}

/// Among merged events with equal times, those of a lower source come first: when the
/// sources are each in time order, two merged events with the same time are taken from
/// sources in nondecreasing order.
pub proof fn law_merge_ties_globally_to_lower_source(qs: Seq<Seq<Event>>, k: nat)
    requires
        forall|q: int| 0 <= q < qs.len() ==> in_time_order(#[trigger] qs[q]),
    ensures
        forall|j: int, l: int|
            0 <= j < l < merged(qs, k).len() && merge_key(#[trigger] merged(qs, k)[j]) == merge_key(
                #[trigger] merged(qs, k)[l],
            ) ==> merged_from(qs, k)[j] <= merged_from(qs, k)[l],
    decreases k,
{
    if k > 0 {
        lemma_first_queue(qs, qs.len() as int);
        if let Some(i) = first_queue(qs, qs.len() as int) {
            let t = take_head(qs, i);
            lemma_take_head_in_order(qs, i);
            law_merge_ties_globally_to_lower_source(t, (k - 1) as nat);
            law_merge_keeps_each_source_order(qs, k);
            law_merge_ties_go_to_lower_source(qs, qs.len() as int);
            let m = merged(qs, k);
            let p = merged_from(qs, k);
            let mt = merged(t, (k - 1) as nat);
            let pt = merged_from(t, (k - 1) as nat);
            assert(m == seq![qs[i][0]] + mt);
            assert(p == seq![i] + pt);
            assert forall|j: int, l: int|
                0 <= j < l < m.len() && merge_key(#[trigger] m[j]) == merge_key(#[trigger] m[l]) implies p[j]
                    <= p[l] by {
                if j == 0 {
                    let q = p[l];
                    let c = count_before(p, q, l) as int;
                    assert(0 <= q < qs.len());
                    assert(m[l] == qs[q][c]);
                    if q < i {
                        assert(qs[q].len() > 0);
                        assert(merge_key(qs[q][0]) > merge_key(qs[i][0]));
                        if c > 0 {
                            assert(merge_key(qs[q][0]) <= merge_key(qs[q][c]));
                        }
                        assert(m[0] == qs[i][0]);
                        assert(false);
                    }
                } else {
                    assert(m[j] == mt[j - 1]);
                    assert(m[l] == mt[l - 1]);
                    assert(p[j] == pt[j - 1]);
                    assert(p[l] == pt[l - 1]);
                }
            }
        }
    }
}

} // verus!
