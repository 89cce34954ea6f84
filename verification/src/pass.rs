//! Whole passes: what the collector asks, and where it ends, when the
//! replies of a given sequence are handed to it one by one.

use vstd::prelude::*;
use crate::collector::{
    start, Collector, CollectorView, Progress, ProgressView, Query, QueryView, Reply, ReplyView,
};
use crate::metrics::MetricSet;
use crate::summary::views;
use crate::text::texts;

verus! {

/// Where a pass stands after the replies of `replies` were handed in, one
/// by one, from `progress` on. Replies that are left when the pass has
/// ended change nothing.
pub open spec fn run(progress: ProgressView, replies: Seq<ReplyView>) -> ProgressView
    decreases replies.len(),
{
    match progress {
        ProgressView::Ask(collector, _) => if replies.len() == 0 {
            progress
        } else {
            run(collector.step(replies[0]), replies.drop_first())
        },
        _ => progress,
    }
}

/// The queries that are put to the store on that way, in order, the one
/// that `progress` itself asks being the first.
pub open spec fn asked(progress: ProgressView, replies: Seq<ReplyView>) -> Seq<QueryView>
    decreases replies.len(),
{
    match progress {
        ProgressView::Ask(collector, query) => if replies.len() == 0 {
            seq![query]
        } else {
            seq![query] + asked(collector.step(replies[0]), replies.drop_first())
        },
        _ => Seq::empty(),
    }
}

/// The streams that the stream queries among `queries` ask about, in order.
pub open spec fn stream_queries(queries: Seq<QueryView>) -> Seq<Seq<char>>
    decreases queries.len(),
{
    if queries.len() == 0 {
        Seq::empty()
    } else {
        match queries[0] {
            QueryView::StreamInfo { stream } => seq![stream] + stream_queries(
                queries.drop_first(),
            ),
            _ => stream_queries(queries.drop_first()),
        }
    }
}

/// Whether `queries` go through `identifiers` one at a time, from position
/// `at` on: each stream query asks about the identifier after the one that
/// the queries before it were about, and each query about groups or
/// consumers asks about the identifier of the last stream query. `at` is
/// the position that the queries before the first were about, -1 where
/// there were none.
pub open spec fn in_order(queries: Seq<QueryView>, identifiers: Seq<Seq<char>>, at: int) -> bool
    decreases queries.len(),
{
    if queries.len() == 0 {
        true
    } else {
        match queries[0] {
            QueryView::StreamInfo { stream } => {
                &&& 0 <= at + 1 < identifiers.len()
                &&& stream == identifiers[at + 1]
                &&& in_order(queries.drop_first(), identifiers, at + 1)
            },
            QueryView::GroupsInfo { stream } => {
                &&& 0 <= at < identifiers.len()
                &&& stream == identifiers[at]
                &&& in_order(queries.drop_first(), identifiers, at)
            },
            QueryView::ConsumersInfo { stream, group } => {
                &&& 0 <= at < identifiers.len()
                &&& stream == identifiers[at]
                &&& in_order(queries.drop_first(), identifiers, at)
            },
        }
    }
}

/// Whether two metric sets differ at most in the values of the series of
/// producer idle time: that series names the same streams in both, in the
/// same order, and every other series is the same in both.
pub open spec fn same_but_idle_values(a: MetricSet, b: MetricSet) -> bool {
    &&& a.redis_stream_length == b.redis_stream_length
    &&& a.redis_stream_earliest_id == b.redis_stream_earliest_id
    &&& a.redis_stream_latest_id == b.redis_stream_latest_id
    &&& a.redis_stream_consumer_groups_total == b.redis_stream_consumer_groups_total
    &&& a.redis_stream_consumer_group_last_delivered_id
        == b.redis_stream_consumer_group_last_delivered_id
    &&& a.redis_stream_consumer_group_pending_messages_total
        == b.redis_stream_consumer_group_pending_messages_total
    &&& a.redis_stream_consumer_group_consumers_total
        == b.redis_stream_consumer_group_consumers_total
    &&& a.redis_stream_consumer_pending_messages_total
        == b.redis_stream_consumer_pending_messages_total
    &&& a.redis_stream_consumer_idle_time_seconds == b.redis_stream_consumer_idle_time_seconds
    &&& a.redis_stream_idle.len() == b.redis_stream_idle.len()
    &&& forall|i: int|
        0 <= i < a.redis_stream_idle.len() ==> (#[trigger] a.redis_stream_idle[i]).stream
            == b.redis_stream_idle[i].stream
}

/// Whether two passes stand at the same place but for their time and what
/// was derived from it: they wait for the same reply, have ended with
/// metric sets that differ at most in the values of producer idle time, or
/// were given up for the same reason.
pub open spec fn same_but_time(a: ProgressView, b: ProgressView) -> bool {
    match (a, b) {
        (ProgressView::Ask(c, q), ProgressView::Ask(d, r)) => {
            &&& q == r
            &&& c.identifiers == d.identifiers
            &&& c.index == d.index
            &&& c.awaiting == d.awaiting
            &&& c.groups == d.groups
            &&& c.group == d.group
            &&& same_but_idle_values(c.metrics, d.metrics)
        },
        (ProgressView::Done(m), ProgressView::Done(n)) => same_but_idle_values(m, n),
        (ProgressView::Failed(e), ProgressView::Failed(f)) => e == f,
        _ => false,
    }
}

fn copy_of(query: &Query) -> (copy: Query)
    ensures
        copy@ == query@,
{
    match query {
        Query::StreamInfo { stream } => Query::StreamInfo { stream: stream.clone() },
        Query::GroupsInfo { stream } => Query::GroupsInfo { stream: stream.clone() },
        Query::ConsumersInfo { stream, group } => Query::ConsumersInfo {
            stream: stream.clone(),
            group: group.clone(),
        },
    }
}

/// Runs a pass over `identifiers` at the time `now_ms` against replies
/// that were recorded beforehand, handing them in one by one. Gives where
/// the pass stands after the last of them, or where it ended before, and
/// the queries that it asked, in order; for a pass that still waits, the
/// last of these is the query it waits for.
pub fn replay(identifiers: Vec<String>, now_ms: u128, replies: Vec<Reply>) -> (outcome: (
    Progress,
    Vec<Query>,
))
    ensures
        outcome.0@ == run(start(texts(identifiers@), now_ms as nat), views(replies@)),
        views(outcome.1@) == asked(start(texts(identifiers@), now_ms as nat), views(replies@)),
{
    let ghost begin = start(texts(identifiers@), now_ms as nat);
    let ghost all = views(replies@);
    let mut progress = Collector::start(identifiers, now_ms);
    let mut queries: Vec<Query> = Vec::new();
    assert(all.skip(0) =~= all);
    assert(views(queries@) + asked(begin, all) =~= asked(begin, all));
    for reply in it: replies.into_iter()
        invariant
            it.seq() == replies@,
            all == views(replies@),
            run(begin, all) == run(progress@, all.skip(it.index() as int)),
            asked(begin, all) == views(queries@) + asked(progress@, all.skip(it.index() as int)),
    {
        let ghost rest = all.skip(it.index() as int);
        let ghost had = views(queries@);
        proof {
            assert(rest[0] == reply@);
            assert(rest.drop_first() =~= all.skip(it.index() + 1));
        }
        progress =
        match progress {
            Progress::Ask(collector, query) => {
                let ghost asking = query@;
                queries.push(query);
                proof {
                    assert(views(queries@) =~= had.push(asking));
                    let later = asked(collector@.step(reply@), rest.drop_first());
                    assert(had + (seq![asking] + later) =~= had.push(asking) + later);
                }
                collector.step(reply)
            },
            other => other,
        };
    }
    proof {
        assert(all.skip(all.len() as int) =~= Seq::<ReplyView>::empty());
    }
    match &progress {
        Progress::Ask(_, query) => {
            let ghost had = views(queries@);
            queries.push(copy_of(query));
            assert(views(queries@) =~= had + seq![query@]);
        },
        _ => {
            assert(views(queries@) + Seq::<QueryView>::empty() =~= views(queries@));
        },
    }
    (progress, queries)
}

/// The position that the queries before the pending one were about.
spec fn position(collector: CollectorView) -> int {
    if collector.awaiting is Stream {
        collector.index - 1
    } else {
        collector.index as int
    }
}

/// The identifiers that stream queries are still to ask about, the
/// pending query counted in.
spec fn to_come(collector: CollectorView) -> Seq<Seq<char>> {
    if collector.awaiting is Stream {
        collector.identifiers.skip(collector.index as int)
    } else {
        collector.identifiers.skip(collector.index as int + 1)
    }
}

proof fn lemma_queries_from(collector: CollectorView, replies: Seq<ReplyView>)
    requires
        collector.wf(),
    ensures
        in_order(
            asked(ProgressView::Ask(collector, collector.pending()), replies),
            collector.identifiers,
            position(collector),
        ),
        run(ProgressView::Ask(collector, collector.pending()), replies) is Done ==> stream_queries(
            asked(ProgressView::Ask(collector, collector.pending()), replies),
        ) == to_come(collector),
    decreases replies.len(),
{
    let query = collector.pending();
    let here = ProgressView::Ask(collector, query);
    let identifiers = collector.identifiers;
    let at = position(collector);
    let after = if query is StreamInfo {
        at + 1
    } else {
        at
    };
    let none = Seq::<QueryView>::empty();
    assert(in_order(none, identifiers, after));
    assert(stream_queries(none) =~= Seq::<Seq<char>>::empty());
    if replies.len() == 0 {
        let all = asked(here, replies);
        assert(all == seq![query]);
        assert(all[0] == query);
        assert(all.drop_first() =~= none);
        assert(in_order(all, identifiers, at));
    } else {
        let there = collector.step(replies[0]);
        let rest = replies.drop_first();
        let later = asked(there, rest);
        let all = asked(here, replies);
        assert(all == seq![query] + later);
        assert(all.drop_first() =~= later);
        assert(all[0] == query);
        assert(run(here, replies) == run(there, rest));
        match there {
            ProgressView::Ask(next, pending) => {
                assert(next.wf());
                assert(pending == next.pending());
                assert(next.identifiers == identifiers);
                assert(position(next) == after);
                lemma_queries_from(next, rest);
                assert(in_order(later, identifiers, after));
                assert(in_order(all, identifiers, at));
                if run(here, replies) is Done {
                    assert(stream_queries(later) == to_come(next));
                    if collector.awaiting is Stream {
                        assert(to_come(collector) =~= seq![collector.stream()] + to_come(next));
                    } else {
                        assert(to_come(collector) =~= to_come(next));
                    }
                }
            },
            ProgressView::Done(_) => {
                assert(later =~= none);
                assert(in_order(all, identifiers, at));
                assert(!(collector.awaiting is Stream));
                assert(to_come(collector) =~= Seq::<Seq<char>>::empty());
                assert(stream_queries(all) == stream_queries(later));
            },
            ProgressView::Failed(_) => {
                assert(later =~= none);
                assert(in_order(all, identifiers, at));
            },
        }
    }
}

/// A pass asks stream by stream: each stream query is about the next
/// identifier of the list, and the queries about groups and consumers that
/// follow it, up to the next stream query, are about that same identifier.
/// A pass that is complete has asked one stream query for each identifier
/// of the list, in the order of the list.
pub proof fn lemma_pass_asks_stream_by_stream(
    identifiers: Seq<Seq<char>>,
    now_ms: nat,
    replies: Seq<ReplyView>,
)
    ensures
        in_order(asked(start(identifiers, now_ms), replies), identifiers, -1),
        run(start(identifiers, now_ms), replies) is Done ==> stream_queries(
            asked(start(identifiers, now_ms), replies),
        ) == identifiers,
{
    match start(identifiers, now_ms) {
        ProgressView::Ask(collector, query) => {
            lemma_queries_from(collector, replies);
            assert(identifiers.skip(0) =~= identifiers);
        },
        ProgressView::Done(_) => {
            assert(stream_queries(Seq::<QueryView>::empty()) =~= identifiers);
        },
        ProgressView::Failed(_) => {},
    }
}

proof fn lemma_same_but_time_from(a: ProgressView, b: ProgressView, replies: Seq<ReplyView>)
    requires
        same_but_time(a, b),
    ensures
        same_but_time(run(a, replies), run(b, replies)),
        asked(a, replies) == asked(b, replies),
    decreases replies.len(),
{
    match (a, b) {
        (ProgressView::Ask(c, _), ProgressView::Ask(d, _)) => {
            if replies.len() > 0 {
                lemma_step_same_but_time(c, d, replies[0]);
                lemma_same_but_time_from(
                    c.step(replies[0]),
                    d.step(replies[0]),
                    replies.drop_first(),
                );
            }
        },
        _ => {},
    }
}

proof fn lemma_step_same_but_time(c: CollectorView, d: CollectorView, reply: ReplyView)
    requires
        same_but_time(ProgressView::Ask(c, c.pending()), ProgressView::Ask(d, d.pending())),
    ensures
        same_but_time(c.step(reply), d.step(reply)),
{
}

/// The time of a pass reaches nothing but the values of producer idle
/// time. Two passes over the same identifiers that get the same replies ask
/// the same queries and end alike: both complete, or both given up for the
/// same reason. Where they are complete, their metric sets differ at most
/// in the values of the series of producer idle time. At one and the same
/// time the two passes are the same throughout.
pub proof fn lemma_time_reaches_idle_values_only(
    identifiers: Seq<Seq<char>>,
    now_ms: nat,
    then_ms: nat,
    replies: Seq<ReplyView>,
)
    ensures
        asked(start(identifiers, now_ms), replies) == asked(start(identifiers, then_ms), replies),
        same_but_time(
            run(start(identifiers, now_ms), replies),
            run(start(identifiers, then_ms), replies),
        ),
        now_ms == then_ms ==> run(start(identifiers, now_ms), replies) == run(
            start(identifiers, then_ms),
            replies,
        ),
{
    lemma_same_but_time_from(start(identifiers, now_ms), start(identifiers, then_ms), replies);
}

/// A pass over no identifier is complete at once: it asks nothing, and its
/// metric set has no sample in any series.
pub proof fn lemma_pass_over_no_identifier(now_ms: nat, replies: Seq<ReplyView>)
    ensures
        start(Seq::empty(), now_ms) == ProgressView::Done(MetricSet::empty()),
        run(start(Seq::empty(), now_ms), replies) == ProgressView::Done(MetricSet::empty()),
        asked(start(Seq::empty(), now_ms), replies) == Seq::<QueryView>::empty(),
{
}

} // verus!
