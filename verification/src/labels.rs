//! The labels of the samples of a pass: when no two samples of a series
//! carry the same labels.

use vstd::prelude::*;
use crate::collector::{ask_stream, start, CollectorView, ProgressView, ReplyView};
use crate::metrics::{consumer_idle_samples, consumer_pending_samples, MetricSet};
use crate::pass::run;
use crate::sample::{ConsumerSample, GroupSample, StreamSample};
use crate::summary::{ConsumerSummaryView, GroupSummaryView};

verus! {

/// Whether no two samples of a series labelled by stream name the same
/// stream.
pub open spec fn stream_labels_distinct(series: Seq<StreamSample>) -> bool {
    forall|i: int, j: int|
        0 <= i < j < series.len() ==> (#[trigger] series[i]).stream != (#[trigger] series[j]).stream
}

/// Whether no two samples of a series labelled by stream and group name
/// the same group of the same stream.
pub open spec fn group_labels_distinct(series: Seq<GroupSample>) -> bool {
    forall|i: int, j: int|
        0 <= i < j < series.len() ==> !((#[trigger] series[i]).stream == (
        #[trigger] series[j]).stream && series[i].group == series[j].group)
}

/// Whether no two samples of a series labelled by stream, group and
/// consumer name the same consumer of the same group of the same stream.
pub open spec fn consumer_labels_distinct(series: Seq<ConsumerSample>) -> bool {
    forall|i: int, j: int|
        0 <= i < j < series.len() ==> !((#[trigger] series[i]).stream == (
        #[trigger] series[j]).stream && series[i].group == series[j].group && series[i].consumer
            == series[j].consumer)
}

/// Whether, in each of the ten series, no two samples carry the same
/// labels.
pub open spec fn labels_distinct(metrics: MetricSet) -> bool {
    &&& stream_labels_distinct(metrics.redis_stream_length)
    &&& stream_labels_distinct(metrics.redis_stream_earliest_id)
    &&& stream_labels_distinct(metrics.redis_stream_latest_id)
    &&& stream_labels_distinct(metrics.redis_stream_consumer_groups_total)
    &&& stream_labels_distinct(metrics.redis_stream_idle)
    &&& group_labels_distinct(metrics.redis_stream_consumer_group_last_delivered_id)
    &&& group_labels_distinct(metrics.redis_stream_consumer_group_pending_messages_total)
    &&& group_labels_distinct(metrics.redis_stream_consumer_group_consumers_total)
    &&& consumer_labels_distinct(metrics.redis_stream_consumer_pending_messages_total)
    &&& consumer_labels_distinct(metrics.redis_stream_consumer_idle_time_seconds)
}

/// Whether no two groups of `groups` have the same name.
pub open spec fn group_names_distinct(groups: Seq<GroupSummaryView>) -> bool {
    forall|i: int, j: int|
        0 <= i < j < groups.len() ==> (#[trigger] groups[i]).name != (#[trigger] groups[j]).name
}

/// Whether no two consumers of `consumers` have the same name.
pub open spec fn consumer_names_distinct(consumers: Seq<ConsumerSummaryView>) -> bool {
    forall|i: int, j: int|
        0 <= i < j < consumers.len() ==> (#[trigger] consumers[i]).name != (
        #[trigger] consumers[j]).name
}

/// Whether a reply names nothing twice: no two groups of a list of groups,
/// and no two consumers of a list of consumers, have the same name.
pub open spec fn names_distinct(reply: ReplyView) -> bool {
    match reply {
        ReplyView::Groups(groups) => group_names_distinct(groups),
        ReplyView::Consumers(consumers) => consumer_names_distinct(consumers),
        _ => true,
    }
}

/// Whether no two identifiers of the list are the same.
pub open spec fn identifiers_distinct(identifiers: Seq<Seq<char>>) -> bool {
    forall|i: int, j: int|
        0 <= i < j < identifiers.len() ==> #[trigger] identifiers[i] != #[trigger] identifiers[j]
}

// No sample of the series is about an identifier at position `from` or later.
spec fn stream_beyond(series: Seq<StreamSample>, identifiers: Seq<Seq<char>>, from: int) -> bool {
    forall|i: int, j: int|
        0 <= i < series.len() && from <= j < identifiers.len() ==> (#[trigger] series[i]).stream
            != #[trigger] identifiers[j]
}

spec fn group_beyond(series: Seq<GroupSample>, identifiers: Seq<Seq<char>>, from: int) -> bool {
    forall|i: int, j: int|
        0 <= i < series.len() && from <= j < identifiers.len() ==> (#[trigger] series[i]).stream
            != #[trigger] identifiers[j]
}

spec fn consumer_beyond(series: Seq<ConsumerSample>, identifiers: Seq<Seq<char>>, from: int) -> bool {
    forall|i: int, j: int|
        0 <= i < series.len() && from <= j < identifiers.len() ==> (#[trigger] series[i]).stream
            != #[trigger] identifiers[j]
}

// No sample of the series about `stream` is about a group at position `from` or later.
spec fn group_ahead(
    series: Seq<GroupSample>,
    stream: Seq<char>,
    groups: Seq<GroupSummaryView>,
    from: int,
) -> bool {
    forall|i: int, h: int|
        0 <= i < series.len() && from <= h < groups.len() && (#[trigger] series[i]).stream
            == stream ==> series[i].group != (#[trigger] groups[h]).name
}

spec fn consumer_ahead(
    series: Seq<ConsumerSample>,
    stream: Seq<char>,
    groups: Seq<GroupSummaryView>,
    from: int,
) -> bool {
    forall|i: int, h: int|
        0 <= i < series.len() && from <= h < groups.len() && (#[trigger] series[i]).stream
            == stream ==> series[i].group != (#[trigger] groups[h]).name
}

spec fn stream_series_settled(
    series: Seq<StreamSample>,
    identifiers: Seq<Seq<char>>,
    from: int,
) -> bool {
    stream_labels_distinct(series) && stream_beyond(series, identifiers, from)
}

spec fn group_series_settled(
    series: Seq<GroupSample>,
    identifiers: Seq<Seq<char>>,
    from: int,
    stream: Seq<char>,
    groups: Seq<GroupSummaryView>,
    group_from: int,
) -> bool {
    &&& group_labels_distinct(series)
    &&& group_beyond(series, identifiers, from)
    &&& group_ahead(series, stream, groups, group_from)
}

spec fn consumer_series_settled(
    series: Seq<ConsumerSample>,
    identifiers: Seq<Seq<char>>,
    from: int,
    stream: Seq<char>,
    groups: Seq<GroupSummaryView>,
    group_from: int,
) -> bool {
    &&& consumer_labels_distinct(series)
    &&& consumer_beyond(series, identifiers, from)
    &&& consumer_ahead(series, stream, groups, group_from)
}

// What holds of the samples recorded so far: labels are distinct in each
// series; the series labelled by stream say nothing of the identifiers from
// `stream_from` on, the others nothing of those from `from` on; and of the
// groups of `stream`, the series labelled by group say nothing of those from
// `group_from` on, the series labelled by consumer nothing of those from
// `consumer_from` on.
spec fn settled(
    metrics: MetricSet,
    identifiers: Seq<Seq<char>>,
    stream_from: int,
    from: int,
    stream: Seq<char>,
    groups: Seq<GroupSummaryView>,
    group_from: int,
    consumer_from: int,
) -> bool {
    &&& stream_series_settled(metrics.redis_stream_length, identifiers, stream_from)
    &&& stream_series_settled(metrics.redis_stream_earliest_id, identifiers, stream_from)
    &&& stream_series_settled(metrics.redis_stream_latest_id, identifiers, stream_from)
    &&& stream_series_settled(metrics.redis_stream_consumer_groups_total, identifiers, stream_from)
    &&& stream_series_settled(metrics.redis_stream_idle, identifiers, stream_from)
    &&& group_series_settled(
        metrics.redis_stream_consumer_group_last_delivered_id,
        identifiers,
        from,
        stream,
        groups,
        group_from,
    )
    &&& group_series_settled(
        metrics.redis_stream_consumer_group_pending_messages_total,
        identifiers,
        from,
        stream,
        groups,
        group_from,
    )
    &&& group_series_settled(
        metrics.redis_stream_consumer_group_consumers_total,
        identifiers,
        from,
        stream,
        groups,
        group_from,
    )
    &&& consumer_series_settled(
        metrics.redis_stream_consumer_pending_messages_total,
        identifiers,
        from,
        stream,
        groups,
        consumer_from,
    )
    &&& consumer_series_settled(
        metrics.redis_stream_consumer_idle_time_seconds,
        identifiers,
        from,
        stream,
        groups,
        consumer_from,
    )
}

spec fn collector_settled(collector: CollectorView) -> bool {
    let index = collector.index as int;
    &&& collector.wf()
    &&& identifiers_distinct(collector.identifiers)
    &&& match collector.awaiting {
        crate::collector::Awaiting::Stream => settled(
            collector.metrics,
            collector.identifiers,
            index,
            index,
            collector.stream(),
            collector.groups,
            0,
            0,
        ),
        crate::collector::Awaiting::Groups => settled(
            collector.metrics,
            collector.identifiers,
            index + 1,
            index,
            collector.stream(),
            collector.groups,
            0,
            0,
        ),
        crate::collector::Awaiting::Consumers => {
            &&& group_names_distinct(collector.groups)
            &&& settled(
                collector.metrics,
                collector.identifiers,
                index + 1,
                index + 1,
                collector.stream(),
                collector.groups,
                collector.group as int + 1,
                collector.group as int,
            )
        },
    }
}

spec fn progress_settled(progress: ProgressView) -> bool {
    match progress {
        ProgressView::Ask(collector, _) => collector_settled(collector),
        ProgressView::Done(metrics) => labels_distinct(metrics),
        ProgressView::Failed(_) => true,
    }
}

proof fn lemma_push_stream(
    series: Seq<StreamSample>,
    sample: StreamSample,
    identifiers: Seq<Seq<char>>,
    index: int,
)
    requires
        identifiers_distinct(identifiers),
        0 <= index < identifiers.len(),
        sample.stream == identifiers[index],
        stream_series_settled(series, identifiers, index),
    ensures
        stream_series_settled(series.push(sample), identifiers, index + 1),
        stream_series_settled(series, identifiers, index + 1),
{
    let longer = series.push(sample);
    assert forall|i: int, j: int| 0 <= i < j < longer.len() implies (#[trigger] longer[i]).stream
        != (#[trigger] longer[j]).stream by {
        if j == series.len() {
            assert(longer[i] == series[i]);
            assert(series[i].stream != identifiers[index]);
        } else {
            assert(longer[i] == series[i] && longer[j] == series[j]);
        }
    }
    assert forall|i: int, j: int|
        0 <= i < longer.len() && index + 1 <= j < identifiers.len() implies (
    #[trigger] longer[i]).stream != #[trigger] identifiers[j] by {
        if i == series.len() {
            assert(identifiers[index] != identifiers[j]);
        } else {
            assert(longer[i] == series[i]);
        }
    }
}

proof fn lemma_push_group(
    series: Seq<GroupSample>,
    sample: GroupSample,
    identifiers: Seq<Seq<char>>,
    index: int,
    groups: Seq<GroupSummaryView>,
    g: int,
)
    requires
        identifiers_distinct(identifiers),
        group_names_distinct(groups),
        0 <= index < identifiers.len(),
        0 <= g < groups.len(),
        sample.stream == identifiers[index],
        sample.group == groups[g].name,
        group_series_settled(series, identifiers, index + 1, identifiers[index], groups, g),
    ensures
        group_series_settled(
            series.push(sample),
            identifiers,
            index + 1,
            identifiers[index],
            groups,
            g + 1,
        ),
{
    let longer = series.push(sample);
    let stream = identifiers[index];
    assert forall|i: int, j: int| 0 <= i < j < longer.len() implies !((
    #[trigger] longer[i]).stream == (#[trigger] longer[j]).stream && longer[i].group
        == longer[j].group) by {
        if j == series.len() {
            assert(longer[i] == series[i]);
            if series[i].stream == stream {
                assert(series[i].group != groups[g].name);
            }
        } else {
            assert(longer[i] == series[i] && longer[j] == series[j]);
        }
    }
    assert forall|i: int, j: int|
        0 <= i < longer.len() && index + 1 <= j < identifiers.len() implies (
    #[trigger] longer[i]).stream != #[trigger] identifiers[j] by {
        if i == series.len() {
            assert(identifiers[index] != identifiers[j]);
        } else {
            assert(longer[i] == series[i]);
        }
    }
    assert forall|i: int, h: int|
        0 <= i < longer.len() && g + 1 <= h < groups.len() && (#[trigger] longer[i]).stream
            == stream implies longer[i].group != (#[trigger] groups[h]).name by {
        if i == series.len() {
            assert(groups[g].name != groups[h].name);
        } else {
            assert(longer[i] == series[i]);
        }
    }
}

proof fn lemma_append_consumers(
    series: Seq<ConsumerSample>,
    added: Seq<ConsumerSample>,
    consumers: Seq<ConsumerSummaryView>,
    identifiers: Seq<Seq<char>>,
    index: int,
    groups: Seq<GroupSummaryView>,
    g: int,
)
    requires
        identifiers_distinct(identifiers),
        group_names_distinct(groups),
        consumer_names_distinct(consumers),
        0 <= index < identifiers.len(),
        0 <= g < groups.len(),
        added.len() == consumers.len(),
        forall|i: int|
            0 <= i < added.len() ==> (#[trigger] added[i]).stream == identifiers[index]
                && added[i].group == groups[g].name && added[i].consumer == consumers[i].name,
        consumer_series_settled(series, identifiers, index + 1, identifiers[index], groups, g),
    ensures
        consumer_series_settled(
            series + added,
            identifiers,
            index + 1,
            identifiers[index],
            groups,
            g + 1,
        ),
{
    let longer = series + added;
    let stream = identifiers[index];
    let n = series.len() as int;
    assert forall|i: int, j: int| 0 <= i < j < longer.len() implies !((
    #[trigger] longer[i]).stream == (#[trigger] longer[j]).stream && longer[i].group
        == longer[j].group && longer[i].consumer == longer[j].consumer) by {
        if j < n {
            assert(longer[i] == series[i] && longer[j] == series[j]);
        } else if i < n {
            assert(longer[i] == series[i]);
            assert(longer[j] == added[j - n]);
            if series[i].stream == stream {
                assert(series[i].group != groups[g].name);
            }
        } else {
            assert(longer[i] == added[i - n]);
            assert(longer[j] == added[j - n]);
            assert(consumers[i - n].name != consumers[j - n].name);
        }
    }
    assert forall|i: int, j: int|
        0 <= i < longer.len() && index + 1 <= j < identifiers.len() implies (
    #[trigger] longer[i]).stream != #[trigger] identifiers[j] by {
        if i < n {
            assert(longer[i] == series[i]);
        } else {
            assert(longer[i] == added[i - n]);
            assert(identifiers[index] != identifiers[j]);
        }
    }
    assert forall|i: int, h: int|
        0 <= i < longer.len() && g + 1 <= h < groups.len() && (#[trigger] longer[i]).stream
            == stream implies longer[i].group != (#[trigger] groups[h]).name by {
        if i < n {
            assert(longer[i] == series[i]);
        } else {
            assert(longer[i] == added[i - n]);
            assert(groups[g].name != groups[h].name);
        }
    }
}

// From one identifier to the next: what was settled for the stream at
// `index`, all of its groups taken, is settled for the start of the next.
proof fn lemma_ask_stream_settled(
    identifiers: Seq<Seq<char>>,
    now_ms: nat,
    metrics: MetricSet,
    index: int,
    stream: Seq<char>,
    groups: Seq<GroupSummaryView>,
    group_from: int,
    consumer_from: int,
)
    requires
        0 <= index,
        identifiers_distinct(identifiers),
        settled(metrics, identifiers, index, index, stream, groups, group_from, consumer_from),
    ensures
        progress_settled(ask_stream(identifiers, now_ms, metrics, index as nat)),
{
}

proof fn lemma_enter_group_settled(collector: CollectorView, g: int)
    requires
        collector.wf(),
        0 <= g,
        identifiers_distinct(collector.identifiers),
        group_names_distinct(collector.groups),
        settled(
            collector.metrics,
            collector.identifiers,
            collector.index as int + 1,
            collector.index as int + 1,
            collector.stream(),
            collector.groups,
            g,
            g,
        ),
    ensures
        progress_settled(collector.enter_group(g as nat)),
{
    let identifiers = collector.identifiers;
    let index = collector.index as int;
    let groups = collector.groups;
    let metrics = collector.metrics;
    let stream = collector.stream();
    if g < groups.len() {
        let group = groups[g];
        let after = metrics.with_group(stream, group);
        lemma_push_group(
            metrics.redis_stream_consumer_group_last_delivered_id,
            after.redis_stream_consumer_group_last_delivered_id.last(),
            identifiers,
            index,
            groups,
            g,
        );
        lemma_push_group(
            metrics.redis_stream_consumer_group_pending_messages_total,
            after.redis_stream_consumer_group_pending_messages_total.last(),
            identifiers,
            index,
            groups,
            g,
        );
        lemma_push_group(
            metrics.redis_stream_consumer_group_consumers_total,
            after.redis_stream_consumer_group_consumers_total.last(),
            identifiers,
            index,
            groups,
            g,
        );
    } else {
        lemma_ask_stream_settled(
            identifiers,
            collector.now_ms,
            metrics,
            index + 1,
            stream,
            groups,
            g,
            g,
        );
    }
}

proof fn lemma_step_settled(collector: CollectorView, reply: ReplyView)
    requires
        collector_settled(collector),
        names_distinct(reply),
    ensures
        progress_settled(collector.step(reply)),
{
    let identifiers = collector.identifiers;
    let index = collector.index as int;
    let metrics = collector.metrics;
    let stream = collector.stream();
    match reply {
        ReplyView::Failed(_) => {},
        ReplyView::Stream(summary) => {
            if collector.awaiting is Stream {
                let after = metrics.with_stream(stream, summary, collector.now_ms);
                lemma_push_stream(
                    metrics.redis_stream_length,
                    after.redis_stream_length.last(),
                    identifiers,
                    index,
                );
                lemma_push_stream(
                    metrics.redis_stream_earliest_id,
                    after.redis_stream_earliest_id.last(),
                    identifiers,
                    index,
                );
                lemma_push_stream(
                    metrics.redis_stream_latest_id,
                    after.redis_stream_latest_id.last(),
                    identifiers,
                    index,
                );
                lemma_push_stream(
                    metrics.redis_stream_consumer_groups_total,
                    after.redis_stream_consumer_groups_total.last(),
                    identifiers,
                    index,
                );
                lemma_push_stream(
                    metrics.redis_stream_idle,
                    StreamSample { stream: stream, value: Seq::empty() },
                    identifiers,
                    index,
                );
                if after.redis_stream_idle != metrics.redis_stream_idle {
                    lemma_push_stream(
                        metrics.redis_stream_idle,
                        after.redis_stream_idle.last(),
                        identifiers,
                        index,
                    );
                }
            }
        },
        ReplyView::Groups(groups) => {
            if collector.awaiting is Groups {
                let next = CollectorView { groups: groups, ..collector };
                lemma_enter_group_settled(next, 0);
            }
        },
        ReplyView::Consumers(consumers) => {
            if collector.awaiting is Consumers {
                let g = collector.group as int;
                let name = collector.groups[g].name;
                let after = metrics.with_consumers(stream, name, consumers);
                lemma_append_consumers(
                    metrics.redis_stream_consumer_pending_messages_total,
                    consumer_pending_samples(stream, name, consumers),
                    consumers,
                    identifiers,
                    index,
                    collector.groups,
                    g,
                );
                lemma_append_consumers(
                    metrics.redis_stream_consumer_idle_time_seconds,
                    consumer_idle_samples(stream, name, consumers),
                    consumers,
                    identifiers,
                    index,
                    collector.groups,
                    g,
                );
                let next = CollectorView { metrics: after, ..collector };
                lemma_enter_group_settled(next, g + 1);
            }
        },
    }
}

proof fn lemma_run_settled(progress: ProgressView, replies: Seq<ReplyView>)
    requires
        progress_settled(progress),
        forall|i: int| 0 <= i < replies.len() ==> names_distinct(#[trigger] replies[i]),
    ensures
        progress_settled(run(progress, replies)),
    decreases replies.len(),
{
    match progress {
        ProgressView::Ask(collector, _) => {
            if replies.len() > 0 {
                lemma_step_settled(collector, replies[0]);
                let rest = replies.drop_first();
                assert forall|i: int| 0 <= i < rest.len() implies names_distinct(
                    #[trigger] rest[i],
                ) by {
                    assert(rest[i] == replies[i + 1]);
                }
                lemma_run_settled(collector.step(replies[0]), rest);
            }
        },
        _ => {},
    }
}

/// In the metric set of a complete pass no two samples of a series carry
/// the same labels, where the pass was given nothing twice: no identifier
/// stands twice in the list, no reply names two groups alike, and none
/// names two consumers alike.
pub proof fn lemma_pass_labels_distinct(
    identifiers: Seq<Seq<char>>,
    now_ms: nat,
    replies: Seq<ReplyView>,
)
    requires
        identifiers_distinct(identifiers),
        forall|i: int| 0 <= i < replies.len() ==> names_distinct(#[trigger] replies[i]),
    ensures
        run(start(identifiers, now_ms), replies) matches ProgressView::Done(metrics)
            ==> labels_distinct(metrics),
{
    lemma_ask_stream_settled(
        identifiers,
        now_ms,
        MetricSet::empty(),
        0,
        Seq::empty(),
        Seq::empty(),
        0,
        0,
    );
    lemma_run_settled(start(identifiers, now_ms), replies);
}

} // verus!
