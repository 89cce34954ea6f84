//! The metric set of one collection pass, ten series of samples, and its
//! text in the exposition format.

use vstd::prelude::*;
use crate::decimal::{decimal, render_decimal};
use crate::sample::{
    consumer_line, group_line, sample_lines, stream_line, sv_quick_join, ConsumerSample,
    GroupSample, PairToString, StreamSample, SGCV, SGV, SV,
};
use crate::stream_id::{producer_idle, producer_idle_at, timestamp_of, ParseError};
use crate::summary::{
    views, ConsumerSummary, ConsumerSummaryView, GroupSummary, GroupSummaryView, StreamSummary,
    StreamSummaryView,
};
use crate::text::{join, join_lines, texts};

verus! {

/// The samples of one collection pass. Each series holds its samples in
/// the order in which they were recorded. Nothing is merged or dropped: what
/// is recorded twice stands twice.
#[derive(Debug, Clone, PartialEq, Eq)]
pub struct Metrics {
    pub redis_stream_length: Vec<SV>,
    pub redis_stream_earliest_id: Vec<SV>,
    pub redis_stream_latest_id: Vec<SV>,
    pub redis_stream_consumer_groups_total: Vec<SV>,
    pub redis_stream_idle: Vec<SV>,
    pub redis_stream_consumer_group_last_delivered_id: Vec<SGV>,
    pub redis_stream_consumer_group_pending_messages_total: Vec<SGV>,
    pub redis_stream_consumer_group_consumers_total: Vec<SGV>,
    pub redis_stream_consumer_pending_messages_total: Vec<SGCV>,
    pub redis_stream_consumer_idle_time_seconds: Vec<SGCV>,
}

/// A `Metrics` as plain values.
pub struct MetricSet {
    pub redis_stream_length: Seq<StreamSample>,
    pub redis_stream_earliest_id: Seq<StreamSample>,
    pub redis_stream_latest_id: Seq<StreamSample>,
    pub redis_stream_consumer_groups_total: Seq<StreamSample>,
    pub redis_stream_idle: Seq<StreamSample>,
    pub redis_stream_consumer_group_last_delivered_id: Seq<GroupSample>,
    pub redis_stream_consumer_group_pending_messages_total: Seq<GroupSample>,
    pub redis_stream_consumer_group_consumers_total: Seq<GroupSample>,
    pub redis_stream_consumer_pending_messages_total: Seq<ConsumerSample>,
    pub redis_stream_consumer_idle_time_seconds: Seq<ConsumerSample>,
}

impl View for Metrics {
    type V = MetricSet;

    open spec fn view(&self) -> MetricSet {
        MetricSet {
            redis_stream_length: views(self.redis_stream_length@),
            redis_stream_earliest_id: views(self.redis_stream_earliest_id@),
            redis_stream_latest_id: views(self.redis_stream_latest_id@),
            redis_stream_consumer_groups_total: views(self.redis_stream_consumer_groups_total@),
            redis_stream_idle: views(self.redis_stream_idle@),
            redis_stream_consumer_group_last_delivered_id: views(
                self.redis_stream_consumer_group_last_delivered_id@,
            ),
            redis_stream_consumer_group_pending_messages_total: views(
                self.redis_stream_consumer_group_pending_messages_total@,
            ),
            redis_stream_consumer_group_consumers_total: views(
                self.redis_stream_consumer_group_consumers_total@,
            ),
            redis_stream_consumer_pending_messages_total: views(
                self.redis_stream_consumer_pending_messages_total@,
            ),
            redis_stream_consumer_idle_time_seconds: views(
                self.redis_stream_consumer_idle_time_seconds@,
            ),
        }
    }
}

/// The name of the `k`-th series, counted from 0 in the order in which the
/// series are written.
pub open spec fn series_name(k: int) -> Seq<char> {
    if k == 0 {
        "redis_stream_length"@
    } else if k == 1 {
        "redis_stream_earliest_id"@
    } else if k == 2 {
        "redis_stream_latest_id"@
    } else if k == 3 {
        "redis_stream_consumer_groups_total"@
    } else if k == 4 {
        "redis_stream_idle"@
    } else if k == 5 {
        "redis_stream_consumer_group_last_delivered_id"@
    } else if k == 6 {
        "redis_stream_consumer_group_pending_messages_total"@
    } else if k == 7 {
        "redis_stream_consumer_group_consumers_total"@
    } else if k == 8 {
        "redis_stream_consumer_pending_messages_total"@
    } else {
        "redis_stream_consumer_idle_time_seconds"@
    }
}

/// The description of the `k`-th series.
pub open spec fn series_help(k: int) -> Seq<char> {
    if k == 0 {
        "Number of messages in the stream"@
    } else if k == 1 {
        "The epoch timestamp of the earliest message on the stream"@
    } else if k == 2 {
        "The epoch timestamp of the latest message on the stream"@
    } else if k == 3 {
        "Number of consumer groups for the stream"@
    } else if k == 4 {
        "The epoch timestamp of producer idle on the stream"@
    } else if k == 5 {
        "The epoch timestamp of the last delivered message"@
    } else if k == 6 {
        "Number of pending messages for the group"@
    } else if k == 7 {
        "Number of consumers in the group"@
    } else if k == 8 {
        "Number of pending messages for the consumer"@
    } else {
        "The amount of time for which the consumer has been idle"@
    }
}

/// The first header line of a series: `# HELP <name> <description>`.
pub open spec fn help_line(name: Seq<char>, help: Seq<char>) -> Seq<char> {
    "# HELP "@ + name + " "@ + help
}

/// The second header line of a series: `# TYPE <name> gauge`.
pub open spec fn type_line(name: Seq<char>) -> Seq<char> {
    "# TYPE "@ + name + " gauge"@
}

/// The two header lines of a series, with the line feed between them.
pub open spec fn header_text(name: Seq<char>, help: Seq<char>) -> Seq<char> {
    help_line(name, help) + seq!['\n'] + type_line(name)
}

/// The lines of a series labelled by stream, under the metric `name`.
pub open spec fn stream_lines(series: Seq<StreamSample>, name: Seq<char>) -> Seq<Seq<char>> {
    Seq::new(series.len(), |i: int| stream_line(name, series[i]))
}

/// The lines of a series labelled by stream and group.
pub open spec fn group_lines(series: Seq<GroupSample>, name: Seq<char>) -> Seq<Seq<char>> {
    Seq::new(series.len(), |i: int| group_line(name, series[i]))
}

/// The lines of a series labelled by stream, group and consumer.
pub open spec fn consumer_lines(series: Seq<ConsumerSample>, name: Seq<char>) -> Seq<
    Seq<char>,
> {
    Seq::new(series.len(), |i: int| consumer_line(name, series[i]))
}

/// The samples that a group's consumers add to the series of pending
/// counts: one for each consumer, in order.
pub open spec fn consumer_pending_samples(
    stream: Seq<char>,
    group: Seq<char>,
    consumers: Seq<ConsumerSummaryView>,
) -> Seq<ConsumerSample> {
    Seq::new(
        consumers.len(),
        |i: int|
            ConsumerSample {
                stream: stream,
                group: group,
                consumer: consumers[i].name,
                value: decimal(consumers[i].pending),
            },
    )
}

/// The samples that a group's consumers add to the series of idle times:
/// one for each consumer, in order, with the store's figure as it is.
pub open spec fn consumer_idle_samples(
    stream: Seq<char>,
    group: Seq<char>,
    consumers: Seq<ConsumerSummaryView>,
) -> Seq<ConsumerSample> {
    Seq::new(
        consumers.len(),
        |i: int|
            ConsumerSample {
                stream: stream,
                group: group,
                consumer: consumers[i].name,
                value: decimal(consumers[i].idle),
            },
    )
}

impl MetricSet {
    /// The metric set without any sample.
    pub open spec fn empty() -> MetricSet {
        MetricSet {
            redis_stream_length: Seq::empty(),
            redis_stream_earliest_id: Seq::empty(),
            redis_stream_latest_id: Seq::empty(),
            redis_stream_consumer_groups_total: Seq::empty(),
            redis_stream_idle: Seq::empty(),
            redis_stream_consumer_group_last_delivered_id: Seq::empty(),
            redis_stream_consumer_group_pending_messages_total: Seq::empty(),
            redis_stream_consumer_group_consumers_total: Seq::empty(),
            redis_stream_consumer_pending_messages_total: Seq::empty(),
            redis_stream_consumer_idle_time_seconds: Seq::empty(),
        }
    }

    /// This set after the summary of `stream` was recorded at `now_ms`:
    /// one more sample in each of the series of length, earliest and latest
    /// identifier and number of groups, and one more in the series of
    /// producer idle time unless the stream was never written to.
    pub open spec fn with_stream(
        self,
        stream: Seq<char>,
        summary: StreamSummaryView,
        now_ms: nat,
    ) -> MetricSet {
        MetricSet {
            redis_stream_length: self.redis_stream_length.push(
                StreamSample { stream: stream, value: decimal(summary.length) },
            ),
            redis_stream_earliest_id: self.redis_stream_earliest_id.push(
                StreamSample { stream: stream, value: summary.first_id },
            ),
            redis_stream_latest_id: self.redis_stream_latest_id.push(
                StreamSample { stream: stream, value: summary.last_id },
            ),
            redis_stream_consumer_groups_total: self.redis_stream_consumer_groups_total.push(
                StreamSample { stream: stream, value: decimal(summary.groups) },
            ),
            redis_stream_idle: match producer_idle(summary.last_generated_id, now_ms) {
                Some(seconds) => self.redis_stream_idle.push(
                    StreamSample { stream: stream, value: decimal(seconds) },
                ),
                None => self.redis_stream_idle,
            },
            ..self
        }
    }

    /// This set after the summary of a group of `stream` was recorded: one
    /// more sample in each of the three series labelled by stream and group.
    pub open spec fn with_group(self, stream: Seq<char>, group: GroupSummaryView) -> MetricSet {
        MetricSet {
            redis_stream_consumer_group_last_delivered_id:
                self.redis_stream_consumer_group_last_delivered_id.push(
                GroupSample { stream: stream, group: group.name, value: group.last_delivered_id },
            ),
            redis_stream_consumer_group_pending_messages_total:
                self.redis_stream_consumer_group_pending_messages_total.push(
                GroupSample { stream: stream, group: group.name, value: decimal(group.pending) },
            ),
            redis_stream_consumer_group_consumers_total:
                self.redis_stream_consumer_group_consumers_total.push(
                GroupSample { stream: stream, group: group.name, value: decimal(group.consumers) },
            ),
            ..self
        }
    }

    /// This set after the consumers of `group` of `stream` were recorded:
    /// one more sample for each consumer, in order, in each of the two
    /// series labelled by stream, group and consumer.
    pub open spec fn with_consumers(
        self,
        stream: Seq<char>,
        group: Seq<char>,
        consumers: Seq<ConsumerSummaryView>,
    ) -> MetricSet {
        MetricSet {
            redis_stream_consumer_pending_messages_total:
                self.redis_stream_consumer_pending_messages_total + consumer_pending_samples(
                stream,
                group,
                consumers,
            ),
            redis_stream_consumer_idle_time_seconds: self.redis_stream_consumer_idle_time_seconds
                + consumer_idle_samples(stream, group, consumers),
            ..self
        }
    }

    /// The sample lines of the `k`-th series, in order.
    pub open spec fn series_lines(self, k: int) -> Seq<Seq<char>> {
        if k == 0 {
            stream_lines(self.redis_stream_length, series_name(0))
        } else if k == 1 {
            stream_lines(self.redis_stream_earliest_id, series_name(1))
        } else if k == 2 {
            stream_lines(self.redis_stream_latest_id, series_name(2))
        } else if k == 3 {
            stream_lines(self.redis_stream_consumer_groups_total, series_name(3))
        } else if k == 4 {
            stream_lines(self.redis_stream_idle, series_name(4))
        } else if k == 5 {
            group_lines(self.redis_stream_consumer_group_last_delivered_id, series_name(5))
        } else if k == 6 {
            group_lines(self.redis_stream_consumer_group_pending_messages_total, series_name(6))
        } else if k == 7 {
            group_lines(self.redis_stream_consumer_group_consumers_total, series_name(7))
        } else if k == 8 {
            consumer_lines(self.redis_stream_consumer_pending_messages_total, series_name(8))
        } else {
            consumer_lines(self.redis_stream_consumer_idle_time_seconds, series_name(9))
        }
    }

    /// The twenty segments of the text: for each series, in order, its
    /// header and then its sample lines joined by line feeds.
    pub open spec fn segments(self) -> Seq<Seq<char>> {
        Seq::new(
            20,
            |j: int|
                if j % 2 == 0 {
                    header_text(series_name(j / 2), series_help(j / 2))
                } else {
                    join_lines(self.series_lines(j / 2))
                },
        )
    }

    /// The text of the set in the exposition format: its segments with a
    /// line feed between each two neighbours. A series without samples
    /// keeps its header, and an empty line follows it.
    pub open spec fn rendered(self) -> Seq<char> {
        join_lines(self.segments())
    }
}

/// The lines of a vector of samples labelled by stream are those of its view.
pub proof fn lemma_stream_sample_lines(series: Seq<SV>, name: Seq<char>)
    ensures
        sample_lines(series, name) == stream_lines(views(series), name),
{
    assert(sample_lines(series, name) =~= stream_lines(views(series), name));
}

/// The lines of a vector of samples labelled by stream and group are those
/// of its view.
pub proof fn lemma_group_sample_lines(series: Seq<SGV>, name: Seq<char>)
    ensures
        sample_lines(series, name) == group_lines(views(series), name),
{
    assert(sample_lines(series, name) =~= group_lines(views(series), name));
}

/// The lines of a vector of samples labelled by stream, group and consumer
/// are those of its view.
pub proof fn lemma_consumer_sample_lines(series: Seq<SGCV>, name: Seq<char>)
    ensures
        sample_lines(series, name) == consumer_lines(views(series), name),
{
    assert(sample_lines(series, name) =~= consumer_lines(views(series), name));
}

/// The text of a metric set is a function of its samples alone. Two sets
/// that hold the same samples in the same order have the same text, so
/// writing one set twice gives the same text twice.
pub proof fn lemma_same_samples_same_text(a: Metrics, b: Metrics)
    requires
        a@ == b@,
    ensures
        a@.rendered() == b@.rendered(),
{
}

/// Writes the two header lines of a series.
pub fn header_of(name: &str, help: &str) -> (text: String)
    ensures
        text@ == header_text(name@, help@),
{
    let mut text = String::from_str("# HELP ");
    text.append(name);
    text.append(" ");
    text.append(help);
    text.append("\n");
    text.append("# TYPE ");
    text.append(name);
    text.append(" gauge");
    proof {
        reveal_strlit("\n");
        assert("\n"@ =~= seq!['\n']);
        assert(text@ =~= header_text(name@, help@));
    }
    text
}

fn push_sv(series: &mut Vec<SV>, stream: &str, value: String)
    ensures
        views(final(series)@) == views(old(series)@).push(
            StreamSample { stream: stream@, value: value@ },
        ),
{
    let sample = SV { stream: String::from_str(stream), value: value };
    series.push(sample);
    assert(views(series@) =~= views(old(series)@).push(sample@));
}

fn push_sgv(series: &mut Vec<SGV>, stream: &str, group: &str, value: String)
    ensures
        views(final(series)@) == views(old(series)@).push(
            GroupSample { stream: stream@, group: group@, value: value@ },
        ),
{
    let sample = SGV {
        stream: String::from_str(stream),
        group: String::from_str(group),
        value: value,
    };
    series.push(sample);
    assert(views(series@) =~= views(old(series)@).push(sample@));
}

fn push_sgcv(series: &mut Vec<SGCV>, stream: &str, group: &str, consumer: &str, value: String)
    ensures
        views(final(series)@) == views(old(series)@).push(
            ConsumerSample { stream: stream@, group: group@, consumer: consumer@, value: value@ },
        ),
{
    let sample = SGCV {
        stream: String::from_str(stream),
        group: String::from_str(group),
        consumer: String::from_str(consumer),
        value: value,
    };
    series.push(sample);
    assert(views(series@) =~= views(old(series)@).push(sample@));
}

impl Metrics {
    /// The metric set without any sample.
    pub fn new() -> (metrics: Metrics)
        ensures
            metrics@ == MetricSet::empty(),
    {
        let metrics = Metrics {
            redis_stream_length: Vec::new(),
            redis_stream_earliest_id: Vec::new(),
            redis_stream_latest_id: Vec::new(),
            redis_stream_consumer_groups_total: Vec::new(),
            redis_stream_idle: Vec::new(),
            redis_stream_consumer_group_last_delivered_id: Vec::new(),
            redis_stream_consumer_group_pending_messages_total: Vec::new(),
            redis_stream_consumer_group_consumers_total: Vec::new(),
            redis_stream_consumer_pending_messages_total: Vec::new(),
            redis_stream_consumer_idle_time_seconds: Vec::new(),
        };
        proof {
            let m = metrics@;
            let e = MetricSet::empty();
            assert(m.redis_stream_length =~= e.redis_stream_length);
            assert(m.redis_stream_earliest_id =~= e.redis_stream_earliest_id);
            assert(m.redis_stream_latest_id =~= e.redis_stream_latest_id);
            assert(m.redis_stream_consumer_groups_total =~= e.redis_stream_consumer_groups_total);
            assert(m.redis_stream_idle =~= e.redis_stream_idle);
            assert(m.redis_stream_consumer_group_last_delivered_id
                =~= e.redis_stream_consumer_group_last_delivered_id);
            assert(m.redis_stream_consumer_group_pending_messages_total
                =~= e.redis_stream_consumer_group_pending_messages_total);
            assert(m.redis_stream_consumer_group_consumers_total
                =~= e.redis_stream_consumer_group_consumers_total);
            assert(m.redis_stream_consumer_pending_messages_total
                =~= e.redis_stream_consumer_pending_messages_total);
            assert(m.redis_stream_consumer_idle_time_seconds
                =~= e.redis_stream_consumer_idle_time_seconds);
        }
        metrics
    }

    /// Records the summary of `stream`, taken at `now_ms`. Where the
    /// identifier that the stream generated last begins with no timestamp,
    /// nothing is recorded and the error names that identifier.
    pub fn record_stream(&mut self, stream: &str, summary: &StreamSummary, now_ms: u128) -> (done:
        Result<(), ParseError>)
        ensures
            match timestamp_of(summary.last_generated_id@) {
                Some(_) => done is Ok && final(self)@ == old(self)@.with_stream(
                    stream@,
                    summary@,
                    now_ms as nat,
                ),
                None => done is Err && done->Err_0.id@ == summary.last_generated_id@
                    && final(self)@ == old(self)@,
            },
    {
        let idle = match producer_idle_at(summary.last_generated_id.as_str(), now_ms) {
            Ok(idle) => idle,
            Err(error) => {
                return Err(error);
            },
        };
        push_sv(&mut self.redis_stream_length, stream, render_decimal(summary.length as u128));
        push_sv(&mut self.redis_stream_earliest_id, stream, summary.first_id.clone());
        push_sv(&mut self.redis_stream_latest_id, stream, summary.last_id.clone());
        push_sv(
            &mut self.redis_stream_consumer_groups_total,
            stream,
            render_decimal(summary.groups as u128),
        );
        match idle {
            Some(seconds) => {
                push_sv(&mut self.redis_stream_idle, stream, render_decimal(seconds));
            },
            None => {},
        }
        Ok(())
    }

    /// Records the summary of one consumer group of `stream`.
    pub fn record_group(&mut self, stream: &str, group: &GroupSummary)
        ensures
            final(self)@ == old(self)@.with_group(stream@, group@),
    {
        push_sgv(
            &mut self.redis_stream_consumer_group_last_delivered_id,
            stream,
            group.name.as_str(),
            group.last_delivered_id.clone(),
        );
        push_sgv(
            &mut self.redis_stream_consumer_group_pending_messages_total,
            stream,
            group.name.as_str(),
            render_decimal(group.pending as u128),
        );
        push_sgv(
            &mut self.redis_stream_consumer_group_consumers_total,
            stream,
            group.name.as_str(),
            render_decimal(group.consumers as u128),
        );
    }

    /// Records the consumers of `group` of `stream`, in order.
    pub fn record_consumers(&mut self, stream: &str, group: &str, consumers: &Vec<ConsumerSummary>)
        ensures
            final(self)@ == old(self)@.with_consumers(stream@, group@, views(consumers@)),
    {
        let n: usize = consumers.len();
        let mut i: usize = 0;
        proof {
            let none = views(consumers@).take(0);
            assert(self@.redis_stream_consumer_pending_messages_total
                =~= self@.redis_stream_consumer_pending_messages_total + consumer_pending_samples(
                stream@,
                group@,
                none,
            ));
            assert(self@.redis_stream_consumer_idle_time_seconds
                =~= self@.redis_stream_consumer_idle_time_seconds + consumer_idle_samples(
                stream@,
                group@,
                none,
            ));
        }
        while i < n
            invariant
                n == consumers@.len(),
                0 <= i <= n,
                self@ == old(self)@.with_consumers(
                    stream@,
                    group@,
                    views(consumers@).take(i as int),
                ),
            decreases n - i,
        {
            let ghost before = self@;
            let consumer = &consumers[i];
            push_sgcv(
                &mut self.redis_stream_consumer_pending_messages_total,
                stream,
                group,
                consumer.name.as_str(),
                render_decimal(consumer.pending as u128),
            );
            push_sgcv(
                &mut self.redis_stream_consumer_idle_time_seconds,
                stream,
                group,
                consumer.name.as_str(),
                render_decimal(consumer.idle as u128),
            );
            proof {
                let seen = views(consumers@).take(i as int);
                let next = views(consumers@).take(i + 1);
                assert(next =~= seen.push(consumer@));
                assert(consumer_pending_samples(stream@, group@, next)
                    =~= consumer_pending_samples(stream@, group@, seen).push(
                    ConsumerSample {
                        stream: stream@,
                        group: group@,
                        consumer: consumer@.name,
                        value: decimal(consumer@.pending),
                    },
                ));
                assert(consumer_idle_samples(stream@, group@, next) =~= consumer_idle_samples(
                    stream@,
                    group@,
                    seen,
                ).push(
                    ConsumerSample {
                        stream: stream@,
                        group: group@,
                        consumer: consumer@.name,
                        value: decimal(consumer@.idle),
                    },
                ));
                let target = old(self)@.with_consumers(stream@, group@, next);
                assert(self@.redis_stream_consumer_pending_messages_total
                    =~= target.redis_stream_consumer_pending_messages_total);
                assert(self@.redis_stream_consumer_idle_time_seconds
                    =~= target.redis_stream_consumer_idle_time_seconds);
            }
            i = i + 1;
        }
        assert(views(consumers@).take(n as int) =~= views(consumers@));
    }

    /// Writes the set in the exposition format: for each of the ten series,
    /// in their fixed order, the two header lines and then one line for each
    /// sample, in the order recorded.
    pub fn to_str(&self) -> (text: String)
        ensures
            text@ == self@.rendered(),
    {
        let mut strs: Vec<String> = Vec::new();
        strs.push(header_of("redis_stream_length", "Number of messages in the stream"));
        strs.push(sv_quick_join(&self.redis_stream_length, "redis_stream_length"));
        strs.push(
            header_of(
                "redis_stream_earliest_id",
                "The epoch timestamp of the earliest message on the stream",
            ),
        );
        strs.push(sv_quick_join(&self.redis_stream_earliest_id, "redis_stream_earliest_id"));
        strs.push(
            header_of(
                "redis_stream_latest_id",
                "The epoch timestamp of the latest message on the stream",
            ),
        );
        strs.push(sv_quick_join(&self.redis_stream_latest_id, "redis_stream_latest_id"));
        strs.push(
            header_of(
                "redis_stream_consumer_groups_total",
                "Number of consumer groups for the stream",
            ),
        );
        strs.push(
            sv_quick_join(
                &self.redis_stream_consumer_groups_total,
                "redis_stream_consumer_groups_total",
            ),
        );
        strs.push(
            header_of("redis_stream_idle", "The epoch timestamp of producer idle on the stream"),
        );
        strs.push(sv_quick_join(&self.redis_stream_idle, "redis_stream_idle"));
        strs.push(
            header_of(
                "redis_stream_consumer_group_last_delivered_id",
                "The epoch timestamp of the last delivered message",
            ),
        );
        strs.push(
            sv_quick_join(
                &self.redis_stream_consumer_group_last_delivered_id,
                "redis_stream_consumer_group_last_delivered_id",
            ),
        );
        strs.push(
            header_of(
                "redis_stream_consumer_group_pending_messages_total",
                "Number of pending messages for the group",
            ),
        );
        strs.push(
            sv_quick_join(
                &self.redis_stream_consumer_group_pending_messages_total,
                "redis_stream_consumer_group_pending_messages_total",
            ),
        );
        strs.push(
            header_of(
                "redis_stream_consumer_group_consumers_total",
                "Number of consumers in the group",
            ),
        );
        strs.push(
            sv_quick_join(
                &self.redis_stream_consumer_group_consumers_total,
                "redis_stream_consumer_group_consumers_total",
            ),
        );
        strs.push(
            header_of(
                "redis_stream_consumer_pending_messages_total",
                "Number of pending messages for the consumer",
            ),
        );
        strs.push(
            sv_quick_join(
                &self.redis_stream_consumer_pending_messages_total,
                "redis_stream_consumer_pending_messages_total",
            ),
        );
        strs.push(
            header_of(
                "redis_stream_consumer_idle_time_seconds",
                "The amount of time for which the consumer has been idle",
            ),
        );
        strs.push(
            sv_quick_join(
                &self.redis_stream_consumer_idle_time_seconds,
                "redis_stream_consumer_idle_time_seconds",
            ),
        );
        proof {
            lemma_stream_sample_lines(self.redis_stream_length@, series_name(0));
            lemma_stream_sample_lines(self.redis_stream_earliest_id@, series_name(1));
            lemma_stream_sample_lines(self.redis_stream_latest_id@, series_name(2));
            lemma_stream_sample_lines(self.redis_stream_consumer_groups_total@, series_name(3));
            lemma_stream_sample_lines(self.redis_stream_idle@, series_name(4));
            lemma_group_sample_lines(
                self.redis_stream_consumer_group_last_delivered_id@,
                series_name(5),
            );
            lemma_group_sample_lines(
                self.redis_stream_consumer_group_pending_messages_total@,
                series_name(6),
            );
            lemma_group_sample_lines(
                self.redis_stream_consumer_group_consumers_total@,
                series_name(7),
            );
            lemma_consumer_sample_lines(
                self.redis_stream_consumer_pending_messages_total@,
                series_name(8),
            );
            lemma_consumer_sample_lines(
                self.redis_stream_consumer_idle_time_seconds@,
                series_name(9),
            );
            assert(texts(strs@) =~= self@.segments());
        }
        join(&strs)
    }
}

} // verus!
