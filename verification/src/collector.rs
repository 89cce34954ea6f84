//! One collection pass as a state machine. The pass asks the store one
//! query at a time: for each identifier, in order, the summary of the
//! stream, then its groups, then the consumers of each group. The machine
//! decides what to ask next and records what comes back; whoever drives it
//! talks to the store and hands each reply in.

use vstd::prelude::*;
use crate::metrics::{MetricSet, Metrics};
use crate::stream_id::timestamp_of;
use crate::summary::{
    views, ConsumerSummary, ConsumerSummaryView, GroupSummary, GroupSummaryView, StreamSummary,
    StreamSummaryView,
};
use crate::text::texts;

verus! {

/// Why the store gave no answer to a query.
#[derive(Debug, Clone, Copy, PartialEq, Eq)]
pub enum ProviderError {
    /// The store could not be reached.
    Unreachable,
    /// The store answered the command with an error.
    Command,
    /// The answer did not have the shape that the query calls for.
    UnexpectedReply,
}

/// A query to the store.
#[derive(Debug, Clone, PartialEq, Eq)]
pub enum Query {
    /// The summary of a stream.
    StreamInfo { stream: String },
    /// The consumer groups of a stream.
    GroupsInfo { stream: String },
    /// The consumers of one group of a stream.
    ConsumersInfo { stream: String, group: String },
}

/// A `Query` as plain values.
pub enum QueryView {
    StreamInfo { stream: Seq<char> },
    GroupsInfo { stream: Seq<char> },
    ConsumersInfo { stream: Seq<char>, group: Seq<char> },
}

impl View for Query {
    type V = QueryView;

    open spec fn view(&self) -> QueryView {
        match self {
            Query::StreamInfo { stream } => QueryView::StreamInfo { stream: stream@ },
            Query::GroupsInfo { stream } => QueryView::GroupsInfo { stream: stream@ },
            Query::ConsumersInfo { stream, group } => QueryView::ConsumersInfo {
                stream: stream@,
                group: group@,
            },
        }
    }
}

/// What came back for a query.
#[derive(Debug, Clone, PartialEq, Eq)]
pub enum Reply {
    /// The summary of the stream asked for.
    Stream(StreamSummary),
    /// The groups of the stream asked for, in the store's order.
    Groups(Vec<GroupSummary>),
    /// The consumers of the group asked for, in the store's order.
    Consumers(Vec<ConsumerSummary>),
    /// No answer.
    Failed(ProviderError),
}

/// A `Reply` as plain values.
pub enum ReplyView {
    Stream(StreamSummaryView),
    Groups(Seq<GroupSummaryView>),
    Consumers(Seq<ConsumerSummaryView>),
    Failed(ProviderError),
}

impl View for Reply {
    type V = ReplyView;

    open spec fn view(&self) -> ReplyView {
        match self {
            Reply::Stream(summary) => ReplyView::Stream(summary@),
            Reply::Groups(groups) => ReplyView::Groups(views(groups@)),
            Reply::Consumers(consumers) => ReplyView::Consumers(views(consumers@)),
            Reply::Failed(error) => ReplyView::Failed(*error),
        }
    }
}

/// Why a collection pass gave no metric set.
#[derive(Debug, Clone, PartialEq, Eq)]
pub enum CollectionError {
    /// The identifier at `position` of the configured list is empty.
    EmptyIdentifier { position: usize },
    /// The store gave no answer, or one of the wrong shape, while `stream`
    /// was being collected.
    Provider { stream: String, error: ProviderError },
    /// The identifier `id` that `stream` generated last begins with no
    /// timestamp.
    Parse { stream: String, id: String },
}

/// A `CollectionError` as plain values.
pub enum CollectionErrorView {
    EmptyIdentifier { position: nat },
    Provider { stream: Seq<char>, error: ProviderError },
    Parse { stream: Seq<char>, id: Seq<char> },
}

impl View for CollectionError {
    type V = CollectionErrorView;

    open spec fn view(&self) -> CollectionErrorView {
        match self {
            CollectionError::EmptyIdentifier { position } => CollectionErrorView::EmptyIdentifier {
                position: *position as nat,
            },
            CollectionError::Provider { stream, error } => CollectionErrorView::Provider {
                stream: stream@,
                error: *error,
            },
            CollectionError::Parse { stream, id } => CollectionErrorView::Parse {
                stream: stream@,
                id: id@,
            },
        }
    }
}

/// The kind of reply that a pass waits for.
#[derive(Debug, Clone, Copy, PartialEq, Eq)]
pub enum Awaiting {
    /// The summary of the current stream.
    Stream,
    /// The groups of the current stream.
    Groups,
    /// The consumers of the current group.
    Consumers,
}

/// A pass that has asked a query and waits for the reply.
#[derive(Debug)]
pub struct Collector {
    identifiers: Vec<String>,
    now_ms: u128,
    metrics: Metrics,
    index: usize,
    awaiting: Awaiting,
    groups: Vec<GroupSummary>,
    group: usize,
}

/// A `Collector` as plain values.
pub struct CollectorView {
    /// The configured identifiers.
    pub identifiers: Seq<Seq<char>>,
    /// The time of the pass, in milliseconds.
    pub now_ms: nat,
    /// What was recorded so far.
    pub metrics: MetricSet,
    /// The position of the identifier that is being collected.
    pub index: nat,
    /// The kind of reply that is waited for.
    pub awaiting: Awaiting,
    /// The groups of the current stream, once they are known.
    pub groups: Seq<GroupSummaryView>,
    /// The position of the group whose consumers are waited for.
    pub group: nat,
}

/// Where a pass stands after a step.
#[derive(Debug)]
pub enum Progress {
    /// The pass goes on: the query is to be put to the store, and its reply
    /// handed to the collector.
    Ask(Collector, Query),
    /// The pass is complete.
    Done(Metrics),
    /// The pass was given up; nothing of what was recorded is kept.
    Failed(CollectionError),
}

/// A `Progress` as plain values.
pub enum ProgressView {
    Ask(CollectorView, QueryView),
    Done(MetricSet),
    Failed(CollectionErrorView),
}

impl View for Progress {
    type V = ProgressView;

    open spec fn view(&self) -> ProgressView {
        match self {
            Progress::Ask(collector, query) => ProgressView::Ask(collector@, query@),
            Progress::Done(metrics) => ProgressView::Done(metrics@),
            Progress::Failed(error) => ProgressView::Failed(error@),
        }
    }
}

/// The pass at the identifier at `index`: complete where the list has no
/// such identifier, given up where that identifier is empty, and else
/// asking for the summary of that stream.
pub open spec fn ask_stream(
    identifiers: Seq<Seq<char>>,
    now_ms: nat,
    metrics: MetricSet,
    index: nat,
) -> ProgressView {
    if index >= identifiers.len() {
        ProgressView::Done(metrics)
    } else if identifiers[index as int].len() == 0 {
        ProgressView::Failed(CollectionErrorView::EmptyIdentifier { position: index })
    } else {
        let next = CollectorView {
            identifiers: identifiers,
            now_ms: now_ms,
            metrics: metrics,
            index: index,
            awaiting: Awaiting::Stream,
            groups: Seq::empty(),
            group: 0,
        };
        ProgressView::Ask(next, next.pending())
    }
}

/// The beginning of a pass over `identifiers` at the time `now_ms`.
pub open spec fn start(identifiers: Seq<Seq<char>>, now_ms: nat) -> ProgressView {
    ask_stream(identifiers, now_ms, MetricSet::empty(), 0)
}

impl CollectorView {
    /// What holds of every collector: it is at an identifier of the list,
    /// and where it waits for consumers, at a group of the current stream.
    pub open spec fn wf(self) -> bool {
        &&& self.index < self.identifiers.len()
        &&& self.awaiting is Consumers ==> self.group < self.groups.len()
    }

    /// The identifier that is being collected.
    pub open spec fn stream(self) -> Seq<char> {
        self.identifiers[self.index as int]
    }

    /// The query whose reply is waited for.
    pub open spec fn pending(self) -> QueryView {
        match self.awaiting {
            Awaiting::Stream => QueryView::StreamInfo { stream: self.stream() },
            Awaiting::Groups => QueryView::GroupsInfo { stream: self.stream() },
            Awaiting::Consumers => QueryView::ConsumersInfo {
                stream: self.stream(),
                group: self.groups[self.group as int].name,
            },
        }
    }

    /// The pass given up because the store failed at the current stream.
    pub open spec fn failed(self, error: ProviderError) -> ProgressView {
        ProgressView::Failed(CollectionErrorView::Provider { stream: self.stream(), error: error })
    }

    /// The pass at the group at position `g` of the current stream: the
    /// group's own samples are recorded and its consumers asked for. Where
    /// the stream has no such group, the pass goes to the next identifier.
    pub open spec fn enter_group(self, g: nat) -> ProgressView {
        if g < self.groups.len() {
            let next = CollectorView {
                metrics: self.metrics.with_group(self.stream(), self.groups[g as int]),
                awaiting: Awaiting::Consumers,
                group: g,
                ..self
            };
            ProgressView::Ask(next, next.pending())
        } else {
            ask_stream(self.identifiers, self.now_ms, self.metrics, self.index + 1)
        }
    }

    /// The pass after `reply` came back for the pending query.
    ///
    /// A failure gives the pass up, and so does a reply of another kind
    /// than the one waited for. A stream's summary is recorded, unless the
    /// identifier it generated last begins with no timestamp, which gives
    /// the pass up; then the groups are asked for. The groups are taken one
    /// by one, in order. The consumers of a group are recorded, and the
    /// next group is taken.
    pub open spec fn step(self, reply: ReplyView) -> ProgressView {
        match reply {
            ReplyView::Failed(error) => self.failed(error),
            ReplyView::Stream(summary) => if self.awaiting is Stream {
                if timestamp_of(summary.last_generated_id) is Some {
                    let next = CollectorView {
                        metrics: self.metrics.with_stream(self.stream(), summary, self.now_ms),
                        awaiting: Awaiting::Groups,
                        ..self
                    };
                    ProgressView::Ask(next, next.pending())
                } else {
                    ProgressView::Failed(
                        CollectionErrorView::Parse {
                            stream: self.stream(),
                            id: summary.last_generated_id,
                        },
                    )
                }
            } else {
                self.failed(ProviderError::UnexpectedReply)
            },
            ReplyView::Groups(groups) => if self.awaiting is Groups {
                CollectorView { groups: groups, ..self }.enter_group(0)
            } else {
                self.failed(ProviderError::UnexpectedReply)
            },
            ReplyView::Consumers(consumers) => if self.awaiting is Consumers {
                CollectorView {
                    metrics: self.metrics.with_consumers(
                        self.stream(),
                        self.groups[self.group as int].name,
                        consumers,
                    ),
                    ..self
                }.enter_group(self.group + 1)
            } else {
                self.failed(ProviderError::UnexpectedReply)
            },
        }
    }
}

impl View for Collector {
    type V = CollectorView;

    closed spec fn view(&self) -> CollectorView {
        CollectorView {
            identifiers: texts(self.identifiers@),
            now_ms: self.now_ms as nat,
            metrics: self.metrics@,
            index: self.index as nat,
            awaiting: self.awaiting,
            groups: views(self.groups@),
            group: self.group as nat,
        }
    }
}

fn ask_stream_at(identifiers: Vec<String>, now_ms: u128, metrics: Metrics, index: usize) -> (progress:
    Progress)
    ensures
        progress@ == ask_stream(texts(identifiers@), now_ms as nat, metrics@, index as nat),
        progress matches Progress::Ask(collector, _) ==> collector@.wf(),
{
    if index >= identifiers.len() {
        Progress::Done(metrics)
    } else if identifiers[index].as_str().is_empty() {
        Progress::Failed(CollectionError::EmptyIdentifier { position: index })
    } else {
        let query = Query::StreamInfo { stream: identifiers[index].clone() };
        let collector = Collector {
            identifiers: identifiers,
            now_ms: now_ms,
            metrics: metrics,
            index: index,
            awaiting: Awaiting::Stream,
            groups: Vec::new(),
            group: 0,
        };
        assert(collector@.groups =~= Seq::<GroupSummaryView>::empty());
        Progress::Ask(collector, query)
    }
}

fn enter_group_at(
    identifiers: Vec<String>,
    now_ms: u128,
    metrics: Metrics,
    index: usize,
    groups: Vec<GroupSummary>,
    g: usize,
) -> (progress: Progress)
    requires
        index < identifiers@.len(),
    ensures
        progress@ == (CollectorView {
            identifiers: texts(identifiers@),
            now_ms: now_ms as nat,
            metrics: metrics@,
            index: index as nat,
            awaiting: Awaiting::Groups,
            groups: views(groups@),
            group: 0,
        }).enter_group(g as nat),
        progress matches Progress::Ask(collector, _) ==> collector@.wf(),
{
    if g < groups.len() {
        let mut metrics = metrics;
        metrics.record_group(identifiers[index].as_str(), &groups[g]);
        let query = Query::ConsumersInfo {
            stream: identifiers[index].clone(),
            group: groups[g].name.clone(),
        };
        let collector = Collector {
            identifiers: identifiers,
            now_ms: now_ms,
            metrics: metrics,
            index: index,
            awaiting: Awaiting::Consumers,
            groups: groups,
            group: g,
        };
        Progress::Ask(collector, query)
    } else {
        assert(identifiers@.len() == identifiers.len());
        ask_stream_at(identifiers, now_ms, metrics, index + 1)
    }
}

impl Collector {
    #[verifier::type_invariant]
    spec fn valid(self) -> bool {
        self@.wf()
    }

    /// Begins a pass over `identifiers` at the time `now_ms`, given in
    /// milliseconds since the epoch.
    pub fn start(identifiers: Vec<String>, now_ms: u128) -> (progress: Progress)
        ensures
            progress@ == start(texts(identifiers@), now_ms as nat),
    {
        ask_stream_at(identifiers, now_ms, Metrics::new(), 0)
    }

    /// Takes the reply to the pending query and says how the pass goes on.
    pub fn step(self, reply: Reply) -> (progress: Progress)
        ensures
            progress@ == self@.step(reply@),
    {
        proof {
            use_type_invariant(&self);
        }
        let ghost before = self@;
        let Collector { identifiers, now_ms, metrics, index, awaiting, groups, group } = self;
        let mut metrics = metrics;
        match reply {
            Reply::Failed(error) => Progress::Failed(
                CollectionError::Provider { stream: identifiers[index].clone(), error: error },
            ),
            Reply::Stream(summary) => match awaiting {
                Awaiting::Stream => {
                    match metrics.record_stream(identifiers[index].as_str(), &summary, now_ms) {
                        Ok(()) => {
                            let query = Query::GroupsInfo { stream: identifiers[index].clone() };
                            let collector = Collector {
                                identifiers: identifiers,
                                now_ms: now_ms,
                                metrics: metrics,
                                index: index,
                                awaiting: Awaiting::Groups,
                                groups: groups,
                                group: group,
                            };
                            Progress::Ask(collector, query)
                        },
                        Err(error) => Progress::Failed(
                            CollectionError::Parse {
                                stream: identifiers[index].clone(),
                                id: error.id,
                            },
                        ),
                    }
                },
                _ => Progress::Failed(
                    CollectionError::Provider {
                        stream: identifiers[index].clone(),
                        error: ProviderError::UnexpectedReply,
                    },
                ),
            },
            Reply::Groups(found) => match awaiting {
                Awaiting::Groups => {
                    let ghost base = CollectorView { groups: views(found@), ..before };
                    let progress = enter_group_at(identifiers, now_ms, metrics, index, found, 0);
                    proof {
                        assert(progress@ == base.enter_group(0));
                    }
                    progress
                },
                _ => Progress::Failed(
                    CollectionError::Provider {
                        stream: identifiers[index].clone(),
                        error: ProviderError::UnexpectedReply,
                    },
                ),
            },
            Reply::Consumers(consumers) => match awaiting {
                Awaiting::Consumers => {
                    metrics.record_consumers(
                        identifiers[index].as_str(),
                        groups[group].name.as_str(),
                        &consumers,
                    );
                    let ghost base = CollectorView { metrics: metrics@, ..before };
                    assert(groups@.len() == groups.len());
                    let progress = enter_group_at(
                        identifiers,
                        now_ms,
                        metrics,
                        index,
                        groups,
                        group + 1,
                    );
                    proof {
                        assert(progress@ == base.enter_group(before.group + 1));
                    }
                    progress
                },
                _ => Progress::Failed(
                    CollectionError::Provider {
                        stream: identifiers[index].clone(),
                        error: ProviderError::UnexpectedReply,
                    },
                ),
            },
        }
    }
}

} // verus!
