//! What the store reports about a stream, about one of its consumer groups
//! and about one consumer of a group.

use vstd::prelude::*;

verus! {

/// The views of `items`, in order.
pub open spec fn views<T: View>(items: Seq<T>) -> Seq<T::V> {
    Seq::new(items.len(), |i: int| items[i]@)
}

/// The summary of one stream.
#[derive(Debug, Clone, PartialEq, Eq)]
pub struct StreamSummary {
    /// Number of entries in the stream.
    pub length: u64,
    /// Identifier of the earliest entry.
    pub first_id: String,
    /// Identifier of the latest entry.
    pub last_id: String,
    /// Number of consumer groups of the stream.
    pub groups: u64,
    /// The identifier generated last, whether or not its entry still exists.
    pub last_generated_id: String,
}

/// A `StreamSummary` as plain values.
pub struct StreamSummaryView {
    pub length: nat,
    pub first_id: Seq<char>,
    pub last_id: Seq<char>,
    pub groups: nat,
    pub last_generated_id: Seq<char>,
}

impl View for StreamSummary {
    type V = StreamSummaryView;

    open spec fn view(&self) -> StreamSummaryView {
        StreamSummaryView {
            length: self.length as nat,
            first_id: self.first_id@,
            last_id: self.last_id@,
            groups: self.groups as nat,
            last_generated_id: self.last_generated_id@,
        }
    }
}

/// The summary of one consumer group of a stream.
#[derive(Debug, Clone, PartialEq, Eq)]
pub struct GroupSummary {
    /// Name of the group.
    pub name: String,
    /// Identifier of the entry delivered last to the group.
    pub last_delivered_id: String,
    /// Number of entries delivered to the group and not yet acknowledged.
    pub pending: u64,
    /// Number of consumers in the group.
    pub consumers: u64,
}

/// A `GroupSummary` as plain values.
pub struct GroupSummaryView {
    pub name: Seq<char>,
    pub last_delivered_id: Seq<char>,
    pub pending: nat,
    pub consumers: nat,
}

impl View for GroupSummary {
    type V = GroupSummaryView;

    open spec fn view(&self) -> GroupSummaryView {
        GroupSummaryView {
            name: self.name@,
            last_delivered_id: self.last_delivered_id@,
            pending: self.pending as nat,
            consumers: self.consumers as nat,
        }
    }
}

/// The summary of one consumer of a group.
#[derive(Debug, Clone, PartialEq, Eq)]
pub struct ConsumerSummary {
    /// Name of the consumer.
    pub name: String,
    /// Number of entries delivered to the consumer and not yet acknowledged.
    pub pending: u64,
    /// Idle time of the consumer, in the store's own figure.
    pub idle: u64,
}

/// A `ConsumerSummary` as plain values.
pub struct ConsumerSummaryView {
    pub name: Seq<char>,
    pub pending: nat,
    pub idle: nat,
}

impl View for ConsumerSummary {
    type V = ConsumerSummaryView;

    open spec fn view(&self) -> ConsumerSummaryView {
        ConsumerSummaryView {
            name: self.name@,
            pending: self.pending as nat,
            idle: self.idle as nat,
        }
    }
}

} // verus!
