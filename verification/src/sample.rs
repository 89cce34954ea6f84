//! The samples of a series, by the labels they carry, and the line that
//! each is written as.

use vstd::prelude::*;
use crate::text::{join, join_lines, texts};

verus! {

/// A sample labelled by stream.
#[derive(Debug, Clone, PartialEq, Eq)]
pub struct SV {
    pub stream: String,
    pub value: String,
}

/// A sample labelled by stream and group.
#[derive(Debug, Clone, PartialEq, Eq)]
pub struct SGV {
    pub stream: String,
    pub group: String,
    pub value: String,
}

/// A sample labelled by stream, group and consumer.
#[derive(Debug, Clone, PartialEq, Eq)]
pub struct SGCV {
    pub stream: String,
    pub group: String,
    pub consumer: String,
    pub value: String,
}

/// An `SV` as plain values.
pub struct StreamSample {
    pub stream: Seq<char>,
    pub value: Seq<char>,
}

/// An `SGV` as plain values.
pub struct GroupSample {
    pub stream: Seq<char>,
    pub group: Seq<char>,
    pub value: Seq<char>,
}

/// An `SGCV` as plain values.
pub struct ConsumerSample {
    pub stream: Seq<char>,
    pub group: Seq<char>,
    pub consumer: Seq<char>,
    pub value: Seq<char>,
}

impl View for SV {
    type V = StreamSample;

    open spec fn view(&self) -> StreamSample {
        StreamSample { stream: self.stream@, value: self.value@ }
    }
}

impl View for SGV {
    type V = GroupSample;

    open spec fn view(&self) -> GroupSample {
        GroupSample { stream: self.stream@, group: self.group@, value: self.value@ }
    }
}

impl View for SGCV {
    type V = ConsumerSample;

    open spec fn view(&self) -> ConsumerSample {
        ConsumerSample {
            stream: self.stream@,
            group: self.group@,
            consumer: self.consumer@,
            value: self.value@,
        }
    }
}

/// The line of a sample labelled by stream: `name{stream=S} V`. Labels
/// and value stand as they are, without quotes.
pub open spec fn stream_line(name: Seq<char>, sample: StreamSample) -> Seq<char> {
    name + "{stream="@ + sample.stream + "} "@ + sample.value
}

/// The line of a sample labelled by stream and group:
/// `name{stream=S,group=G} V`.
pub open spec fn group_line(name: Seq<char>, sample: GroupSample) -> Seq<char> {
    name + "{stream="@ + sample.stream + ",group="@ + sample.group + "} "@ + sample.value
}

/// The line of a sample labelled by stream, group and consumer:
/// `name{stream=S,group=G,consumer=C} V`.
pub open spec fn consumer_line(name: Seq<char>, sample: ConsumerSample) -> Seq<char> {
    name + "{stream="@ + sample.stream + ",group="@ + sample.group + ",consumer="@
        + sample.consumer + "} "@ + sample.value
}

/// A sample that can be written as one line under a metric's name.
pub trait PairToString {
    /// The line of this sample under the metric `name`.
    spec fn line(&self, name: Seq<char>) -> Seq<char>;

    /// Writes the line of this sample under the metric `name`.
    fn to_str(&self, name: &str) -> (text: String)
        ensures
            text@ == self.line(name@),
    ;
}

impl PairToString for SV {
    open spec fn line(&self, name: Seq<char>) -> Seq<char> {
        stream_line(name, self@)
    }

    fn to_str(&self, name: &str) -> (text: String) {
        let mut text = String::from_str(name);
        text.append("{stream=");
        text.append(self.stream.as_str());
        text.append("} ");
        text.append(self.value.as_str());
        assert(text@ =~= stream_line(name@, self@));
        text
    }
}

impl PairToString for SGV {
    open spec fn line(&self, name: Seq<char>) -> Seq<char> {
        group_line(name, self@)
    }

    fn to_str(&self, name: &str) -> (text: String) {
        let mut text = String::from_str(name);
        text.append("{stream=");
        text.append(self.stream.as_str());
        text.append(",group=");
        text.append(self.group.as_str());
        text.append("} ");
        text.append(self.value.as_str());
        assert(text@ =~= group_line(name@, self@));
        text
    }
}

impl PairToString for SGCV {
    open spec fn line(&self, name: Seq<char>) -> Seq<char> {
        consumer_line(name, self@)
    }

    fn to_str(&self, name: &str) -> (text: String) {
        let mut text = String::from_str(name);
        text.append("{stream=");
        text.append(self.stream.as_str());
        text.append(",group=");
        text.append(self.group.as_str());
        text.append(",consumer=");
        text.append(self.consumer.as_str());
        text.append("} ");
        text.append(self.value.as_str());
        assert(text@ =~= consumer_line(name@, self@));
        text
    }
}

/// The lines of the samples of `series` under the metric `name`, in order.
pub open spec fn sample_lines<T: PairToString>(series: Seq<T>, name: Seq<char>) -> Seq<
    Seq<char>,
> {
    Seq::new(series.len(), |i: int| series[i].line(name))
}

/// Writes the samples of `v` under the metric `name`, one line each, in
/// order, with a line feed between each two lines. A series without
/// samples gives the empty text.
pub fn sv_quick_join<T: PairToString>(v: &Vec<T>, name: &str) -> (text: String)
    ensures
        text@ == join_lines(sample_lines(v@, name@)),
{
    if v.len() == 0 {
        assert(sample_lines(v@, name@) =~= Seq::<Seq<char>>::empty());
        return String::new();
    }
    let mut strs: Vec<String> = Vec::new();
    let n: usize = v.len();
    let mut i: usize = 0;
    while i < n
        invariant
            n == v@.len(),
            0 <= i <= n,
            texts(strs@) == sample_lines(v@, name@).take(i as int),
        decreases n - i,
    {
        let ghost before = texts(strs@);
        let line = v[i].to_str(name);
        strs.push(line);
        proof {
            let all = sample_lines(v@, name@);
            let after = all.take(i + 1);
            assert(all.len() == n);
            assert(before.len() == i);
            assert(texts(strs@).len() == i + 1);
            assert(texts(strs@)[i as int] == all[i as int]);
            assert forall|j: int| 0 <= j < i implies texts(strs@)[j] == after[j] by {
                assert(before[j] == all.take(i as int)[j]);
            }
            assert(texts(strs@) =~= after);
        }
        i = i + 1;
    }
    assert(sample_lines(v@, name@).take(n as int) =~= sample_lines(v@, name@));
    join(&strs)
}

} // verus!
