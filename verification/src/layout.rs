//! The text of a metric set, line by line: which lines it has, and where
//! the header of each series stands among them.

use vstd::prelude::*;
use crate::metrics::{
    header_text, help_line, series_help, series_name, type_line, MetricSet,
};
use crate::sample::{ConsumerSample, GroupSample, StreamSample};
use crate::text::{
    all_free_of, free_of, join_lines, join_with, lemma_join_append, lemma_split_join, split_on,
};

verus! {

/// The lines of a text: what stands between its line feeds.
pub open spec fn lines_of(text: Seq<char>) -> Seq<Seq<char>> {
    split_on(text, '\n')
}

/// Whether every sample of the set is written on a line of its own: no
/// sample line holds a line feed, which is so where no label and no value
/// holds one.
pub open spec fn on_single_lines(metrics: MetricSet) -> bool {
    forall|k: int| 0 <= k < 10 ==> all_free_of(#[trigger] metrics.series_lines(k), '\n')
}

/// Whether no label and no value of the samples of a series labelled by
/// stream holds a line feed.
pub open spec fn stream_series_clean(series: Seq<StreamSample>) -> bool {
    forall|i: int|
        0 <= i < series.len() ==> free_of((#[trigger] series[i]).stream, '\n') && free_of(
            series[i].value,
            '\n',
        )
}

/// Whether no label and no value of the samples of a series labelled by
/// stream and group holds a line feed.
pub open spec fn group_series_clean(series: Seq<GroupSample>) -> bool {
    forall|i: int|
        0 <= i < series.len() ==> free_of((#[trigger] series[i]).stream, '\n') && free_of(
            series[i].group,
            '\n',
        ) && free_of(series[i].value, '\n')
}

/// Whether no label and no value of the samples of a series labelled by
/// stream, group and consumer holds a line feed.
pub open spec fn consumer_series_clean(series: Seq<ConsumerSample>) -> bool {
    forall|i: int|
        0 <= i < series.len() ==> free_of((#[trigger] series[i]).stream, '\n') && free_of(
            series[i].group,
            '\n',
        ) && free_of(series[i].consumer, '\n') && free_of(series[i].value, '\n')
}

/// Whether no label and no value of any sample of the set holds a line
/// feed.
pub open spec fn free_of_line_feeds(metrics: MetricSet) -> bool {
    &&& stream_series_clean(metrics.redis_stream_length)
    &&& stream_series_clean(metrics.redis_stream_earliest_id)
    &&& stream_series_clean(metrics.redis_stream_latest_id)
    &&& stream_series_clean(metrics.redis_stream_consumer_groups_total)
    &&& stream_series_clean(metrics.redis_stream_idle)
    &&& group_series_clean(metrics.redis_stream_consumer_group_last_delivered_id)
    &&& group_series_clean(metrics.redis_stream_consumer_group_pending_messages_total)
    &&& group_series_clean(metrics.redis_stream_consumer_group_consumers_total)
    &&& consumer_series_clean(metrics.redis_stream_consumer_pending_messages_total)
    &&& consumer_series_clean(metrics.redis_stream_consumer_idle_time_seconds)
}

/// The lines that follow the header of a series: its sample lines, or one
/// empty line where the series has no sample.
pub open spec fn body_lines(sample_lines: Seq<Seq<char>>) -> Seq<Seq<char>> {
    if sample_lines.len() == 0 {
        seq![Seq::empty()]
    } else {
        sample_lines
    }
}

/// The lines of the `k`-th series: its two header lines, then its body.
pub open spec fn block_lines(metrics: MetricSet, k: int) -> Seq<Seq<char>> {
    seq![help_line(series_name(k), series_help(k)), type_line(series_name(k))] + body_lines(
        metrics.series_lines(k),
    )
}

/// The lines of the first `count` series, in order.
pub open spec fn layout_of(metrics: MetricSet, count: int) -> Seq<Seq<char>>
    decreases count,
{
    if count <= 0 {
        Seq::empty()
    } else {
        layout_of(metrics, count - 1) + block_lines(metrics, count - 1)
    }
}

/// Whether `line` begins with `prefix`.
pub open spec fn begins_with(line: Seq<char>, prefix: Seq<char>) -> bool {
    line.len() >= prefix.len() && line.take(prefix.len() as int) == prefix
}

/// How many lines of `lines` begin with `prefix`.
pub open spec fn count_beginning_with(lines: Seq<Seq<char>>, prefix: Seq<char>) -> nat
    decreases lines.len(),
{
    if lines.len() == 0 {
        0
    } else {
        count_beginning_with(lines.drop_last(), prefix) + if begins_with(lines.last(), prefix) {
            1nat
        } else {
            0nat
        }
    }
}

proof fn lemma_series_name(k: int)
    requires
        0 <= k < 10,
    ensures
        free_of(series_name(k), '\n'),
        series_name(k).len() > 0,
        series_name(k)[0] == 'r',
{
    reveal_strlit("redis_stream_length");
    reveal_strlit("redis_stream_earliest_id");
    reveal_strlit("redis_stream_latest_id");
    reveal_strlit("redis_stream_consumer_groups_total");
    reveal_strlit("redis_stream_idle");
    reveal_strlit("redis_stream_consumer_group_last_delivered_id");
    reveal_strlit("redis_stream_consumer_group_pending_messages_total");
    reveal_strlit("redis_stream_consumer_group_consumers_total");
    reveal_strlit("redis_stream_consumer_pending_messages_total");
    reveal_strlit("redis_stream_consumer_idle_time_seconds");
}

proof fn lemma_series_help(k: int)
    requires
        0 <= k < 10,
    ensures
        free_of(series_help(k), '\n'),
{
    reveal_strlit("Number of messages in the stream");
    reveal_strlit("The epoch timestamp of the earliest message on the stream");
    reveal_strlit("The epoch timestamp of the latest message on the stream");
    reveal_strlit("Number of consumer groups for the stream");
    reveal_strlit("The epoch timestamp of producer idle on the stream");
    reveal_strlit("The epoch timestamp of the last delivered message");
    reveal_strlit("Number of pending messages for the group");
    reveal_strlit("Number of consumers in the group");
    reveal_strlit("Number of pending messages for the consumer");
    reveal_strlit("The amount of time for which the consumer has been idle");
}

/// The two header lines of a series hold no line feed. The first begins
/// with `# HELP ` and the second with `# TYPE `, and neither with the other.
proof fn lemma_header_lines(k: int)
    requires
        0 <= k < 10,
    ensures
        free_of(help_line(series_name(k), series_help(k)), '\n'),
        free_of(type_line(series_name(k)), '\n'),
        begins_with(help_line(series_name(k), series_help(k)), "# HELP "@),
        !begins_with(help_line(series_name(k), series_help(k)), "# TYPE "@),
        begins_with(type_line(series_name(k)), "# TYPE "@),
        !begins_with(type_line(series_name(k)), "# HELP "@),
{
    lemma_series_name(k);
    lemma_series_help(k);
    reveal_strlit("# HELP ");
    reveal_strlit("# TYPE ");
    reveal_strlit(" ");
    reveal_strlit(" gauge");
    let name = series_name(k);
    let help = series_help(k);
    let first = help_line(name, help);
    let second = type_line(name);
    assert(first.take(7) =~= "# HELP "@);
    assert(second.take(7) =~= "# TYPE "@);
    assert(first.take(7)[2] == 'H');
    assert(second.take(7)[2] == 'T');
    assert("# HELP "@[2] == 'H');
    assert("# TYPE "@[2] == 'T');
}

/// A sample line begins with the name of its series, so with neither of
/// the words that a header line begins with; nor does an empty line.
proof fn lemma_body_lines(metrics: MetricSet, k: int, i: int)
    requires
        0 <= k < 10,
        0 <= i < body_lines(metrics.series_lines(k)).len(),
    ensures
        !begins_with(body_lines(metrics.series_lines(k))[i], "# HELP "@),
        !begins_with(body_lines(metrics.series_lines(k))[i], "# TYPE "@),
{
    lemma_series_name(k);
    reveal_strlit("# HELP ");
    reveal_strlit("# TYPE ");
    let line = body_lines(metrics.series_lines(k))[i];
    if metrics.series_lines(k).len() > 0 {
        assert(line[0] == series_name(k)[0]);
        if line.len() >= 7 {
            assert(line.take(7)[0] == 'r');
        }
    }
    assert("# HELP "@[0] == '#');
    assert("# TYPE "@[0] == '#');
}

proof fn lemma_count_append(a: Seq<Seq<char>>, b: Seq<Seq<char>>, prefix: Seq<char>)
    ensures
        count_beginning_with(a + b, prefix) == count_beginning_with(a, prefix)
            + count_beginning_with(b, prefix),
    decreases b.len(),
{
    if b.len() == 0 {
        assert(a + b =~= a);
    } else {
        assert((a + b).drop_last() =~= a + b.drop_last());
        assert((a + b).last() == b.last());
        lemma_count_append(a, b.drop_last(), prefix);
    }
}

proof fn lemma_count_none(lines: Seq<Seq<char>>, prefix: Seq<char>)
    requires
        forall|i: int| 0 <= i < lines.len() ==> !begins_with(#[trigger] lines[i], prefix),
    ensures
        count_beginning_with(lines, prefix) == 0,
    decreases lines.len(),
{
    if lines.len() > 0 {
        assert forall|i: int| 0 <= i < lines.drop_last().len() implies !begins_with(
            #[trigger] lines.drop_last()[i],
            prefix,
        ) by {
            assert(lines.drop_last()[i] == lines[i]);
        }
        lemma_count_none(lines.drop_last(), prefix);
        assert(lines.last() == lines[lines.len() - 1]);
    }
}

/// The lines of one series hold one line that begins with `# HELP ` and
/// one that begins with `# TYPE `: its own two header lines.
proof fn lemma_block_counts(metrics: MetricSet, k: int)
    requires
        0 <= k < 10,
    ensures
        count_beginning_with(block_lines(metrics, k), "# HELP "@) == 1,
        count_beginning_with(block_lines(metrics, k), "# TYPE "@) == 1,
        block_lines(metrics, k).len() >= 3,
{
    let first = help_line(series_name(k), series_help(k));
    let second = type_line(series_name(k));
    let header = seq![first, second];
    let body = body_lines(metrics.series_lines(k));
    lemma_header_lines(k);
    assert forall|i: int| 0 <= i < body.len() implies !begins_with(
        #[trigger] body[i],
        "# HELP "@,
    ) && !begins_with(body[i], "# TYPE "@) by {
        lemma_body_lines(metrics, k, i);
    }
    lemma_count_none(body, "# HELP "@);
    lemma_count_none(body, "# TYPE "@);
    lemma_count_append(header, body, "# HELP "@);
    lemma_count_append(header, body, "# TYPE "@);
    assert(header.drop_last() =~= seq![first]);
    assert(seq![first].drop_last() =~= Seq::<Seq<char>>::empty());
    assert(count_beginning_with(Seq::<Seq<char>>::empty(), "# HELP "@) == 0);
    assert(count_beginning_with(Seq::<Seq<char>>::empty(), "# TYPE "@) == 0);
    assert(count_beginning_with(seq![first], "# HELP "@) == 1);
    assert(count_beginning_with(seq![first], "# TYPE "@) == 0);
    assert(header.last() == second);
    assert(count_beginning_with(header, "# HELP "@) == 1);
    assert(count_beginning_with(header, "# TYPE "@) == 1);
}

proof fn lemma_layout_counts(metrics: MetricSet, count: int)
    requires
        0 <= count <= 10,
    ensures
        count_beginning_with(layout_of(metrics, count), "# HELP "@) == count,
        count_beginning_with(layout_of(metrics, count), "# TYPE "@) == count,
    decreases count,
{
    if count > 0 {
        lemma_layout_counts(metrics, count - 1);
        lemma_block_counts(metrics, count - 1);
        lemma_count_append(
            layout_of(metrics, count - 1),
            block_lines(metrics, count - 1),
            "# HELP "@,
        );
        lemma_count_append(
            layout_of(metrics, count - 1),
            block_lines(metrics, count - 1),
            "# TYPE "@,
        );
    }
}

proof fn lemma_layout_free(metrics: MetricSet, count: int)
    requires
        0 <= count <= 10,
        on_single_lines(metrics),
    ensures
        all_free_of(layout_of(metrics, count), '\n'),
        count > 0 ==> layout_of(metrics, count).len() > 0,
    decreases count,
{
    if count > 0 {
        let k = count - 1;
        lemma_layout_free(metrics, k);
        lemma_header_lines(k);
        let before = layout_of(metrics, k);
        let block = block_lines(metrics, k);
        let body = body_lines(metrics.series_lines(k));
        assert(all_free_of(metrics.series_lines(k), '\n'));
        assert forall|i: int| 0 <= i < block.len() implies free_of(#[trigger] block[i], '\n') by {
            if i >= 2 {
                assert(block[i] == body[i - 2]);
                if metrics.series_lines(k).len() > 0 {
                    assert(body[i - 2] == metrics.series_lines(k)[i - 2]);
                }
            }
        }
        let all = layout_of(metrics, count);
        assert forall|i: int| 0 <= i < all.len() implies free_of(#[trigger] all[i], '\n') by {
            if i < before.len() {
                assert(all[i] == before[i]);
            } else {
                assert(all[i] == block[i - before.len()]);
            }
        }
    }
}

/// Where no label and no value holds a line feed, every sample is written
/// on a line of its own.
pub proof fn lemma_labels_decide(metrics: MetricSet)
    requires
        free_of_line_feeds(metrics),
    ensures
        on_single_lines(metrics),
{
    reveal_strlit("{stream=");
    reveal_strlit(",group=");
    reveal_strlit(",consumer=");
    reveal_strlit("} ");
    assert forall|k: int| 0 <= k < 10 implies all_free_of(
        #[trigger] metrics.series_lines(k),
        '\n',
    ) by {
        lemma_series_name(k);
        let lines = metrics.series_lines(k);
        assert forall|i: int| 0 <= i < lines.len() implies free_of(#[trigger] lines[i], '\n') by {
            if k == 0 {
                assert(stream_series_clean(metrics.redis_stream_length));
                let sample = metrics.redis_stream_length[i];
                assert(free_of(sample.stream, '\n') && free_of(sample.value, '\n'));
            } else if k == 1 {
                let sample = metrics.redis_stream_earliest_id[i];
                assert(free_of(sample.stream, '\n') && free_of(sample.value, '\n'));
            } else if k == 2 {
                let sample = metrics.redis_stream_latest_id[i];
                assert(free_of(sample.stream, '\n') && free_of(sample.value, '\n'));
            } else if k == 3 {
                let sample = metrics.redis_stream_consumer_groups_total[i];
                assert(free_of(sample.stream, '\n') && free_of(sample.value, '\n'));
            } else if k == 4 {
                let sample = metrics.redis_stream_idle[i];
                assert(free_of(sample.stream, '\n') && free_of(sample.value, '\n'));
            } else if k == 5 {
                let sample = metrics.redis_stream_consumer_group_last_delivered_id[i];
                assert(free_of(sample.stream, '\n') && free_of(sample.group, '\n'));
            } else if k == 6 {
                let sample = metrics.redis_stream_consumer_group_pending_messages_total[i];
                assert(free_of(sample.stream, '\n') && free_of(sample.group, '\n'));
            } else if k == 7 {
                let sample = metrics.redis_stream_consumer_group_consumers_total[i];
                assert(free_of(sample.stream, '\n') && free_of(sample.group, '\n'));
            } else if k == 8 {
                let sample = metrics.redis_stream_consumer_pending_messages_total[i];
                assert(free_of(sample.stream, '\n') && free_of(sample.consumer, '\n'));
            } else {
                let sample = metrics.redis_stream_consumer_idle_time_seconds[i];
                assert(free_of(sample.stream, '\n') && free_of(sample.consumer, '\n'));
            }
        }
    }
}

/// The metric set without any sample keeps all ten pairs of header lines
/// in its text, each followed by one empty line: thirty lines in all.
pub proof fn lemma_empty_set_keeps_headers()
    ensures
        on_single_lines(MetricSet::empty()),
        lines_of(MetricSet::empty().rendered()).len() == 30,
        count_beginning_with(lines_of(MetricSet::empty().rendered()), "# HELP "@) == 10,
        count_beginning_with(lines_of(MetricSet::empty().rendered()), "# TYPE "@) == 10,
{
    let none = MetricSet::empty();
    lemma_labels_decide(none);
    lemma_one_header_pair_for_each_series(none);
    lemma_lines_of_rendered(none);
    lemma_empty_layout_len(10);
}

proof fn lemma_empty_layout_len(count: int)
    requires
        0 <= count <= 10,
    ensures
        layout_of(MetricSet::empty(), count).len() == 3 * count,
    decreases count,
{
    if count > 0 {
        lemma_empty_layout_len(count - 1);
        assert(MetricSet::empty().series_lines(count - 1).len() == 0);
    }
}

/// The lines of one series, joined, are its header, a line feed, and its
/// sample lines joined.
proof fn lemma_join_block(metrics: MetricSet, k: int)
    ensures
        join_lines(block_lines(metrics, k)) == header_text(series_name(k), series_help(k))
            + seq!['\n'] + join_lines(metrics.series_lines(k)),
{
    let first = help_line(series_name(k), series_help(k));
    let second = type_line(series_name(k));
    let header = seq![first, second];
    let samples = metrics.series_lines(k);
    let body = body_lines(samples);
    lemma_join_append(header, body, '\n');
    assert(header.drop_last() =~= seq![first]);
    assert(join_with(seq![first], '\n') == first);
    assert(header.last() == second);
    assert(join_with(header, '\n') == join_with(header.drop_last(), '\n') + seq!['\n']
        + second);
    assert(join_lines(header) =~= header_text(series_name(k), series_help(k)));
    if samples.len() == 0 {
        assert(join_lines(body) =~= join_lines(samples));
    }
}

proof fn lemma_join_segments(metrics: MetricSet, count: int)
    requires
        1 <= count <= 10,
    ensures
        join_lines(metrics.segments().take(2 * count)) == join_lines(layout_of(metrics, count)),
        layout_of(metrics, count).len() > 0,
    decreases count,
{
    let k = count - 1;
    let segments = metrics.segments();
    let upto = segments.take(2 * count);
    let header = header_text(series_name(k), series_help(k));
    let samples = join_lines(metrics.series_lines(k));
    lemma_join_block(metrics, k);
    assert(block_lines(metrics, k).len() >= 2);
    assert(upto.len() == 2 * count);
    assert(upto.last() == samples);
    assert(upto.drop_last() =~= segments.take(2 * count - 1));
    assert(segments.take(2 * count - 1).last() == header);
    if count == 1 {
        assert(segments.take(1).len() == 1);
        assert(segments.take(1)[0] == header);
        assert(join_with(segments.take(1), '\n') == header);
        assert(join_with(upto, '\n') == join_with(upto.drop_last(), '\n') + seq!['\n']
            + upto.last());
        assert(join_lines(upto) =~= header + seq!['\n'] + samples);
        assert(layout_of(metrics, 0) =~= Seq::<Seq<char>>::empty());
        assert(layout_of(metrics, 1) =~= block_lines(metrics, 0));
    } else {
        lemma_join_segments(metrics, count - 1);
        let before = segments.take(2 * count - 2);
        assert(segments.take(2 * count - 1).drop_last() =~= before);
        assert(join_lines(segments.take(2 * count - 1)) == join_lines(before) + seq!['\n']
            + header);
        assert(join_lines(upto) == join_lines(segments.take(2 * count - 1)) + seq!['\n']
            + samples);
        lemma_join_append(layout_of(metrics, count - 1), block_lines(metrics, k), '\n');
        assert(join_lines(upto) =~= join_lines(layout_of(metrics, count)));
    }
}

/// The lines of the text of a metric set are, series by series in the
/// fixed order, the two header lines of the series and then its sample
/// lines, or one empty line where the series has no sample. This holds
/// where every sample is written on a line of its own.
pub proof fn lemma_lines_of_rendered(metrics: MetricSet)
    requires
        on_single_lines(metrics),
    ensures
        lines_of(metrics.rendered()) == layout_of(metrics, 10),
{
    lemma_join_segments(metrics, 10);
    assert(metrics.segments().take(20) =~= metrics.segments());
    lemma_layout_free(metrics, 10);
    lemma_split_join(layout_of(metrics, 10), '\n');
}

/// The text of a metric set holds one pair of header lines for each of its
/// ten series, whatever samples the series have: ten lines in all begin
/// with `# HELP ` and ten with `# TYPE `, and for each series its first
/// header line stands right before its second, after the lines of the
/// series before it. This holds where every sample is written on a line of
/// its own.
pub proof fn lemma_one_header_pair_for_each_series(metrics: MetricSet)
    requires
        on_single_lines(metrics),
    ensures
        count_beginning_with(lines_of(metrics.rendered()), "# HELP "@) == 10,
        count_beginning_with(lines_of(metrics.rendered()), "# TYPE "@) == 10,
        forall|k: int|
            #![trigger layout_of(metrics, k)]
            0 <= k < 10 ==> {
                let at = layout_of(metrics, k).len() as int;
                &&& at + 1 < lines_of(metrics.rendered()).len()
                &&& lines_of(metrics.rendered())[at] == help_line(series_name(k), series_help(k))
                &&& lines_of(metrics.rendered())[at + 1] == type_line(series_name(k))
            },
{
    lemma_lines_of_rendered(metrics);
    lemma_layout_counts(metrics, 10);
    assert forall|k: int| #![trigger layout_of(metrics, k)] 0 <= k < 10 implies {
        let at = layout_of(metrics, k).len() as int;
        &&& at + 1 < layout_of(metrics, 10).len()
        &&& layout_of(metrics, 10)[at] == help_line(series_name(k), series_help(k))
        &&& layout_of(metrics, 10)[at + 1] == type_line(series_name(k))
    } by {
        lemma_layout_prefix(metrics, k + 1, 10);
        let at = layout_of(metrics, k).len() as int;
        let upto = layout_of(metrics, k + 1);
        assert(upto == layout_of(metrics, k) + block_lines(metrics, k));
        assert(upto[at] == block_lines(metrics, k)[0]);
        assert(upto[at + 1] == block_lines(metrics, k)[1]);
        assert(layout_of(metrics, 10).take(upto.len() as int)[at] == layout_of(metrics, 10)[at]);
        assert(layout_of(metrics, 10).take(upto.len() as int)[at + 1] == layout_of(
            metrics,
            10,
        )[at + 1]);
    }
}

/// The lines of the first series are the first lines of any more series.
proof fn lemma_layout_prefix(metrics: MetricSet, fewer: int, more: int)
    requires
        0 <= fewer <= more,
    ensures
        layout_of(metrics, fewer).len() <= layout_of(metrics, more).len(),
        layout_of(metrics, more).take(layout_of(metrics, fewer).len() as int) == layout_of(
            metrics,
            fewer,
        ),
    decreases more - fewer,
{
    if fewer == more {
        assert(layout_of(metrics, more).take(layout_of(metrics, fewer).len() as int)
            =~= layout_of(metrics, fewer));
    } else {
        lemma_layout_prefix(metrics, fewer, more - 1);
        let shorter = layout_of(metrics, more - 1);
        let n = layout_of(metrics, fewer).len() as int;
        assert(layout_of(metrics, more) == shorter + block_lines(metrics, more - 1));
        assert(layout_of(metrics, more).take(n) =~= shorter.take(n));
    }
}

} // verus!
