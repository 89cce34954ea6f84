use redis_streams_exporter::collector::{
    CollectionError, Collector, Progress, ProviderError, Query, Reply,
};
use redis_streams_exporter::identifiers::parse_identifiers;
use redis_streams_exporter::metrics::Metrics;
use redis_streams_exporter::pass::replay;
use redis_streams_exporter::sample::{SGCV, SGV, SV};
use redis_streams_exporter::summary::{ConsumerSummary, GroupSummary, StreamSummary};

/// A store with fixed contents.
struct Store {
    streams: Vec<(String, StreamSummary, Vec<(GroupSummary, Vec<ConsumerSummary>)>)>,
    /// The query that fails, if any.
    broken: Option<Query>,
}

impl Store {
    fn answer(&self, query: &Query) -> Reply {
        if self.broken.as_ref() == Some(query) {
            return Reply::Failed(ProviderError::Command);
        }
        match query {
            Query::StreamInfo { stream } => {
                match self.streams.iter().find(|(name, _, _)| name == stream) {
                    Some((_, summary, _)) => Reply::Stream(summary.clone()),
                    None => Reply::Failed(ProviderError::Command),
                }
            }
            Query::GroupsInfo { stream } => {
                match self.streams.iter().find(|(name, _, _)| name == stream) {
                    Some((_, _, groups)) => {
                        Reply::Groups(groups.iter().map(|(group, _)| group.clone()).collect())
                    }
                    None => Reply::Failed(ProviderError::Command),
                }
            }
            Query::ConsumersInfo { stream, group } => {
                let found = self
                    .streams
                    .iter()
                    .find(|(name, _, _)| name == stream)
                    .and_then(|(_, _, groups)| groups.iter().find(|(g, _)| &g.name == group));
                match found {
                    Some((_, consumers)) => Reply::Consumers(consumers.clone()),
                    None => Reply::Failed(ProviderError::Command),
                }
            }
        }
    }
}

/// Drives one pass against the store. Gives the outcome and the queries
/// that were asked, in order.
fn collect(
    store: &Store,
    identifiers: &[&str],
    now_ms: u128,
) -> (Result<Metrics, CollectionError>, Vec<Query>) {
    let identifiers: Vec<String> = identifiers.iter().map(|s| String::from(*s)).collect();
    let mut asked = Vec::new();
    let mut progress = Collector::start(identifiers, now_ms);
    loop {
        match progress {
            Progress::Ask(collector, query) => {
                let reply = store.answer(&query);
                asked.push(query);
                progress = collector.step(reply);
            }
            Progress::Done(metrics) => return (Ok(metrics), asked),
            Progress::Failed(error) => return (Err(error), asked),
        }
    }
}

fn summary(length: u64, first: &str, last: &str, groups: u64, generated: &str) -> StreamSummary {
    StreamSummary {
        length,
        first_id: String::from(first),
        last_id: String::from(last),
        groups,
        last_generated_id: String::from(generated),
    }
}

fn group(name: &str, delivered: &str, pending: u64, consumers: u64) -> GroupSummary {
    GroupSummary {
        name: String::from(name),
        last_delivered_id: String::from(delivered),
        pending,
        consumers,
    }
}

fn consumer(name: &str, pending: u64, idle: u64) -> ConsumerSummary {
    ConsumerSummary { name: String::from(name), pending, idle }
}

fn sv(stream: &str, value: &str) -> SV {
    SV { stream: String::from(stream), value: String::from(value) }
}

fn sgv(stream: &str, group: &str, value: &str) -> SGV {
    SGV { stream: String::from(stream), group: String::from(group), value: String::from(value) }
}

fn sgcv(stream: &str, group: &str, consumer: &str, value: &str) -> SGCV {
    SGCV {
        stream: String::from(stream),
        group: String::from(group),
        consumer: String::from(consumer),
        value: String::from(value),
    }
}

fn stream_info(stream: &str) -> Query {
    Query::StreamInfo { stream: String::from(stream) }
}

fn groups_info(stream: &str) -> Query {
    Query::GroupsInfo { stream: String::from(stream) }
}

fn consumers_info(stream: &str, group: &str) -> Query {
    Query::ConsumersInfo { stream: String::from(stream), group: String::from(group) }
}

fn orders_alone() -> Store {
    Store {
        streams: vec![(String::from("orders"), summary(5, "1-0", "5-0", 0, "5-0"), vec![])],
        broken: None,
    }
}

fn orders_with_shipping() -> Store {
    Store {
        streams: vec![(
            String::from("orders"),
            summary(5, "1-0", "5-0", 1, "5-0"),
            vec![(group("shipping", "3-0", 2, 1), vec![consumer("worker-1", 2, 1500)])],
        )],
        broken: None,
    }
}

fn three_streams() -> Store {
    Store {
        streams: vec![
            (
                String::from("orders"),
                summary(5, "1000-0", "5000-0", 2, "5000-0"),
                vec![
                    (
                        group("shipping", "3000-0", 2, 2),
                        vec![consumer("worker-1", 2, 1500), consumer("worker-2", 0, 20)],
                    ),
                    (group("billing", "5000-0", 0, 0), vec![]),
                ],
            ),
            (String::from("fresh"), summary(0, "0-0", "0-0", 0, "0-0"), vec![]),
            (
                String::from("payments"),
                summary(1, "7000-1", "7000-1", 1, "9000-0"),
                vec![(group("ledger", "7000-1", 1, 1), vec![consumer("clerk", 1, 3)])],
            ),
        ],
        broken: None,
    }
}

#[test]
fn one_stream_without_groups() {
    let (outcome, asked) = collect(&orders_alone(), &["orders"], 65_000);
    let metrics = outcome.unwrap();
    let text = metrics.to_str();
    assert!(text.contains("redis_stream_length{stream=orders} 5"));
    assert!(!text.contains("group="));
    assert!(!text.contains("consumer="));
    assert_eq!(metrics.redis_stream_length, vec![sv("orders", "5")]);
    assert_eq!(metrics.redis_stream_earliest_id, vec![sv("orders", "1-0")]);
    assert_eq!(metrics.redis_stream_latest_id, vec![sv("orders", "5-0")]);
    assert_eq!(metrics.redis_stream_consumer_groups_total, vec![sv("orders", "0")]);
    assert_eq!(metrics.redis_stream_idle, vec![sv("orders", "64")]);
    assert!(metrics.redis_stream_consumer_group_last_delivered_id.is_empty());
    assert!(metrics.redis_stream_consumer_group_pending_messages_total.is_empty());
    assert!(metrics.redis_stream_consumer_group_consumers_total.is_empty());
    assert!(metrics.redis_stream_consumer_pending_messages_total.is_empty());
    assert!(metrics.redis_stream_consumer_idle_time_seconds.is_empty());
    assert_eq!(asked, vec![stream_info("orders"), groups_info("orders")]);
}

#[test]
fn one_group_with_one_consumer() {
    let (outcome, asked) = collect(&orders_with_shipping(), &["orders"], 65_000);
    let metrics = outcome.unwrap();
    let text = metrics.to_str();
    assert!(text
        .contains("redis_stream_consumer_group_pending_messages_total{stream=orders,group=shipping} 2"));
    assert!(text.contains(
        "redis_stream_consumer_pending_messages_total{stream=orders,group=shipping,consumer=worker-1} 2"
    ));
    assert!(text.contains(
        "redis_stream_consumer_idle_time_seconds{stream=orders,group=shipping,consumer=worker-1} 1500"
    ));
    assert!(text
        .contains("redis_stream_consumer_group_consumers_total{stream=orders,group=shipping} 1"));
    assert!(text
        .contains("redis_stream_consumer_group_last_delivered_id{stream=orders,group=shipping} 3-0"));
    assert_eq!(
        asked,
        vec![stream_info("orders"), groups_info("orders"), consumers_info("orders", "shipping")]
    );
}

#[test]
fn a_failing_consumers_query_fails_the_pass() {
    let mut store = orders_with_shipping();
    store.broken = Some(consumers_info("orders", "shipping"));
    let (outcome, asked) = collect(&store, &["orders"], 65_000);
    assert_eq!(
        outcome,
        Err(CollectionError::Provider {
            stream: String::from("orders"),
            error: ProviderError::Command
        })
    );
    assert_eq!(asked.len(), 3);
}

#[test]
fn a_failing_stream_query_fails_the_pass() {
    let mut store = three_streams();
    store.broken = Some(stream_info("payments"));
    let (outcome, asked) = collect(&store, &["orders", "payments", "fresh"], 65_000);
    assert_eq!(
        outcome,
        Err(CollectionError::Provider {
            stream: String::from("payments"),
            error: ProviderError::Command
        })
    );
    assert_eq!(asked.last(), Some(&stream_info("payments")));
    assert!(!asked.contains(&stream_info("fresh")));
}

#[test]
fn a_failing_groups_query_fails_the_pass() {
    let mut store = three_streams();
    store.broken = Some(groups_info("orders"));
    let (outcome, asked) = collect(&store, &["orders", "payments"], 65_000);
    assert_eq!(
        outcome,
        Err(CollectionError::Provider {
            stream: String::from("orders"),
            error: ProviderError::Command
        })
    );
    assert_eq!(asked, vec![stream_info("orders"), groups_info("orders")]);
}

#[test]
fn every_kind_of_provider_failure_is_passed_on() {
    for error in [ProviderError::Unreachable, ProviderError::Command, ProviderError::UnexpectedReply] {
        match Collector::start(vec![String::from("orders")], 0) {
            Progress::Ask(collector, _) => match collector.step(Reply::Failed(error)) {
                Progress::Failed(found) => assert_eq!(
                    found,
                    CollectionError::Provider { stream: String::from("orders"), error }
                ),
                other => panic!("{:?}", other),
            },
            other => panic!("{:?}", other),
        }
    }
}

#[test]
fn a_reply_of_the_wrong_kind_fails_the_pass() {
    let wrong = CollectionError::Provider {
        stream: String::from("orders"),
        error: ProviderError::UnexpectedReply,
    };
    let begin = || match Collector::start(vec![String::from("orders")], 65_000) {
        Progress::Ask(collector, _) => collector,
        other => panic!("{:?}", other),
    };
    match begin().step(Reply::Groups(vec![])) {
        Progress::Failed(found) => assert_eq!(found, wrong),
        other => panic!("{:?}", other),
    }
    match begin().step(Reply::Consumers(vec![])) {
        Progress::Failed(found) => assert_eq!(found, wrong),
        other => panic!("{:?}", other),
    }
    let waiting_for_groups = || match begin().step(Reply::Stream(summary(1, "1-0", "1-0", 1, "1-0"))) {
        Progress::Ask(collector, query) => {
            assert_eq!(query, groups_info("orders"));
            collector
        }
        other => panic!("{:?}", other),
    };
    match waiting_for_groups().step(Reply::Stream(summary(1, "1-0", "1-0", 1, "1-0"))) {
        Progress::Failed(found) => assert_eq!(found, wrong),
        other => panic!("{:?}", other),
    }
    match waiting_for_groups().step(Reply::Consumers(vec![])) {
        Progress::Failed(found) => assert_eq!(found, wrong),
        other => panic!("{:?}", other),
    }
    let waiting_for_consumers =
        || match waiting_for_groups().step(Reply::Groups(vec![group("shipping", "1-0", 0, 0)])) {
            Progress::Ask(collector, query) => {
                assert_eq!(query, consumers_info("orders", "shipping"));
                collector
            }
            other => panic!("{:?}", other),
        };
    match waiting_for_consumers().step(Reply::Groups(vec![])) {
        Progress::Failed(found) => assert_eq!(found, wrong),
        other => panic!("{:?}", other),
    }
    match waiting_for_consumers().step(Reply::Stream(summary(1, "1-0", "1-0", 1, "1-0"))) {
        Progress::Failed(found) => assert_eq!(found, wrong),
        other => panic!("{:?}", other),
    }
}

#[test]
fn an_unreadable_identifier_fails_the_pass() {
    let store = Store {
        streams: vec![(String::from("orders"), summary(5, "1-0", "5-0", 0, "latest"), vec![])],
        broken: None,
    };
    let (outcome, asked) = collect(&store, &["orders"], 65_000);
    assert_eq!(
        outcome,
        Err(CollectionError::Parse { stream: String::from("orders"), id: String::from("latest") })
    );
    assert_eq!(asked, vec![stream_info("orders")]);
}

#[test]
fn an_empty_identifier_fails_the_pass() {
    let identifiers = parse_identifiers("orders;");
    assert_eq!(identifiers, vec![String::from("orders"), String::new()]);
    let (outcome, asked) = collect(&orders_alone(), &["orders", ""], 65_000);
    assert_eq!(outcome, Err(CollectionError::EmptyIdentifier { position: 1 }));
    assert_eq!(asked, vec![stream_info("orders"), groups_info("orders")]);
}

#[test]
fn an_empty_identifier_in_front_fails_the_pass_before_any_query() {
    let (outcome, asked) = collect(&orders_alone(), &["", "orders"], 65_000);
    assert_eq!(outcome, Err(CollectionError::EmptyIdentifier { position: 0 }));
    assert!(asked.is_empty());
}

#[test]
fn no_identifier_gives_the_empty_set() {
    let (outcome, asked) = collect(&three_streams(), &[], 65_000);
    let metrics = outcome.unwrap();
    assert_eq!(metrics, Metrics::new());
    assert!(metrics.redis_stream_length.is_empty());
    assert!(metrics.redis_stream_earliest_id.is_empty());
    assert!(metrics.redis_stream_latest_id.is_empty());
    assert!(metrics.redis_stream_consumer_groups_total.is_empty());
    assert!(metrics.redis_stream_idle.is_empty());
    assert!(metrics.redis_stream_consumer_group_last_delivered_id.is_empty());
    assert!(metrics.redis_stream_consumer_group_pending_messages_total.is_empty());
    assert!(metrics.redis_stream_consumer_group_consumers_total.is_empty());
    assert!(metrics.redis_stream_consumer_pending_messages_total.is_empty());
    assert!(metrics.redis_stream_consumer_idle_time_seconds.is_empty());
    assert!(asked.is_empty());
    let text = metrics.to_str();
    assert_eq!(text.matches("# HELP ").count(), 10);
    assert_eq!(text.matches("# TYPE ").count(), 10);
    assert_eq!(text.lines().filter(|line| !line.is_empty()).count(), 20);
}

#[test]
fn one_stream_query_for_each_identifier() {
    let store = three_streams();
    let lists: [&[&str]; 5] = [
        &[],
        &["orders"],
        &["fresh", "orders"],
        &["orders", "fresh", "payments"],
        &["payments", "payments", "orders", "payments"],
    ];
    for list in lists {
        let (outcome, asked) = collect(&store, list, 65_000);
        assert!(outcome.is_ok());
        let streams: Vec<&Query> =
            asked.iter().filter(|q| matches!(q, Query::StreamInfo { .. })).collect();
        assert_eq!(streams.len(), list.len());
        for (query, name) in streams.iter().zip(list.iter()) {
            assert_eq!(**query, stream_info(name));
        }
    }
}

#[test]
fn queries_go_stream_by_stream() {
    let (outcome, asked) = collect(&three_streams(), &["orders", "fresh", "payments"], 65_000);
    assert!(outcome.is_ok());
    assert_eq!(
        asked,
        vec![
            stream_info("orders"),
            groups_info("orders"),
            consumers_info("orders", "shipping"),
            consumers_info("orders", "billing"),
            stream_info("fresh"),
            groups_info("fresh"),
            stream_info("payments"),
            groups_info("payments"),
            consumers_info("payments", "ledger"),
        ]
    );
}

#[test]
fn samples_keep_the_order_of_the_pass() {
    let (outcome, _) = collect(&three_streams(), &["orders", "fresh", "payments"], 65_000);
    let metrics = outcome.unwrap();
    assert_eq!(
        metrics.redis_stream_length,
        vec![sv("orders", "5"), sv("fresh", "0"), sv("payments", "1")]
    );
    assert_eq!(
        metrics.redis_stream_earliest_id,
        vec![sv("orders", "1000-0"), sv("fresh", "0-0"), sv("payments", "7000-1")]
    );
    assert_eq!(
        metrics.redis_stream_consumer_groups_total,
        vec![sv("orders", "2"), sv("fresh", "0"), sv("payments", "1")]
    );
    assert_eq!(metrics.redis_stream_idle, vec![sv("orders", "60"), sv("payments", "56")]);
    assert_eq!(
        metrics.redis_stream_consumer_group_pending_messages_total,
        vec![
            sgv("orders", "shipping", "2"),
            sgv("orders", "billing", "0"),
            sgv("payments", "ledger", "1")
        ]
    );
    assert_eq!(
        metrics.redis_stream_consumer_group_last_delivered_id,
        vec![
            sgv("orders", "shipping", "3000-0"),
            sgv("orders", "billing", "5000-0"),
            sgv("payments", "ledger", "7000-1")
        ]
    );
    assert_eq!(
        metrics.redis_stream_consumer_pending_messages_total,
        vec![
            sgcv("orders", "shipping", "worker-1", "2"),
            sgcv("orders", "shipping", "worker-2", "0"),
            sgcv("payments", "ledger", "clerk", "1")
        ]
    );
    assert_eq!(
        metrics.redis_stream_consumer_idle_time_seconds,
        vec![
            sgcv("orders", "shipping", "worker-1", "1500"),
            sgcv("orders", "shipping", "worker-2", "20"),
            sgcv("payments", "ledger", "clerk", "3")
        ]
    );
}

#[test]
fn two_passes_at_one_time_give_the_same_text() {
    let store = three_streams();
    let list = ["orders", "fresh", "payments"];
    let first = collect(&store, &list, 65_000).0.unwrap();
    let second = collect(&store, &list, 65_000).0.unwrap();
    assert_eq!(first, second);
    assert_eq!(first.to_str(), second.to_str());
}

#[test]
fn two_passes_at_two_times_differ_in_the_idle_series_only() {
    let store = three_streams();
    let list = ["orders", "fresh", "payments"];
    let early = collect(&store, &list, 65_000).0.unwrap();
    let mut late = collect(&store, &list, 3_600_000).0.unwrap();
    assert_ne!(early.redis_stream_idle, late.redis_stream_idle);
    assert_eq!(late.redis_stream_idle, vec![sv("orders", "3595"), sv("payments", "3591")]);
    late.redis_stream_idle = early.redis_stream_idle.clone();
    assert_eq!(early, late);
}

#[test]
fn a_stream_listed_twice_is_collected_twice() {
    let (outcome, _) = collect(&orders_alone(), &["orders", "orders"], 65_000);
    let metrics = outcome.unwrap();
    assert_eq!(metrics.redis_stream_length, vec![sv("orders", "5"), sv("orders", "5")]);
}

fn distinct<T: PartialEq>(labels: Vec<T>) -> bool {
    (0..labels.len()).all(|i| (0..i).all(|j| labels[i] != labels[j]))
}

#[test]
fn labels_are_distinct_where_nothing_is_given_twice() {
    let (outcome, _) = collect(&three_streams(), &["payments", "orders", "fresh"], 65_000);
    let m = outcome.unwrap();
    for series in [
        &m.redis_stream_length,
        &m.redis_stream_earliest_id,
        &m.redis_stream_latest_id,
        &m.redis_stream_consumer_groups_total,
        &m.redis_stream_idle,
    ] {
        assert!(distinct(series.iter().map(|s| s.stream.clone()).collect()));
    }
    for series in [
        &m.redis_stream_consumer_group_last_delivered_id,
        &m.redis_stream_consumer_group_pending_messages_total,
        &m.redis_stream_consumer_group_consumers_total,
    ] {
        assert_eq!(series.len(), 3);
        assert!(distinct(series.iter().map(|s| (s.stream.clone(), s.group.clone())).collect()));
    }
    for series in [
        &m.redis_stream_consumer_pending_messages_total,
        &m.redis_stream_consumer_idle_time_seconds,
    ] {
        assert_eq!(series.len(), 3);
        assert!(distinct(
            series
                .iter()
                .map(|s| (s.stream.clone(), s.group.clone(), s.consumer.clone()))
                .collect()
        ));
    }
}

#[test]
fn groups_of_one_name_in_two_streams_are_told_apart() {
    let store = Store {
        streams: vec![
            (
                String::from("a"),
                summary(1, "1-0", "1-0", 1, "1-0"),
                vec![(group("g", "1-0", 0, 1), vec![consumer("c", 0, 1)])],
            ),
            (
                String::from("b"),
                summary(1, "1-0", "1-0", 1, "1-0"),
                vec![(group("g", "1-0", 0, 1), vec![consumer("c", 0, 2)])],
            ),
        ],
        broken: None,
    };
    let m = collect(&store, &["a", "b"], 65_000).0.unwrap();
    assert_eq!(
        m.redis_stream_consumer_idle_time_seconds,
        vec![sgcv("a", "g", "c", "1"), sgcv("b", "g", "c", "2")]
    );
}

fn recorded() -> Vec<Reply> {
    vec![
        Reply::Stream(summary(5, "1-0", "5-0", 1, "5-0")),
        Reply::Groups(vec![group("shipping", "3-0", 2, 1)]),
        Reply::Consumers(vec![consumer("worker-1", 2, 1500)]),
    ]
}

#[test]
fn replay_of_a_whole_pass() {
    let (progress, asked) = replay(vec![String::from("orders")], 65_000, recorded());
    let driven = collect(&orders_with_shipping(), &["orders"], 65_000);
    match progress {
        Progress::Done(metrics) => assert_eq!(Ok(metrics), driven.0),
        other => panic!("{:?}", other),
    }
    assert_eq!(asked, driven.1);
    assert_eq!(
        asked,
        vec![stream_info("orders"), groups_info("orders"), consumers_info("orders", "shipping")]
    );
}

#[test]
fn replay_of_the_beginning_of_a_pass() {
    let mut replies = recorded();
    replies.truncate(2);
    let (progress, asked) = replay(vec![String::from("orders")], 65_000, replies);
    match progress {
        Progress::Ask(_, query) => assert_eq!(query, consumers_info("orders", "shipping")),
        other => panic!("{:?}", other),
    }
    assert_eq!(
        asked,
        vec![stream_info("orders"), groups_info("orders"), consumers_info("orders", "shipping")]
    );
    let (progress, asked) = replay(vec![String::from("orders")], 65_000, vec![]);
    assert!(matches!(progress, Progress::Ask(_, _)));
    assert_eq!(asked, vec![stream_info("orders")]);
}

#[test]
fn replay_leaves_replies_after_the_end_aside() {
    let mut replies = recorded();
    replies.push(Reply::Failed(ProviderError::Unreachable));
    replies.push(Reply::Groups(vec![]));
    let (progress, asked) = replay(vec![String::from("orders")], 65_000, replies);
    assert!(matches!(progress, Progress::Done(_)));
    assert_eq!(asked.len(), 3);
    let (progress, asked) = replay(vec![], 65_000, recorded());
    match progress {
        Progress::Done(metrics) => assert_eq!(metrics, Metrics::new()),
        other => panic!("{:?}", other),
    }
    assert!(asked.is_empty());
}

#[test]
fn replay_of_a_failing_pass() {
    let replies = vec![
        Reply::Stream(summary(5, "1-0", "5-0", 1, "5-0")),
        Reply::Failed(ProviderError::Unreachable),
        Reply::Groups(vec![]),
    ];
    let (progress, asked) = replay(vec![String::from("orders"), String::from("b")], 1, replies);
    match progress {
        Progress::Failed(error) => assert_eq!(
            error,
            CollectionError::Provider {
                stream: String::from("orders"),
                error: ProviderError::Unreachable
            }
        ),
        other => panic!("{:?}", other),
    }
    assert_eq!(asked, vec![stream_info("orders"), groups_info("orders")]);
}

#[test]
fn two_replays_at_two_times_ask_the_same() {
    let early = replay(vec![String::from("orders")], 65_000, recorded());
    let late = replay(vec![String::from("orders")], 99_000_000, recorded());
    assert_eq!(early.1, late.1);
    match (early.0, late.0) {
        (Progress::Done(a), Progress::Done(mut b)) => {
            assert_eq!(a.redis_stream_idle, vec![sv("orders", "64")]);
            assert_eq!(b.redis_stream_idle, vec![sv("orders", "98999")]);
            b.redis_stream_idle = a.redis_stream_idle.clone();
            assert_eq!(a, b);
        }
        other => panic!("{:?}", other),
    }
}
