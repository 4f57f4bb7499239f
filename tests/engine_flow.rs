use channel_mirror::endpoints::{after_probe, EndpointCache, EndpointStep};
use channel_mirror::engine::{canned_reply, images_to_forward, plan_propagation, should_relay, MirrorOp, RelayJob};
use channel_mirror::relay::RelayCache;
use channel_mirror::routing::RoutingTable;

const BOT: u64 = 1;
const AUTHOR: u64 = 42;
const SOURCE_MESSAGE: u64 = 9000;

/// Relays one message, answering each attempt from `results` in order.
fn relay(
    routes: &RoutingTable,
    cache: &mut RelayCache,
    channel: u64,
    results: &[Option<u64>],
) -> Vec<u64> {
    let mut attempted = Vec::new();
    let mut job = RelayJob::start(routes, SOURCE_MESSAGE, channel, AUTHOR, BOT, None).unwrap();
    let mut k = 0;
    while let Some(target) = job.next_target() {
        attempted.push(target);
        job.report(results[k]);
        k += 1;
    }
    job.finish(cache);
    attempted
}

#[test]
fn message_is_sent_to_each_target_in_order() {
    let routes = RoutingTable::from_rows(&vec![vec![100, 200, 300]]);
    let mut cache = RelayCache::new();
    let attempted = relay(&routes, &mut cache, 100, &[Some(1200), Some(1300)]);
    assert_eq!(attempted, vec![200, 300]);
    assert_eq!(cache.mirrors_of(SOURCE_MESSAGE), Some(vec![(1200, 200), (1300, 300)]));
    assert_eq!(cache.author_of(SOURCE_MESSAGE), Some(AUTHOR));
}

#[test]
fn record_holds_only_successful_sends() {
    let routes = RoutingTable::from_rows(&vec![vec![100, 200, 300, 400]]);
    let mut cache = RelayCache::new();
    relay(&routes, &mut cache, 100, &[None, Some(1300), None]);
    assert_eq!(cache.mirrors_of(SOURCE_MESSAGE), Some(vec![(1300, 300)]));
}

#[test]
fn all_failed_sends_still_write_empty_record() {
    let routes = RoutingTable::from_rows(&vec![vec![100, 200]]);
    let mut cache = RelayCache::new();
    relay(&routes, &mut cache, 100, &[None]);
    assert_eq!(cache.mirrors_of(SOURCE_MESSAGE), Some(vec![]));
    assert_eq!(cache.author_of(SOURCE_MESSAGE), Some(AUTHOR));
}

#[test]
fn own_and_proxy_messages_are_not_relayed() {
    let routes = RoutingTable::from_rows(&vec![vec![100, 200]]);
    assert!(RelayJob::start(&routes, SOURCE_MESSAGE, 100, BOT, BOT, None).is_none());
    assert!(RelayJob::start(&routes, SOURCE_MESSAGE, 100, AUTHOR, BOT, Some(77)).is_none());
    assert!(!should_relay(BOT, BOT, None));
    assert!(!should_relay(AUTHOR, BOT, Some(77)));
    assert!(should_relay(AUTHOR, BOT, None));
}

#[test]
fn message_outside_source_channels_starts_nothing() {
    let routes = RoutingTable::from_rows(&vec![vec![100, 200], vec![7]]);
    assert!(RelayJob::start(&routes, SOURCE_MESSAGE, 555, AUTHOR, BOT, None).is_none());
    assert!(RelayJob::start(&routes, SOURCE_MESSAGE, 7, AUTHOR, BOT, None).is_none());
}

fn mirrored_scenario() -> (RelayCache, EndpointCache) {
    let routes = RoutingTable::from_rows(&vec![vec![100, 200, 300]]);
    let mut cache = RelayCache::new();
    let mut endpoints = EndpointCache::new();
    let mut job = RelayJob::start(&routes, SOURCE_MESSAGE, 100, AUTHOR, BOT, None).unwrap();
    let mut next_endpoint = 500;
    while let Some(target) = job.next_target() {
        let endpoint = match endpoints.first_step(target, AUTHOR) {
            EndpointStep::Probe(id) => match after_probe(id, true) {
                EndpointStep::Use(id) => id,
                _ => unreachable!(),
            },
            _ => {
                next_endpoint += 1;
                endpoints.record_created(target, AUTHOR, next_endpoint);
                next_endpoint
            }
        };
        assert!(endpoint > 500);
        job.report(Some(target + 1000));
    }
    job.finish(&mut cache);
    (cache, endpoints)
}

#[test]
fn hello_is_mirrored_into_both_targets() {
    let (cache, endpoints) = mirrored_scenario();
    assert_eq!(cache.mirrors_of(SOURCE_MESSAGE), Some(vec![(1200, 200), (1300, 300)]));
    assert_eq!(endpoints.lookup(200, AUTHOR), Some(501));
    assert_eq!(endpoints.lookup(300, AUTHOR), Some(502));
}

#[test]
fn edit_reaches_both_mirrors() {
    let (cache, endpoints) = mirrored_scenario();
    let ops = plan_propagation(&cache, &endpoints, SOURCE_MESSAGE).unwrap();
    assert_eq!(
        ops,
        vec![
            MirrorOp { mirrored: 1200, channel: 200, endpoint: Some(501) },
            MirrorOp { mirrored: 1300, channel: 300, endpoint: Some(502) },
        ]
    );
    assert_eq!(endpoints.lookup(100, AUTHOR), None);
}

#[test]
fn delete_reaches_both_mirrors_and_keeps_record() {
    let (cache, endpoints) = mirrored_scenario();
    let ops = plan_propagation(&cache, &endpoints, SOURCE_MESSAGE).unwrap();
    assert_eq!(ops.len(), 2);
    assert_eq!(ops[0].mirrored, 1200);
    assert_eq!(ops[1].mirrored, 1300);
    assert_eq!(cache.mirrors_of(SOURCE_MESSAGE), Some(vec![(1200, 200), (1300, 300)]));
}

#[test]
fn untracked_message_propagates_nothing() {
    let (cache, endpoints) = mirrored_scenario();
    assert_eq!(plan_propagation(&cache, &endpoints, 12345), None);
}

#[test]
fn mirror_without_cached_endpoint_is_skipped() {
    let mut cache = RelayCache::new();
    cache.record(SOURCE_MESSAGE, AUTHOR, vec![(1200, 200), (1300, 300)]);
    let mut endpoints = EndpointCache::new();
    endpoints.record_created(300, AUTHOR, 9);
    let ops = plan_propagation(&cache, &endpoints, SOURCE_MESSAGE).unwrap();
    assert_eq!(ops[0].endpoint, None);
    assert_eq!(ops[1].endpoint, Some(9));
}

#[test]
fn ping_gets_pong_anywhere() {
    assert_eq!(canned_reply("ping"), Some("Pong!".to_string()));
    assert_eq!(canned_reply("ping "), None);
    assert_eq!(canned_reply("Ping"), None);
    assert_eq!(canned_reply(""), None);
}

#[test]
fn only_image_attachments_are_forwarded() {
    assert_eq!(images_to_forward(&vec![true, false, true, false]), vec![0, 2]);
    assert_eq!(images_to_forward(&vec![false, false]), Vec::<usize>::new());
    assert_eq!(images_to_forward(&vec![]), Vec::<usize>::new());
}
