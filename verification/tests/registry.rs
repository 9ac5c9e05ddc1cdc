use svckit::push::{RequestContext, StreamEnvelope, SubscribeManager};

fn ctx(connection_id: u32, seq: u32, method: u32) -> RequestContext {
    RequestContext { connection_id, seq, method }
}

fn envelopes_for(out: &[StreamEnvelope], recipient: u32) -> Vec<&StreamEnvelope> {
    out.iter().filter(|e| e.recipient == recipient).collect()
}

#[test]
fn subscribe_then_publish_notifies_with_stream_seq_zero_then_one() {
    let mut m = SubscribeManager::new();
    let topic_a = 10;
    let topic_b = 20;
    m.add_topic(topic_a);
    m.add_topic(topic_b);
    let c = ctx(7, 42, 1001);
    m.subscribe(topic_a, c);
    m.subscribe(topic_b, c);

    let out1 = m.publish_to_all(topic_a, "payload-one");
    assert_eq!(out1.len(), 1);
    assert_eq!(out1[0].recipient, 7);
    assert_eq!(out1[0].original_seq, 42);
    assert_eq!(out1[0].method, 1001);
    assert_eq!(out1[0].stream_seq, 0);
    assert_eq!(out1[0].stream_code, topic_a);
    assert_eq!(out1[0].data, "payload-one");

    let out2 = m.publish_to_all(topic_a, "payload-two");
    assert_eq!(out2.len(), 1);
    assert_eq!(out2[0].stream_seq, 1);
    assert_eq!(out2[0].stream_code, topic_a);

    // the pass over topic A never touched topic B's counter
    let out_b = m.publish_to_all(topic_b, "payload-b");
    assert_eq!(out_b.len(), 1);
    assert_eq!(out_b[0].stream_seq, 0);
}

#[test]
fn unsubscribed_connection_is_not_notified() {
    let mut m = SubscribeManager::new();
    let topic_a = 10;
    let c = ctx(7, 1, 5);
    m.subscribe(topic_a, c);
    m.unsubscribe(topic_a, 7);
    let out = m.publish_to_all(topic_a, "data");
    assert!(envelopes_for(&out, 7).is_empty());
}

#[test]
fn failed_delivery_evicts_from_that_topic_only() {
    let mut m = SubscribeManager::new();
    let topic_a = 10;
    let topic_b = 20;
    let c = ctx(7, 1, 5);
    m.subscribe(topic_a, c);
    m.subscribe(topic_b, c);

    let out = m.publish_to_all(topic_a, "data");
    assert_eq!(out.len(), 1);
    // the runtime reports connection 7 as dead during the pass over A
    let dead = vec![7];
    m.evict_dead(topic_a, &dead);

    let out_a = m.publish_to_all(topic_a, "again");
    assert!(envelopes_for(&out_a, 7).is_empty());
    // still subscribed on B, with B's own counter
    let out_b = m.publish_to_all(topic_b, "b-data");
    assert_eq!(out_b.len(), 1);
    assert_eq!(out_b[0].recipient, 7);
    assert_eq!(out_b[0].stream_seq, 0);
}

#[test]
fn resubscribing_resets_stream_sequence() {
    let mut m = SubscribeManager::new();
    let topic = 3;
    let c = ctx(9, 2, 8);
    m.subscribe(topic, c);
    let _ = m.publish_to_all(topic, "x");
    let _ = m.publish_to_all(topic, "y");
    m.subscribe(topic, c);
    let out = m.publish_to_all(topic, "z");
    assert_eq!(out.len(), 1);
    assert_eq!(out[0].stream_seq, 0);
}

#[test]
fn publish_on_missing_topic_plans_nothing() {
    let mut m = SubscribeManager::new();
    let out = m.publish_to_all(99, "data");
    assert!(out.is_empty());
}

#[test]
fn publish_with_filter_selects_by_context() {
    let mut m = SubscribeManager::new();
    let topic = 4;
    m.subscribe(topic, ctx(1, 10, 77));
    m.subscribe(topic, ctx(2, 11, 88));
    let out = m.publish_with_filter(topic, "only-method-88", |c: &RequestContext| c.method == 88);
    assert_eq!(out.len(), 1);
    assert_eq!(out[0].recipient, 2);
    assert_eq!(out[0].stream_seq, 0);
    // the unselected subscriber's sequence did not advance
    let all = m.publish_to_all(topic, "everyone");
    let one = envelopes_for(&all, 1);
    assert_eq!(one.len(), 1);
    assert_eq!(one[0].stream_seq, 0);
    let two = envelopes_for(&all, 2);
    assert_eq!(two.len(), 1);
    assert_eq!(two[0].stream_seq, 1);
}

#[test]
fn multi_subscribe_and_multi_unsubscribe() {
    let mut m = SubscribeManager::new();
    m.add_topics(vec![1, 2, 3]);
    let c = ctx(5, 0, 0);
    m.subscribe_multi(vec![1, 2], c);
    assert_eq!(m.publish_to_all(1, "a").len(), 1);
    assert_eq!(m.publish_to_all(2, "b").len(), 1);
    assert_eq!(m.publish_to_all(3, "c").len(), 0);
    m.unsubscribe_multi(vec![1, 2], 5);
    assert_eq!(m.publish_to_all(1, "a").len(), 0);
    assert_eq!(m.publish_to_all(2, "b").len(), 0);
}
