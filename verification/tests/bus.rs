use feynman::bus::{
    ack_outcome, begin_claim, claim_outcome, consumer_group_from_value_map, consumer_groups,
    decode_hex, duration_millis, encode_hex, end_published_at, ensure_group, ids_to_strings,
    lookup_outcome, map_group_or_pending_error, map_topic_info_error, message_fields, on_read,
    publish_outcome, published_at_from_fields, stream_entry_to_message, BusError, PendingPager,
    ReadStep, StreamEntry, StreamValue, PENDING_PAGE_SIZE,
};
use feynman::ids::MessageId;
use feynman::table::Table;
use feynman::time::{Duration, Timestamp};

fn fields(entries: Vec<(&str, &str)>) -> Table<String> {
    let mut t = Table::new();
    for (key, value) in entries {
        t.insert(key.to_owned(), value.to_owned());
    }
    t
}

fn id(text: &str) -> MessageId {
    MessageId(text.to_owned())
}

#[test]
fn stream_entry_round_trips_binary_payload() {
    let payload = vec![0x00u8, 0x41, 0x7f, 0xff];
    let timestamp = Timestamp::system_now().timestamp_millis().to_string();
    let fields = fields(vec![
        ("payload_hex", encode_hex(&payload).as_str()),
        ("published_at_ms", timestamp.as_str()),
    ]);

    let message =
        stream_entry_to_message("fills", String::from("1740000000000-0"), &fields).unwrap();

    assert_eq!(message.payload, payload);
    assert_eq!(message.published_at.timestamp_millis().to_string(), timestamp);
}

#[test]
fn stream_entry_rejects_odd_hex_payloads() {
    let fields = fields(vec![("payload_hex", "abc"), ("published_at_ms", "1740000000000")]);
    let error =
        stream_entry_to_message("fills", String::from("1740000000000-0"), &fields).unwrap_err();
    assert!(matches!(error, BusError::InvalidMessage { .. }));
}

#[test]
fn stream_entry_requires_published_timestamp() {
    let fields = fields(vec![("payload_hex", "00")]);
    let error =
        stream_entry_to_message("fills", String::from("1740000000000-0"), &fields).unwrap_err();
    assert!(matches!(error, BusError::MissingField { field: "published_at_ms", .. }));
    assert_eq!(
        error.text(),
        "message 1740000000000-0 on topic fills has no field published_at_ms"
    );
}

#[test]
fn published_fields_read_back() {
    let now = Timestamp::from_nanos(1_740_000_000_123_456_789).unwrap();
    let fields = message_fields(&[1, 2, 255], now);
    assert_eq!(fields.get("payload_hex").unwrap(), "0102ff");
    assert_eq!(fields.get("published_at_ms").unwrap(), "1740000000123");
    let message = stream_entry_to_message("t", "1-0".to_owned(), &fields).unwrap();
    assert_eq!(message.payload, vec![1, 2, 255]);
    assert_eq!(message.published_at.timestamp_millis(), 1_740_000_000_123);
    assert_eq!(message.id, id("1-0"));
    assert_eq!(message.topic, "t");

    let before_epoch = message_fields(&[], Timestamp::from_millis(-5));
    assert_eq!(before_epoch.get("published_at_ms").unwrap(), "-5");
    let message = stream_entry_to_message("t", "1-1".to_owned(), &before_epoch).unwrap();
    assert_eq!(message.published_at.timestamp_millis(), -5);
}

fn reason(error: BusError) -> String {
    match error {
        BusError::InvalidMessage { reason, .. } => reason,
        other => panic!("expected an invalid message, got {other:?}"),
    }
}

#[test]
fn unreadable_payloads_say_why() {
    let decode = |text: &str| decode_hex("t", &id("1-0"), text);
    assert_eq!(decode("0aFF").unwrap(), vec![0x0a, 0xff]);
    assert_eq!(decode("+f").unwrap(), vec![0x0f]);
    assert_eq!(reason(decode("a").unwrap_err()), "hex payload had odd length");
    assert_eq!(
        reason(decode("00zz").unwrap_err()),
        "hex payload contained invalid byte zz: invalid digit found in string"
    );
    assert_eq!(
        reason(decode("0\u{20ac}").unwrap_err()),
        "hex payload was not valid UTF-8: incomplete utf-8 byte sequence from index 1"
    );
}

#[test]
fn unreadable_times_say_why() {
    let at = |text: &str| {
        published_at_from_fields("t", None, &fields(vec![("published_at_ms", text)]))
    };
    assert_eq!(at("+12").unwrap().timestamp_millis(), 12);
    assert_eq!(
        reason(at("soon").unwrap_err()),
        "invalid published_at_ms field: invalid digit found in string"
    );
    assert_eq!(
        reason(at("9223372036854775807").unwrap_err()),
        "published_at_ms 9223372036854775807 is outside the valid UTC range"
    );
    match at("soon").unwrap_err() {
        BusError::InvalidMessage { message_id, .. } => assert_eq!(message_id, id("unknown")),
        other => panic!("unexpected {other:?}"),
    }
}

#[test]
fn groups_that_exist_will_do() {
    assert!(ensure_group("t", "g", "c", Ok(())).is_ok());
    assert!(ensure_group("t", "g", "c", Err("BUSYGROUP name exists".to_owned())).is_ok());
    assert!(matches!(
        ensure_group("t", "g", "c", Err("ERR no such key".to_owned())),
        Err(BusError::TopicNotFound(_))
    ));
    let err = ensure_group("t", "g", "c", Err("down".to_owned())).unwrap_err();
    assert_eq!(err.text(), "subscribe failed on topic t for group g and consumer c: down");
}

#[test]
fn publications_and_acknowledgements_are_judged() {
    assert_eq!(publish_outcome("t", Ok("5-0".to_owned())).unwrap(), id("5-0"));
    let err = publish_outcome("t", Err("full".to_owned())).unwrap_err();
    assert_eq!(err.text(), "publish failed on topic t: full");

    assert!(ack_outcome("t", "g", &id("5-0"), Ok(1)).is_ok());
    let err = ack_outcome("t", "g", &id("5-0"), Ok(0)).unwrap_err();
    assert_eq!(
        err.text(),
        "ack of 5-0 failed on topic t for group g: message was not pending in the consumer group"
    );
    let err = ack_outcome("t", "g", &id("5-0"), Err("NOGROUP".to_owned())).unwrap_err();
    assert_eq!(err.text(), "consumer group g not found on topic t");
    assert!(matches!(
        ack_outcome("t", "g", &id("5-0"), Err("down".to_owned())),
        Err(BusError::AckFailed { .. })
    ));
    let err = map_group_or_pending_error("t", "g", "down".to_owned());
    assert_eq!(err.text(), "pending failed on topic t for group g: down");
    let err = map_topic_info_error("t", "no such key".to_owned());
    assert_eq!(err.text(), "topic not found: t");
}

#[test]
fn idle_times_must_fit_in_milliseconds() {
    assert_eq!(duration_millis(Duration::from_secs(2), "t", "g").unwrap(), 2_000);
    assert!(matches!(
        duration_millis(Duration::from_secs(u64::MAX), "t", "g"),
        Err(BusError::PendingFailed { .. })
    ));
}

fn entry(entry_id: &str, payload_hex: &str) -> StreamEntry {
    StreamEntry {
        id: entry_id.to_owned(),
        fields: fields(vec![("payload_hex", payload_hex), ("published_at_ms", "1740000000000")]),
    }
}

#[test]
fn claims_take_every_message_or_fail() {
    assert!(begin_claim("t", "g", Duration::from_secs(1), &[]).unwrap().is_none());
    let request =
        begin_claim("t", "g", Duration::from_secs(1), &[id("1-0"), id("2-0")]).unwrap().unwrap();
    assert_eq!(request.min_idle_ms, 1_000);
    assert_eq!(request.ids, vec!["1-0", "2-0"]);
    assert_eq!(ids_to_strings(&[id("3-0")]), vec!["3-0"]);

    let messages =
        claim_outcome("t", "g", "c", Ok(vec![entry("1-0", "01"), entry("2-0", "02")])).unwrap();
    assert_eq!(messages[0].payload, vec![1]);
    assert_eq!(messages[1].id, id("2-0"));
    let err = claim_outcome("t", "g", "c", Ok(vec![entry("1-0", "01"), entry("2-0", "0")]))
        .unwrap_err();
    assert!(matches!(err, BusError::InvalidMessage { .. }));
    let err = claim_outcome("t", "g", "c", Err("down".to_owned())).unwrap_err();
    assert_eq!(err.text(), "claim failed on topic t for group g and consumer c: down");
}

#[test]
fn lookups_give_the_first_entry() {
    assert!(lookup_outcome("t", Ok(vec![])).unwrap().is_none());
    let found = lookup_outcome("t", Ok(vec![entry("7-0", "07")])).unwrap().unwrap();
    assert_eq!(found.payload, vec![7]);
    let err = lookup_outcome("t", Err("down".to_owned())).unwrap_err();
    assert_eq!(err.text(), "pending failed on topic t for group <lookup>: down");
}

#[test]
fn reads_deliver_stop_or_retry() {
    match on_read("t", Ok(Some(vec![entry("1-0", "01"), entry("2-0", "0"), entry("3-0", "03")]))) {
        ReadStep::Deliver { messages, rejected } => {
            let ids: Vec<String> = messages.into_iter().map(|m| m.id.0).collect();
            assert_eq!(ids, vec!["1-0", "3-0"]);
            assert_eq!(rejected.len(), 1);
        }
        _ => panic!("expected a delivery"),
    }
    assert!(matches!(
        on_read("t", Ok(None)),
        ReadStep::Deliver { messages, .. } if messages.is_empty()
    ));
    assert!(matches!(on_read("t", Err("NOGROUP gone".to_owned())), ReadStep::Stop(_)));
    match on_read("t", Err("down".to_owned())) {
        ReadStep::Retry { after, .. } => assert_eq!(after, Duration::from_millis(250)),
        _ => panic!("expected a retry"),
    }
}

#[test]
fn pending_messages_are_listed_page_by_page() {
    let mut pager = PendingPager::new();
    assert_eq!(pager.start, "-");
    let full: Vec<String> = (0..PENDING_PAGE_SIZE).map(|i| format!("{i}-0")).collect();
    assert!(pager.on_page(full));
    assert_eq!(pager.start, "(255-0");
    assert!(!pager.on_page(vec!["900-0".to_owned()]));
    assert_eq!(pager.ids.len(), PENDING_PAGE_SIZE + 1);
    assert_eq!(pager.ids[PENDING_PAGE_SIZE], id("900-0"));
    assert!(!pager.on_page(vec![]));
    assert_eq!(pager.start, "(900-0");
}

fn group(consumers: StreamValue) -> Table<StreamValue> {
    let mut t = Table::new();
    t.insert("name".to_owned(), StreamValue::Text("risk_gate".to_owned()));
    t.insert("consumers".to_owned(), consumers);
    t.insert("pending".to_owned(), StreamValue::Bytes(b"12".to_vec()));
    t.insert("last-delivered-id".to_owned(), StreamValue::Text("5-0".to_owned()));
    t
}

#[test]
fn consumer_groups_are_read() {
    let info = consumer_group_from_value_map("t", &group(StreamValue::Integer(3))).unwrap();
    assert_eq!(info.name, "risk_gate");
    assert_eq!(info.consumers, 3);
    assert_eq!(info.pending, 12);
    assert_eq!(info.last_delivered, Some(id("5-0")));

    let err = consumer_group_from_value_map("t", &group(StreamValue::Integer(-1))).unwrap_err();
    assert_eq!(
        err.text(),
        "topic info failed on topic t: xinfo_groups missing consumers field for group risk_gate"
    );
    let err =
        consumer_group_from_value_map("t", &group(StreamValue::Integer(1 << 40))).unwrap_err();
    assert_eq!(
        err.text(),
        "topic info failed on topic t: consumer count exceeds u32 range: out of range integral type conversion attempted"
    );
    assert!(consumer_group_from_value_map("t", &Table::new()).is_err());
    let mut odd = group(StreamValue::Integer(1));
    odd.insert("name".to_owned(), StreamValue::Bytes(vec![0xff]));
    assert!(consumer_group_from_value_map("t", &odd).is_err());
    odd.insert("name".to_owned(), StreamValue::Boolean(true));
    assert_eq!(consumer_group_from_value_map("t", &odd).unwrap().name, "true");

    let groups = consumer_groups("t", Ok(vec![group(StreamValue::Integer(1))])).unwrap();
    assert_eq!(groups.len(), 1);
    assert!(consumer_groups("t", Ok(vec![Table::new()])).is_err());
    assert!(consumer_groups("t", Err("down".to_owned())).is_err());
}

#[test]
fn ends_of_a_topic_have_times() {
    assert!(end_published_at("t", Ok(vec![])).unwrap().is_none());
    let at = end_published_at("t", Ok(vec![entry("1-0", "01")])).unwrap().unwrap();
    assert_eq!(at.timestamp_millis(), 1_740_000_000_000);
    assert!(matches!(
        end_published_at("t", Err("no such key".to_owned())),
        Err(BusError::TopicNotFound(_))
    ));
}
