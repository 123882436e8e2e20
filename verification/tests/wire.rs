use fanout_core::event::{encode_event, parse_event, NotificationPayload};
use fanout_core::listener::{
    feed_channel, listener_step, ListenerAction, ListenerEvent, ListenerState, RESTART_BACKOFF_SECS,
};
use fanout_core::text::{i32_to_string, parse_bool, parse_uint, u64_to_string};

fn sample() -> NotificationPayload {
    NotificationPayload { school_id: 7, grade: 3, class: 2, class_id: 15, new_status: 1 }
}

#[test]
fn encoding_is_canonical() {
    let text = encode_event(&sample());
    assert_eq!(
        text,
        "{\"school_id\":7,\"grade\":3,\"class\":2,\"class_id\":15,\"new_status\":1}"
    );
    let negative = NotificationPayload {
        school_id: -1,
        grade: 0,
        class: i32::MAX,
        class_id: i32::MIN,
        new_status: 10,
    };
    assert_eq!(
        encode_event(&negative),
        "{\"school_id\":-1,\"grade\":0,\"class\":2147483647,\"class_id\":-2147483648,\"new_status\":10}"
    );
}

#[test]
fn encoding_round_trips_through_the_parser() {
    for e in [
        sample(),
        NotificationPayload { school_id: 0, grade: -5, class: 100, class_id: 1, new_status: -1 },
        NotificationPayload {
            school_id: i32::MIN,
            grade: i32::MAX,
            class: 0,
            class_id: -7,
            new_status: 3,
        },
    ] {
        assert_eq!(parse_event(&encode_event(&e)), Some(e));
    }
}

#[test]
fn encoding_is_json_a_reference_reader_accepts() {
    let text = encode_event(&sample());
    let value: serde_json::Value = serde_json::from_str(&text).unwrap();
    assert_eq!(value["school_id"], serde_json::Value::from(7));
    assert_eq!(value["grade"], serde_json::Value::from(3));
    assert_eq!(value["class"], serde_json::Value::from(2));
    assert_eq!(value["class_id"], serde_json::Value::from(15));
    assert_eq!(value["new_status"], serde_json::Value::from(1));
}

#[test]
fn parser_accepts_blanks_and_any_member_order() {
    let text = " {\n\t\"grade\" : 3 , \"school_id\": 7, \"new_status\":1,\r\n \"class_id\":15, \"class\": 2 } ";
    assert_eq!(parse_event(text), Some(sample()));
}

#[test]
fn parser_rejects_what_lies_outside_the_grammar() {
    // A well-formed baseline.
    let good = "{\"school_id\":7,\"grade\":3,\"class\":2,\"class_id\":15,\"new_status\":1}";
    assert!(parse_event(good).is_some());

    let bad = [
        // not an object
        "null",
        "[1,2,3]",
        "",
        // a member missing
        "{\"school_id\":7,\"grade\":3,\"class\":2,\"class_id\":15}",
        // a member twice
        "{\"school_id\":7,\"grade\":3,\"class\":2,\"class_id\":15,\"school_id\":1}",
        // an unknown member
        "{\"school_id\":7,\"grade\":3,\"class\":2,\"class_id\":15,\"new_status\":1,\"extra\":0}",
        // a value that is no integer
        "{\"school_id\":\"7\",\"grade\":3,\"class\":2,\"class_id\":15,\"new_status\":1}",
        // leading zero
        "{\"school_id\":07,\"grade\":3,\"class\":2,\"class_id\":15,\"new_status\":1}",
        // beyond 32 bits
        "{\"school_id\":2147483648,\"grade\":3,\"class\":2,\"class_id\":15,\"new_status\":1}",
        "{\"school_id\":-2147483649,\"grade\":3,\"class\":2,\"class_id\":15,\"new_status\":1}",
        // trailing text
        "{\"school_id\":7,\"grade\":3,\"class\":2,\"class_id\":15,\"new_status\":1}x",
        // unterminated
        "{\"school_id\":7,\"grade\":3,\"class\":2,\"class_id\":15,\"new_status\":1",
    ];
    for text in bad {
        assert_eq!(parse_event(text), None, "accepted {:?}", text);
    }
}

#[test]
fn parser_accepts_the_extreme_values() {
    let text = "{\"school_id\":-2147483648,\"grade\":2147483647,\"class\":0,\"class_id\":-0,\"new_status\":1}";
    let e = parse_event(text).unwrap();
    assert_eq!(e.school_id, i32::MIN);
    assert_eq!(e.grade, i32::MAX);
    assert_eq!(e.class_id, 0);
}

#[test]
fn listener_dispatches_decoded_messages_and_drops_the_rest() {
    let good = encode_event(&sample());
    let (state, action) =
        listener_step(ListenerState::Listening, ListenerEvent::MessageReceived(good));
    assert_eq!(state, ListenerState::Listening);
    assert_eq!(action, ListenerAction::Dispatch(sample()));

    let (state, action) = listener_step(
        ListenerState::Listening,
        ListenerEvent::MessageReceived(String::from("not json")),
    );
    assert_eq!(state, ListenerState::Listening);
    assert_eq!(action, ListenerAction::DropMessage);
}

#[test]
fn listener_restarts_after_the_fixed_backoff_and_resumes() {
    // A simulated disconnect of the feed subscription.
    let (state, action) = listener_step(ListenerState::Listening, ListenerEvent::FeedClosed);
    assert_eq!(state, ListenerState::Connecting);
    assert_eq!(action, ListenerAction::RestartAfterBackoff(RESTART_BACKOFF_SECS));
    assert_eq!(RESTART_BACKOFF_SECS, 5);

    // A failed attempt is retried the same way: there is no cutoff.
    let (state, action) = listener_step(state, ListenerEvent::SubscribeFailed);
    assert_eq!(state, ListenerState::Connecting);
    assert_eq!(action, ListenerAction::RestartAfterBackoff(5));

    // Once resubscribed, delivery resumes without outside help.
    let (state, action) = listener_step(state, ListenerEvent::SubscribeOk);
    assert_eq!(state, ListenerState::Listening);
    assert_eq!(action, ListenerAction::AwaitMessages);
    let (_, action) = listener_step(
        state,
        ListenerEvent::MessageReceived(encode_event(&sample())),
    );
    assert_eq!(action, ListenerAction::Dispatch(sample()));
}

#[test]
fn listener_subscribes_to_the_fixed_channel() {
    assert_eq!(feed_channel(), "class_status_updates");
}

#[test]
fn decimal_text_is_exact() {
    assert_eq!(u64_to_string(0), "0");
    assert_eq!(u64_to_string(42), "42");
    assert_eq!(u64_to_string(u64::MAX), "18446744073709551615");
    assert_eq!(i32_to_string(-1), "-1");
    assert_eq!(i32_to_string(i32::MIN), "-2147483648");
    assert_eq!(i32_to_string(i32::MAX), "2147483647");
}

#[test]
fn uint_parsing_is_exact() {
    assert_eq!(parse_uint("123", u64::MAX), Some(123));
    assert_eq!(parse_uint("+7", u64::MAX), Some(7));
    assert_eq!(parse_uint("0", u64::MAX), Some(0));
    assert_eq!(parse_uint("007", u64::MAX), Some(7));
    assert_eq!(parse_uint("", u64::MAX), None);
    assert_eq!(parse_uint("+", u64::MAX), None);
    assert_eq!(parse_uint("12a", u64::MAX), None);
    assert_eq!(parse_uint("-1", u64::MAX), None);
    assert_eq!(parse_uint("65535", 65535), Some(65535));
    assert_eq!(parse_uint("65536", 65535), None);
    assert_eq!(parse_uint("18446744073709551615", u64::MAX), Some(u64::MAX));
    assert_eq!(parse_uint("18446744073709551616", u64::MAX), None);
}

#[test]
fn bool_parsing_is_exact() {
    assert_eq!(parse_bool("true"), Some(true));
    assert_eq!(parse_bool("false"), Some(false));
    assert_eq!(parse_bool("True"), None);
    assert_eq!(parse_bool("1"), None);
    assert_eq!(parse_bool(""), None);
}
