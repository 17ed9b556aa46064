use pipo::transaction::{plan_transaction, IncomingEvent, Message};

fn s(x: &str) -> String {
    x.to_string()
}

fn text(room: &str, sender: &str, body: &str) -> IncomingEvent {
    IncomingEvent {
        state_key: None,
        room_id: Some(s(room)),
        sender: Some(s(sender)),
        text_body: Some(s(body)),
    }
}

fn bridged(username: &str, body: &str) -> Message {
    Message::Text {
        sender: 1223,
        pipo_id: 12345,
        transport: s("IRC"),
        username: s(username),
        avatar_url: None,
        thread: None,
        message: Some(s(body)),
        attachments: None,
        is_edit: false,
        irc_flag: true,
    }
}

#[test]
fn text_goes_to_matching_channels() {
    let events = vec![text("!abc:example.org", "@u:example.org", "hello")];
    let channels = vec![s("^!abc"), s("^!xyz"), s("example")];
    let plan = plan_transaction(&events, &channels);
    assert_eq!(plan.invalid_pattern, None);
    assert_eq!(plan.deliveries.len(), 2);
    assert_eq!(plan.deliveries[0].channel, "^!abc");
    assert_eq!(plan.deliveries[1].channel, "example");
    assert_eq!(plan.deliveries[0].message, bridged("@u:example.org", "hello"));
}

#[test]
fn state_and_other_events_are_skipped() {
    let mut state = text("!abc:x", "@u:x", "hi");
    state.state_key = Some(s(""));
    let not_text = IncomingEvent { text_body: None, ..text("!abc:x", "@u:x", "") };
    let no_room = IncomingEvent { room_id: None, ..text("!abc:x", "@u:x", "hi") };
    let empty = IncomingEvent { state_key: None, room_id: None, sender: None, text_body: None };
    let plan = plan_transaction(&vec![state, not_text, no_room, empty], &vec![s(".*")]);
    assert!(plan.deliveries.is_empty());
    assert_eq!(plan.invalid_pattern, None);
}

#[test]
fn invalid_pattern_stops_the_transaction() {
    let events = vec![text("!a:x", "@u:x", "one"), text("!a:x", "@u:x", "two")];
    let channels = vec![s("!a"), s("(unclosed"), s("x")];
    let plan = plan_transaction(&events, &channels);
    assert_eq!(plan.invalid_pattern, Some(s("(unclosed")));
    assert_eq!(plan.deliveries.len(), 1);
    assert_eq!(plan.deliveries[0].message, bridged("@u:x", "one"));
}

#[test]
fn events_keep_their_order() {
    let events = vec![text("!a:x", "@u:x", "one"), text("!b:x", "@v:x", "two")];
    let plan = plan_transaction(&events, &vec![s("x$")]);
    assert_eq!(plan.deliveries.len(), 2);
    assert_eq!(plan.deliveries[0].message, bridged("@u:x", "one"));
    assert_eq!(plan.deliveries[1].message, bridged("@v:x", "two"));
}

#[test]
fn no_channels_no_deliveries() {
    let plan = plan_transaction(&vec![text("!a:x", "@u:x", "one")], &vec![]);
    assert!(plan.deliveries.is_empty());
    assert_eq!(plan.invalid_pattern, None);
}

#[test]
fn event_without_fields_is_skipped() {
    let empty = IncomingEvent { state_key: None, room_id: None, sender: None, text_body: None };
    let plan = plan_transaction(&vec![empty], &vec![s(".*"), s("(")]);
    assert!(plan.deliveries.is_empty());
    assert_eq!(plan.invalid_pattern, None);
}

#[test]
fn text_message_content_gives_its_body() {
    let e = pipo::transaction::incoming_event(
        None,
        Some(s("!a:x")),
        Some(s("@u:x")),
        Some(s(r#"{"msgtype":"m.text","body":"hello"}"#)),
    );
    assert_eq!(e, text("!a:x", "@u:x", "hello"));
}

#[test]
fn other_content_gives_no_body() {
    let image = pipo::transaction::incoming_event(
        None,
        Some(s("!a:x")),
        Some(s("@u:x")),
        Some(s(r#"{"msgtype":"m.image","url":"mxc://x/y"}"#)),
    );
    assert_eq!(image.text_body, None);
    let missing = pipo::transaction::incoming_event(Some(s("")), None, None, None);
    assert_eq!(missing.text_body, None);
    assert_eq!(missing.state_key, Some(s("")));
    let plan = plan_transaction(&vec![image, missing], &vec![s(".*")]);
    assert!(plan.deliveries.is_empty());
}
