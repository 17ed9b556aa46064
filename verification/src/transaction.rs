//! What a transaction of events pushed by the homeserver turns into: each
//! text message is sent, as a bridge message, to every channel whose room
//! pattern matches the room it was sent in.
use vstd::prelude::*;
use vstd::string::*;

verus! {

/// A file attached to a bridged message.
#[derive(Clone, Debug, PartialEq, Eq)]
pub struct Attachment {
    pub url: String,
}

/// A message on a bridge bus.
#[derive(Clone, Debug, PartialEq, Eq)]
pub enum Message {
    Text {
        sender: usize,
        pipo_id: i64,
        transport: String,
        username: String,
        avatar_url: Option<String>,
        thread: Option<(Option<String>, Option<u64>)>,
        message: Option<String>,
        attachments: Option<Vec<Attachment>>,
        is_edit: bool,
        irc_flag: bool,
    },
}

/// What the bridge reads of one event of a transaction: its state key (a
/// state event has one), the room it was sent in, its sender, and the body
/// of its content when that content is a text message. A field that the
/// event lacks, or that could not be read, is `None`.
#[derive(Clone, Debug, PartialEq, Eq)]
pub struct IncomingEvent {
    pub state_key: Option<String>,
    pub room_id: Option<String>,
    pub sender: Option<String>,
    pub text_body: Option<String>,
}

/// The room, sender and body of an event that is bridged: a non-state event
/// with a room, a sender and a text-message body. Other events are skipped.
pub open spec fn bridged_text(e: IncomingEvent) -> Option<(Seq<char>, Seq<char>, Seq<char>)> {
    if e.state_key is Some {
        None
    } else {
        match (e.room_id, e.sender, e.text_body) {
            (Some(room), Some(sender), Some(body)) => Some((room@, sender@, body@)),
            _ => None,
        }
    }
}

/// Whether `pattern` is a regular expression that `regex` compiles.
pub uninterp spec fn regex_compiles(pattern: Seq<char>) -> bool;

/// Whether the compiled `pattern` matches somewhere in `haystack`.
pub uninterp spec fn regex_is_match(pattern: Seq<char>, haystack: Seq<char>) -> bool;

/// `regex::Regex::new(pattern)`, then `Regex::is_match(haystack)` on the
/// compiled expression: `None` when the pattern does not compile, else
/// whether it matches. Both results are named, not stated: they depend on
/// the two strings alone.
#[verifier::external_body]
fn regex_match(pattern: &str, haystack: &str) -> (m: Option<bool>)
    ensures
        m is Some <==> regex_compiles(pattern@),
        m matches Some(b) ==> b == regex_is_match(pattern@, haystack@),
{
    match regex::Regex::new(pattern) {
        Ok(re) => Some(re.is_match(haystack)),
        Err(_) => None,
    }
}

/// The channels (by room pattern, in order) that a message from `room`
/// goes to, and the first pattern that does not compile if one is reached:
/// the patterns are tried in order and the first that does not compile
/// stops the delivery.
pub open spec fn channel_targets(patterns: Seq<Seq<char>>, room: Seq<char>) -> (Seq<Seq<char>>, Option<Seq<char>>)
    decreases patterns.len(),
{
    if patterns.len() == 0 {
        (seq![], None)
    } else {
        let prev = channel_targets(patterns.drop_last(), room);
        let p = patterns.last();
        if prev.1 is Some {
            prev
        } else if !regex_compiles(p) {
            (prev.0, Some(p))
        } else if regex_is_match(p, room) {
            (prev.0.push(p), None)
        } else {
            prev
        }
    }
}

/// The deliveries (channel pattern, sender, body) that a transaction of
/// events makes, in order, and the pattern that stopped it if one did not
/// compile.
pub open spec fn planned_deliveries(events: Seq<IncomingEvent>, patterns: Seq<Seq<char>>) -> (Seq<(Seq<char>, Seq<char>, Seq<char>)>, Option<Seq<char>>)
    decreases events.len(),
{
    if events.len() == 0 {
        (seq![], None)
    } else {
        let prev = planned_deliveries(events.drop_last(), patterns);
        if prev.1 is Some {
            prev
        } else {
            match bridged_text(events.last()) {
                None => prev,
                Some(t) => {
                    let targets = channel_targets(patterns, t.0);
                    (
                        prev.0 + targets.0.map_values(
                            |c: Seq<char>| (c, t.1, t.2),
                        ),
                        targets.1,
                    )
                },
            }
        }
    }
}

/// A message for one channel.
#[derive(Clone, Debug, PartialEq, Eq)]
pub struct Delivery {
    pub channel: String,
    pub message: Message,
}

/// The message bridged from a Matrix text event: fixed sender 1223 and
/// bridge id 12345, transport name `IRC`, the event sender as user name and
/// the body as text, not an edit, with the IRC flag set and no avatar,
/// thread or attachments.
pub open spec fn is_bridged_message(m: Message, username: Seq<char>, body: Seq<char>) -> bool {
    match m {
        Message::Text {
            sender,
            pipo_id,
            transport,
            username: u,
            avatar_url,
            thread,
            message,
            attachments,
            is_edit,
            irc_flag,
        } => {
            &&& sender == 1223
            &&& pipo_id == 12345
            &&& transport@ == "IRC"@
            &&& u@ == username
            &&& avatar_url is None
            &&& thread is None
            &&& message matches Some(b) && b@ == body
            &&& attachments is None
            &&& !is_edit
            &&& irc_flag
        },
    }
}

/// `d` delivers to `channel` the message bridged from `sender`'s `body`.
pub open spec fn delivers(d: Delivery, target: (Seq<char>, Seq<char>, Seq<char>)) -> bool {
    d.channel@ == target.0 && is_bridged_message(d.message, target.1, target.2)
}

/// The deliveries of a transaction, and the room pattern that stopped it if
/// one does not compile (the deliveries listed are then those made before).
#[derive(Clone, Debug, PartialEq, Eq)]
pub struct TransactionPlan {
    pub deliveries: Vec<Delivery>,
    pub invalid_pattern: Option<String>,
}

/// The room patterns of the channels, as text.
pub open spec fn pattern_views(channels: Seq<String>) -> Seq<Seq<char>> {
    channels.map_values(|s: String| s@)
}

/// Once a pattern that does not compile has stopped the delivery, the
/// patterns after it change nothing.
proof fn lemma_targets_stop(patterns: Seq<Seq<char>>, room: Seq<char>, j: int)
    requires
        0 <= j <= patterns.len(),
        channel_targets(patterns.take(j), room).1 is Some,
    ensures
        channel_targets(patterns, room) == channel_targets(patterns.take(j), room),
    decreases patterns.len(),
{
    if patterns.len() == j {
        assert(patterns.take(j) =~= patterns);
    } else {
        assert(patterns.drop_last().take(j) =~= patterns.take(j));
        lemma_targets_stop(patterns.drop_last(), room, j);
    }
}

/// Once a transaction has been stopped, the events after it change nothing.
proof fn lemma_planned_stop(events: Seq<IncomingEvent>, patterns: Seq<Seq<char>>, i: int)
    requires
        0 <= i <= events.len(),
        planned_deliveries(events.take(i), patterns).1 is Some,
    ensures
        planned_deliveries(events, patterns) == planned_deliveries(events.take(i), patterns),
    decreases events.len(),
{
    if events.len() == i {
        assert(events.take(i) =~= events);
    } else {
        assert(events.drop_last().take(i) =~= events.take(i));
        lemma_planned_stop(events.drop_last(), patterns, i);
    }
}

/// The message bridged from `username`'s `body`.
pub fn bridged_message(username: &String, body: &String) -> (m: Message)
    ensures
        is_bridged_message(m, username@, body@),
{
    Message::Text {
        sender: 1223,
        pipo_id: 12345,
        transport: String::from_str("IRC"),
        username: username.clone(),
        avatar_url: None,
        thread: None,
        message: Some(body.clone()),
        attachments: None,
        is_edit: false,
        irc_flag: true,
    }
}

/// Appends to `deliveries` the message from `sender` for each channel
/// whose pattern matches `room`, trying the patterns in order; returns the
/// first pattern that does not compile, where the delivery stopped.
fn deliver_to_channels(
    room: &String,
    sender: &String,
    body: &String,
    channels: &Vec<String>,
    deliveries: &mut Vec<Delivery>,
) -> (invalid: Option<String>)
    ensures
        ({
            let t = channel_targets(pattern_views(channels@), room@);
            &&& final(deliveries)@.len() == old(deliveries)@.len() + t.0.len()
            &&& forall|k: int|
                0 <= k < old(deliveries)@.len() ==> #[trigger] final(deliveries)@[k] == old(
                    deliveries,
                )@[k]
            &&& forall|k: int|
                0 <= k < t.0.len() ==> delivers(
                    #[trigger] final(deliveries)@[old(deliveries)@.len() + k],
                    (t.0[k], sender@, body@),
                )
            &&& (invalid is Some <==> t.1 is Some)
            &&& invalid matches Some(p) ==> t.1 == Some(p@)
        }),
{
    let ghost pats = pattern_views(channels@);
    let ghost start = deliveries@.len();
    let mut j: usize = 0;
    while j < channels.len()
        invariant
            j <= channels.len(),
            pats == pattern_views(channels@),
            start == old(deliveries)@.len(),
            channel_targets(pats.take(j as int), room@).1 is None,
            deliveries@.len() == start + channel_targets(pats.take(j as int), room@).0.len(),
            forall|k: int| 0 <= k < start ==> #[trigger] deliveries@[k] == old(deliveries)@[k],
            forall|k: int|
                0 <= k < channel_targets(pats.take(j as int), room@).0.len() ==> delivers(
                    #[trigger] deliveries@[start + k],
                    (channel_targets(pats.take(j as int), room@).0[k], sender@, body@),
                ),
        decreases channels.len() - j,
    {
        proof {
            assert(pats.take(j + 1).drop_last() =~= pats.take(j as int));
            assert(pats.take(j + 1).last() == channels@[j as int]@);
        }
        match regex_match(channels[j].as_str(), room.as_str()) {
            None => {
                proof {
                    lemma_targets_stop(pats, room@, j + 1);
                }
                return Some(channels[j].clone());
            },
            Some(true) => {
                let ghost before = deliveries@;
                deliveries.push(Delivery { channel: channels[j].clone(), message: bridged_message(sender, body) });
                proof {
                    let t = channel_targets(pats.take(j + 1), room@);
                    assert forall|k: int| 0 <= k < t.0.len() implies delivers(
                        #[trigger] deliveries@[start + k],
                        (t.0[k], sender@, body@),
                    ) by {
                        if k < t.0.len() - 1 {
                            assert(deliveries@[start + k] == before[start + k]);
                        }
                    }
                }
            },
            Some(false) => {},
        }
        j = j + 1;
    }
    proof {
        assert(pats.take(channels.len() as int) =~= pats);
    }
    None
}

/// `plan` holds exactly the deliveries and the stopping pattern of `expected`.
pub open spec fn plan_matches(plan: TransactionPlan, expected: (Seq<(Seq<char>, Seq<char>, Seq<char>)>, Option<Seq<char>>)) -> bool {
    &&& plan.deliveries@.len() == expected.0.len()
    &&& forall|k: int|
        0 <= k < expected.0.len() ==> delivers(#[trigger] plan.deliveries@[k], expected.0[k])
    &&& (plan.invalid_pattern is Some <==> expected.1 is Some)
    &&& plan.invalid_pattern matches Some(p) ==> expected.1 == Some(p@)
}

/// The bridge's handling of a pushed transaction: state events, events that
/// are not text messages and events without room or sender are skipped;
/// each text message goes, in event order, to every channel whose room
/// pattern matches its room, the patterns tried in order. The channels are
/// the keys of the bus map, so no pattern repeats.
///
/// Reaching a room pattern that does not compile is where the handling
/// panics: on exactly those inputs `invalid_pattern` names that pattern and
/// `deliveries` holds what was sent before it, and the caller must stop
/// there (the server then panics).
pub fn plan_transaction(events: &Vec<IncomingEvent>, channels: &Vec<String>) -> (plan: TransactionPlan)
    requires
        pattern_views(channels@).no_duplicates(),
    ensures
        plan_matches(plan, planned_deliveries(events@, pattern_views(channels@))),
{
    let ghost pats = pattern_views(channels@);
    let mut deliveries: Vec<Delivery> = Vec::new();
    let mut i: usize = 0;
    while i < events.len()
        invariant
            i <= events.len(),
            pats == pattern_views(channels@),
            planned_deliveries(events@.take(i as int), pats).1 is None,
            deliveries@.len() == planned_deliveries(events@.take(i as int), pats).0.len(),
            forall|k: int|
                0 <= k < deliveries@.len() ==> delivers(
                    #[trigger] deliveries@[k],
                    planned_deliveries(events@.take(i as int), pats).0[k],
                ),
        decreases events.len() - i,
    {
        proof {
            assert(events@.take(i + 1).drop_last() =~= events@.take(i as int));
            assert(events@.take(i + 1).last() == events@[i as int]);
        }
        let event = &events[i];
        if event.state_key.is_none() {
            match (&event.room_id, &event.sender, &event.text_body) {
                (Some(room), Some(sender), Some(body)) => {
                    let ghost before = deliveries@;
                    let invalid = deliver_to_channels(room, sender, body, channels, &mut deliveries);
                    proof {
                        let prev = planned_deliveries(events@.take(i as int), pats);
                        let t = channel_targets(pats, room@);
                        let now = planned_deliveries(events@.take(i + 1), pats);
                        assert(now.0 =~= prev.0 + t.0.map_values(|c: Seq<char>| (c, sender@, body@)));
                        assert forall|k: int| 0 <= k < deliveries@.len() implies delivers(
                            #[trigger] deliveries@[k],
                            now.0[k],
                        ) by {
                            if k < before.len() {
                                assert(deliveries@[k] == before[k]);
                            } else {
                                assert(deliveries@[before.len() + (k - before.len())] == deliveries@[k]);
                            }
                        }
                    }
                    if let Some(p) = invalid {
                        proof {
                            lemma_planned_stop(events@, pats, i + 1);
                        }
                        return TransactionPlan { deliveries, invalid_pattern: Some(p) };
                    }
                },
                _ => {},
            }
        }
        i = i + 1;
    }
    proof {
        assert(events@.take(events.len() as int) =~= events@);
    }
    TransactionPlan { deliveries, invalid_pattern: None }
}

/// An event that is not bridged (a state event, one that is not a text
/// message, or one without room or sender) delivers nothing: adding it to a
/// transaction changes nothing.
pub proof fn law_skipped_event_changes_nothing(events: Seq<IncomingEvent>, e: IncomingEvent, patterns: Seq<Seq<char>>)
    requires
        bridged_text(e) is None,
    ensures
        planned_deliveries(events.push(e), patterns) == planned_deliveries(events, patterns),
{
    assert(events.push(e).drop_last() =~= events);
}

/// Handling two transactions one after the other delivers what handling
/// them as one does, as long as the first was not stopped by a pattern
/// that does not compile.
pub proof fn law_transactions_compose(a: Seq<IncomingEvent>, b: Seq<IncomingEvent>, patterns: Seq<Seq<char>>)
    requires
        planned_deliveries(a, patterns).1 is None,
    ensures
        planned_deliveries(a + b, patterns).0 == planned_deliveries(a, patterns).0 + planned_deliveries(
            b,
            patterns,
        ).0,
        planned_deliveries(a + b, patterns).1 == planned_deliveries(b, patterns).1,
    decreases b.len(),
{
    if b.len() == 0 {
        assert(a + b =~= a);
        assert(planned_deliveries(a, patterns).0 + planned_deliveries(b, patterns).0 =~= planned_deliveries(
            a,
            patterns,
        ).0);
    } else {
        law_transactions_compose(a, b.drop_last(), patterns);
        assert((a + b).drop_last() =~= a + b.drop_last());
        assert((a + b).last() == b.last());
        let pa = planned_deliveries(a, patterns).0;
        let pb = planned_deliveries(b.drop_last(), patterns).0;
        match bridged_text(b.last()) {
            None => {},
            Some(t) => {
                let m = channel_targets(patterns, t.0).0.map_values(
                    |c: Seq<char>| (c, t.1, t.2),
                );
                assert(pa + pb + m =~= pa + (pb + m));
            },
        }
    }
}

/// Each channel that a message from `room` goes to has a pattern among
/// the given ones that compiles and matches `room`.
proof fn lemma_targets_sound(patterns: Seq<Seq<char>>, room: Seq<char>)
    ensures
        forall|k: int|
            0 <= k < channel_targets(patterns, room).0.len() ==> {
                let c = #[trigger] channel_targets(patterns, room).0[k];
                &&& patterns.contains(c)
                &&& regex_compiles(c)
                &&& regex_is_match(c, room)
            },
    decreases patterns.len(),
{
    if patterns.len() > 0 {
        lemma_targets_sound(patterns.drop_last(), room);
        let prev = channel_targets(patterns.drop_last(), room);
        assert forall|k: int| 0 <= k < prev.0.len() implies patterns.contains(#[trigger] prev.0[k]) by {
            let j = choose|j: int| 0 <= j < patterns.drop_last().len() && patterns.drop_last()[j] == prev.0[k];
            assert(patterns[j] == prev.0[k]);
        }
        assert(patterns[patterns.len() - 1] == patterns.last());
    }
}

/// `e` is a bridged event from the sender and with the body of delivery
/// `d`, sent in a room that the channel pattern of `d` matches.
pub open spec fn source_of(e: IncomingEvent, d: (Seq<char>, Seq<char>, Seq<char>)) -> bool {
    &&& e.state_key is None
    &&& e.room_id matches Some(room) && regex_is_match(d.0, room@)
    &&& e.sender matches Some(sender) && sender@ == d.1
    &&& e.text_body matches Some(body) && body@ == d.2
}

/// Every message delivered goes to a channel whose room pattern compiles
/// and matches the room of a bridged event with that sender and body.
pub proof fn law_deliveries_match_rooms(events: Seq<IncomingEvent>, patterns: Seq<Seq<char>>, k: int)
    requires
        0 <= k < planned_deliveries(events, patterns).0.len(),
    ensures
        ({
            let d = planned_deliveries(events, patterns).0[k];
            &&& patterns.contains(d.0)
            &&& regex_compiles(d.0)
            &&& exists|i: int| 0 <= i < events.len() && source_of(#[trigger] events[i], d)
        }),
    decreases events.len(),
{
    let rest = events.drop_last();
    let prev = planned_deliveries(rest, patterns);
    if k < prev.0.len() {
        law_deliveries_match_rooms(rest, patterns, k);
        let d = prev.0[k];
        let i = choose|i: int| 0 <= i < rest.len() && source_of(#[trigger] rest[i], d);
        assert(events[i] == rest[i]);
    } else {
        let t = bridged_text(events.last()).unwrap();
        law_bridged_text_reads_fields(events.last());
        lemma_targets_sound(patterns, t.0);
        let n = events.len() - 1;
        assert(events[n] == events.last());
        let c = channel_targets(patterns, t.0).0[k - prev.0.len()];
        assert(planned_deliveries(events, patterns).0[k] == (c, t.1, t.2));
    }
}

} // verus!

verus! {

/// The body of an event content, when ruma reads the content (JSON text)
/// as a text message.
pub uninterp spec fn text_message_body(content: Seq<char>) -> Option<Seq<char>>;

/// `serde_json::from_str` of ruma's `TextMessageEventContent` on the
/// content's JSON text, keeping its body. Whether it reads, and the body,
/// are named, not stated: they depend on the text alone.
#[verifier::external_body]
fn read_text_body(content_json: &str) -> (body: Option<String>)
    ensures
        match body {
            Some(b) => text_message_body(content_json@) == Some(b@),
            None => text_message_body(content_json@) is None,
        },
{
    serde_json::from_str::<ruma::events::room::message::TextMessageEventContent>(content_json).ok().map(
        |content| content.body,
    )
}

/// The text of an optional string.
pub open spec fn opt_view(s: Option<String>) -> Option<Seq<char>> {
    match s {
        Some(t) => Some(t@),
        None => None,
    }
}

/// What the bridge reads of an event from its state key, room, sender and
/// content (JSON text), each present or not: the first three as they are,
/// and the body of the content when the content reads as a text message.
pub fn incoming_event(
    state_key: Option<String>,
    room_id: Option<String>,
    sender: Option<String>,
    content_json: Option<String>,
) -> (e: IncomingEvent)
    ensures
        e.state_key == state_key,
        e.room_id == room_id,
        e.sender == sender,
        opt_view(e.text_body) == match content_json {
            Some(c) => text_message_body(c@),
            None => None,
        },
{
    let text_body = match content_json {
        Some(c) => read_text_body(c.as_str()),
        None => None,
    };
    IncomingEvent { state_key, room_id, sender, text_body }
}

} // verus!

verus! {

/// An event is bridged exactly when it has no state key and has a room, a
/// sender and a text body; what is bridged is then its room, its sender and
/// its body, unchanged.
pub proof fn law_bridged_text_reads_fields(e: IncomingEvent)
    ensures
        bridged_text(e) is Some <==> (e.state_key is None && e.room_id is Some && e.sender is Some
            && e.text_body is Some),
        bridged_text(e) is Some ==> bridged_text(e) == Some(
            (e.room_id->0@, e.sender->0@, e.text_body->0@),
        ),
{
}

/// When every room pattern compiles, a message goes to exactly the
/// channels whose pattern matches the room, in order.
proof fn lemma_targets_all_compile(patterns: Seq<Seq<char>>, room: Seq<char>)
    requires
        forall|k: int| 0 <= k < patterns.len() ==> regex_compiles(#[trigger] patterns[k]),
    ensures
        channel_targets(patterns, room) == (
            patterns.filter(|p: Seq<char>| regex_is_match(p, room)),
            None::<Seq<char>>,
        ),
    decreases patterns.len(),
{
    if patterns.len() > 0 {
        let rest = patterns.drop_last();
        assert forall|k: int| 0 <= k < rest.len() implies regex_compiles(#[trigger] rest[k]) by {
            assert(rest[k] == patterns[k]);
        }
        lemma_targets_all_compile(rest, room);
        assert(patterns =~= rest.push(patterns.last()));
        assert(patterns.last() == patterns[patterns.len() - 1]);
        rest.lemma_filter_push(patterns.last(), |p: Seq<char>| regex_is_match(p, room));
    }
}

/// A text message sent in a room reaches every channel whose pattern
/// matches that room's full id, and only those, in channel order, when all
/// patterns compile: each gets the message from the event's sender with
/// the event's body.
pub proof fn law_message_reaches_matching_channels(e: IncomingEvent, patterns: Seq<Seq<char>>)
    requires
        e.state_key is None,
        e.room_id is Some,
        e.sender is Some,
        e.text_body is Some,
        forall|k: int| 0 <= k < patterns.len() ==> regex_compiles(#[trigger] patterns[k]),
    ensures
        planned_deliveries(seq![e], patterns).1 is None,
        planned_deliveries(seq![e], patterns).0 == patterns.filter(
            |p: Seq<char>| regex_is_match(p, e.room_id->0@),
        ).map_values(|p: Seq<char>| (p, e.sender->0@, e.text_body->0@)),
{
    let room = e.room_id->0@;
    law_bridged_text_reads_fields(e);
    lemma_targets_all_compile(patterns, room);
    let events = seq![e];
    assert(events.drop_last() =~= Seq::<IncomingEvent>::empty());
    assert(planned_deliveries(events.drop_last(), patterns) == (
        Seq::<(Seq<char>, Seq<char>, Seq<char>)>::empty(),
        None::<Seq<char>>,
    ));
    assert(events.last() == e);
    assert(bridged_text(events.last()) == Some((room, e.sender->0@, e.text_body->0@)));
    let m = patterns.filter(|p: Seq<char>| regex_is_match(p, room)).map_values(
        |p: Seq<char>| (p, e.sender->0@, e.text_body->0@),
    );
    assert(Seq::<(Seq<char>, Seq<char>, Seq<char>)>::empty() + m =~= m);
}

} // verus!

verus! {

/// A bridged message carries fixed markers (sender 1223, bridge id 12345,
/// transport `IRC`, not an edit, IRC flag set, no avatar, thread or
/// attachments), the Matrix sender as its user name and the event's body as
/// its text.
pub proof fn law_bridged_message_fields(m: Message, username: Seq<char>, body: Seq<char>)
    requires
        is_bridged_message(m, username, body),
    ensures
        m matches Message::Text {
            sender,
            pipo_id,
            transport,
            username: u,
            avatar_url,
            thread,
            message,
            attachments,
            is_edit,
            irc_flag,
        } && sender == 1223 && pipo_id == 12345 && transport@ == seq!['I', 'R', 'C'] && u@
            == username && avatar_url is None && thread is None && message is Some
            && message->0@ == body && attachments is None && !is_edit && irc_flag,
{
    reveal_strlit("IRC");
    assert("IRC"@ =~= seq!['I', 'R', 'C']);
}

/// A text message stops at the first room pattern that does not compile:
/// it has gone to the matching channels before it, and that pattern is
/// reported.
pub proof fn law_first_bad_pattern_stops(e: IncomingEvent, patterns: Seq<Seq<char>>, k: int)
    requires
        e.state_key is None,
        e.room_id is Some,
        e.sender is Some,
        e.text_body is Some,
        0 <= k < patterns.len(),
        !regex_compiles(patterns[k]),
        forall|i: int| 0 <= i < k ==> regex_compiles(#[trigger] patterns[i]),
    ensures
        planned_deliveries(seq![e], patterns).1 == Some(patterns[k]),
        planned_deliveries(seq![e], patterns).0 == patterns.take(k).filter(
            |p: Seq<char>| regex_is_match(p, e.room_id->0@),
        ).map_values(|p: Seq<char>| (p, e.sender->0@, e.text_body->0@)),
{
    let room = e.room_id->0@;
    law_bridged_text_reads_fields(e);
    let before = patterns.take(k);
    assert forall|i: int| 0 <= i < before.len() implies regex_compiles(#[trigger] before[i]) by {
        assert(before[i] == patterns[i]);
    }
    lemma_targets_all_compile(before, room);
    let upto = patterns.take(k + 1);
    assert(upto.drop_last() =~= before);
    assert(upto.last() == patterns[k]);
    lemma_targets_stop(patterns, room, k + 1);
    let events = seq![e];
    assert(events.drop_last() =~= Seq::<IncomingEvent>::empty());
    assert(planned_deliveries(events.drop_last(), patterns) == (
        Seq::<(Seq<char>, Seq<char>, Seq<char>)>::empty(),
        None::<Seq<char>>,
    ));
    assert(events.last() == e);
    let m = before.filter(|p: Seq<char>| regex_is_match(p, room)).map_values(
        |p: Seq<char>| (p, e.sender->0@, e.text_body->0@),
    );
    assert(Seq::<(Seq<char>, Seq<char>, Seq<char>)>::empty() + m =~= m);
}

} // verus!
