use pipo::matrix::{
    matrix_namespaces, missing_bus_warning, prepare_registration, select_channels, Namespace,
    Namespaces, Registration, SetupError,
};
use pipo::token::TokenGenerator;

fn s(x: &str) -> String {
    x.to_string()
}

#[test]
fn channels_without_bus_are_reported() {
    let mapping = vec![(s("#a:x"), s("bus1")), (s("#b:x"), s("nobus")), (s("#c:x"), s("bus2"))];
    let buses = vec![s("bus2"), s("bus1")];
    let sel = select_channels(&mapping, &buses);
    assert_eq!(sel.kept, vec![(s("#a:x"), s("bus1")), (s("#c:x"), s("bus2"))]);
    assert_eq!(sel.missing, vec![(s("#b:x"), s("nobus"))]);
}

#[test]
fn missing_bus_warning_text() {
    assert_eq!(
        missing_bus_warning("#b:x", "nobus"),
        "No bus named 'nobus' in configuration file for channel name: '#b:x'"
    );
}

#[test]
fn namespaces_claim_channels_and_protocol_aliases() {
    let ns = matrix_namespaces(&vec![s("IRC"), s("Discord")], &vec![s("!room:x")]);
    assert!(ns.users.is_empty());
    assert_eq!(
        ns.aliases,
        vec![
            Namespace { exclusive: false, regex: s("t.*") },
            Namespace { exclusive: false, regex: s("t.*") }
        ]
    );
    assert_eq!(ns.rooms, vec![Namespace { exclusive: true, regex: s("!room:x") }]);
}

fn empty_namespaces() -> Namespaces {
    Namespaces { users: vec![], aliases: vec![], rooms: vec![] }
}

fn existing(id: &str) -> Registration {
    Registration {
        id: s(id),
        url: None,
        as_token: s("as-secret"),
        hs_token: s("hs-secret"),
        sender_localpart: s("someone"),
        namespaces: empty_namespaces(),
        rate_limited: None,
        protocols: None,
    }
}

#[test]
fn own_registration_is_adopted() {
    let mut gen = TokenGenerator::new();
    let reg = prepare_registration(
        Some(existing("pipo")),
        "http://localhost:8008",
        empty_namespaces(),
        vec![s("IRC")],
        &mut gen,
    )
    .ok()
    .unwrap();
    assert_eq!(reg.id, "pipo");
    assert_eq!(reg.as_token, "as-secret");
    assert_eq!(reg.hs_token, "hs-secret");
    assert_eq!(reg.url, Some(s("http://localhost:8008")));
    assert_eq!(reg.sender_localpart, "_pipo");
    assert_eq!(reg.rate_limited, Some(true));
    assert_eq!(reg.protocols, Some(vec![s("IRC")]));
}

#[test]
fn foreign_registration_is_refused() {
    let mut gen = TokenGenerator::new();
    let r = prepare_registration(Some(existing("other")), "u", empty_namespaces(), vec![], &mut gen);
    match r {
        Err(e) => {
            assert_eq!(e, SetupError::IncorrectServiceId(s("other")));
            assert_eq!(e.message(), "incorrect application service ID: \"other\"");
        }
        Ok(_) => panic!("a foreign registration was adopted"),
    }
}

#[test]
fn missing_registration_is_created() {
    let mut gen = TokenGenerator::new();
    let reg = prepare_registration(None, "http://h", empty_namespaces(), vec![s("IRC")], &mut gen)
        .ok()
        .unwrap();
    assert_eq!(reg.id, "pipo");
    assert_eq!(reg.sender_localpart, "_pipo");
    assert_eq!(reg.as_token.len(), 64);
    assert_eq!(reg.hs_token.len(), 64);
    assert_ne!(reg.as_token, reg.hs_token);
    assert_eq!(reg.url, Some(s("http://h")));
}

#[test]
fn created_registration_is_kept_when_read_back() {
    let mut gen = TokenGenerator::new();
    let first = prepare_registration(None, "http://h", empty_namespaces(), vec![s("IRC")], &mut gen)
        .ok()
        .unwrap();
    let second = prepare_registration(
        Some(first.clone()),
        "http://h",
        empty_namespaces(),
        vec![s("IRC")],
        &mut gen,
    )
    .ok()
    .unwrap();
    assert_eq!(second, first);
}
