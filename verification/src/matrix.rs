//! The setup decisions of the Matrix transport: which configured channels
//! have a bus, which namespaces the application service claims, and the
//! registration it runs with (adopted from an existing file, or new).
use vstd::prelude::*;
use vstd::string::*;

use crate::token::{hex_lower, TokenGenerator};

verus! {

/// One namespace of a registration: a regular expression, and whether the
/// application service claims it alone.
#[derive(Clone, Debug, PartialEq, Eq)]
pub struct Namespace {
    pub exclusive: bool,
    pub regex: String,
}

/// The user, alias and room namespaces of a registration.
#[derive(Clone, Debug, PartialEq, Eq)]
pub struct Namespaces {
    pub users: Vec<Namespace>,
    pub aliases: Vec<Namespace>,
    pub rooms: Vec<Namespace>,
}

/// The application-service registration shared with the homeserver.
#[derive(Clone, Debug, PartialEq, Eq)]
pub struct Registration {
    pub id: String,
    pub url: Option<String>,
    pub as_token: String,
    pub hs_token: String,
    pub sender_localpart: String,
    pub namespaces: Namespaces,
    pub rate_limited: Option<bool>,
    pub protocols: Option<Vec<String>>,
}

/// Why the transport could not be set up.
#[derive(Clone, Debug, PartialEq, Eq)]
pub enum SetupError {
    /// The registration found on disk belongs to another application service.
    IncorrectServiceId(String),
}

/// The namespaces that the bridge claims: no user namespace; for each
/// protocol a shared alias namespace `t.*`; for each channel an exclusive
/// room namespace whose expression is the channel name.
pub open spec fn namespaces_match(ns: Namespaces, protocols: Seq<String>, channel_names: Seq<String>) -> bool {
    &&& ns.users@.len() == 0
    &&& ns.aliases@.len() == protocols.len()
    &&& forall|i: int|
        0 <= i < protocols.len() ==> !(#[trigger] ns.aliases@[i]).exclusive && ns.aliases@[i].regex@
            == "t.*"@
    &&& ns.rooms@.len() == channel_names.len()
    &&& forall|i: int|
        0 <= i < channel_names.len() ==> (#[trigger] ns.rooms@[i]).exclusive && ns.rooms@[i].regex@
            == channel_names[i]@
}

/// The namespaces to register for these protocols and channel names.
pub fn matrix_namespaces(protocols: &Vec<String>, channel_names: &Vec<String>) -> (ns: Namespaces)
    ensures
        namespaces_match(ns, protocols@, channel_names@),
{
    let mut aliases: Vec<Namespace> = Vec::new();
    let mut i: usize = 0;
    while i < protocols.len()
        invariant
            i <= protocols.len(),
            aliases@.len() == i,
            forall|j: int|
                0 <= j < i ==> !(#[trigger] aliases@[j]).exclusive && aliases@[j].regex@ == "t.*"@,
        decreases protocols.len() - i,
    {
        aliases.push(Namespace { exclusive: false, regex: String::from_str("t.*") });
        i = i + 1;
    }
    let mut rooms: Vec<Namespace> = Vec::new();
    let mut k: usize = 0;
    while k < channel_names.len()
        invariant
            k <= channel_names.len(),
            rooms@.len() == k,
            forall|j: int|
                0 <= j < k ==> (#[trigger] rooms@[j]).exclusive && rooms@[j].regex@ == channel_names@[j]@,
        decreases channel_names.len() - k,
    {
        rooms.push(Namespace { exclusive: true, regex: channel_names[k].clone() });
        k = k + 1;
    }
    Namespaces { users: Vec::new(), aliases, rooms }
}

/// The identifier under which the bridge registers.
pub open spec fn service_id() -> Seq<char> {
    "pipo"@
}

/// The localpart of the bridge's own user.
pub open spec fn service_localpart() -> Seq<char> {
    "_pipo"@
}

/// `reg` is the bridge's registration for this URL, namespaces and
/// protocols: identifier `pipo`, localpart `_pipo`, rate limited, with the
/// URL, namespaces and protocols given (its tokens are not constrained).
pub open spec fn prepared_for(reg: Registration, url: Seq<char>, namespaces: Namespaces, protocols: Vec<String>) -> bool {
    &&& reg.id@ == service_id()
    &&& reg.url matches Some(u) && u@ == url
    &&& reg.sender_localpart@ == service_localpart()
    &&& reg.namespaces == namespaces
    &&& reg.rate_limited == Some(true)
    &&& reg.protocols == Some(protocols)
}

/// `r` is what taking over `existing` gives: it succeeds exactly when
/// `existing` is the bridge's own (identifier `pipo`); the identifier and
/// both tokens are kept and the rest is set from the URL, namespaces and
/// protocols; otherwise the error names the foreign identifier.
pub open spec fn adoption(
    existing: Registration,
    url: Seq<char>,
    namespaces: Namespaces,
    protocols: Vec<String>,
    r: Result<Registration, SetupError>,
) -> bool {
    &&& (r is Ok <==> existing.id@ == service_id())
    &&& r matches Ok(reg) ==> {
        &&& reg.id == existing.id
        &&& reg.as_token == existing.as_token
        &&& reg.hs_token == existing.hs_token
        &&& prepared_for(reg, url, namespaces, protocols)
    }
    &&& r matches Err(e) ==> e == SetupError::IncorrectServiceId(existing.id)
}

impl Registration {
    /// A new registration of the bridge with these tokens.
    pub fn fresh(
        url: &str,
        as_token: String,
        hs_token: String,
        namespaces: Namespaces,
        protocols: Vec<String>,
    ) -> (reg: Registration)
        ensures
            reg.id@ == service_id(),
            reg.url matches Some(u) && u@ == url@,
            reg.as_token == as_token,
            reg.hs_token == hs_token,
            reg.sender_localpart@ == service_localpart(),
            reg.namespaces == namespaces,
            reg.rate_limited == Some(true),
            reg.protocols == Some(protocols),
    {
        Registration {
            id: String::from_str("pipo"),
            url: Some(String::from_str(url)),
            as_token,
            hs_token,
            sender_localpart: String::from_str("_pipo"),
            namespaces,
            rate_limited: Some(true),
            protocols: Some(protocols),
        }
    }

    /// Takes over a registration read from disk: it must be the bridge's
    /// own (identifier `pipo`); its identifier and tokens are kept, and the
    /// URL, localpart, namespaces, rate limiting and protocols are set anew.
    pub fn adopt(self, url: &str, namespaces: Namespaces, protocols: Vec<String>) -> (r: Result<
        Registration,
        SetupError,
    >)
        ensures
            adoption(self, url@, namespaces, protocols, r),
    {
        let own_id = String::from_str("pipo");
        if self.id == own_id {
            Ok(
                Registration {
                    id: self.id,
                    url: Some(String::from_str(url)),
                    as_token: self.as_token,
                    hs_token: self.hs_token,
                    sender_localpart: String::from_str("_pipo"),
                    namespaces,
                    rate_limited: Some(true),
                    protocols: Some(protocols),
                },
            )
        } else {
            Err(SetupError::IncorrectServiceId(self.id))
        }
    }
}

/// The registration to run with: the one found on disk, adopted, or else a
/// new one with two freshly generated tokens (the application-service token
/// first, then the homeserver token).
pub fn prepare_registration(
    found: Option<Registration>,
    url: &str,
    namespaces: Namespaces,
    protocols: Vec<String>,
    tokens: &mut TokenGenerator,
) -> (r: Result<Registration, SetupError>)
    ensures
        found matches Some(existing) ==> {
            &&& adoption(existing, url@, namespaces, protocols, r)
            &&& *final(tokens) == *old(tokens)
        },
        found is None ==> {
            &&& r matches Ok(reg)
            &&& prepared_for(reg, url@, namespaces, protocols)
            &&& final(tokens).draws().len() == old(tokens).draws().len() + 2
            &&& final(tokens).draws().subrange(0, old(tokens).draws().len() as int) == old(
                tokens,
            ).draws()
            &&& final(tokens).draws()[old(tokens).draws().len() as int].len() == 32
            &&& final(tokens).draws()[old(tokens).draws().len() + 1int].len() == 32
            &&& reg.as_token@ == hex_lower(final(tokens).draws()[old(tokens).draws().len() as int])
            &&& reg.hs_token@ == hex_lower(final(tokens).draws()[old(tokens).draws().len() + 1int])
            &&& final(tokens).draws()[old(tokens).draws().len() + 1int] == final(tokens).last_bytes()
        },
{
    match found {
        Some(existing) => existing.adopt(url, namespaces, protocols),
        None => {
            let ghost before = tokens.draws();
            let as_token = tokens.generate_token();
            let ghost first = tokens.last_bytes();
            assert(first.len() == 32);
            let hs_token = tokens.generate_token();
            assert(tokens.draws()[before.len() as int] == first);
            assert(tokens.draws().subrange(0, before.len() as int) =~= before);
            Ok(Registration::fresh(url, as_token, hs_token, namespaces, protocols))
        },
    }
}

impl SetupError {
    /// The text of the error.
    pub fn message(&self) -> (text: String)
        ensures
            self matches SetupError::IncorrectServiceId(id) ==> text@
                == "incorrect application service ID: \""@ + id@ + "\""@,
    {
        match self {
            SetupError::IncorrectServiceId(id) => {
                let mut text = String::from_str("incorrect application service ID: \"");
                text.append(id.as_str());
                text.append("\"");
                text
            },
        }
    }
}

/// `buses` holds a bus with this name.
pub open spec fn has_bus(buses: Seq<String>, name: Seq<char>) -> bool {
    exists|j: int| 0 <= j < buses.len() && (#[trigger] buses[j])@ == name
}

/// The entries of the mapping whose bus exists, in order.
pub open spec fn kept_entries(mapping: Seq<(String, String)>, buses: Seq<String>) -> Seq<(String, String)> {
    mapping.filter(|e: (String, String)| has_bus(buses, e.1@))
}

/// The entries of the mapping whose bus does not exist, in order.
pub open spec fn missing_entries(mapping: Seq<(String, String)>, buses: Seq<String>) -> Seq<(String, String)> {
    mapping.filter(|e: (String, String)| !has_bus(buses, e.1@))
}

/// The configured channels split by whether their bus exists: each entry is
/// a channel name and the name of its bus.
#[derive(Clone, Debug, PartialEq, Eq)]
pub struct ChannelSelection {
    pub kept: Vec<(String, String)>,
    pub missing: Vec<(String, String)>,
}

/// Whether `buses` holds a bus named `name`.
fn contains_bus(buses: &Vec<String>, name: &String) -> (found: bool)
    ensures
        found == has_bus(buses@, name@),
{
    let mut i: usize = 0;
    while i < buses.len()
        invariant
            i <= buses.len(),
            forall|j: int| 0 <= j < i ==> (#[trigger] buses@[j])@ != name@,
        decreases buses.len() - i,
    {
        if buses[i] == *name {
            return true;
        }
        i = i + 1;
    }
    false
}

/// Splits the channel mapping (channel name, bus name) into the channels
/// whose bus exists and those whose bus does not, each in mapping order.
/// Channel names are keys of the mapping, and bus names keys of the bus
/// map: neither repeats.
pub fn select_channels(mapping: &Vec<(String, String)>, buses: &Vec<String>) -> (sel: ChannelSelection)
    requires
        mapping@.map_values(|e: (String, String)| e.0@).no_duplicates(),
        buses@.map_values(|b: String| b@).no_duplicates(),
    ensures
        sel.kept@ == kept_entries(mapping@, buses@),
        sel.missing@ == missing_entries(mapping@, buses@),
{
    let ghost keep = |e: (String, String)| has_bus(buses@, e.1@);
    let ghost drop = |e: (String, String)| !has_bus(buses@, e.1@);
    let mut kept: Vec<(String, String)> = Vec::new();
    let mut missing: Vec<(String, String)> = Vec::new();
    let mut i: usize = 0;
    while i < mapping.len()
        invariant
            i <= mapping.len(),
            keep == (|e: (String, String)| has_bus(buses@, e.1@)),
            drop == (|e: (String, String)| !has_bus(buses@, e.1@)),
            kept@ == mapping@.take(i as int).filter(keep),
            missing@ == mapping@.take(i as int).filter(drop),
        decreases mapping.len() - i,
    {
        let entry = (mapping[i].0.clone(), mapping[i].1.clone());
        assert(entry == mapping@[i as int]);
        proof {
            assert(mapping@.take(i + 1) =~= mapping@.take(i as int).push(entry));
            mapping@.take(i as int).lemma_filter_push(entry, keep);
            mapping@.take(i as int).lemma_filter_push(entry, drop);
        }
        if contains_bus(buses, &mapping[i].1) {
            kept.push(entry);
        } else {
            missing.push(entry);
        }
        i = i + 1;
    }
    assert(mapping@.take(mapping.len() as int) =~= mapping@);
    ChannelSelection { kept, missing }
}

/// The warning given for a channel whose bus does not exist.
pub fn missing_bus_warning(channel: &str, bus: &str) -> (text: String)
    ensures
        text@ == "No bus named '"@ + bus@ + "' in configuration file for channel name: '"@ + channel@
            + "'"@,
{
    let mut text = String::from_str("No bus named '");
    text.append(bus);
    text.append("' in configuration file for channel name: '");
    text.append(channel);
    text.append("'");
    text
}

/// Every configured channel is either kept or reported missing, never both
/// and never neither: the two lists together are as long as the mapping,
/// and each entry lands in the list that its bus decides.
pub proof fn law_selection_partitions(mapping: Seq<(String, String)>, buses: Seq<String>)
    ensures
        kept_entries(mapping, buses).len() + missing_entries(mapping, buses).len() == mapping.len(),
        forall|k: int|
            0 <= k < kept_entries(mapping, buses).len() ==> has_bus(
                buses,
                (#[trigger] kept_entries(mapping, buses)[k]).1@,
            ),
        forall|k: int|
            0 <= k < missing_entries(mapping, buses).len() ==> !has_bus(
                buses,
                (#[trigger] missing_entries(mapping, buses)[k]).1@,
            ),
    decreases mapping.len(),
{
    let keep = |e: (String, String)| has_bus(buses, e.1@);
    let drop = |e: (String, String)| !has_bus(buses, e.1@);
    broadcast use vstd::seq_lib::group_filter_ensures;

    if mapping.len() > 0 {
        let rest = mapping.drop_last();
        law_selection_partitions(rest, buses);
        assert(mapping =~= rest.push(mapping.last()));
        rest.lemma_filter_push(mapping.last(), keep);
        rest.lemma_filter_push(mapping.last(), drop);
    }
}

} // verus!

verus! {

/// A registration that the bridge runs with is taken over unchanged when
/// it is read back at the next start with the same URL, namespaces and
/// protocols: the take-over succeeds, keeps the identifier and both tokens,
/// and every other field is what it was.
pub proof fn law_reload_keeps_registration(
    first: Registration,
    url: Seq<char>,
    namespaces: Namespaces,
    protocols: Vec<String>,
    second: Result<Registration, SetupError>,
)
    requires
        prepared_for(first, url, namespaces, protocols),
        adoption(first, url, namespaces, protocols, second),
    ensures
        second matches Ok(reg) && {
            &&& reg.id == first.id
            &&& reg.as_token == first.as_token
            &&& reg.hs_token == first.hs_token
            &&& reg.url matches Some(u) && first.url matches Some(v) && u@ == v@
            &&& reg.sender_localpart@ == first.sender_localpart@
            &&& reg.namespaces == first.namespaces
            &&& reg.rate_limited == first.rate_limited
            &&& reg.protocols == first.protocols
        },
{
}

} // verus!

verus! {

/// A bus counts as present exactly when one of the buses has that very
/// name; so every kept channel's bus is one of the buses, and no missing
/// channel's bus is.
pub proof fn law_bus_present_means_same_name(mapping: Seq<(String, String)>, buses: Seq<String>, name: Seq<char>)
    ensures
        has_bus(buses, name) <==> buses.map_values(|b: String| b@).contains(name),
        forall|k: int|
            0 <= k < kept_entries(mapping, buses).len() ==> buses.map_values(|b: String| b@).contains(
                (#[trigger] kept_entries(mapping, buses)[k]).1@,
            ),
        forall|k: int|
            0 <= k < missing_entries(mapping, buses).len() ==> !buses.map_values(
                |b: String| b@,
            ).contains((#[trigger] missing_entries(mapping, buses)[k]).1@),
{
    let names = buses.map_values(|b: String| b@);
    assert(has_bus(buses, name) <==> names.contains(name)) by {
        if has_bus(buses, name) {
            let j = choose|j: int| 0 <= j < buses.len() && (#[trigger] buses[j])@ == name;
            assert(names[j] == name);
        }
        if names.contains(name) {
            let j = choose|j: int| 0 <= j < names.len() && names[j] == name;
            assert(buses[j]@ == name);
        }
    }
    law_selection_partitions(mapping, buses);
    assert forall|k: int| 0 <= k < kept_entries(mapping, buses).len() implies names.contains(
        (#[trigger] kept_entries(mapping, buses)[k]).1@,
    ) by {
        let n = kept_entries(mapping, buses)[k].1@;
        let j = choose|j: int| 0 <= j < buses.len() && (#[trigger] buses[j])@ == n;
        assert(names[j] == n);
    }
    assert forall|k: int| 0 <= k < missing_entries(mapping, buses).len() implies !names.contains(
        (#[trigger] missing_entries(mapping, buses)[k]).1@,
    ) by {
        let n = missing_entries(mapping, buses)[k].1@;
        if names.contains(n) {
            let j = choose|j: int| 0 <= j < names.len() && names[j] == n;
            assert(buses[j]@ == n);
        }
    }
}

/// A registration prepared for a URL, namespaces and protocols carries
/// exactly those: the URL as given, the namespaces and protocols given,
/// identifier `pipo`, localpart `_pipo`, rate limiting on.
pub proof fn law_prepared_registration_fields(reg: Registration, url: Seq<char>, namespaces: Namespaces, protocols: Vec<String>)
    requires
        prepared_for(reg, url, namespaces, protocols),
    ensures
        reg.namespaces == namespaces,
        reg.protocols == Some(protocols),
        reg.url is Some && reg.url->0@ == url,
        reg.id@ == seq!['p', 'i', 'p', 'o'],
        reg.sender_localpart@ == seq!['_', 'p', 'i', 'p', 'o'],
        reg.rate_limited == Some(true),
{
    reveal_strlit("pipo");
    reveal_strlit("_pipo");
    assert(service_id() =~= seq!['p', 'i', 'p', 'o']);
    assert(service_localpart() =~= seq!['_', 'p', 'i', 'p', 'o']);
}

/// Taking over the bridge's own registration keeps its identifier and both
/// tokens, and replaces its namespaces, protocols and URL by those given
/// now (so newly configured channels are claimed); a registration of
/// another service is refused with its identifier.
pub proof fn law_adoption_replaces_settings(
    existing: Registration,
    url: Seq<char>,
    namespaces: Namespaces,
    protocols: Vec<String>,
    r: Result<Registration, SetupError>,
)
    requires
        adoption(existing, url, namespaces, protocols, r),
    ensures
        r is Ok <==> existing.id@ == seq!['p', 'i', 'p', 'o'],
        r matches Ok(reg) ==> {
            &&& reg.id == existing.id
            &&& reg.as_token == existing.as_token
            &&& reg.hs_token == existing.hs_token
            &&& reg.namespaces == namespaces
            &&& reg.protocols == Some(protocols)
            &&& reg.url is Some && reg.url->0@ == url
            &&& reg.rate_limited == Some(true)
        },
        r matches Err(e) ==> e == SetupError::IncorrectServiceId(existing.id),
{
    reveal_strlit("pipo");
    assert(service_id() =~= seq!['p', 'i', 'p', 'o']);
    if let Ok(reg) = r {
        law_prepared_registration_fields(reg, url, namespaces, protocols);
    }
}

} // verus!

verus! {

/// The namespaces claimed: no user namespace; one shared (not exclusive)
/// alias namespace `t.*` per protocol; and one exclusive room namespace per
/// channel, whose expression is the channel name itself.
pub proof fn law_namespaces_claim_channels(ns: Namespaces, protocols: Seq<String>, channel_names: Seq<String>)
    requires
        namespaces_match(ns, protocols, channel_names),
    ensures
        ns.users@.len() == 0,
        ns.aliases@.len() == protocols.len(),
        forall|i: int|
            0 <= i < ns.aliases@.len() ==> !(#[trigger] ns.aliases@[i]).exclusive
                && ns.aliases@[i].regex@ == seq!['t', '.', '*'],
        ns.rooms@.len() == channel_names.len(),
        forall|i: int|
            0 <= i < ns.rooms@.len() ==> (#[trigger] ns.rooms@[i]).exclusive && ns.rooms@[i].regex@
                == channel_names[i]@,
{
    reveal_strlit("t.*");
    assert("t.*"@ =~= seq!['t', '.', '*']);
}

} // verus!
