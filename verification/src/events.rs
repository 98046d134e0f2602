//! Classifying and routing the notifications drained from the transport
//! session: value notifications become publishes (or one invalid-value log
//! line), disconnects feed the connection manager, everything else is
//! dropped deliberately.

use vstd::prelude::*;
use crate::identity::{display_name_spec, strip_colons, NameMap};
use crate::manager::{ConnectionManager, DisconnectOutcome, mac_for_id};
use crate::readings::{Reading, decode_spec, decode_reading};
use crate::textfmt::{dec_digits, temp_chars, format_integer, format_temperature};

verus! {

/// One notification from the transport session, as a closed sum: new kinds
/// of notification land in `Other` and are dropped deliberately.
#[derive(Debug)]
pub enum RawEvent {
    /// a characteristic value notification from some object path
    Value { object_path: String, payload: Vec<u8> },
    /// the transport observed a connection state change for some object path
    ConnectionStateChange { object_path: String, connected: bool },
    /// any other notification kind: it carries no required action
    Other,
}

/// The property of a sensor node that a publish addresses.
#[derive(Clone, Copy, PartialEq, Eq, Structural, Debug)]
pub enum PropertyKind {
    Temperature,
    Humidity,
    Battery,
}

/// What the bridge asks its collaborators to do in response to one event.
/// A registry action that fails is fatal to the whole bridge; a log action
/// never is.
#[derive(Debug, PartialEq)]
pub enum Action {
    /// publish `value` for `property` of the registry node `node_id`
    Publish { node_id: String, property: PropertyKind, value: String },
    /// deregister the node of a sensor that disconnected
    RemoveNode { node_id: String, display_name: String },
    /// log one line about an undecodable payload from `object_path`
    LogInvalidValue { object_path: String },
    /// log a disconnect that matched no tracked connected sensor
    LogUnknownDisconnect { object_path: String },
}

/// `path` ends with `suffix`.
pub open spec fn has_suffix(path: Seq<char>, suffix: Seq<char>) -> bool {
    path.len() >= suffix.len() && path.subrange(
        path.len() - suffix.len(),
        path.len() as int,
    ) == suffix
}

/// `a` is the publish of `value` for `property` of node `node_id`.
pub open spec fn is_publish(
    a: Action,
    node_id: Seq<char>,
    property: PropertyKind,
    value: Seq<char>,
) -> bool {
    a matches Action::Publish { node_id: n, property: p, value: v } && n@ == node_id && p
        == property && v@ == value
}

/// The three publishes a decoded reading gives rise to, in their fixed
/// order: temperature as a two-decimal string, then humidity, then battery
/// percent as plain integers.
pub open spec fn reading_publishes(actions: Seq<Action>, node_id: Seq<char>, r: Reading) -> bool {
    &&& actions.len() == 3
    &&& is_publish(
        actions[0],
        node_id,
        PropertyKind::Temperature,
        temp_chars(r.temperature_centi as int),
    )
    &&& is_publish(actions[1], node_id, PropertyKind::Humidity, dec_digits(r.humidity as int))
    &&& is_publish(actions[2], node_id, PropertyKind::Battery, dec_digits(r.battery_percent as int))
}

/// What routing a value notification from `path` with `payload` must yield,
/// given the sensors the manager tracks: nothing for a path without the
/// sensor-value suffix or for an untracked device; exactly one invalid-value
/// log line and no publish for a payload that does not decode; and the three
/// publishes for one that does.
pub open spec fn value_actions_ok(
    m: &ConnectionManager,
    path: Seq<char>,
    payload: Seq<u8>,
    suffix: Seq<char>,
    actions: Seq<Action>,
) -> bool {
    if !has_suffix(path, suffix) {
        actions.len() == 0
    } else {
        let device = path.subrange(0, path.len() - suffix.len());
        match mac_for_id(m.tracked_seq(), device) {
            None => actions.len() == 0,
            Some(mac) => match decode_spec(payload) {
                None => actions.len() == 1 && (actions[0] matches Action::LogInvalidValue {
                    object_path,
                } && object_path@ == device),
                Some(r) => reading_publishes(actions, strip_colons(mac), r),
            },
        }
    }
}

/// Strip `suffix` from the end of `path`, if it is there.
fn strip_path_suffix(path: &String, suffix: &str) -> (r: Option<String>)
    ensures
        match r {
            Some(p) => has_suffix(path@, suffix@) && p@ == path@.subrange(
                0,
                path@.len() - suffix@.len(),
            ),
            None => !has_suffix(path@, suffix@),
        },
{
    let plen = path.as_str().unicode_len();
    let slen = suffix.unicode_len();
    if plen < slen {
        return None;
    }
    let tail = path.as_str().substring_char(plen - slen, plen);
    if String::from_str(tail) == String::from_str(suffix) {
        Some(String::from_str(path.as_str().substring_char(0, plen - slen)))
    } else {
        None
    }
}

/// Route one value notification. The sensor-value characteristic is
/// recognised by the fixed `suffix` of its object path; the sensor is
/// resolved among the tracked ones; the payload is decoded, yielding either
/// the three publishes (temperature, humidity, battery, in that order,
/// keyed by the sensor's node id) or exactly one invalid-value log line.
/// A decode failure is never fatal: it yields a log action, nothing more.
pub fn handle_value(
    m: &ConnectionManager,
    object_path: &String,
    payload: &Vec<u8>,
    suffix: &str,
) -> (actions: Vec<Action>)
    ensures
        value_actions_ok(m, object_path@, payload@, suffix@, actions@),
{
    let mut actions: Vec<Action> = Vec::new();
    let device = match strip_path_suffix(object_path, suffix) {
        None => {
            return actions;
        },
        Some(d) => d,
    };
    let mac = match m.find_mac(&device) {
        None => {
            return actions;
        },
        Some(mac) => mac,
    };
    match decode_reading(payload) {
        None => {
            actions.push(Action::LogInvalidValue { object_path: device });
        },
        Some(r) => {
            let node_id = crate::identity::node_id_for(mac.as_str());
            let temperature = format_temperature(r.temperature_centi);
            let humidity = format_integer(r.humidity as u32);
            let battery = format_integer(r.battery_percent as u32);
            actions.push(
                Action::Publish {
                    node_id: node_id.clone(),
                    property: PropertyKind::Temperature,
                    value: temperature,
                },
            );
            actions.push(
                Action::Publish {
                    node_id: node_id.clone(),
                    property: PropertyKind::Humidity,
                    value: humidity,
                },
            );
            actions.push(
                Action::Publish {
                    node_id,
                    property: PropertyKind::Battery,
                    value: battery,
                },
            );
        },
    }
    actions
}

/// What routing a connection state change must yield and leave behind: a
/// disconnect for a tracked connected sensor deregisters its node and
/// re-queues it; a disconnect for anything else is logged once; a
/// reconnection report carries no required action.
pub open spec fn connection_actions_ok(
    prior: &ConnectionManager,
    now: &ConnectionManager,
    names: &NameMap,
    path: Seq<char>,
    connected: bool,
    actions: Seq<Action>,
) -> bool {
    if connected {
        &&& actions.len() == 0
        &&& now.pending@ == prior.pending@
        &&& now.connected@ == prior.connected@
    } else if exists|i: int| 0 <= i < prior.connected@.len() && prior.connected@[i].id() == path {
        let i = choose|i: int| 0 <= i < prior.connected@.len() && prior.connected@[i].id() == path;
        &&& actions.len() == 1
        &&& (actions[0] matches Action::RemoveNode { node_id, display_name } && node_id@
            == strip_colons(prior.connected@[i].mac()) && display_name@ == display_name_spec(
            names@,
            prior.connected@[i].mac(),
        ))
        &&& now.connected@ == prior.connected@.remove(i)
        &&& now.pending@ == prior.pending@.push(prior.connected@[i])
    } else {
        &&& actions.len() == 1
        &&& (actions[0] matches Action::LogUnknownDisconnect { object_path } && object_path@
            == path)
        &&& now.pending@ == prior.pending@
        &&& now.connected@ == prior.connected@
    }
}

/// Route one connection state change to the connection manager.
pub fn handle_connection_change(
    m: &mut ConnectionManager,
    names: &NameMap,
    object_path: &String,
    connected: bool,
) -> (actions: Vec<Action>)
    requires
        old(m).wf(),
    ensures
        final(m).wf(),
        final(m).attempting == old(m).attempting,
        connection_actions_ok(old(m), final(m), names, object_path@, connected, actions@),
{
    let mut actions: Vec<Action> = Vec::new();
    if connected {
        return actions;
    }
    match m.handle_disconnect(object_path, names) {
        DisconnectOutcome::Removed { node_id, display_name } => {
            actions.push(Action::RemoveNode { node_id, display_name });
        },
        DisconnectOutcome::Unknown => {
            actions.push(Action::LogUnknownDisconnect { object_path: object_path.clone() });
        },
    }
    actions
}

/// Route one drained notification to its handler, as one iteration of the
/// event dispatch does for each event: value notifications go to the
/// telemetry pipeline, disconnects to the connection manager, and every
/// other notification is dropped with no action.
pub fn dispatch_event(
    m: &mut ConnectionManager,
    names: &NameMap,
    suffix: &str,
    event: &RawEvent,
) -> (actions: Vec<Action>)
    requires
        old(m).wf(),
    ensures
        final(m).wf(),
        final(m).attempting == old(m).attempting,
        match event {
            RawEvent::Value { object_path, payload } => {
                &&& final(m).pending@ == old(m).pending@
                &&& final(m).connected@ == old(m).connected@
                &&& value_actions_ok(old(m), object_path@, payload@, suffix@, actions@)
            },
            RawEvent::ConnectionStateChange { object_path, connected } => connection_actions_ok(
                old(m),
                final(m),
                names,
                object_path@,
                *connected,
                actions@,
            ),
            RawEvent::Other => {
                &&& actions@.len() == 0
                &&& final(m).pending@ == old(m).pending@
                &&& final(m).connected@ == old(m).connected@
            },
        },
{
    match event {
        RawEvent::Value { object_path, payload } => handle_value(m, object_path, payload, suffix),
        RawEvent::ConnectionStateChange { object_path, connected } => handle_connection_change(
            m,
            names,
            object_path,
            *connected,
        ),
        RawEvent::Other => Vec::new(),
    }
}

/// How a property value is typed on the registry side.
#[derive(Clone, Copy, PartialEq, Eq, Structural, Debug)]
pub enum PropertyDatatype {
    Float,
    Integer,
}

/// The registry-side description of one property of a sensor node.
pub struct PropertyDescriptor {
    pub id: String,
    pub display_name: String,
    pub datatype: PropertyDatatype,
    pub unit: String,
}

/// The registry path segment addressing a property of a sensor node.
pub fn property_id(p: PropertyKind) -> (r: String)
    ensures
        p == PropertyKind::Temperature ==> r@ == "temperature"@,
        p == PropertyKind::Humidity ==> r@ == "humidity"@,
        p == PropertyKind::Battery ==> r@ == "battery"@,
{
    match p {
        PropertyKind::Temperature => String::from_str("temperature"),
        PropertyKind::Humidity => String::from_str("humidity"),
        PropertyKind::Battery => String::from_str("battery"),
    }
}

/// The fixed registration model of one sensor node: exactly three
/// properties, temperature as a decimal number in degrees Celsius, then
/// humidity and battery level as whole numbers in percent.
pub fn node_properties() -> (r: Vec<PropertyDescriptor>)
    ensures
        r@.len() == 3,
        r@[0].id@ == "temperature"@ && r@[0].display_name@ == "Temperature"@ && r@[0].datatype
            == PropertyDatatype::Float && r@[0].unit@ == "\u{ba}C"@,
        r@[1].id@ == "humidity"@ && r@[1].display_name@ == "Humidity"@ && r@[1].datatype
            == PropertyDatatype::Integer && r@[1].unit@ == "%"@,
        r@[2].id@ == "battery"@ && r@[2].display_name@ == "Battery level"@ && r@[2].datatype
            == PropertyDatatype::Integer && r@[2].unit@ == "%"@,
{
    let mut r: Vec<PropertyDescriptor> = Vec::new();
    r.push(
        PropertyDescriptor {
            id: String::from_str("temperature"),
            display_name: String::from_str("Temperature"),
            datatype: PropertyDatatype::Float,
            unit: String::from_str("\u{ba}C"),
        },
    );
    r.push(
        PropertyDescriptor {
            id: String::from_str("humidity"),
            display_name: String::from_str("Humidity"),
            datatype: PropertyDatatype::Integer,
            unit: String::from_str("%"),
        },
    );
    r.push(
        PropertyDescriptor {
            id: String::from_str("battery"),
            display_name: String::from_str("Battery level"),
            datatype: PropertyDatatype::Integer,
            unit: String::from_str("%"),
        },
    );
    r
}

} // verus!
