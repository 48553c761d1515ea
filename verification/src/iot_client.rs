//! The client's side of the shadow service: the requests that are made of
//! it, and the events that its notifications are turned into.

use crate::action::{action_views, Action, ActionView};
use crate::shadow::{
    decode_payload, empty_document, empty_payload, json_strings, payload_strings,
    reported_document, reported_payload, Strings,
};
use crate::topic::{
    delta_topic, get_accepted_topic, get_topic, parse_topic, parsed, shadow_delta_topic,
    shadow_get_accepted_topic, shadow_get_topic, shadow_update_topic, update_topic, Reply,
};
use vstd::prelude::*;
use vstd::string::*;

verus! {

/// The seconds between two keep-alive messages of the session.
pub const KEEP_ALIVE_SECS: u16 = 10;

/// The seconds after which a lost session is opened again.
pub const RECONNECT_AFTER_SECS: u64 = 5;

/// The time that is left between subscribing to the answer of a request and
/// making the request, in milliseconds.
pub const SETTLE_MILLIS: u64 = 250;

/// How the session with the broker is opened.
#[derive(Debug)]
pub struct IoTClientConfig {
    pub client_id: String,
    pub host: String,
    pub port: u16,
    pub root_ca_path: String,
    pub private_key_path: String,
    pub certificate_path: String,
}

/// What the controller is told of.
#[derive(Debug)]
pub enum IoTEvent {
    /// The session was lost and is open again.
    Reconnect,
    /// The answer to a request for the shadow of `thing_name`.
    Get { thing_name: String, shadow: serde_json::Value },
    /// A change of the desired state of `thing_name`.
    Delta { thing_name: String, shadow: serde_json::Value },
}

/// An event with its device as a sequence of characters and its document as
/// the strings it holds.
pub enum EventView {
    Reconnect,
    Get { thing_name: Seq<char>, shadow: Strings },
    Delta { thing_name: Seq<char>, shadow: Strings },
}

impl View for IoTEvent {
    type V = EventView;

    open spec fn view(&self) -> EventView {
        match *self {
            IoTEvent::Reconnect => EventView::Reconnect,
            IoTEvent::Get { thing_name, shadow } => EventView::Get {
                thing_name: thing_name@,
                shadow: json_strings(shadow),
            },
            IoTEvent::Delta { thing_name, shadow } => EventView::Delta {
                thing_name: thing_name@,
                shadow: json_strings(shadow),
            },
        }
    }
}

/// What the session tells of itself and of what arrives on it.
#[derive(Debug)]
pub enum Notification {
    /// The session is open again.
    Reconnection,
    /// The session was lost.
    Disconnection,
    /// A message arrived.
    Publish { topic_name: String, payload: Vec<u8> },
    /// Anything else.
    Other,
}

/// A notification as plain values.
pub enum NotificationView {
    Reconnection,
    Disconnection,
    Publish { topic_name: Seq<char>, payload: Seq<u8> },
    Other,
}

impl View for Notification {
    type V = NotificationView;

    open spec fn view(&self) -> NotificationView {
        match *self {
            Notification::Reconnection => NotificationView::Reconnection,
            Notification::Disconnection => NotificationView::Disconnection,
            Notification::Publish { topic_name, payload } => NotificationView::Publish {
                topic_name: topic_name@,
                payload: payload@,
            },
            Notification::Other => NotificationView::Other,
        }
    }
}

/// What asking for the shadow of device `id` takes, in order: subscribe to
/// the answer, let the subscription settle, make the request.
pub open spec fn get_shadow_actions(id: Seq<char>) -> Seq<ActionView> {
    seq![
        ActionView::Subscribe { topic: get_accepted_topic(id) },
        ActionView::Sleep { millis: SETTLE_MILLIS },
        ActionView::Publish { topic: get_topic(id), payload: empty_document() },
    ]
}

/// The subscription to the changes of the desired state of device `id`.
pub open spec fn subscribe_delta_action(id: Seq<char>) -> ActionView {
    ActionView::Subscribe { topic: delta_topic(id) }
}

/// The report of `state` for device `id`.
pub open spec fn publish_shadow_action(id: Seq<char>, state: bool) -> ActionView {
    ActionView::Publish { topic: update_topic(id), payload: reported_document(state) }
}

/// The event that a message on `topic_name` with `payload` stands for: the
/// answer to a `get`, or the delta of an `update`, each with a payload that
/// is a JSON document. Any other message stands for nothing.
pub open spec fn message_event(topic_name: Seq<char>, payload: Seq<u8>) -> Option<EventView> {
    match (parsed(topic_name), payload_strings(payload)) {
        (Some(t), Some(shadow)) => {
            if t.1 == "get"@ {
                Some(EventView::Get { thing_name: t.0, shadow })
            } else if t.1 == "update"@ && t.2 == Reply::Delta {
                Some(EventView::Delta { thing_name: t.0, shadow })
            } else {
                None
            }
        },
        _ => None,
    }
}

/// The event that a notification stands for, for a client that has or has
/// not seen the session lost since it was last open: a message as
/// `message_event` says, and the session's return only if its loss was
/// seen.
pub open spec fn notified_event(disconnected: bool, notification: NotificationView) -> Option<
    EventView,
> {
    match notification {
        NotificationView::Reconnection => if disconnected {
            Some(EventView::Reconnect)
        } else {
            None
        },
        NotificationView::Publish { topic_name, payload } => message_event(topic_name, payload),
        _ => None,
    }
}

/// Whether the client has seen the session lost after `notification`.
pub open spec fn notified_disconnected(disconnected: bool, notification: NotificationView) -> bool {
    match notification {
        NotificationView::Disconnection => true,
        NotificationView::Reconnection => false,
        _ => disconnected,
    }
}

/// The client of the shadow service. It remembers whether the session was
/// lost since it was last known to be open.
#[derive(Debug)]
pub struct IoTClient {
    disconnected: bool,
}

impl IoTClient {
    /// Whether the session was lost since it was last known to be open.
    pub closed spec fn disconnected(&self) -> bool {
        self.disconnected
    }

    /// A client whose session is open.
    pub fn new() -> (client: IoTClient)
        ensures
            !client.disconnected(),
    {
        IoTClient { disconnected: false }
    }

    /// What asking for the shadow of `thing_name` takes, in order. A step
    /// that fails ends the request.
    pub fn get_shadow(thing_name: &str) -> (actions: Vec<Action>)
        ensures
            action_views(actions@) == get_shadow_actions(thing_name@),
    {
        let mut actions: Vec<Action> = Vec::new();
        actions.push(Action::Subscribe { topic: shadow_get_accepted_topic(thing_name) });
        actions.push(Action::Sleep { millis: SETTLE_MILLIS });
        actions.push(
            Action::Publish { topic: shadow_get_topic(thing_name), payload: empty_payload() },
        );
        assert(action_views(actions@) =~= get_shadow_actions(thing_name@));
        actions
    }

    /// The subscription to the changes of the desired state of
    /// `thing_name`.
    pub fn subscribe_to_shadow_delta(thing_name: &str) -> (action: Action)
        ensures
            action@ == subscribe_delta_action(thing_name@),
    {
        Action::Subscribe { topic: shadow_delta_topic(thing_name) }
    }

    /// The report of `state` for `thing_name`.
    pub fn publish_shadow(thing_name: &str, state: bool) -> (action: Action)
        ensures
            action@ == publish_shadow_action(thing_name@, state),
    {
        Action::Publish { topic: shadow_update_topic(thing_name), payload: reported_payload(state) }
    }

    /// Takes a notification of the session and gives the event it stands
    /// for, if any.
    pub fn notification(&mut self, notification: Notification) -> (event: Option<IoTEvent>)
        ensures
            final(self).disconnected() == notified_disconnected(
                old(self).disconnected(),
                notification@,
            ),
            match event {
                Some(e) => notified_event(old(self).disconnected(), notification@) == Some(e@),
                None => notified_event(old(self).disconnected(), notification@) is None,
            },
    {
        match notification {
            Notification::Disconnection => {
                self.disconnected = true;
                None
            },
            Notification::Reconnection => {
                let lost = self.disconnected;
                self.disconnected = false;
                if lost {
                    Some(IoTEvent::Reconnect)
                } else {
                    None
                }
            },
            Notification::Publish { topic_name, payload } => decode_message(
                topic_name.as_str(),
                &payload,
            ),
            Notification::Other => None,
        }
    }
}

/// The event that a message on `topic_name` with `payload` stands for, if
/// any.
pub fn decode_message(topic_name: &str, payload: &Vec<u8>) -> (event: Option<IoTEvent>)
    ensures
        match event {
            Some(e) => message_event(topic_name@, payload@) == Some(e@),
            None => message_event(topic_name@, payload@) is None,
        },
{
    let topic = match parse_topic(topic_name) {
        Some(t) => t,
        None => {
            return None;
        },
    };
    let shadow = match decode_payload(payload) {
        Some(d) => d,
        None => {
            return None;
        },
    };
    if topic.action == String::from_str("get") {
        Some(IoTEvent::Get { thing_name: topic.thing_name, shadow })
    } else if topic.action == String::from_str("update") && topic.reply == Reply::Delta {
        Some(IoTEvent::Delta { thing_name: topic.thing_name, shadow })
    } else {
        None
    }
}

/// However often the session reports that it is open again, its loss is
/// answered with one event: the first report after a loss gives
/// `Reconnect`, and a report that follows it gives nothing.
pub proof fn lemma_reconnect_once(disconnected: bool)
    ensures
        ({
            let lost = notified_disconnected(disconnected, NotificationView::Disconnection);
            let back = notified_disconnected(lost, NotificationView::Reconnection);
            &&& notified_event(disconnected, NotificationView::Disconnection) is None
            &&& notified_event(lost, NotificationView::Reconnection) == Some(EventView::Reconnect)
            &&& notified_event(back, NotificationView::Reconnection) is None
        }),
{
}

/// A report that the session is open gives an event only to a client that
/// has seen the session lost, and leaves a client that has not.
pub proof fn lemma_reconnect_on_edge(disconnected: bool)
    ensures
        notified_event(disconnected, NotificationView::Reconnection) is Some <==> disconnected,
        !notified_disconnected(disconnected, NotificationView::Reconnection),
{
}

} // verus!
