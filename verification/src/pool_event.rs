//! What the connections report to the aggregator, and what the aggregator
//! announces to the application.

use vstd::prelude::*;
use crate::event::{NostrEvent, NostrEventView};
use crate::message::{RelayMessage, RelayMessageView};

verus! {

/// A report to the aggregator.
#[derive(Debug, PartialEq, Eq)]
pub enum RelayPoolEvent {
    /// The transport of the relay at this URL has ended.
    RelayDisconnected(String),
    /// A relay has sent a message.
    ReceivedMsg { relay_url: String, msg: RelayMessage },
    /// Every event written by, or addressed to, this public key is to be
    /// forgotten.
    RemoveContactEvents(String),
    /// The application has published this event itself.
    EventSent(NostrEvent),
}

/// The mathematical value of a [`RelayPoolEvent`].
pub enum RelayPoolEventView {
    RelayDisconnected(Seq<char>),
    ReceivedMsg { relay_url: Seq<char>, msg: RelayMessageView },
    RemoveContactEvents(Seq<char>),
    EventSent(NostrEventView),
}

impl View for RelayPoolEvent {
    type V = RelayPoolEventView;

    open spec fn view(&self) -> RelayPoolEventView {
        match *self {
            RelayPoolEvent::RelayDisconnected(url) => RelayPoolEventView::RelayDisconnected(url@),
            RelayPoolEvent::ReceivedMsg { relay_url, msg } => RelayPoolEventView::ReceivedMsg {
                relay_url: relay_url@,
                msg: msg@,
            },
            RelayPoolEvent::RemoveContactEvents(key) => RelayPoolEventView::RemoveContactEvents(key@),
            RelayPoolEvent::EventSent(event) => RelayPoolEventView::EventSent(event@),
        }
    }
}

/// An announcement to the application.
#[derive(Debug, PartialEq, Eq)]
pub enum RelayPoolNotifications {
    /// An event that the pool had not seen before.
    ReceivedEvent(NostrEvent),
    /// The relay at this URL is gone.
    RelayDisconnected(String),
}

impl Clone for RelayPoolNotifications {
    fn clone(&self) -> (copy: RelayPoolNotifications)
        ensures
            copy@ == self@,
    {
        match self {
            RelayPoolNotifications::ReceivedEvent(event) => RelayPoolNotifications::ReceivedEvent(
                event.clone(),
            ),
            RelayPoolNotifications::RelayDisconnected(url) => {
                RelayPoolNotifications::RelayDisconnected(url.clone())
            },
        }
    }
}

/// The mathematical value of a [`RelayPoolNotifications`].
pub enum NotificationView {
    ReceivedEvent(NostrEventView),
    RelayDisconnected(Seq<char>),
}

impl View for RelayPoolNotifications {
    type V = NotificationView;

    open spec fn view(&self) -> NotificationView {
        match *self {
            RelayPoolNotifications::ReceivedEvent(event) => NotificationView::ReceivedEvent(event@),
            RelayPoolNotifications::RelayDisconnected(url) => NotificationView::RelayDisconnected(
                url@,
            ),
        }
    }
}

} // verus!
