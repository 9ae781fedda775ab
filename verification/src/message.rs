//! The messages exchanged with a relay, and their wire text.

use vstd::prelude::*;
use vstd::string::StringSliceAdditionalSpecFns;
use vstd::utf8::encode_utf8;
use crate::error::Error;
use crate::event::{NostrEvent, NostrEventView, declared_by, signature_holds};

verus! {

/// A filter of a subscription. The pool stores filters and hands them on; it
/// never looks inside one.
#[verifier::external_type_specification]
#[verifier::external_body]
pub struct ExSubscriptionFilter(nostr_sdk_base::SubscriptionFilter);

/// `Clone::clone` of `nostr_sdk_base::SubscriptionFilter`, which is derived
/// field by field: the copy is the same filter.
pub assume_specification[ <nostr_sdk_base::SubscriptionFilter as Clone>::clone ](
    filter: &nostr_sdk_base::SubscriptionFilter,
) -> (copy: nostr_sdk_base::SubscriptionFilter)
    ensures
        copy == *filter,
;

/// A message from this client to a relay.
#[derive(Debug, PartialEq, Eq)]
pub enum ClientMessage {
    /// Publishes an event.
    Event { event: NostrEvent },
    /// Opens, or opens again, the subscription channel `subscription_id` with
    /// a set of filters.
    Req { subscription_id: u64, filters: Vec<nostr_sdk_base::SubscriptionFilter> },
    /// Closes the subscription channel `subscription_id`.
    Close { subscription_id: u64 },
}

/// The mathematical value of a [`ClientMessage`].
pub enum ClientMessageView {
    Event { event: NostrEventView },
    Req { subscription_id: u64, filters: Seq<nostr_sdk_base::SubscriptionFilter> },
    Close { subscription_id: u64 },
}

impl View for ClientMessage {
    type V = ClientMessageView;

    open spec fn view(&self) -> ClientMessageView {
        match *self {
            ClientMessage::Event { event } => ClientMessageView::Event { event: event@ },
            ClientMessage::Req { subscription_id, filters } => ClientMessageView::Req {
                subscription_id,
                filters: filters@,
            },
            ClientMessage::Close { subscription_id } => ClientMessageView::Close { subscription_id },
        }
    }
}

/// A message from a relay to this client.
#[derive(Debug, PartialEq, Eq)]
pub enum RelayMessage {
    /// An event announced on a subscription channel.
    Event { event: NostrEvent, subscription_id: String },
    /// A note for the user.
    Notice { message: String },
    /// The stored events of a subscription have all been sent.
    EndOfStoredEvents { subscription_id: String },
    /// An empty text.
    Empty,
}

/// The mathematical value of a [`RelayMessage`].
pub enum RelayMessageView {
    Event { event: NostrEventView, subscription_id: Seq<char> },
    Notice { message: Seq<char> },
    EndOfStoredEvents { subscription_id: Seq<char> },
    Empty,
}

impl View for RelayMessage {
    type V = RelayMessageView;

    open spec fn view(&self) -> RelayMessageView {
        match *self {
            RelayMessage::Event { event, subscription_id } => RelayMessageView::Event {
                event: event@,
                subscription_id: subscription_id@,
            },
            RelayMessage::Notice { message } => RelayMessageView::Notice { message: message@ },
            RelayMessage::EndOfStoredEvents { subscription_id } => RelayMessageView::EndOfStoredEvents {
                subscription_id: subscription_id@,
            },
            RelayMessage::Empty => RelayMessageView::Empty,
        }
    }
}

/// The wire text of a client message. That of an event command is written
/// from the signed event that the command carries.
pub uninterp spec fn client_message_text(message: ClientMessageView) -> Seq<char>;

/// A relay message as the protocol crate hands it out: an event is still
/// the signed event alone.
#[derive(Debug, PartialEq, Eq)]
pub enum ReadMessage {
    Event { signed: nostr_sdk_base::Event, subscription_id: String },
    Notice { message: String },
    EndOfStoredEvents { subscription_id: String },
    Empty,
}

/// The mathematical value of a [`ReadMessage`].
pub enum ReadMessageView {
    Event { signed: nostr_sdk_base::Event, subscription_id: Seq<char> },
    Notice { message: Seq<char> },
    EndOfStoredEvents { subscription_id: Seq<char> },
    Empty,
}

impl View for ReadMessage {
    type V = ReadMessageView;

    open spec fn view(&self) -> ReadMessageView {
        match *self {
            ReadMessage::Event { signed, subscription_id } => ReadMessageView::Event {
                signed,
                subscription_id: subscription_id@,
            },
            ReadMessage::Notice { message } => ReadMessageView::Notice { message: message@ },
            ReadMessage::EndOfStoredEvents { subscription_id } => ReadMessageView::EndOfStoredEvents {
                subscription_id: subscription_id@,
            },
            ReadMessage::Empty => ReadMessageView::Empty,
        }
    }
}

impl ReadMessageView {
    /// The relay message that this is, with the event declaring what the
    /// signed event holds.
    pub open spec fn message(self) -> RelayMessageView {
        match self {
            ReadMessageView::Event { signed, subscription_id } => RelayMessageView::Event {
                event: declared_by(signed),
                subscription_id,
            },
            ReadMessageView::Notice { message } => RelayMessageView::Notice { message },
            ReadMessageView::EndOfStoredEvents { subscription_id } => RelayMessageView::EndOfStoredEvents {
                subscription_id,
            },
            ReadMessageView::Empty => RelayMessageView::Empty,
        }
    }

    /// An event that is read from the wire carries a signature that holds.
    pub open spec fn vouched(self) -> bool {
        match self {
            ReadMessageView::Event { signed, subscription_id } => signature_holds(signed),
            _ => true,
        }
    }
}

/// The relay message that a wire text holds, if it holds one.
pub uninterp spec fn relay_message_of(text: Seq<char>) -> Option<ReadMessageView>;

/// The view of a text that may be missing.
pub open spec fn text_view(text: Option<String>) -> Option<Seq<char>> {
    match text {
        Some(s) => Some(s@),
        None => None,
    }
}

/// The view of a relay message that may be missing.
pub open spec fn message_view(message: Option<ReadMessage>) -> Option<ReadMessageView> {
    match message {
        Some(m) => Some(m@),
        None => None,
    }
}

/// The bytes that JSON skips between tokens.
pub open spec fn is_json_space(byte: u8) -> bool {
    byte == 0x20 || byte == 0x09 || byte == 0x0a || byte == 0x0d
}

/// How far a text has got towards being `[` `]` and nothing else: 0 before
/// the opening bracket, 1 after it, 2 after the closing one, 3 once anything
/// else has been seen.
pub open spec fn bracket_phase(bytes: Seq<u8>) -> int
    decreases bytes.len(),
{
    if bytes.len() == 0 {
        0
    } else {
        next_phase(bracket_phase(bytes.drop_last()), bytes.last())
    }
}

/// One step of [`bracket_phase`].
pub open spec fn next_phase(phase: int, byte: u8) -> int {
    if is_json_space(byte) {
        phase
    } else if phase == 0 && byte == 0x5b {
        1
    } else if phase == 1 && byte == 0x5d {
        2
    } else {
        3
    }
}

/// Whether a text is a JSON array without elements: an opening and a closing
/// bracket, with nothing but JSON space before, between and after them.
pub open spec fn is_empty_array(bytes: Seq<u8>) -> bool {
    bracket_phase(bytes) == 2
}

/// Tells whether a text is a JSON array without elements.
pub fn empty_array(text: &str) -> (empty: bool)
    ensures
        empty == is_empty_array(text.spec_bytes()),
{
    let bytes = text.as_bytes();
    let mut phase: u8 = 0;
    let mut i: usize = 0;
    assert(bytes@.take(0) =~= Seq::<u8>::empty());
    while i < bytes.len()
        invariant
            i <= bytes.len(),
            phase as int == bracket_phase(bytes@.take(i as int)),
            0 <= phase <= 3,
        decreases bytes.len() - i,
    {
        let byte = bytes[i];
        assert(bytes@.take(i + 1).drop_last() =~= bytes@.take(i as int));
        assert(bytes@.take(i + 1).last() == byte);
        if byte == 0x20 || byte == 0x09 || byte == 0x0a || byte == 0x0d {
        } else if phase == 0 && byte == 0x5b {
            phase = 1;
        } else if phase == 1 && byte == 0x5d {
            phase = 2;
        } else {
            phase = 3;
        }
        i += 1;
    }
    assert(bytes@.take(i as int) =~= bytes@);
    phase == 2
}

/// `nostr_sdk_base::ClientMessage::to_json`, on the message that
/// `new_event`, `new_req` or `close` of that type makes of the same parts:
/// the signed event, or the identifier in decimal and the filters.
#[verifier::external_body]
fn client_message_json(message: &ClientMessage) -> (text: String)
    ensures
        text@ == client_message_text(message@),
{
    let outside = match message {
        ClientMessage::Event { event } => nostr_sdk_base::ClientMessage::new_event(
            event.signed.clone(),
        ),
        ClientMessage::Req { subscription_id, filters } => nostr_sdk_base::ClientMessage::new_req(
            subscription_id.to_string(),
            filters.clone(),
        ),
        ClientMessage::Close { subscription_id } => nostr_sdk_base::ClientMessage::close(
            subscription_id.to_string(),
        ),
    };
    outside.to_json()
}

/// `nostr_sdk_base::RelayMessage::from_json`. It indexes the first element of
/// the array it has parsed, so a text that is an array without elements is
/// kept away from it. The result is a function of the text alone. It reads
/// an event with `nostr_sdk_base::Event::from_json`, which checks the
/// signature, so an event that comes out carries one that holds.
#[verifier::external_body]
fn relay_message_json(text: &str) -> (message: Option<ReadMessage>)
    requires
        !is_empty_array(text.spec_bytes()),
    ensures
        message_view(message) == relay_message_of(text@),
        message matches Some(m) ==> m@.vouched(),
{
    match nostr_sdk_base::RelayMessage::from_json(text).ok()? {
        nostr_sdk_base::RelayMessage::Event { event, subscription_id } => Some(
            ReadMessage::Event { signed: *event, subscription_id },
        ),
        nostr_sdk_base::RelayMessage::Notice { message } => Some(ReadMessage::Notice { message }),
        nostr_sdk_base::RelayMessage::EndOfStoredEvents { subscription_id } => Some(
            ReadMessage::EndOfStoredEvents { subscription_id },
        ),
        nostr_sdk_base::RelayMessage::Empty => Some(ReadMessage::Empty),
    }
}

impl Clone for ClientMessage {
    fn clone(&self) -> (copy: ClientMessage)
        ensures
            copy@ == self@,
    {
        match self {
            ClientMessage::Event { event } => ClientMessage::Event { event: event.clone() },
            ClientMessage::Req { subscription_id, filters } => ClientMessage::Req {
                subscription_id: *subscription_id,
                filters: clone_filters(filters),
            },
            ClientMessage::Close { subscription_id } => ClientMessage::Close {
                subscription_id: *subscription_id,
            },
        }
    }
}

/// Copies a set of filters.
pub fn clone_filters(filters: &Vec<nostr_sdk_base::SubscriptionFilter>) -> (copy: Vec<
    nostr_sdk_base::SubscriptionFilter,
>)
    ensures
        copy@ == filters@,
{
    let mut copy: Vec<nostr_sdk_base::SubscriptionFilter> = Vec::new();
    let mut i: usize = 0;
    while i < filters.len()
        invariant
            i <= filters.len(),
            copy@ == filters@.take(i as int),
        decreases filters.len() - i,
    {
        copy.push(filters[i].clone());
        assert(copy@ =~= filters@.take(i + 1));
        i += 1;
    }
    assert(filters@.take(i as int) =~= filters@);
    copy
}

impl ClientMessage {
    /// The command that publishes `event`.
    pub fn new_event(event: NostrEvent) -> (message: ClientMessage)
        ensures
            message@ == (ClientMessageView::Event { event: event@ }),
    {
        ClientMessage::Event { event }
    }

    /// The command that opens channel `subscription_id` with `filters`.
    pub fn new_req(subscription_id: u64, filters: Vec<nostr_sdk_base::SubscriptionFilter>) -> (message:
        ClientMessage)
        ensures
            message@ == (ClientMessageView::Req { subscription_id, filters: filters@ }),
    {
        ClientMessage::Req { subscription_id, filters }
    }

    /// The command that closes channel `subscription_id`.
    pub fn close(subscription_id: u64) -> (message: ClientMessage)
        ensures
            message@ == (ClientMessageView::Close { subscription_id }),
    {
        ClientMessage::Close { subscription_id }
    }

    /// The wire text of this message.
    pub fn to_json(&self) -> (text: String)
        ensures
            text@ == client_message_text(self@),
    {
        client_message_json(self)
    }
}

/// What [`RelayMessage::from_json`] makes of a wire text.
pub open spec fn parsed_relay_message(text: Seq<char>) -> Result<RelayMessageView, Error> {
    if is_empty_array(encode_utf8(text)) {
        Err(Error::ParseError)
    } else {
        match relay_message_of(text) {
            Some(read) => Ok(read.message()),
            None => Err(Error::ParseError),
        }
    }
}

/// The view of the outcome of parsing.
pub open spec fn parse_view(parsed: Result<RelayMessage, Error>) -> Result<RelayMessageView, Error> {
    match parsed {
        Ok(m) => Ok(m@),
        Err(e) => Err(e),
    }
}

impl RelayMessage {
    /// The relay message that `read` is: its event declares what the
    /// signed event holds.
    pub fn from_read(read: ReadMessage) -> (message: RelayMessage)
        ensures
            message@ == read@.message(),
            message matches RelayMessage::Event { event, .. } ==> event@.faithful(),
    {
        match read {
            ReadMessage::Event { signed, subscription_id } => RelayMessage::Event {
                event: NostrEvent::new(signed),
                subscription_id,
            },
            ReadMessage::Notice { message } => RelayMessage::Notice { message },
            ReadMessage::EndOfStoredEvents { subscription_id } => RelayMessage::EndOfStoredEvents {
                subscription_id,
            },
            ReadMessage::Empty => RelayMessage::Empty,
        }
    }

    /// Reads a relay message from its wire text. An array without elements
    /// and any text that holds no relay message give `ParseError`. An
    /// event that is read is authentic.
    pub fn from_json(text: &str) -> (parsed: Result<RelayMessage, Error>)
        ensures
            parse_view(parsed) == parsed_relay_message(text@),
            parsed matches Ok(RelayMessage::Event { event, .. }) ==> event@.authentic(),
    {
        if empty_array(text) {
            return Err(Error::ParseError);
        }
        match relay_message_json(text) {
            Some(read) => Ok(RelayMessage::from_read(read)),
            None => Err(Error::ParseError),
        }
    }
}

} // verus!
