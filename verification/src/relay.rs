//! One relay connection: its status, its queue of outbound commands, and the
//! decisions of its writer and reader loops.

use vstd::prelude::*;
use vstd::utf8::{decode_utf8, valid_utf8};
use crate::error::Error;
use crate::mailbox::Mailbox;
use crate::message::{
    ClientMessage,
    ClientMessageView,
    RelayMessage,
    client_message_text,
    parsed_relay_message,
    text_view,
};
use crate::pool_event::{RelayPoolEvent, RelayPoolEventView};
use crate::status::RelayStatus;

verus! {

/// The number of commands that may wait for one relay.
pub const COMMAND_QUEUE_CAPACITY: usize = 32;

/// The time, in seconds, that a writer loop lets pass without a command
/// before it writes a ping.
pub const KEEPALIVE_SECONDS: u64 = 60;

/// A command to the writer loop of a connection.
#[derive(Debug, PartialEq, Eq)]
pub enum RelayEvent {
    /// Write this message to the relay.
    SendMsg(ClientMessage),
    /// Close the transport and stop.
    Close,
}

/// The mathematical value of a [`RelayEvent`].
pub enum RelayEventView {
    SendMsg(ClientMessageView),
    Close,
}

impl View for RelayEvent {
    type V = RelayEventView;

    open spec fn view(&self) -> RelayEventView {
        match *self {
            RelayEvent::SendMsg(message) => RelayEventView::SendMsg(message@),
            RelayEvent::Close => RelayEventView::Close,
        }
    }
}

impl Clone for RelayEvent {
    fn clone(&self) -> (copy: RelayEvent)
        ensures
            copy@ == self@,
    {
        match self {
            RelayEvent::SendMsg(message) => RelayEvent::SendMsg(message.clone()),
            RelayEvent::Close => RelayEvent::Close,
        }
    }
}

/// The views of a queue of commands, one by one.
pub open spec fn command_views(commands: Seq<RelayEvent>) -> Seq<RelayEventView> {
    Seq::new(commands.len(), |i: int| commands[i]@)
}

/// A frame read from the transport.
#[derive(Debug, PartialEq, Eq)]
pub enum Frame {
    Text(String),
    Binary(Vec<u8>),
    Ping,
    Pong,
    Close,
    /// Any other frame.
    Raw,
}

/// The text that a frame carries: that of a text frame, that of a binary
/// frame whose bytes are UTF-8, and none otherwise.
pub open spec fn frame_text(frame: Frame) -> Option<Seq<char>> {
    match frame {
        Frame::Text(text) => Some(text@),
        Frame::Binary(bytes) => if valid_utf8(bytes@) {
            Some(decode_utf8(bytes@))
        } else {
            None
        },
        _ => None,
    }
}

/// What the writer loop is to do next.
#[derive(Debug, PartialEq, Eq)]
pub enum WriterAction {
    /// Write this text frame. A failure is reported and the loop goes on.
    Send(String),
    /// Write a ping frame. A failure ends the loop: see [`Relay::ping_failed`].
    Ping,
    /// Close the transport; the loop has ended.
    Close,
    /// Nothing to do until a command arrives or this many seconds have
    /// passed, whichever comes first.
    Wait(u64),
    /// The connection is not running: the loop ends, and closes the
    /// transport if it still holds one.
    Stop,
}

/// The mathematical value of a [`WriterAction`].
pub enum WriterActionView {
    Send(Seq<char>),
    Ping,
    Close,
    Wait(u64),
    Stop,
}

impl View for WriterAction {
    type V = WriterActionView;

    open spec fn view(&self) -> WriterActionView {
        match *self {
            WriterAction::Send(text) => WriterActionView::Send(text@),
            WriterAction::Ping => WriterActionView::Ping,
            WriterAction::Close => WriterActionView::Close,
            WriterAction::Wait(seconds) => WriterActionView::Wait(seconds),
            WriterAction::Stop => WriterActionView::Stop,
        }
    }
}

/// The mathematical value of a [`Relay`].
pub struct RelayView {
    /// The URL as it was given.
    pub address: Seq<char>,
    /// The URL as the parser wrote it back.
    pub url: Seq<char>,
    pub status: RelayStatus,
    /// The commands that wait for the writer loop, oldest first.
    pub pending: Seq<RelayEventView>,
}

impl RelayView {
    /// Commands wait only on a connected relay, and never more than the
    /// queue takes.
    pub open spec fn wf(self) -> bool {
        &&& self.pending.len() <= COMMAND_QUEUE_CAPACITY
        &&& self.status != RelayStatus::Connected ==> self.pending.len() == 0
    }

    /// The relay with another status.
    pub open spec fn with_status(self, status: RelayStatus) -> RelayView {
        RelayView { status, ..self }
    }

    /// The relay once its connection is gone: disconnected, with nothing
    /// waiting.
    pub open spec fn lost(self) -> RelayView {
        RelayView { status: RelayStatus::Disconnected, pending: Seq::empty(), ..self }
    }

    /// The relay after `set_status(status)`.
    pub open spec fn moved_to(self, status: RelayStatus) -> RelayView {
        if !self.status.may_become(status) {
            self
        } else if status == RelayStatus::Connected {
            self.with_status(status)
        } else {
            RelayView { status, pending: Seq::empty(), ..self }
        }
    }

    /// The relay after a connection attempt has started.
    pub open spec fn dialing(self) -> RelayView {
        if self.status == RelayStatus::Disconnected {
            self.with_status(RelayStatus::Connecting)
        } else {
            self
        }
    }

    /// The relay after a handshake has ended, well (`up`) or not.
    pub open spec fn settled(self, up: bool) -> RelayView {
        if self.status != RelayStatus::Connecting {
            self
        } else if up {
            self.with_status(RelayStatus::Connected)
        } else {
            self.with_status(RelayStatus::Disconnected)
        }
    }

    /// What a handshake that has ended reports.
    pub open spec fn settle_report(self, up: bool) -> Result<(), Error> {
        if self.status != RelayStatus::Connecting {
            Err(Error::ChannelClosed)
        } else if up {
            Ok(())
        } else {
            Err(Error::TransportError)
        }
    }

    /// Whether a command can be queued.
    pub open spec fn accepts(self) -> bool {
        self.status == RelayStatus::Connected && self.pending.len() < COMMAND_QUEUE_CAPACITY
    }

    /// The relay after `command` was sent to it: queued last where the relay
    /// is connected and has room, dropped otherwise.
    pub open spec fn sent(self, command: RelayEventView) -> RelayView {
        if self.accepts() {
            RelayView { pending: self.pending.push(command), ..self }
        } else {
            self
        }
    }

    /// What sending a command reports.
    pub open spec fn send_report(self) -> Result<(), Error> {
        if self.status != RelayStatus::Connected {
            Err(Error::ChannelClosed)
        } else if self.pending.len() >= COMMAND_QUEUE_CAPACITY {
            Err(Error::QueueFull)
        } else {
            Ok(())
        }
    }

    /// The relay after one step of its writer loop.
    pub open spec fn written(self) -> RelayView {
        if self.status != RelayStatus::Connected || self.pending.len() == 0 {
            self
        } else {
            match self.pending[0] {
                RelayEventView::SendMsg(_) => RelayView {
                    pending: self.pending.subrange(1, self.pending.len() as int),
                    ..self
                },
                RelayEventView::Close => self.lost(),
            }
        }
    }

    /// What one step of the writer loop asks for, `idle_seconds` after its
    /// last write. A waiting command comes before the keepalive; with none
    /// waiting, a ping is due once the keepalive time has passed.
    pub open spec fn write_action(self, idle_seconds: u64) -> WriterActionView {
        if self.status != RelayStatus::Connected {
            WriterActionView::Stop
        } else if self.pending.len() == 0 {
            if idle_seconds >= KEEPALIVE_SECONDS {
                WriterActionView::Ping
            } else {
                WriterActionView::Wait((KEEPALIVE_SECONDS - idle_seconds) as u64)
            }
        } else {
            match self.pending[0] {
                RelayEventView::SendMsg(message) => WriterActionView::Send(
                    client_message_text(message),
                ),
                RelayEventView::Close => WriterActionView::Close,
            }
        }
    }

    /// What the reader loop reports for a frame: the message that the
    /// frame's text holds, under this relay's URL, and nothing for a frame
    /// without text or with a text that is no message.
    pub open spec fn heard(self, frame: Frame) -> Option<RelayPoolEventView> {
        match frame_text(frame) {
            Some(text) => match parsed_relay_message(text) {
                Ok(msg) => Some(RelayPoolEventView::ReceivedMsg { relay_url: self.url, msg }),
                Err(_) => None,
            },
            None => None,
        }
    }

    /// Whether a frame is skipped as malformed: it is a text or binary
    /// frame, and what it carries is no text or no message. Frames of other
    /// kinds are passed over without a word.
    pub open spec fn garbled(frame: Frame) -> bool {
        (frame is Text || frame is Binary) && match frame_text(frame) {
            Some(text) => parsed_relay_message(text) is Err,
            None => true,
        }
    }
}

/// The URL that a text parses to, written back in its normal form.
pub uninterp spec fn parsed_url(text: Seq<char>) -> Option<Seq<char>>;

/// `url::Url::parse`, with the URL that came out turned into its text. The
/// result is a function of the text alone.
#[verifier::external_body]
fn url_of(text: &str) -> (url: Option<String>)
    ensures
        text_view(url) == parsed_url(text@),
{
    url::Url::parse(text).ok().map(String::from)
}

/// `String::from_utf8`: the text of the bytes where they are UTF-8, nothing
/// where they are not.
#[verifier::external_body]
fn text_of(bytes: Vec<u8>) -> (text: Option<String>)
    ensures
        text is Some <==> valid_utf8(bytes@),
        text matches Some(s) ==> s@ == decode_utf8(bytes@),
{
    String::from_utf8(bytes).ok()
}

/// The view of a report that may be missing.
pub open spec fn report_view(report: Option<RelayPoolEvent>) -> Option<RelayPoolEventView> {
    match report {
        Some(r) => Some(r@),
        None => None,
    }
}

/// A connection to one relay.
pub struct Relay {
    address: String,
    url: String,
    status: RelayStatus,
    commands: Mailbox<RelayEvent>,
}

impl View for Relay {
    type V = RelayView;

    closed spec fn view(&self) -> RelayView {
        RelayView {
            address: self.address@,
            url: self.url@,
            status: self.status,
            pending: command_views(self.commands@),
        }
    }
}

impl Clone for Relay {
    /// A snapshot of the relay: it has the relay's value, and what happens
    /// to the one from then on does not show in the other.
    fn clone(&self) -> (copy: Relay)
        ensures
            self.wf() ==> copy.wf() && copy@ == self@,
    {
        let mut commands: Mailbox<RelayEvent> = Mailbox::new(COMMAND_QUEUE_CAPACITY);
        let mut i: usize = 0;
        while i < self.commands.len()
            invariant
                i <= self.commands@.len(),
                commands.capacity() == COMMAND_QUEUE_CAPACITY,
                self.commands@.len() <= COMMAND_QUEUE_CAPACITY ==> commands@.len() == i
                    && command_views(commands@) == command_views(self.commands@).take(i as int),
            decreases self.commands@.len() - i,
        {
            let ghost copied = command_views(commands@);
            let command = self.commands.get(i).clone();
            let _ = commands.try_send(command);
            proof {
                if self.commands@.len() <= COMMAND_QUEUE_CAPACITY {
                    assert(command_views(commands@) =~= copied.push(command@));
                    assert(command_views(commands@) =~= command_views(self.commands@).take(i + 1));
                }
            }
            i += 1;
        }
        proof {
            if self.commands@.len() <= COMMAND_QUEUE_CAPACITY {
                assert(command_views(self.commands@).take(i as int) =~= command_views(
                    self.commands@,
                ));
            }
        }
        Relay {
            address: self.address.clone(),
            url: self.url.clone(),
            status: self.status,
            commands,
        }
    }
}

impl Relay {
    /// The relay's value is well formed and its queue has the capacity of a
    /// command queue.
    pub closed spec fn wf(&self) -> bool {
        &&& self@.wf()
        &&& self.commands.capacity() == COMMAND_QUEUE_CAPACITY
    }

    /// What a well-formed relay's value satisfies.
    pub proof fn lemma_wf(&self)
        requires
            self.wf(),
        ensures
            self@.wf(),
    {
    }

    /// A disconnected relay for `url`, or `MalformedUrl` where `url` does not
    /// parse.
    pub fn new(url: &str) -> (made: Result<Relay, Error>)
        ensures
            match parsed_url(url@) {
                Some(normal) => made matches Ok(relay) && relay.wf() && relay@ == (RelayView {
                    address: url@,
                    url: normal,
                    status: RelayStatus::Disconnected,
                    pending: Seq::empty(),
                }),
                None => made matches Err(e) && e == Error::MalformedUrl,
            },
    {
        match url_of(url) {
            Some(normal) => {
                let relay = Relay {
                    address: url.to_owned(),
                    url: normal,
                    status: RelayStatus::Disconnected,
                    commands: Mailbox::new(COMMAND_QUEUE_CAPACITY),
                };
                assert(relay@.pending =~= Seq::empty());
                Ok(relay)
            },
            None => Err(Error::MalformedUrl),
        }
    }

    /// The URL as it was given to [`Relay::new`].
    pub fn address(&self) -> (address: &String)
        ensures
            address@ == self@.address,
    {
        &self.address
    }

    /// The URL in its normal form.
    pub fn url(&self) -> (url: &String)
        ensures
            url@ == self@.url,
    {
        &self.url
    }

    /// The current status.
    pub fn status(&self) -> (status: RelayStatus)
        ensures
            status == self@.status,
    {
        self.status
    }

    /// The number of commands that wait.
    pub fn pending_len(&self) -> (n: usize)
        ensures
            n == self@.pending.len(),
    {
        self.commands.len()
    }

    /// Moves to `status` where the status machine allows it, and says
    /// whether it does. Leaving `Connected` drops the commands that wait.
    pub fn set_status(&mut self, status: RelayStatus) -> (moved: bool)
        requires
            old(self).wf(),
        ensures
            final(self).wf(),
            moved == old(self)@.status.may_become(status),
            final(self)@ == old(self)@.moved_to(status),
    {
        if !self.status.can_become(status) {
            return false;
        }
        self.status = status;
        match status {
            RelayStatus::Connected => {},
            _ => {
                self.commands.clear();
                assert(self@.pending =~= Seq::empty());
            },
        }
        true
    }

    /// Starts a connection attempt on a disconnected relay, which becomes
    /// `Connecting`; the result says that the transport is now to be opened.
    /// A relay that is connecting or connected is left as it is.
    pub fn connect(&mut self) -> (dial: bool)
        requires
            old(self).wf(),
        ensures
            final(self).wf(),
            dial == (old(self)@.status == RelayStatus::Disconnected),
            final(self)@ == old(self)@.dialing(),
    {
        match self.status {
            RelayStatus::Disconnected => {
                self.status = RelayStatus::Connecting;
                true
            },
            _ => false,
        }
    }

    /// Ends a connection attempt: the relay becomes `Connected` where the
    /// transport is `up`, `Disconnected` with `TransportError` where it is
    /// not. Without an attempt under way nothing changes and `ChannelClosed`
    /// is reported.
    pub fn established(&mut self, up: bool) -> (report: Result<(), Error>)
        requires
            old(self).wf(),
        ensures
            final(self).wf(),
            report == old(self)@.settle_report(up),
            final(self)@ == old(self)@.settled(up),
    {
        match self.status {
            RelayStatus::Connecting => {
                if up {
                    self.status = RelayStatus::Connected;
                    Ok(())
                } else {
                    self.status = RelayStatus::Disconnected;
                    Err(Error::TransportError)
                }
            },
            _ => Err(Error::ChannelClosed),
        }
    }

    /// Queues a command for the writer loop. It is dropped, with
    /// `ChannelClosed`, where the relay is not connected, and with
    /// `QueueFull` where 32 commands already wait.
    pub fn send_relay_event(&mut self, command: RelayEvent) -> (report: Result<(), Error>)
        requires
            old(self).wf(),
        ensures
            final(self).wf(),
            report == old(self)@.send_report(),
            final(self)@ == old(self)@.sent(command@),
    {
        match self.status {
            RelayStatus::Connected => {
                let report = self.commands.try_send(command);
                assert(self@.pending =~= old(self)@.sent(command@).pending);
                report
            },
            _ => Err(Error::ChannelClosed),
        }
    }

    /// Asks for a graceful close: queues `Close` as
    /// [`Relay::send_relay_event`] does.
    pub fn disconnect(&mut self) -> (report: Result<(), Error>)
        requires
            old(self).wf(),
        ensures
            final(self).wf(),
            report == old(self)@.send_report(),
            final(self)@ == old(self)@.sent(RelayEventView::Close),
    {
        self.send_relay_event(RelayEvent::Close)
    }

    /// Queues a message for the relay as [`Relay::send_relay_event`] does.
    pub fn send_msg(&mut self, message: ClientMessage) -> (report: Result<(), Error>)
        requires
            old(self).wf(),
        ensures
            final(self).wf(),
            report == old(self)@.send_report(),
            final(self)@ == old(self)@.sent(RelayEventView::SendMsg(message@)),
    {
        self.send_relay_event(RelayEvent::SendMsg(message))
    }

    /// One step of the writer loop, `idle_seconds` after its last write. A
    /// waiting command is taken out: a message becomes the text frame to
    /// write, `Close` ends the connection. With nothing waiting, a ping is
    /// due after 60 idle seconds, and a wait for the rest of them before.
    pub fn next_write(&mut self, idle_seconds: u64) -> (action: WriterAction)
        requires
            old(self).wf(),
        ensures
            final(self).wf(),
            action@ == old(self)@.write_action(idle_seconds),
            final(self)@ == old(self)@.written(),
    {
        match self.status {
            RelayStatus::Connected => {},
            _ => {
                return WriterAction::Stop;
            },
        }
        match self.commands.try_recv() {
            None => {
                assert(self@.pending =~= old(self)@.pending);
                if idle_seconds >= KEEPALIVE_SECONDS {
                    WriterAction::Ping
                } else {
                    WriterAction::Wait(KEEPALIVE_SECONDS - idle_seconds)
                }
            },
            Some(RelayEvent::SendMsg(message)) => {
                assert(old(self)@.pending[0] == RelayEventView::SendMsg(message@));
                assert(self@.pending =~= old(self)@.written().pending);
                WriterAction::Send(message.to_json())
            },
            Some(RelayEvent::Close) => {
                assert(old(self)@.pending[0] == RelayEventView::Close);
                self.status = RelayStatus::Disconnected;
                self.commands.clear();
                assert(self@.pending =~= Seq::empty());
                WriterAction::Close
            },
        }
    }

    /// The keepalive ping could not be written: the writer loop ends and
    /// the relay is disconnected. A relay that is not connected is left as
    /// it is.
    pub fn ping_failed(&mut self)
        requires
            old(self).wf(),
        ensures
            final(self).wf(),
            final(self)@ == if old(self)@.status == RelayStatus::Connected {
                old(self)@.lost()
            } else {
                old(self)@
            },
    {
        match self.status {
            RelayStatus::Connected => {
                self.status = RelayStatus::Disconnected;
                self.commands.clear();
                assert(self@.pending =~= Seq::empty());
            },
            _ => {},
        }
    }

    /// What the reader loop reports for one frame. A text or binary frame
    /// that holds a relay message gives that message, under this relay's
    /// URL; one that holds none gives `ParseError` and is skipped; a frame
    /// of another kind gives nothing.
    pub fn receive(&self, frame: Frame) -> (report: Result<Option<RelayPoolEvent>, Error>)
        ensures
            match report {
                Ok(r) => !RelayView::garbled(frame) && report_view(r) == self@.heard(frame),
                Err(e) => RelayView::garbled(frame) && e == Error::ParseError,
            },
            report matches Ok(
                Some(RelayPoolEvent::ReceivedMsg { msg: RelayMessage::Event { event, .. }, .. }),
            ) ==> event@.authentic(),
    {
        let text = match frame {
            Frame::Text(text) => text,
            Frame::Binary(bytes) => match text_of(bytes) {
                Some(text) => text,
                None => {
                    return Err(Error::ParseError);
                },
            },
            _ => {
                return Ok(None);
            },
        };
        match RelayMessage::from_json(text.as_str()) {
            Ok(msg) => Ok(Some(RelayPoolEvent::ReceivedMsg { relay_url: self.url.clone(), msg })),
            Err(_) => Err(Error::ParseError),
        }
    }

    /// The transport's read stream has ended: the reader loop reports the
    /// loss of the relay and asks the writer loop to close. The second
    /// result says what became of that request.
    pub fn stream_ended(&mut self) -> (report: (RelayPoolEvent, Result<(), Error>))
        requires
            old(self).wf(),
        ensures
            final(self).wf(),
            report.0@ == RelayPoolEventView::RelayDisconnected(old(self)@.url),
            report.1 == old(self)@.send_report(),
            final(self)@ == old(self)@.sent(RelayEventView::Close),
    {
        let report = RelayPoolEvent::RelayDisconnected(self.url.clone());
        let closing = self.disconnect();
        (report, closing)
    }
}

} // verus!
