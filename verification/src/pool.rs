//! The pool: the relays of an application, the subscription they share, and
//! the aggregator that their reports go to.

use vstd::prelude::*;
use crate::error::Error;
use crate::event::{NostrEvent, NostrEventView};
use crate::message::{ClientMessage, ClientMessageView};
use crate::pool_event::{
    NotificationView,
    RelayPoolEvent,
    RelayPoolEventView,
    RelayPoolNotifications,
};
use crate::relay::{
    Frame,
    Relay,
    RelayEventView,
    RelayView,
    WriterAction,
    WriterActionView,
    parsed_url,
};
use crate::status::RelayStatus;
use crate::subscription::{Subscription, SubscriptionView};
use crate::task::{RelayPoolTask, TaskView, notification_views};

verus! {

/// The mathematical value of a [`RelayPool`].
pub struct PoolView {
    /// The relays, in the order in which they were added.
    pub relays: Seq<RelayView>,
    pub subscription: SubscriptionView,
    pub task: TaskView,
}

/// The command that opens channel `id` with `filters`.
pub open spec fn open_command(id: u64, filters: Seq<nostr_sdk_base::SubscriptionFilter>) -> RelayEventView {
    RelayEventView::SendMsg(ClientMessageView::Req { subscription_id: id, filters })
}

/// The command that closes channel `id`.
pub open spec fn close_command(id: u64) -> RelayEventView {
    RelayEventView::SendMsg(ClientMessageView::Close { subscription_id: id })
}

/// The command that publishes `event`.
pub open spec fn publish_command(event: NostrEventView) -> RelayEventView {
    RelayEventView::SendMsg(ClientMessageView::Event { event })
}

/// The addresses of the disconnected relays of a list, in its order.
pub open spec fn idle(relays: Seq<RelayView>) -> Seq<Seq<char>>
    decreases relays.len(),
{
    if relays.len() == 0 {
        Seq::empty()
    } else if relays.last().status == RelayStatus::Disconnected {
        idle(relays.drop_last()).push(relays.last().address)
    } else {
        idle(relays.drop_last())
    }
}

impl PoolView {
    /// Whether `i` is the place of the relay added under `address`.
    pub open spec fn relay_at(self, address: Seq<char>, i: int) -> bool {
        0 <= i < self.relays.len() && self.relays[i].address == address
    }

    /// Whether a relay was added under `address`.
    pub open spec fn knows(self, address: Seq<char>) -> bool {
        exists|i: int| self.relay_at(address, i)
    }

    /// The place of the relay added under `address`.
    pub open spec fn place(self, address: Seq<char>) -> int {
        choose|i: int| self.relay_at(address, i)
    }

    /// No two relays share an address.
    pub open spec fn distinct(self) -> bool {
        forall|i: int, j: int|
            0 <= i < j < self.relays.len() ==> (#[trigger] self.relays[i]).address != (
            #[trigger] self.relays[j]).address
    }

    /// Each relay has its own address and a well-formed value, and so has
    /// the aggregator.
    pub open spec fn wf(self) -> bool {
        &&& self.distinct()
        &&& forall|i: int| 0 <= i < self.relays.len() ==> (#[trigger] self.relays[i]).wf()
        &&& self.task.wf()
    }

    /// The pool with another value for the relay at place `i`.
    pub open spec fn with_relay(self, i: int, relay: RelayView) -> PoolView {
        PoolView { relays: self.relays.update(i, relay), ..self }
    }

    /// The pool with one more relay, disconnected, at the end.
    pub open spec fn added(self, address: Seq<char>, url: Seq<char>) -> PoolView {
        PoolView {
            relays: self.relays.push(
                RelayView {
                    address,
                    url,
                    status: RelayStatus::Disconnected,
                    pending: Seq::empty(),
                },
            ),
            ..self
        }
    }

    /// The pool after the subscription was issued to the relay at place
    /// `i`. A connected relay is sent the command that opens its channel
    /// with the filters in force, and has a channel from then on; any other
    /// relay is passed over.
    pub open spec fn subscribed(self, i: int) -> PoolView {
        let relay = self.relays[i];
        if relay.status == RelayStatus::Connected {
            PoolView {
                relays: self.relays.update(
                    i,
                    relay.sent(
                        open_command(
                            self.subscription.channel_for(relay.address),
                            self.subscription.filters,
                        ),
                    ),
                ),
                subscription: self.subscription.with_channel(relay.address),
                ..self
            }
        } else {
            self
        }
    }

    /// The pool after the relay at place `i` was unsubscribed. A connected
    /// relay with a channel is sent the command that closes it, and has no
    /// channel from then on; any other relay is passed over.
    pub open spec fn unsubscribed(self, i: int) -> PoolView {
        let relay = self.relays[i];
        if relay.status == RelayStatus::Connected && self.subscription.channels.dom().contains(
            relay.address,
        ) {
            PoolView {
                relays: self.relays.update(
                    i,
                    relay.sent(close_command(self.subscription.channels[relay.address])),
                ),
                subscription: self.subscription.without_channel(relay.address),
                ..self
            }
        } else {
            self
        }
    }

    /// The pool after the relay at place `i` was asked to disconnect: it is
    /// sent `Close`, and its channel is dropped without a closing command.
    pub open spec fn disconnected(self, i: int) -> PoolView {
        let relay = self.relays[i];
        PoolView {
            relays: self.relays.update(i, relay.sent(RelayEventView::Close)),
            subscription: self.subscription.without_channel(relay.address),
            ..self
        }
    }

    /// The pool after the relay at place `i` was taken out, with its
    /// queue and its channel. Its writer loop is told to stop at its next
    /// step.
    pub open spec fn removed(self, i: int) -> PoolView {
        PoolView {
            relays: self.relays.remove(i),
            subscription: self.subscription.without_channel(self.relays[i].address),
            ..self
        }
    }

    /// What issuing the subscription to the relay at place `i` reports:
    /// what became of the command, and `Ok` for a relay that is passed
    /// over.
    pub open spec fn subscribe_report(self, i: int) -> Result<(), Error> {
        if self.relays[i].status == RelayStatus::Connected {
            self.relays[i].send_report()
        } else {
            Ok(())
        }
    }

    /// What unsubscribing the relay at place `i` reports: what became of
    /// the command, and `Ok` for a relay that is passed over.
    pub open spec fn unsubscribe_report(self, i: int) -> Result<(), Error> {
        if self.relays[i].status == RelayStatus::Connected
            && self.subscription.channels.dom().contains(self.relays[i].address) {
            self.relays[i].send_report()
        } else {
            Ok(())
        }
    }

    /// The pool after a connection attempt on the relay at place `i` has
    /// started.
    pub open spec fn dialing(self, i: int) -> PoolView {
        self.with_relay(i, self.relays[i].dialing())
    }

    /// The pool after a connection attempt on every disconnected relay has
    /// started.
    pub open spec fn all_dialing(self) -> PoolView {
        PoolView {
            relays: Seq::new(self.relays.len(), |i: int| self.relays[i].dialing()),
            ..self
        }
    }

    /// The pool after the connection attempt on the relay at place `i` has
    /// ended. Where it ended well and filters are in force, the
    /// subscription is issued to the relay at once.
    pub open spec fn settled(self, i: int, up: bool) -> PoolView {
        let moved = self.with_relay(i, self.relays[i].settled(up));
        if self.relays[i].status == RelayStatus::Connecting && up
            && self.subscription.filters.len() > 0 {
            moved.subscribed(i)
        } else {
            moved
        }
    }

    /// The pool after `event` was published. Without relays nothing
    /// happens. Otherwise the event is reported to the aggregator and the
    /// command that publishes it is sent to every relay.
    pub open spec fn published(self, event: NostrEventView) -> PoolView {
        if self.relays.len() == 0 {
            self
        } else {
            PoolView {
                relays: Seq::new(
                    self.relays.len(),
                    |i: int| self.relays[i].sent(publish_command(event)),
                ),
                task: self.task.submitted(RelayPoolEventView::EventSent(event)),
                ..self
            }
        }
    }

    /// The pool after the subscription was issued to the first `n` relays,
    /// in order.
    pub open spec fn subscribed_up_to(self, n: nat) -> PoolView
        decreases n,
    {
        if n == 0 {
            self
        } else {
            self.subscribed_up_to((n - 1) as nat).subscribed(n - 1)
        }
    }

    /// The pool after a subscription with `filters` was started: the
    /// filters replace those in force, and the subscription is issued to
    /// every relay.
    pub open spec fn started(self, filters: Seq<nostr_sdk_base::SubscriptionFilter>) -> PoolView {
        PoolView { subscription: self.subscription.updated(filters), ..self }.subscribed_up_to(
            self.relays.len(),
        )
    }

    /// The pool after a report was handed to the aggregator.
    pub open spec fn reported(self, report: Option<RelayPoolEventView>) -> PoolView {
        match report {
            Some(r) => PoolView { task: self.task.submitted(r), ..self },
            None => self,
        }
    }
}

/// What became of a published event: whether the aggregator was told of
/// it, and for each relay, in the order of the pool, whether the command
/// was queued.
#[derive(Debug, PartialEq, Eq)]
pub struct Published {
    pub recorded: Result<(), Error>,
    pub sent: Vec<Result<(), Error>>,
}

/// The views of a list of relays, one by one.
pub open spec fn relay_views(relays: Seq<Relay>) -> Seq<RelayView> {
    Seq::new(relays.len(), |i: int| relays[i]@)
}

/// The views of a list of texts, one by one.
pub open spec fn text_views(texts: Seq<String>) -> Seq<Seq<char>> {
    Seq::new(texts.len(), |i: int| texts[i]@)
}

/// A pool of relays.
pub struct RelayPool {
    relays: Vec<Relay>,
    subscription: Subscription,
    task: RelayPoolTask,
}

impl View for RelayPool {
    type V = PoolView;

    closed spec fn view(&self) -> PoolView {
        PoolView {
            relays: relay_views(self.relays@),
            subscription: self.subscription@,
            task: self.task@,
        }
    }
}

impl Default for RelayPool {
    fn default() -> (pool: RelayPool)
        ensures
            pool.wf(),
            pool@.relays.len() == 0,
            pool@.subscription.filters.len() == 0,
            pool@.subscription.channels == Map::<Seq<char>, u64>::empty(),
            pool@.task == (TaskView { inbox: Seq::empty(), cache: Map::empty(), outbox: Seq::empty() }),
    {
        RelayPool::new()
    }
}

impl RelayPool {
    /// Every part of the pool is well formed and no two relays share an
    /// address.
    pub closed spec fn wf(&self) -> bool {
        &&& self@.distinct()
        &&& forall|i: int| 0 <= i < self.relays.len() ==> (#[trigger] self.relays[i]).wf()
        &&& self.subscription.wf()
        &&& self.task.wf()
    }

    /// What a well-formed pool's value satisfies.
    pub proof fn lemma_wf(&self)
        requires
            self.wf(),
        ensures
            self@.wf(),
    {
        assert forall|i: int| 0 <= i < self@.relays.len() implies (#[trigger] self@.relays[i]).wf() by {
            self.relays[i].lemma_wf();
        }
        self.task.lemma_wf();
    }

    /// A pool without relays, filters or events.
    pub fn new() -> (pool: RelayPool)
        ensures
            pool.wf(),
            pool@ == (PoolView {
                relays: Seq::empty(),
                subscription: SubscriptionView {
                    filters: Seq::empty(),
                    channels: Map::empty(),
                    next_id: 0,
                },
                task: TaskView { inbox: Seq::empty(), cache: Map::empty(), outbox: Seq::empty() },
            }),
    {
        let pool = RelayPool {
            relays: Vec::new(),
            subscription: Subscription::new(),
            task: RelayPoolTask::new(),
        };
        assert(pool@.relays =~= Seq::empty());
        pool
    }

    /// The relays, in the order in which they were added.
    pub fn relays(&self) -> (relays: &Vec<Relay>)
        ensures
            relay_views(relays@) == self@.relays,
    {
        &self.relays
    }

    /// Snapshots of the relays, in the order in which they were added.
    pub fn list_relays(&self) -> (relays: Vec<Relay>)
        requires
            self.wf(),
        ensures
            relay_views(relays@) == self@.relays,
            relays.len() == self@.relays.len(),
            forall|i: int| 0 <= i < relays.len() ==> (#[trigger] relays[i]).wf(),
    {
        let mut relays: Vec<Relay> = Vec::new();
        let mut i: usize = 0;
        while i < self.relays.len()
            invariant
                i <= self.relays.len(),
                self.wf(),
                relays.len() == i,
                forall|k: int| 0 <= k < i ==> (#[trigger] relays[k]).wf() && relays[k]@
                    == self.relays[k]@,
            decreases self.relays.len() - i,
        {
            relays.push(self.relays[i].clone());
            i += 1;
        }
        assert(relay_views(relays@) =~= self@.relays);
        relays
    }

    /// The subscription tracker.
    pub fn subscription(&self) -> (tracker: &Subscription)
        ensures
            tracker@ == self@.subscription,
    {
        &self.subscription
    }

    /// The aggregator.
    pub fn task(&self) -> (task: &RelayPoolTask)
        ensures
            task@ == self@.task,
    {
        &self.task
    }

    /// Where in the list the relay added under `url` stands.
    fn position(&self, url: &str) -> (place: Option<usize>)
        requires
            self.wf(),
        ensures
            match place {
                Some(i) => self@.relay_at(url@, i as int) && self@.place(url@) == i,
                None => !self@.knows(url@),
            },
    {
        let wanted = url.to_owned();
        let mut i: usize = 0;
        while i < self.relays.len()
            invariant
                i <= self.relays.len(),
                wanted@ == url@,
                self.wf(),
                forall|k: int| 0 <= k < i ==> !self@.relay_at(url@, k),
            decreases self.relays.len() - i,
        {
            if *self.relays[i].address() == wanted {
                proof {
                    assert(self@.relay_at(url@, i as int));
                    let j = self@.place(url@);
                    assert(self@.relay_at(url@, j));
                    if j < i {
                        assert(self@.relays[j].address != self@.relays[i as int].address);
                    } else if i < j {
                        assert(self@.relays[i as int].address != self@.relays[j].address);
                    }
                }
                return Some(i);
            }
            i += 1;
        }
        None
    }

    /// Adds a disconnected relay under `url`. A `url` that does not parse
    /// gives `MalformedUrl`; one that a relay was already added under gives
    /// `DuplicateRelay`. Either way the pool stays as it was.
    pub fn add_relay(&mut self, url: &str) -> (added: Result<(), Error>)
        requires
            old(self).wf(),
        ensures
            final(self).wf(),
            match parsed_url(url@) {
                None => added == Err::<(), Error>(Error::MalformedUrl) && final(self)@ == old(self)@,
                Some(normal) => if old(self)@.knows(url@) {
                    added == Err::<(), Error>(Error::DuplicateRelay) && final(self)@ == old(self)@
                } else {
                    added == Ok::<(), Error>(()) && final(self)@ == old(self)@.added(url@, normal)
                },
            },
    {
        let relay = match Relay::new(url) {
            Ok(relay) => relay,
            Err(_) => {
                return Err(Error::MalformedUrl);
            },
        };
        if self.position(url).is_some() {
            return Err(Error::DuplicateRelay);
        }
        self.relays.push(relay);
        proof {
            let normal = parsed_url(url@).unwrap();
            assert(self@.relays =~= old(self)@.added(url@, normal).relays);
            assert forall|i: int, j: int| 0 <= i < j < self@.relays.len() implies (
            #[trigger] self@.relays[i]).address != (#[trigger] self@.relays[j]).address by {
                if j == old(self)@.relays.len() {
                    assert(!old(self)@.relay_at(url@, i));
                } else {
                    assert(old(self)@.relays[i].address != old(self)@.relays[j].address);
                }
            }
        }
        Ok(())
    }

    /// Issues the subscription to the relay added under `url`, if there is
    /// one and it is connected: it is sent the command that opens its
    /// channel with the filters in force.
    pub fn subscribe_relay(&mut self, url: &str) -> (report: Result<(), Error>)
        requires
            old(self).wf(),
        ensures
            final(self).wf(),
            final(self)@ == if old(self)@.knows(url@) {
                old(self)@.subscribed(old(self)@.place(url@))
            } else {
                old(self)@
            },
            report == if old(self)@.knows(url@) {
                old(self)@.subscribe_report(old(self)@.place(url@))
            } else {
                Ok::<(), Error>(())
            },
    {
        match self.position(url) {
            Some(i) => self.subscribe_at(i),
            None => Ok(()),
        }
    }

    /// Issues the subscription to the relay at place `i`.
    fn subscribe_at(&mut self, i: usize) -> (report: Result<(), Error>)
        requires
            old(self).wf(),
            i < old(self)@.relays.len(),
        ensures
            final(self).wf(),
            final(self)@ == old(self)@.subscribed(i as int),
            report == old(self)@.subscribe_report(i as int),
    {
        match self.relays[i].status() {
            RelayStatus::Connected => {
                let address = self.relays[i].address().clone();
                let channel = self.subscription.get_channel(address.as_str());
                let filters = self.subscription.get_filters();
                let report = self.relays[i].send_msg(ClientMessage::new_req(channel.id, filters));
                proof {
                    self.frame(old(self), i as int);
                    assert(self@.relays =~= old(self)@.subscribed(i as int).relays);
                }
                report
            },
            _ => Ok(()),
        }
    }

    /// What changing the relay at place `i`, and nothing of another relay,
    /// keeps: the other relays' values, and with the address at `i` the
    /// absence of a repeated address.
    proof fn frame(&self, before: &RelayPool, i: int)
        requires
            before.wf(),
            0 <= i < before.relays.len(),
            self.relays.len() == before.relays.len(),
            self.relays[i].wf(),
            self.relays[i]@.address == before.relays[i]@.address,
            forall|k: int| 0 <= k < before.relays.len() && k != i ==> self.relays[k] == before.relays[k],
        ensures
            self@.distinct(),
            forall|k: int| 0 <= k < self.relays.len() ==> (#[trigger] self.relays[k]).wf(),
            self@.relays == before@.relays.update(i, self.relays[i]@),
    {
        assert(self@.relays =~= before@.relays.update(i, self.relays[i]@));
        assert forall|a: int, b: int| 0 <= a < b < self@.relays.len() implies (
        #[trigger] self@.relays[a]).address != (#[trigger] self@.relays[b]).address by {
            assert(before@.relays[a].address != before@.relays[b].address);
        }
        assert forall|k: int| 0 <= k < self.relays.len() implies (#[trigger] self.relays[k]).wf() by {
            if k != i {
                assert(before.relays[k].wf());
            }
        }
    }

    /// Closes the subscription of the relay added under `url`, if there is
    /// such a relay, it is connected and it has a channel: it is sent the
    /// command that closes the channel, and the channel is dropped.
    pub fn unsubscribe_relay(&mut self, url: &str) -> (report: Result<(), Error>)
        requires
            old(self).wf(),
        ensures
            final(self).wf(),
            final(self)@ == if old(self)@.knows(url@) {
                old(self)@.unsubscribed(old(self)@.place(url@))
            } else {
                old(self)@
            },
            report == if old(self)@.knows(url@) {
                old(self)@.unsubscribe_report(old(self)@.place(url@))
            } else {
                Ok::<(), Error>(())
            },
    {
        match self.position(url) {
            Some(i) => match self.relays[i].status() {
                RelayStatus::Connected => {
                    match self.subscription.remove_channel(url) {
                        Some(channel) => {
                            let report = self.relays[i].send_msg(ClientMessage::close(channel.id));
                            proof {
                                self.frame(old(self), i as int);
                                assert(self@.relays =~= old(self)@.unsubscribed(i as int).relays);
                            }
                            report
                        },
                        None => {
                            assert(self@.subscription.channels =~= old(self)@.subscription.channels);
                            Ok(())
                        },
                    }
                },
                _ => Ok(()),
            },
            None => Ok(()),
        }
    }

    /// Starts a connection attempt on the relay added under `url`, if there
    /// is one and it is disconnected. The result says that its transport is
    /// now to be opened; the outcome goes to
    /// [`RelayPool::relay_established`].
    pub fn connect_relay(&mut self, url: &str) -> (dial: bool)
        requires
            old(self).wf(),
        ensures
            final(self).wf(),
            dial == (old(self)@.knows(url@) && old(self)@.relays[old(self)@.place(url@)].status
                == RelayStatus::Disconnected),
            final(self)@ == if old(self)@.knows(url@) {
                old(self)@.dialing(old(self)@.place(url@))
            } else {
                old(self)@
            },
    {
        match self.position(url) {
            Some(i) => {
                let dial = self.relays[i].connect();
                proof {
                    self.frame(old(self), i as int);
                }
                dial
            },
            None => false,
        }
    }

    /// Starts a connection attempt on every disconnected relay, and returns
    /// the addresses of those relays, whose transports are now to be
    /// opened.
    pub fn connect_all(&mut self) -> (dial: Vec<String>)
        requires
            old(self).wf(),
        ensures
            final(self).wf(),
            final(self)@ == old(self)@.all_dialing(),
            dial.len() == idle(old(self)@.relays).len(),
            text_views(dial@) == idle(old(self)@.relays),
    {
        let mut dial: Vec<String> = Vec::new();
        let mut i: usize = 0;
        assert(relay_views(self.relays@).take(0) =~= Seq::<RelayView>::empty());
        assert(text_views(dial@) =~= Seq::<Seq<char>>::empty());
        while i < self.relays.len()
            invariant
                i <= self.relays.len(),
                self.relays.len() == old(self).relays.len(),
                self.wf(),
                self.subscription == old(self).subscription,
                self.task == old(self).task,
                forall|k: int| 0 <= k < i ==> (#[trigger] self.relays[k])@ == old(self).relays[k]@.dialing(),
                forall|k: int| i <= k < self.relays.len() ==> (#[trigger] self.relays[k]) == old(self).relays[k],
                text_views(dial@) == idle(old(self)@.relays.take(i as int)),
            decreases self.relays.len() - i,
        {
            let ghost before = *self;
            let ghost listed = text_views(dial@);
            if self.relays[i].connect() {
                dial.push(self.relays[i].address().clone());
                assert(text_views(dial@) =~= listed.push(old(self)@.relays[i as int].address));
            }
            proof {
                self.frame(&before, i as int);
                let now = old(self)@.relays.take(i + 1);
                assert(now.drop_last() =~= old(self)@.relays.take(i as int));
                assert(now.last() == old(self)@.relays[i as int]);
            }
            i += 1;
        }
        assert(old(self)@.relays.take(i as int) =~= old(self)@.relays);
        assert(self@.relays =~= old(self)@.all_dialing().relays);
        dial
    }

    /// Ends the connection attempt on the relay added under `url`: `up`
    /// says whether the transport was opened. Where it was and filters are
    /// in force, the subscription is issued to the relay at once, which
    /// succeeds, as nothing waits yet for a relay that has just connected.
    /// The result is `Ok` for a relay that is now connected, `TransportError`
    /// for a failed attempt, and `ChannelClosed` where no attempt was under
    /// way or no such relay exists.
    pub fn relay_established(&mut self, url: &str, up: bool) -> (report: Result<(), Error>)
        requires
            old(self).wf(),
        ensures
            final(self).wf(),
            old(self)@.knows(url@) ==> report == old(self)@.relays[old(self)@.place(
                url@,
            )].settle_report(up) && final(self)@ == old(self)@.settled(
                old(self)@.place(url@),
                up,
            ),
            !old(self)@.knows(url@) ==> report == Err::<(), Error>(Error::ChannelClosed) && final(self)@ == old(self)@,
    {
        match self.position(url) {
            Some(i) => {
                let report = self.relays[i].established(up);
                proof {
                    self.frame(old(self), i as int);
                }
                if report.is_ok() && self.subscription.has_filters() {
                    proof {
                        old(self).relays[i as int].lemma_wf();
                    }
                    let issued = self.subscribe_at(i);
                    assert(issued is Ok);
                }
                report
            },
            None => Err(Error::ChannelClosed),
        }
    }

    /// Asks the relay added under `url` to disconnect, and drops its
    /// channel without a closing command: the end of the transport ends
    /// the relay's side of the subscription. The result says what became
    /// of the request. An unknown `url` changes nothing and gives
    /// `ChannelClosed`.
    pub fn disconnect_relay(&mut self, url: &str) -> (report: Result<(), Error>)
        requires
            old(self).wf(),
        ensures
            final(self).wf(),
            final(self)@ == if old(self)@.knows(url@) {
                old(self)@.disconnected(old(self)@.place(url@))
            } else {
                old(self)@
            },
            report == if old(self)@.knows(url@) {
                old(self)@.relays[old(self)@.place(url@)].send_report()
            } else {
                Err::<(), Error>(Error::ChannelClosed)
            },
    {
        match self.position(url) {
            Some(i) => {
                let report = self.relays[i].disconnect();
                let channel = self.subscription.remove_channel(url);
                proof {
                    self.frame(old(self), i as int);
                }
                report
            },
            None => Err(Error::ChannelClosed),
        }
    }

    /// Takes the relay added under `url` out of the pool, with its queue
    /// and its channel; its writer loop is told to stop at its next step,
    /// and closes the transport. An unknown `url` changes nothing.
    pub fn remove_relay(&mut self, url: &str) -> (removed: Result<(), Error>)
        requires
            old(self).wf(),
        ensures
            final(self).wf(),
            removed == Ok::<(), Error>(()),
            final(self)@ == if old(self)@.knows(url@) {
                old(self)@.removed(old(self)@.place(url@))
            } else {
                old(self)@
            },
    {
        match self.position(url) {
            Some(i) => {
                let channel = self.subscription.remove_channel(url);
                let relay = self.relays.remove(i);
                proof {
                    assert(self@.relays =~= old(self)@.relays.remove(i as int));
                    assert forall|a: int, b: int| 0 <= a < b < self@.relays.len() implies (
                    #[trigger] self@.relays[a]).address != (#[trigger] self@.relays[b]).address by {
                        let a0 = if a < i { a } else { a + 1 };
                        let b0 = if b < i { b } else { b + 1 };
                        assert(old(self)@.relays[a0].address != old(self)@.relays[b0].address);
                    }
                    assert forall|k: int| 0 <= k < self.relays.len() implies (
                    #[trigger] self.relays[k]).wf() by {
                        let k0 = if k < i { k } else { k + 1 };
                        assert(old(self).relays[k0].wf());
                    }
                }
            },
            None => {},
        }
        Ok(())
    }

    /// Publishes `event`. A pool without relays gives `NoRelaysConnected`
    /// and stays as it was. Otherwise the event is reported to the
    /// aggregator, so that its echo from a relay is not news, and the
    /// command that publishes it is sent to every relay, whatever becomes
    /// of it at another. The result says what became of each of these.
    pub fn send_event(&mut self, event: NostrEvent) -> (sent: Result<Published, Error>)
        requires
            old(self).wf(),
        ensures
            final(self).wf(),
            final(self)@ == old(self)@.published(event@),
            match sent {
                Err(e) => old(self)@.relays.len() == 0 && e == Error::NoRelaysConnected,
                Ok(p) => old(self)@.relays.len() > 0 && p.recorded == old(
                    self,
                )@.task.submit_report() && p.sent.len() == old(self)@.relays.len()
                    && forall|i: int|
                    0 <= i < p.sent.len() ==> #[trigger] p.sent[i] == old(
                        self,
                    )@.relays[i].send_report(),
            },
    {
        if self.relays.len() == 0 {
            return Err(Error::NoRelaysConnected);
        }
        let recorded = self.task.submit(RelayPoolEvent::EventSent(event.clone()));
        let mut sent: Vec<Result<(), Error>> = Vec::new();
        let mut i: usize = 0;
        while i < self.relays.len()
            invariant
                i <= self.relays.len(),
                self.relays.len() == old(self).relays.len(),
                self.wf(),
                self.subscription == old(self).subscription,
                self.task@ == old(self)@.task.submitted(RelayPoolEventView::EventSent(event@)),
                sent.len() == i,
                forall|k: int| 0 <= k < i ==> #[trigger] sent[k] == old(self)@.relays[k].send_report(),
                forall|k: int| 0 <= k < i ==> (#[trigger] self.relays[k])@ == old(self).relays[k]@.sent(publish_command(event@)),
                forall|k: int| i <= k < self.relays.len() ==> (#[trigger] self.relays[k]) == old(self).relays[k],
            decreases self.relays.len() - i,
        {
            let ghost before = *self;
            let report = self.relays[i].send_msg(ClientMessage::new_event(event.clone()));
            sent.push(report);
            proof {
                self.frame(&before, i as int);
            }
            i += 1;
        }
        assert(self@.relays =~= old(self)@.published(event@).relays);
        Ok(Published { recorded, sent })
    }

    /// Starts a subscription: `filters` replace the filters in force, and
    /// the subscription is issued to every relay, in the order of the
    /// pool. Relays that are not connected are passed over and get it when
    /// they next connect. The result says, relay by relay, what became of
    /// the command.
    pub fn start_sub(&mut self, filters: Vec<nostr_sdk_base::SubscriptionFilter>) -> (reports: Vec<
        Result<(), Error>,
    >)
        requires
            old(self).wf(),
        ensures
            final(self).wf(),
            final(self)@ == old(self)@.started(filters@),
            reports.len() == old(self)@.relays.len(),
            forall|i: int|
                0 <= i < reports.len() ==> #[trigger] reports[i] == old(self)@.subscribe_report(i),
    {
        self.subscription.update_filters(filters);
        let ghost begun = self@;
        let mut reports: Vec<Result<(), Error>> = Vec::new();
        let mut i: usize = 0;
        while i < self.relays.len()
            invariant
                i <= self.relays.len(),
                self.relays.len() == old(self).relays.len(),
                self.wf(),
                begun.relays == old(self)@.relays,
                self@ == begun.subscribed_up_to(i as nat),
                reports.len() == i,
                forall|k: int| 0 <= k < i ==> #[trigger] reports[k] == old(self)@.subscribe_report(k),
                forall|k: int| i <= k < self.relays.len() ==> #[trigger] self@.relays[k] == old(self)@.relays[k],
            decreases self.relays.len() - i,
        {
            let ghost was = self@;
            let report = self.subscribe_at(i);
            reports.push(report);
            assert(self@.relays.len() == was.relays.len());
            i += 1;
        }
        reports
    }

    /// Asks the aggregator to forget the events written by `public_key` or
    /// naming it in their first tag.
    pub fn remove_contact_events(&mut self, public_key: String) -> (sent: Result<(), Error>)
        requires
            old(self).wf(),
        ensures
            final(self).wf(),
            final(self)@ == old(self)@.reported(
                Some(RelayPoolEventView::RemoveContactEvents(public_key@)),
            ),
            sent == old(self)@.task.submit_report(),
    {
        self.task.submit(RelayPoolEvent::RemoveContactEvents(public_key))
    }

    /// One step of the writer loop of the relay added under `url`: see
    /// [`Relay::next_write`]. An unknown `url` gives `Stop`.
    pub fn next_write(&mut self, url: &str, idle_seconds: u64) -> (action: WriterAction)
        requires
            old(self).wf(),
        ensures
            final(self).wf(),
            old(self)@.knows(url@) ==> action@ == old(self)@.relays[old(self)@.place(
                url@,
            )].write_action(idle_seconds) && final(self)@ == old(self)@.with_relay(
                old(self)@.place(url@),
                old(self)@.relays[old(self)@.place(url@)].written(),
            ),
            !old(self)@.knows(url@) ==> action@ == WriterActionView::Stop && final(self)@ == old(self)@,
    {
        match self.position(url) {
            Some(i) => {
                let action = self.relays[i].next_write(idle_seconds);
                proof {
                    self.frame(old(self), i as int);
                }
                action
            },
            None => WriterAction::Stop,
        }
    }

    /// The keepalive ping of the relay added under `url` could not be
    /// written: see [`Relay::ping_failed`].
    pub fn ping_failed(&mut self, url: &str)
        requires
            old(self).wf(),
        ensures
            final(self).wf(),
            final(self)@ == if old(self)@.knows(url@) && old(self)@.relays[old(self)@.place(
                url@,
            )].status == RelayStatus::Connected {
                old(self)@.with_relay(
                    old(self)@.place(url@),
                    old(self)@.relays[old(self)@.place(url@)].lost(),
                )
            } else {
                old(self)@
            },
    {
        match self.position(url) {
            Some(i) => {
                self.relays[i].ping_failed();
                proof {
                    self.frame(old(self), i as int);
                    assert(self@.relays =~= old(self)@.relays.update(i as int, self.relays[i as int]@));
                    if old(self)@.relays[i as int].status != RelayStatus::Connected {
                        assert(self@.relays =~= old(self)@.relays);
                    }
                }
            },
            None => {},
        }
    }

    /// The reader loop of the relay added under `url` has read a frame:
    /// the message it holds, if any, is reported to the aggregator. The
    /// result is `ParseError` for a text or binary frame that holds no
    /// message, `QueueFull` for a message that the aggregator had no room
    /// for, and `ChannelClosed` for an unknown `url`.
    pub fn receive(&mut self, url: &str, frame: Frame) -> (report: Result<(), Error>)
        requires
            old(self).wf(),
        ensures
            final(self).wf(),
            final(self)@ == if old(self)@.knows(url@) {
                old(self)@.reported(old(self)@.relays[old(self)@.place(url@)].heard(frame))
            } else {
                old(self)@
            },
            report == if !old(self)@.knows(url@) {
                Err::<(), Error>(Error::ChannelClosed)
            } else if RelayView::garbled(frame) {
                Err::<(), Error>(Error::ParseError)
            } else if old(self)@.relays[old(self)@.place(url@)].heard(frame) is Some {
                old(self)@.task.submit_report()
            } else {
                Ok::<(), Error>(())
            },
    {
        match self.position(url) {
            Some(i) => match self.relays[i].receive(frame) {
                Ok(Some(report)) => self.task.submit(report),
                Ok(None) => Ok(()),
                Err(e) => Err(e),
            },
            None => Err(Error::ChannelClosed),
        }
    }

    /// The read stream of the relay added under `url` has ended: the loss
    /// is reported to the aggregator and the relay's writer loop is asked
    /// to close. The results say what became of the report and of the
    /// request; an unknown `url` gives `ChannelClosed` twice.
    pub fn stream_ended(&mut self, url: &str) -> (report: (Result<(), Error>, Result<(), Error>))
        requires
            old(self).wf(),
        ensures
            final(self).wf(),
            final(self)@ == if old(self)@.knows(url@) {
                let i = old(self)@.place(url@);
                old(self)@.with_relay(i, old(self)@.relays[i].sent(RelayEventView::Close)).reported(
                    Some(RelayPoolEventView::RelayDisconnected(old(self)@.relays[i].url)),
                )
            } else {
                old(self)@
            },
            report == if old(self)@.knows(url@) {
                (
                    old(self)@.task.submit_report(),
                    old(self)@.relays[old(self)@.place(url@)].send_report(),
                )
            } else {
                (Err::<(), Error>(Error::ChannelClosed), Err::<(), Error>(Error::ChannelClosed))
            },
    {
        match self.position(url) {
            Some(i) => {
                let (report, closing) = self.relays[i].stream_ended();
                proof {
                    self.frame(old(self), i as int);
                }
                let reported = self.task.submit(report);
                (reported, closing)
            },
            None => (Err(Error::ChannelClosed), Err(Error::ChannelClosed)),
        }
    }

    /// Lets the aggregator handle every report that waits, and returns the
    /// number of announcements that found the application's queue full and
    /// were dropped.
    pub fn run_task(&mut self) -> (dropped: usize)
        requires
            old(self).wf(),
        ensures
            final(self).wf(),
            final(self)@ == (PoolView { task: old(self)@.task.drained(), ..old(self)@ }),
            dropped == old(self)@.task.losses(),
    {
        self.task.run()
    }

    /// Takes out the announcements that wait for the application, oldest
    /// first.
    pub fn notifications(&mut self) -> (news: Vec<RelayPoolNotifications>)
        requires
            old(self).wf(),
        ensures
            final(self).wf(),
            news.len() == old(self)@.task.outbox.len(),
            notification_views(news@) == old(self)@.task.outbox,
            final(self)@ == (PoolView {
                task: TaskView { outbox: Seq::empty(), ..old(self)@.task },
                ..old(self)@
            }),
    {
        let mut news: Vec<RelayPoolNotifications> = Vec::new();
        assert(notification_views(news@) =~= Seq::<NotificationView>::empty());
        loop
            invariant
                self.wf(),
                self.relays == old(self).relays,
                self.subscription == old(self).subscription,
                self@.task.inbox == old(self)@.task.inbox,
                self@.task.cache == old(self)@.task.cache,
                notification_views(news@) + self@.task.outbox == old(self)@.task.outbox,
            ensures
                self.wf(),
                self.relays == old(self).relays,
                self.subscription == old(self).subscription,
                self@.task.inbox == old(self)@.task.inbox,
                self@.task.cache == old(self)@.task.cache,
                self@.task.outbox.len() == 0,
                notification_views(news@) == old(self)@.task.outbox,
            decreases self@.task.outbox.len(),
        {
            let ghost taken = notification_views(news@);
            let ghost waiting = self@.task.outbox;
            match self.task.next_notification() {
                Some(n) => {
                    news.push(n);
                    assert(notification_views(news@) =~= taken.push(waiting[0]));
                    assert(notification_views(news@) + self@.task.outbox =~= taken + waiting);
                },
                None => {
                    assert(taken + waiting =~= taken);
                    break;
                },
            }
        }
        assert(self@.task.outbox =~= Seq::empty());
        news
    }
}

} // verus!
