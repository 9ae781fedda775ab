//! The aggregator: the one place where the reports of all connections meet.
//! It remembers the events that have been seen, so that each is announced
//! once, and turns reports into announcements.

use vstd::prelude::*;
use crate::error::Error;
use crate::event::{NostrEvent, NostrEventView};
use crate::mailbox::Mailbox;
use crate::message::{RelayMessage, RelayMessageView};
use crate::pool_event::{
    NotificationView,
    RelayPoolEvent,
    RelayPoolEventView,
    RelayPoolNotifications,
};

verus! {

/// The number of reports that may wait for the aggregator.
pub const POOL_EVENT_CAPACITY: usize = 64;

/// The number of announcements that may wait for the application.
pub const NOTIFICATION_CAPACITY: usize = 64;

/// The events that have been seen, by identity.
pub type Cache = Map<Seq<char>, NostrEventView>;

/// The cache without the events written by `identity` or naming it in their
/// first tag.
pub open spec fn forget(cache: Cache, identity: Seq<char>) -> Cache {
    Map::new(
        |id: Seq<char>| cache.dom().contains(id) && !cache[id].concerns(identity),
        |id: Seq<char>| cache[id],
    )
}

/// The cache with `event` under its identity, unless that identity is
/// already there: an identity is entered once.
pub open spec fn entered(cache: Cache, event: NostrEventView) -> Cache {
    if cache.dom().contains(event.id) {
        cache
    } else {
        cache.insert(event.id, event)
    }
}

/// Whether a received event is admitted, given whether it was found
/// authentic: it was, and its identity has not been seen.
pub open spec fn admits(cache: Cache, event: NostrEventView, authentic: bool) -> bool {
    authentic && !cache.dom().contains(event.id)
}

/// The cache after a received event was found authentic or not: an
/// admitted event is entered, any other leaves the cache as it was.
pub open spec fn admitted(cache: Cache, event: NostrEventView, authentic: bool) -> Cache {
    if admits(cache, event, authentic) {
        cache.insert(event.id, event)
    } else {
        cache
    }
}

/// What is announced for a received event that was found authentic or not:
/// the event if it is admitted, nothing otherwise.
pub open spec fn admission_news(cache: Cache, event: NostrEventView, authentic: bool) -> Option<
    NotificationView,
> {
    if admits(cache, event, authentic) {
        Some(NotificationView::ReceivedEvent(event))
    } else {
        None
    }
}

/// Whether a received event is news: its signature holds and its identity
/// has not been seen.
pub open spec fn is_news(cache: Cache, event: NostrEventView) -> bool {
    admits(cache, event, event.authentic())
}

/// What the aggregator announces for one report.
pub open spec fn announce(cache: Cache, report: RelayPoolEventView) -> Option<NotificationView> {
    match report {
        RelayPoolEventView::ReceivedMsg { relay_url, msg: RelayMessageView::Event { event, subscription_id } } => {
            if is_news(cache, event) {
                Some(NotificationView::ReceivedEvent(event))
            } else {
                None
            }
        },
        RelayPoolEventView::RelayDisconnected(url) => Some(NotificationView::RelayDisconnected(url)),
        _ => None,
    }
}

/// The cache after one report.
pub open spec fn remember(cache: Cache, report: RelayPoolEventView) -> Cache {
    match report {
        RelayPoolEventView::ReceivedMsg { relay_url, msg: RelayMessageView::Event { event, subscription_id } } => {
            if is_news(cache, event) {
                cache.insert(event.id, event)
            } else {
                cache
            }
        },
        RelayPoolEventView::EventSent(event) => entered(cache, event),
        RelayPoolEventView::RemoveContactEvents(identity) => forget(cache, identity),
        _ => cache,
    }
}

/// The announcements waiting for the application after `news` was handed
/// over: it is queued where there is room and dropped where there is none.
pub open spec fn delivered(outbox: Seq<NotificationView>, news: Option<NotificationView>) -> Seq<
    NotificationView,
> {
    match news {
        Some(n) => if outbox.len() < NOTIFICATION_CAPACITY {
            outbox.push(n)
        } else {
            outbox
        },
        None => outbox,
    }
}

/// The mathematical value of a [`RelayPoolTask`].
pub struct TaskView {
    /// The reports that wait, oldest first.
    pub inbox: Seq<RelayPoolEventView>,
    /// The events seen so far.
    pub cache: Cache,
    /// The announcements that wait for the application, oldest first.
    pub outbox: Seq<NotificationView>,
}

impl TaskView {
    /// Both queues are within their capacity.
    pub open spec fn wf(self) -> bool {
        &&& self.inbox.len() <= POOL_EVENT_CAPACITY
        &&& self.outbox.len() <= NOTIFICATION_CAPACITY
    }

    /// The aggregator after `report` was submitted: queued last where there
    /// is room, dropped where there is none.
    pub open spec fn submitted(self, report: RelayPoolEventView) -> TaskView {
        if self.inbox.len() < POOL_EVENT_CAPACITY {
            TaskView { inbox: self.inbox.push(report), ..self }
        } else {
            self
        }
    }

    /// The aggregator after it has handled the oldest waiting report.
    pub open spec fn stepped(self) -> TaskView {
        if self.inbox.len() == 0 {
            self
        } else {
            TaskView {
                inbox: self.inbox.subrange(1, self.inbox.len() as int),
                cache: remember(self.cache, self.inbox[0]),
                outbox: delivered(self.outbox, announce(self.cache, self.inbox[0])),
            }
        }
    }

    /// What submitting a report reports.
    pub open spec fn submit_report(self) -> Result<(), Error> {
        if self.inbox.len() < POOL_EVENT_CAPACITY {
            Ok(())
        } else {
            Err(Error::QueueFull)
        }
    }

    /// Whether handling the oldest waiting report announces something that
    /// finds the application's queue full, and is dropped.
    pub open spec fn drops(self) -> bool {
        self.inbox.len() > 0 && announce(self.cache, self.inbox[0]) is Some && self.outbox.len()
            >= NOTIFICATION_CAPACITY
    }

    /// What handling the oldest waiting report reports: nothing where none
    /// waits, `QueueFull` where its announcement is dropped.
    pub open spec fn step_report(self) -> Option<Result<(), Error>> {
        if self.inbox.len() == 0 {
            None
        } else if self.drops() {
            Some(Err(Error::QueueFull))
        } else {
            Some(Ok(()))
        }
    }

    /// The number of announcements that are dropped while every waiting
    /// report is handled.
    pub open spec fn losses(self) -> nat
        decreases self.inbox.len(),
    {
        if self.inbox.len() == 0 {
            0
        } else if self.drops() {
            self.stepped().losses() + 1
        } else {
            self.stepped().losses()
        }
    }

    /// The aggregator after it has handled every waiting report, oldest
    /// first.
    pub open spec fn drained(self) -> TaskView
        decreases self.inbox.len(),
    {
        if self.inbox.len() == 0 {
            self
        } else {
            self.stepped().drained()
        }
    }
}

/// The views of a list of events, one by one.
pub open spec fn event_views(events: Seq<NostrEvent>) -> Seq<NostrEventView> {
    Seq::new(events.len(), |i: int| events[i]@)
}

/// The views of a queue of reports, one by one.
pub open spec fn report_views(reports: Seq<RelayPoolEvent>) -> Seq<RelayPoolEventView> {
    Seq::new(reports.len(), |i: int| reports[i]@)
}

/// The views of a queue of announcements, one by one.
pub open spec fn notification_views(notifications: Seq<RelayPoolNotifications>) -> Seq<
    NotificationView,
> {
    Seq::new(notifications.len(), |i: int| notifications[i]@)
}

/// The view of an announcement that may be missing.
pub open spec fn news_view(news: Option<RelayPoolNotifications>) -> Option<NotificationView> {
    match news {
        Some(n) => Some(n@),
        None => None,
    }
}

/// No two events of the list share an identity.
pub open spec fn distinct_ids(events: Seq<NostrEventView>) -> bool {
    forall|i: int, j: int| 0 <= i < j < events.len() ==> (#[trigger] events[i]).id != (
    #[trigger] events[j]).id
}

/// Whether `i` is a place of the list where `id` stands.
pub open spec fn stands_at(events: Seq<NostrEventView>, id: Seq<char>, i: int) -> bool {
    0 <= i < events.len() && events[i].id == id
}

/// The map from identity to event that a list of events stands for.
pub open spec fn cache_of(events: Seq<NostrEventView>) -> Cache {
    Map::new(
        |id: Seq<char>| exists|i: int| stands_at(events, id, i),
        |id: Seq<char>| events[choose|i: int| stands_at(events, id, i)],
    )
}

/// In a list without repeated identities, each event is the cache's entry
/// under its identity.
proof fn lemma_cache_at(events: Seq<NostrEventView>, i: int)
    requires
        distinct_ids(events),
        0 <= i < events.len(),
    ensures
        cache_of(events).dom().contains(events[i].id),
        cache_of(events)[events[i].id] == events[i],
{
    let id = events[i].id;
    assert(stands_at(events, id, i));
    let j = choose|j: int| stands_at(events, id, j);
    assert(stands_at(events, id, j));
    if i < j {
        assert(events[i].id != events[j].id);
    } else if j < i {
        assert(events[j].id != events[i].id);
    }
}

/// Appending an event with a new identity enters it in the cache.
proof fn lemma_cache_push(events: Seq<NostrEventView>, event: NostrEventView)
    requires
        distinct_ids(events),
        !cache_of(events).dom().contains(event.id),
    ensures
        distinct_ids(events.push(event)),
        cache_of(events.push(event)) == cache_of(events).insert(event.id, event),
{
    let more = events.push(event);
    assert forall|i: int, j: int| 0 <= i < j < more.len() implies (#[trigger] more[i]).id != (
    #[trigger] more[j]).id by {
        if j == events.len() {
            assert(stands_at(events, more[i].id, i));
        } else {
            assert(events[i].id != events[j].id);
        }
    }
    assert forall|id: Seq<char>|
        cache_of(more).dom().contains(id) <==> cache_of(events).insert(
            event.id,
            event,
        ).dom().contains(id) by {
        if cache_of(more).dom().contains(id) {
            let i = choose|i: int| stands_at(more, id, i);
            if i < events.len() {
                assert(stands_at(events, id, i));
            }
        }
        if cache_of(events).dom().contains(id) {
            let i = choose|i: int| stands_at(events, id, i);
            assert(stands_at(more, id, i));
        }
        if id == event.id {
            assert(stands_at(more, id, events.len() as int));
        }
    }
    assert forall|id: Seq<char>| cache_of(more).dom().contains(id) implies cache_of(more)[id]
        == cache_of(events).insert(event.id, event)[id] by {
        let i = choose|i: int| stands_at(more, id, i);
        lemma_cache_at(more, i);
        if i < events.len() {
            lemma_cache_at(events, i);
        }
    }
    assert(cache_of(more) =~= cache_of(events).insert(event.id, event));
}

/// Whether `event` stands in `before` at or after place `from` and does
/// not concern `identity`.
pub open spec fn survives(before: Seq<NostrEventView>, from: int, identity: Seq<char>, event: NostrEventView) -> bool {
    exists|j: int|
        from <= j < before.len() && #[trigger] before[j] == event && !event.concerns(identity)
}

/// Whether `event` stands in the list.
pub open spec fn lists(events: Seq<NostrEventView>, event: NostrEventView) -> bool {
    exists|k: int| 0 <= k < events.len() && #[trigger] events[k] == event
}

/// `kept` holds, without a repeated identity, exactly the events of `before`
/// from place `from` on that do not concern `identity`.
pub open spec fn sifted(before: Seq<NostrEventView>, from: int, identity: Seq<char>, kept: Seq<NostrEventView>) -> bool {
    &&& distinct_ids(kept)
    &&& forall|k: int| 0 <= k < kept.len() ==> survives(before, from, identity, #[trigger] kept[k])
    &&& forall|j: int|
        from <= j < before.len() && !(#[trigger] before[j]).concerns(identity) ==> lists(
            kept,
            before[j],
        )
}

/// Sifting one more event, the one before place `from`.
proof fn lemma_sift_step(before: Seq<NostrEventView>, from: int, identity: Seq<char>, kept: Seq<NostrEventView>)
    requires
        distinct_ids(before),
        0 < from <= before.len(),
        sifted(before, from, identity, kept),
    ensures
        before[from - 1].concerns(identity) ==> sifted(before, from - 1, identity, kept),
        !before[from - 1].concerns(identity) ==> sifted(
            before,
            from - 1,
            identity,
            kept.push(before[from - 1]),
        ),
{
    let event = before[from - 1];
    assert forall|k: int| 0 <= k < kept.len() implies survives(
        before,
        from - 1,
        identity,
        #[trigger] kept[k],
    ) by {
        assert(survives(before, from, identity, kept[k]));
        let j = choose|j: int|
            from <= j < before.len() && #[trigger] before[j] == kept[k] && !kept[k].concerns(
                identity,
            );
        assert(from - 1 <= j < before.len() && before[j] == kept[k]);
    }
    if event.concerns(identity) {
        assert forall|j: int|
            from - 1 <= j < before.len() && !(#[trigger] before[j]).concerns(
                identity,
            ) implies lists(kept, before[j]) by {
            assert(j != from - 1);
        }
    } else {
        let more = kept.push(event);
        assert forall|i: int, j: int| 0 <= i < j < more.len() implies (#[trigger] more[i]).id != (
        #[trigger] more[j]).id by {
            if j == kept.len() {
                assert(survives(before, from, identity, kept[i]));
                let m = choose|m: int|
                    from <= m < before.len() && #[trigger] before[m] == kept[i]
                        && !kept[i].concerns(identity);
                assert(before[from - 1].id != before[m].id);
            } else {
                assert(kept[i].id != kept[j].id);
            }
        }
        assert forall|k: int| 0 <= k < more.len() implies survives(
            before,
            from - 1,
            identity,
            #[trigger] more[k],
        ) by {
            if k < kept.len() {
                assert(survives(before, from - 1, identity, kept[k]));
            } else {
                assert(before[from - 1] == more[k]);
            }
        }
        assert forall|j: int|
            from - 1 <= j < before.len() && !(#[trigger] before[j]).concerns(
                identity,
            ) implies lists(more, before[j]) by {
            if j == from - 1 {
                assert(more[kept.len() as int] == before[j]);
            } else {
                assert(lists(kept, before[j]));
                let k = choose|k: int| 0 <= k < kept.len() && #[trigger] kept[k] == before[j];
                assert(more[k] == before[j]);
            }
        }
    }
}

/// A list sifted from its first place on stands for the cache without the
/// events that concern the identity.
proof fn lemma_sift_done(before: Seq<NostrEventView>, identity: Seq<char>, kept: Seq<NostrEventView>)
    requires
        distinct_ids(before),
        sifted(before, 0, identity, kept),
    ensures
        cache_of(kept) == forget(cache_of(before), identity),
{
    let was = cache_of(before);
    assert forall|id: Seq<char>| cache_of(kept).dom().contains(id) <==> forget(
        was,
        identity,
    ).dom().contains(id) by {
        if cache_of(kept).dom().contains(id) {
            let k = choose|k: int| stands_at(kept, id, k);
            assert(stands_at(kept, id, k));
            assert(survives(before, 0, identity, kept[k]));
            let j = choose|j: int|
                0 <= j < before.len() && #[trigger] before[j] == kept[k] && !kept[k].concerns(
                    identity,
                );
            lemma_cache_at(before, j);
        }
        if forget(was, identity).dom().contains(id) {
            let j = choose|j: int| stands_at(before, id, j);
            assert(stands_at(before, id, j));
            lemma_cache_at(before, j);
            assert(lists(kept, before[j]));
            let k = choose|k: int| 0 <= k < kept.len() && #[trigger] kept[k] == before[j];
            assert(stands_at(kept, id, k));
        }
    }
    assert forall|id: Seq<char>| cache_of(kept).dom().contains(id) implies cache_of(kept)[id]
        == forget(was, identity)[id] by {
        let k = choose|k: int| stands_at(kept, id, k);
        assert(stands_at(kept, id, k));
        lemma_cache_at(kept, k);
        assert(survives(before, 0, identity, kept[k]));
        let j = choose|j: int|
            0 <= j < before.len() && #[trigger] before[j] == kept[k] && !kept[k].concerns(identity);
        lemma_cache_at(before, j);
    }
    assert(cache_of(kept) =~= forget(was, identity));
}

/// The aggregator of a pool.
pub struct RelayPoolTask {
    inbox: Mailbox<RelayPoolEvent>,
    outbox: Mailbox<RelayPoolNotifications>,
    events: Vec<NostrEvent>,
}

impl View for RelayPoolTask {
    type V = TaskView;

    closed spec fn view(&self) -> TaskView {
        TaskView {
            inbox: report_views(self.inbox@),
            cache: cache_of(event_views(self.events@)),
            outbox: notification_views(self.outbox@),
        }
    }
}

impl RelayPoolTask {
    /// The queues have their capacities and no identity is cached twice.
    pub closed spec fn wf(&self) -> bool {
        &&& self@.wf()
        &&& self.inbox.capacity() == POOL_EVENT_CAPACITY
        &&& self.outbox.capacity() == NOTIFICATION_CAPACITY
        &&& distinct_ids(event_views(self.events@))
    }

    /// What a well-formed aggregator's value satisfies.
    pub proof fn lemma_wf(&self)
        requires
            self.wf(),
        ensures
            self@.wf(),
    {
    }

    /// An aggregator that has seen nothing and has nothing waiting.
    pub fn new() -> (task: RelayPoolTask)
        ensures
            task.wf(),
            task@ == (TaskView { inbox: Seq::empty(), cache: Map::empty(), outbox: Seq::empty() }),
    {
        let task = RelayPoolTask {
            inbox: Mailbox::new(POOL_EVENT_CAPACITY),
            outbox: Mailbox::new(NOTIFICATION_CAPACITY),
            events: Vec::new(),
        };
        assert(task@.inbox =~= Seq::empty());
        assert(task@.outbox =~= Seq::empty());
        assert(task@.cache =~= Map::empty());
        task
    }

    /// Where in the list the event with identity `id` stands.
    fn position(&self, id: &String) -> (place: Option<usize>)
        ensures
            match place {
                Some(i) => stands_at(event_views(self.events@), id@, i as int),
                None => !self@.cache.dom().contains(id@),
            },
    {
        let mut i: usize = 0;
        while i < self.events.len()
            invariant
                i <= self.events.len(),
                forall|k: int| 0 <= k < i ==> !stands_at(event_views(self.events@), id@, k),
            decreases self.events.len() - i,
        {
            if self.events[i].id == *id {
                return Some(i);
            }
            i += 1;
        }
        None
    }

    /// Whether an event with identity `id` has been seen.
    pub fn contains(&self, id: &String) -> (seen: bool)
        ensures
            seen == self@.cache.dom().contains(id@),
    {
        match self.position(id) {
            Some(i) => {
                assert(stands_at(event_views(self.events@), id@, i as int));
                true
            },
            None => false,
        }
    }

    /// The number of events that have been seen and not forgotten.
    pub fn cached(&self) -> (n: usize)
        requires
            self.wf(),
        ensures
            n == self@.cache.dom().len(),
            self@.cache.dom().finite(),
    {
        proof {
            lemma_cache_len(event_views(self.events@));
        }
        self.events.len()
    }

    /// Enters an event whose identity is new.
    fn enter(&mut self, event: NostrEvent)
        requires
            old(self).wf(),
            !old(self)@.cache.dom().contains(event@.id),
        ensures
            final(self).wf(),
            final(self)@ == (TaskView {
                cache: old(self)@.cache.insert(event@.id, event@),
                ..old(self)@
            }),
    {
        proof {
            lemma_cache_push(event_views(self.events@), event@);
        }
        self.events.push(event);
        assert(event_views(self.events@) =~= event_views(old(self).events@).push(event@));
    }

    /// Drops the events written by `identity` or naming it in their first
    /// tag.
    fn purge(&mut self, identity: &String)
        requires
            old(self).wf(),
        ensures
            final(self).wf(),
            final(self)@ == (TaskView {
                cache: forget(old(self)@.cache, identity@),
                ..old(self)@
            }),
    {
        let ghost before = event_views(self.events@);
        let mut rest: Vec<NostrEvent> = Vec::new();
        std::mem::swap(&mut self.events, &mut rest);
        assert(event_views(rest@) =~= before.take(rest.len() as int));
        while rest.len() > 0
            invariant
                self.inbox == old(self).inbox,
                self.outbox == old(self).outbox,
                distinct_ids(before),
                rest.len() <= before.len(),
                event_views(rest@) == before.take(rest.len() as int),
                sifted(before, rest.len() as int, identity@, event_views(self.events@)),
            decreases rest.len(),
        {
            let ghost kept = event_views(self.events@);
            let ghost n = rest.len() as int;
            let ghost full = event_views(rest@);
            let event = rest.pop().unwrap();
            assert(event@ == before[n - 1]) by {
                assert(full[n - 1] == before.take(n)[n - 1]);
            }
            assert(event_views(rest@) =~= before.take(n - 1)) by {
                assert forall|i: int| 0 <= i < n - 1 implies event_views(rest@)[i] == before[i] by {
                    assert(full[i] == before.take(n)[i]);
                }
            }
            proof {
                lemma_sift_step(before, n, identity@, kept);
            }
            if !event.concerns(identity) {
                self.events.push(event);
                assert(event_views(self.events@) =~= kept.push(event@));
            }
        }
        proof {
            lemma_sift_done(before, identity@, event_views(self.events@));
        }
    }

    /// Takes in a received event, given whether it was found authentic: an
    /// authentic event with a new identity is entered in the cache and
    /// announced; any other is dropped.
    pub fn take_in(&mut self, event: NostrEvent, authentic: bool) -> (news: Option<
        RelayPoolNotifications,
    >)
        requires
            old(self).wf(),
        ensures
            final(self).wf(),
            news_view(news) == admission_news(old(self)@.cache, event@, authentic),
            final(self)@ == (TaskView {
                cache: admitted(old(self)@.cache, event@, authentic),
                ..old(self)@
            }),
    {
        if authentic && !self.contains(&event.id) {
            let copy = event.clone();
            self.enter(event);
            Some(RelayPoolNotifications::ReceivedEvent(copy))
        } else {
            None
        }
    }

    /// Handles one report: a received event is verified, entered in the
    /// cache and announced if it is news; a published event is entered
    /// without a word; a purge forgets the events of one identity; the loss
    /// of a relay is announced. Neither queue is touched.
    pub fn handle_message(&mut self, report: RelayPoolEvent) -> (news: Option<RelayPoolNotifications>)
        requires
            old(self).wf(),
        ensures
            final(self).wf(),
            news_view(news) == announce(old(self)@.cache, report@),
            final(self)@ == (TaskView {
                cache: remember(old(self)@.cache, report@),
                ..old(self)@
            }),
    {
        match report {
            RelayPoolEvent::ReceivedMsg { relay_url: _, msg } => match msg {
                RelayMessage::Event { event, subscription_id: _ } => {
                    let authentic = event.verify().is_ok();
                    self.take_in(event, authentic)
                },
                _ => None,
            },
            RelayPoolEvent::EventSent(event) => {
                if !self.contains(&event.id) {
                    self.enter(event);
                }
                None
            },
            RelayPoolEvent::RemoveContactEvents(identity) => {
                self.purge(&identity);
                None
            },
            RelayPoolEvent::RelayDisconnected(url) => Some(
                RelayPoolNotifications::RelayDisconnected(url),
            ),
        }
    }

    /// Hands a report to the aggregator. It waits behind the earlier ones;
    /// with 64 already waiting it is dropped and `QueueFull` reported.
    pub fn submit(&mut self, report: RelayPoolEvent) -> (sent: Result<(), Error>)
        requires
            old(self).wf(),
        ensures
            final(self).wf(),
            final(self)@ == old(self)@.submitted(report@),
            sent == old(self)@.submit_report(),
    {
        let sent = self.inbox.try_send(report);
        assert(self@.inbox =~= old(self)@.submitted(report@).inbox);
        sent
    }

    /// Handles the oldest waiting report, if there is one, and queues what
    /// it announces. The result is `None` where nothing waited, and says
    /// otherwise whether the announcement found room: one that finds the
    /// queue full is dropped, with `QueueFull`.
    pub fn step(&mut self) -> (handled: Option<Result<(), Error>>)
        requires
            old(self).wf(),
        ensures
            final(self).wf(),
            handled == old(self)@.step_report(),
            final(self)@ == old(self)@.stepped(),
    {
        match self.inbox.try_recv() {
            None => {
                assert(self@.inbox =~= old(self)@.inbox);
                None
            },
            Some(report) => {
                assert(report@ == old(self)@.inbox[0]);
                assert(self@.inbox =~= old(self)@.stepped().inbox);
                let ghost outbox = self@.outbox;
                match self.handle_message(report) {
                    Some(news) => {
                        let sent = self.outbox.try_send(news);
                        assert(self@.outbox =~= delivered(outbox, Some(news@)));
                        Some(sent)
                    },
                    None => Some(Ok(())),
                }
            },
        }
    }

    /// Handles every waiting report, oldest first, and returns the number
    /// of announcements that found the application's queue full and were
    /// dropped.
    pub fn run(&mut self) -> (dropped: usize)
        requires
            old(self).wf(),
        ensures
            final(self).wf(),
            final(self)@ == old(self)@.drained(),
            dropped == old(self)@.losses(),
    {
        let mut dropped: usize = 0;
        proof {
            old(self).lemma_wf();
        }
        loop
            invariant
                self.wf(),
                self@.drained() == old(self)@.drained(),
                dropped + self@.losses() == old(self)@.losses(),
                dropped + self@.inbox.len() <= old(self)@.inbox.len(),
                old(self)@.inbox.len() <= POOL_EVENT_CAPACITY,
            ensures
                self.wf(),
                self@ == old(self)@.drained(),
                dropped == old(self)@.losses(),
            decreases self@.inbox.len(),
        {
            match self.step() {
                None => {
                    break;
                },
                Some(Ok(_)) => {},
                Some(Err(_)) => {
                    dropped += 1;
                },
            }
        }
        dropped
    }

    /// Takes the oldest waiting announcement, if there is one.
    pub fn next_notification(&mut self) -> (news: Option<RelayPoolNotifications>)
        requires
            old(self).wf(),
        ensures
            final(self).wf(),
            old(self)@.outbox.len() == 0 ==> news is None && final(self)@ == old(self)@,
            old(self)@.outbox.len() > 0 ==> news_view(news) == Some(old(self)@.outbox[0])
                && final(self)@ == (TaskView {
                outbox: old(self)@.outbox.subrange(1, old(self)@.outbox.len() as int),
                ..old(self)@
            }),
    {
        let news = self.outbox.try_recv();
        proof {
            if old(self)@.outbox.len() == 0 {
                assert(self@.outbox =~= old(self)@.outbox);
            } else {
                assert(self@.outbox =~= old(self)@.outbox.subrange(
                    1,
                    old(self)@.outbox.len() as int,
                ));
            }
        }
        news
    }
}

/// A list without repeated identities stands for a cache with as many
/// entries as the list is long.
proof fn lemma_cache_len(events: Seq<NostrEventView>)
    requires
        distinct_ids(events),
    ensures
        cache_of(events).dom().finite(),
        cache_of(events).dom().len() == events.len(),
    decreases events.len(),
{
    if events.len() == 0 {
        assert(cache_of(events).dom() =~= Set::<Seq<char>>::empty());
    } else {
        let front = events.drop_last();
        let last = events.last();
        assert(distinct_ids(front)) by {
            assert forall|i: int, j: int| 0 <= i < j < front.len() implies (#[trigger] front[i]).id
                != (#[trigger] front[j]).id by {
                assert(events[i].id != events[j].id);
            }
        }
        lemma_cache_len(front);
        if cache_of(front).dom().contains(last.id) {
            let i = choose|i: int| stands_at(front, last.id, i);
            assert(stands_at(front, last.id, i));
            assert(events[i].id != events[events.len() - 1].id);
        }
        lemma_cache_push(front, last);
        assert(front.push(last) =~= events);
    }
}

} // verus!
