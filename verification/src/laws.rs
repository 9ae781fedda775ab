//! What holds of the pool as a whole, stated over the values of its parts
//! and proved from their definitions.

use vstd::prelude::*;
use crate::event::NostrEventView;
use crate::message::RelayMessageView;
use crate::pool::{PoolView, open_command, publish_command};
use crate::pool_event::{NotificationView, RelayPoolEventView};
use crate::relay::{COMMAND_QUEUE_CAPACITY, RelayEventView, RelayView};
use crate::status::RelayStatus;
use crate::task::{Cache, NOTIFICATION_CAPACITY, TaskView, announce, forget, remember};

verus! {

/// The cache and the announcements, oldest first, after the aggregator has
/// handled `reports` in order, starting from `cache`, with room for every
/// announcement.
pub open spec fn replay(cache: Cache, reports: Seq<RelayPoolEventView>) -> (Cache, Seq<NotificationView>)
    decreases reports.len(),
{
    if reports.len() == 0 {
        (cache, Seq::empty())
    } else {
        let rest = replay(remember(cache, reports[0]), reports.drop_first());
        match announce(cache, reports[0]) {
            Some(news) => (rest.0, seq![news] + rest.1),
            None => rest,
        }
    }
}

/// How often an event with identity `id` is announced.
pub open spec fn times_announced(news: Seq<NotificationView>, id: Seq<char>) -> nat
    decreases news.len(),
{
    if news.len() == 0 {
        0
    } else {
        let rest = times_announced(news.drop_first(), id);
        match news[0] {
            NotificationView::ReceivedEvent(event) => if event.id == id {
                rest + 1
            } else {
                rest
            },
            _ => rest,
        }
    }
}

/// How often `event` itself is announced.
pub open spec fn times_event_announced(news: Seq<NotificationView>, event: NostrEventView) -> nat
    decreases news.len(),
{
    if news.len() == 0 {
        0
    } else {
        let rest = times_event_announced(news.drop_first(), event);
        if news[0] == NotificationView::ReceivedEvent(event) {
            rest + 1
        } else {
            rest
        }
    }
}

/// The report of `event` received from the relay at `relay_url` on channel
/// `subscription_id`.
pub open spec fn receipt(relay_url: Seq<char>, subscription_id: Seq<char>, event: NostrEventView) -> RelayPoolEventView {
    RelayPoolEventView::ReceivedMsg {
        relay_url,
        msg: RelayMessageView::Event { event, subscription_id },
    }
}

/// The event that a report carries, if it is the report of a received
/// event.
pub open spec fn carried(report: RelayPoolEventView) -> Option<NostrEventView> {
    match report {
        RelayPoolEventView::ReceivedMsg { relay_url, msg: RelayMessageView::Event { event, subscription_id } } => Some(event),
        _ => None,
    }
}

/// Whether a report carries a validly signed event with identity `id`.
pub open spec fn brings(report: RelayPoolEventView, id: Seq<char>) -> bool {
    match carried(report) {
        Some(event) => event.id == id && event.authentic(),
        None => false,
    }
}

/// Whether no report asks for a purge.
pub open spec fn never_purged(reports: Seq<RelayPoolEventView>) -> bool {
    forall|i: int| 0 <= i < reports.len() ==> !((#[trigger] reports[i]) is RemoveContactEvents)
}

/// Whether a report says that an event with identity `id` was published
/// here.
pub open spec fn publishes(report: RelayPoolEventView, id: Seq<char>) -> bool {
    match report {
        RelayPoolEventView::EventSent(event) => event.id == id,
        _ => false,
    }
}

/// Whether no report says that an event with identity `id` was published
/// here.
pub open spec fn never_published(reports: Seq<RelayPoolEventView>, id: Seq<char>) -> bool {
    forall|i: int| 0 <= i < reports.len() ==> !publishes(#[trigger] reports[i], id)
}

/// Whether some report carries a validly signed event with identity `id`.
pub open spec fn some_brings(reports: Seq<RelayPoolEventView>, id: Seq<char>) -> bool {
    exists|i: int| 0 <= i < reports.len() && brings(#[trigger] reports[i], id)
}

/// Whether every validly signed event with the identity of `event` that the
/// reports carry is `event` itself.
pub open spec fn only_brings(reports: Seq<RelayPoolEventView>, event: NostrEventView) -> bool {
    forall|i: int|
        0 <= i < reports.len() && brings(#[trigger] reports[i], event.id) ==> carried(reports[i])
            == Some(event)
}

/// Counting the announcements of an identity, one announcement first.
proof fn lemma_times_prepend(first: NotificationView, later: Seq<NotificationView>, id: Seq<char>)
    ensures
        times_announced(seq![first] + later, id) == times_announced(seq![first], id)
            + times_announced(later, id),
        times_announced(seq![first], id) == (if first matches NotificationView::ReceivedEvent(e)
            && e.id == id {
            1nat
        } else {
            0nat
        }),
{
    let all = seq![first] + later;
    assert(all.drop_first() =~= later);
    assert(seq![first].drop_first() =~= Seq::<NotificationView>::empty());
    assert(times_announced(Seq::<NotificationView>::empty(), id) == 0);
}

/// Counting the announcements of an event, one announcement first.
proof fn lemma_event_times_prepend(first: NotificationView, later: Seq<NotificationView>, event: NostrEventView)
    ensures
        times_event_announced(seq![first] + later, event) == times_event_announced(later, event)
            + (if first == NotificationView::ReceivedEvent(event) {
            1nat
        } else {
            0nat
        }),
{
    let all = seq![first] + later;
    assert(all.drop_first() =~= later);
}

/// What reports without a purge do to one identity: a known one stays
/// known and is not announced; an unknown one is announced at most once,
/// and exactly once, and known from then on, if a validly signed event
/// brings it and it is never published here.
proof fn lemma_replay_identity(cache: Cache, reports: Seq<RelayPoolEventView>, id: Seq<char>)
    requires
        never_purged(reports),
    ensures
        cache.dom().contains(id) ==> times_announced(replay(cache, reports).1, id) == 0 && replay(
            cache,
            reports,
        ).0.dom().contains(id),
        times_announced(replay(cache, reports).1, id) <= 1,
        !cache.dom().contains(id) && some_brings(reports, id) && never_published(reports, id)
            ==> times_announced(replay(cache, reports).1, id) == 1 && replay(
            cache,
            reports,
        ).0.dom().contains(id),
    decreases reports.len(),
{
    if reports.len() > 0 {
        let first = reports[0];
        let later = reports.drop_first();
        let next = remember(cache, first);
        assert(!(first is RemoveContactEvents));
        assert(never_purged(later)) by {
            assert forall|i: int| 0 <= i < later.len() implies !((
            #[trigger] later[i]) is RemoveContactEvents) by {
                assert(later[i] == reports[i + 1]);
            }
        }
        lemma_replay_identity(next, later, id);
        let rest = replay(next, later);
        if never_published(reports, id) {
            assert(!publishes(first, id));
            assert(never_published(later, id)) by {
                assert forall|i: int| 0 <= i < later.len() implies !publishes(
                    #[trigger] later[i],
                    id,
                ) by {
                    assert(later[i] == reports[i + 1]);
                }
            }
        }
        if some_brings(reports, id) && !brings(first, id) {
            let i = choose|i: int| 0 <= i < reports.len() && brings(#[trigger] reports[i], id);
            assert(i > 0);
            assert(later[i - 1] == reports[i]);
            assert(some_brings(later, id));
        }
        match announce(cache, first) {
            Some(news) => {
                lemma_times_prepend(news, rest.1, id);
            },
            None => {},
        }
    }
}

/// Where every validly signed event of an identity is the same event,
/// each announcement of that identity announces that event.
proof fn lemma_replay_event(cache: Cache, reports: Seq<RelayPoolEventView>, event: NostrEventView)
    requires
        only_brings(reports, event),
    ensures
        times_event_announced(replay(cache, reports).1, event) == times_announced(
            replay(cache, reports).1,
            event.id,
        ),
    decreases reports.len(),
{
    if reports.len() > 0 {
        let first = reports[0];
        let later = reports.drop_first();
        let next = remember(cache, first);
        assert(only_brings(later, event)) by {
            assert forall|i: int|
                0 <= i < later.len() && brings(#[trigger] later[i], event.id) implies carried(
                later[i],
            ) == Some(event) by {
                assert(later[i] == reports[i + 1]);
            }
        }
        lemma_replay_event(next, later, event);
        let rest = replay(next, later);
        match announce(cache, first) {
            Some(news) => {
                lemma_times_prepend(news, rest.1, event.id);
                lemma_event_times_prepend(news, rest.1, event);
                if news matches NotificationView::ReceivedEvent(e) && e.id == event.id {
                    assert(brings(first, event.id));
                }
            },
            None => {},
        }
    }
}

/// Running the aggregator replays its inbox: it ends with nothing waiting,
/// with the cache that the reports leave, and, where the application's
/// queue has room for them, with every announcement queued in order.
pub proof fn law_run_replays_inbox(task: TaskView)
    requires
        task.outbox.len() + replay(task.cache, task.inbox).1.len() <= NOTIFICATION_CAPACITY,
    ensures
        task.drained() == (TaskView {
            inbox: Seq::empty(),
            cache: replay(task.cache, task.inbox).0,
            outbox: task.outbox + replay(task.cache, task.inbox).1,
        }),
    decreases task.inbox.len(),
{
    if task.inbox.len() == 0 {
        assert(task.inbox =~= Seq::empty());
        assert(task.outbox + Seq::<NotificationView>::empty() =~= task.outbox);
    } else {
        let next = task.stepped();
        assert(next.inbox =~= task.inbox.drop_first());
        let rest = replay(next.cache, next.inbox);
        match announce(task.cache, task.inbox[0]) {
            Some(news) => {
                assert((seq![news] + rest.1).len() == rest.1.len() + 1);
                assert(next.outbox + rest.1 =~= task.outbox + (seq![news] + rest.1));
            },
            None => {},
        }
        law_run_replays_inbox(next);
    }
}

/// An event is announced once. Whatever is reported, in whatever order,
/// short of a purge and of the event's own publication here: if the
/// identity of `event` is not known yet, `event` carries a valid signature
/// and is received at least once, and no other validly signed event claims
/// its identity, then `event` is announced exactly once, and nothing else
/// is announced under its identity.
pub proof fn law_received_event_announced_once(
    cache: Cache,
    reports: Seq<RelayPoolEventView>,
    event: NostrEventView,
)
    requires
        never_purged(reports),
        never_published(reports, event.id),
        !cache.dom().contains(event.id),
        event.authentic(),
        exists|i: int, relay_url: Seq<char>, subscription_id: Seq<char>|
            0 <= i < reports.len() && #[trigger] reports[i] == #[trigger] receipt(
                relay_url,
                subscription_id,
                event,
            ),
        only_brings(reports, event),
    ensures
        times_event_announced(replay(cache, reports).1, event) == 1,
        times_announced(replay(cache, reports).1, event.id) == 1,
        replay(cache, reports).0.dom().contains(event.id),
{
    let (i, relay_url, subscription_id) = choose|
        i: int,
        relay_url: Seq<char>,
        subscription_id: Seq<char>,
    |
        0 <= i < reports.len() && #[trigger] reports[i] == #[trigger] receipt(
            relay_url,
            subscription_id,
            event,
        );
    assert(brings(reports[i], event.id));
    lemma_replay_identity(cache, reports, event.id);
    lemma_replay_event(cache, reports, event);
}

/// Counting the announcements of an event in two lists, one after the
/// other.
proof fn lemma_event_times_append(
    before: Seq<NotificationView>,
    after: Seq<NotificationView>,
    event: NostrEventView,
)
    ensures
        times_event_announced(before + after, event) == times_event_announced(before, event)
            + times_event_announced(after, event),
    decreases before.len(),
{
    if before.len() == 0 {
        assert(before + after =~= after);
    } else {
        assert((before + after).drop_first() =~= before.drop_first() + after);
        lemma_event_times_append(before.drop_first(), after, event);
    }
}

/// No more is announced than is reported.
proof fn lemma_replay_length(cache: Cache, reports: Seq<RelayPoolEventView>)
    ensures
        replay(cache, reports).1.len() <= reports.len(),
    decreases reports.len(),
{
    if reports.len() > 0 {
        lemma_replay_length(remember(cache, reports[0]), reports.drop_first());
    }
}

/// A run of the aggregator announces a received event once. If the
/// identity of `event` is not known yet, the waiting reports hold `event`,
/// validly signed, at least once, hold no purge, no publication of `event`
/// here and no other validly signed event of its identity, and the
/// application's queue has room for as many announcements as reports wait,
/// then after the run the queue holds `event` exactly once more than
/// before, nothing is left waiting, and the identity is known.
pub proof fn law_run_announces_received_event_once(task: TaskView, event: NostrEventView)
    requires
        task.outbox.len() + task.inbox.len() <= NOTIFICATION_CAPACITY,
        never_purged(task.inbox),
        never_published(task.inbox, event.id),
        !task.cache.dom().contains(event.id),
        event.authentic(),
        exists|i: int, relay_url: Seq<char>, subscription_id: Seq<char>|
            0 <= i < task.inbox.len() && #[trigger] task.inbox[i] == #[trigger] receipt(
                relay_url,
                subscription_id,
                event,
            ),
        only_brings(task.inbox, event),
    ensures
        task.drained().inbox.len() == 0,
        task.drained().cache.dom().contains(event.id),
        times_event_announced(task.drained().outbox, event) == times_event_announced(
            task.outbox,
            event,
        ) + 1,
        task.losses() == 0,
{
    lemma_replay_length(task.cache, task.inbox);
    law_run_replays_inbox(task);
    law_received_event_announced_once(task.cache, task.inbox, event);
    lemma_event_times_append(task.outbox, replay(task.cache, task.inbox).1, event);
    lemma_no_losses(task);
}

/// With room for as many announcements as reports wait, a run drops none.
proof fn lemma_no_losses(task: TaskView)
    requires
        task.outbox.len() + task.inbox.len() <= NOTIFICATION_CAPACITY,
    ensures
        task.losses() == 0,
    decreases task.inbox.len(),
{
    if task.inbox.len() > 0 {
        lemma_no_losses(task.stepped());
    }
}

/// An identity is announced at most once: whatever is reported short of a
/// purge, no two announcements carry the same identity, and an identity
/// that is already known is not announced at all.
pub proof fn law_identity_announced_at_most_once(
    cache: Cache,
    reports: Seq<RelayPoolEventView>,
    id: Seq<char>,
)
    requires
        never_purged(reports),
    ensures
        times_announced(replay(cache, reports).1, id) <= 1,
        cache.dom().contains(id) ==> times_announced(replay(cache, reports).1, id) == 0,
{
    lemma_replay_identity(cache, reports, id);
}

/// The echo of a published event is not news: once `event` was published
/// here, nothing that is reported short of a purge makes the aggregator
/// announce its identity.
pub proof fn law_local_echo_is_silent(
    cache: Cache,
    event: NostrEventView,
    reports: Seq<RelayPoolEventView>,
)
    requires
        never_purged(reports),
    ensures
        times_announced(
            replay(cache, seq![RelayPoolEventView::EventSent(event)] + reports).1,
            event.id,
        ) == 0,
        replay(cache, seq![RelayPoolEventView::EventSent(event)] + reports).1 == replay(
            remember(cache, RelayPoolEventView::EventSent(event)),
            reports,
        ).1,
{
    let published = RelayPoolEventView::EventSent(event);
    let all = seq![published] + reports;
    assert(all.drop_first() =~= reports);
    assert(all[0] == published);
    lemma_replay_identity(remember(cache, published), reports, event.id);
}

/// The status machine. Every step that a relay takes leaves its status
/// where it was or moves it along one arrow of the machine; an attempt to
/// connect never ends in `Connecting`, and a failed one ends in
/// `Disconnected`.
pub proof fn law_status_machine(
    relay: RelayView,
    status: RelayStatus,
    up: bool,
    command: RelayEventView,
)
    ensures
        relay.status.may_become(relay.moved_to(status).status),
        relay.status.may_become(relay.dialing().status),
        relay.status.may_become(relay.settled(up).status),
        relay.status.may_become(relay.sent(command).status),
        relay.status.may_become(relay.written().status),
        relay.status == RelayStatus::Connected ==> relay.status.may_become(relay.lost().status),
        relay.status == RelayStatus::Connecting ==> relay.settled(up).status
            != RelayStatus::Connecting,
        relay.status == RelayStatus::Connecting ==> relay.settled(false).status
            == RelayStatus::Disconnected,
        relay.status == RelayStatus::Disconnected ==> relay.dialing().settled(false).status
            == RelayStatus::Disconnected,
        relay.wf() ==> relay.moved_to(status).wf() && relay.dialing().wf() && relay.settled(
            up,
        ).wf() && relay.sent(command).wf() && relay.written().wf() && relay.lost().wf(),
{
}

/// Publishing reaches every relay. Each relay of the pool is sent the
/// command that publishes the event, whatever the state of the others: a
/// connected relay with room has it last in its queue.
pub proof fn law_publish_reaches_every_relay(pool: PoolView, event: NostrEventView, i: int)
    requires
        0 <= i < pool.relays.len(),
    ensures
        pool.published(event).relays.len() == pool.relays.len(),
        pool.published(event).relays[i] == pool.relays[i].sent(publish_command(event)),
        pool.relays[i].accepts() ==> pool.published(event).relays[i].pending
            == pool.relays[i].pending.push(publish_command(event)),
{
}

/// Publishing on a pool without relays changes nothing: no report reaches
/// the aggregator.
pub proof fn law_publish_without_relays(pool: PoolView, event: NostrEventView)
    requires
        pool.relays.len() == 0,
    ensures
        pool.published(event) == pool,
{
}

/// A purge forgets exactly the events of one identity: nothing that is
/// left was written by it or names it in its first tag, everything else is
/// left as it was, and a forgotten event that is received again is news.
pub proof fn law_purge(cache: Cache, identity: Seq<char>, event: NostrEventView, relay_url: Seq<char>, subscription_id: Seq<char>)
    ensures
        remember(cache, RelayPoolEventView::RemoveContactEvents(identity)) == forget(
            cache,
            identity,
        ),
        forall|id: Seq<char>| #[trigger]
            forget(cache, identity).dom().contains(id) ==> !forget(cache, identity)[id].concerns(
                identity,
            ),
        forall|id: Seq<char>|
            cache.dom().contains(id) && !cache[id].concerns(identity) ==> #[trigger] forget(
                cache,
                identity,
            ).dom().contains(id) && forget(cache, identity)[id] == cache[id],
        event.authentic() && event.concerns(identity) && cache.dom().contains(event.id)
            && cache[event.id] == event ==> announce(
            forget(cache, identity),
            receipt(relay_url, subscription_id, event),
        ) == Some(NotificationView::ReceivedEvent(event)),
{
}

/// What issuing the subscription to the first `n` relays does: relays
/// from `n` on are untouched; a connected relay before `n` was sent the
/// command that opens its channel, and has that channel; channels that
/// existed keep their identifiers; the filters stay.
proof fn lemma_subscribed_up_to(pool: PoolView, n: nat)
    requires
        n <= pool.relays.len(),
    ensures
        ({
            let after = pool.subscribed_up_to(n);
            &&& after.relays.len() == pool.relays.len()
            &&& after.task == pool.task
            &&& after.subscription.filters == pool.subscription.filters
            &&& forall|url: Seq<char>| #[trigger]
                pool.subscription.channels.dom().contains(url)
                    ==> after.subscription.channels.dom().contains(url)
                    && after.subscription.channels[url] == pool.subscription.channels[url]
            &&& forall|k: int|
                n <= k < pool.relays.len() ==> #[trigger] after.relays[k] == pool.relays[k]
            &&& forall|k: int|
                0 <= k < n && pool.relays[k].status != RelayStatus::Connected
                    ==> #[trigger] after.relays[k] == pool.relays[k]
            &&& forall|k: int|
                0 <= k < n && pool.relays[k].status == RelayStatus::Connected
                    ==> after.subscription.channels.dom().contains(pool.relays[k].address)
                    && #[trigger] after.relays[k] == pool.relays[k].sent(
                    open_command(
                        after.subscription.channels[pool.relays[k].address],
                        pool.subscription.filters,
                    ),
                )
        }),
    decreases n,
{
    if n > 0 {
        let m = (n - 1) as nat;
        lemma_subscribed_up_to(pool, m);
        let mid = pool.subscribed_up_to(m);
        let after = mid.subscribed(m as int);
        assert(after == pool.subscribed_up_to(n));
        assert(mid.relays[m as int] == pool.relays[m as int]);
        assert forall|k: int|
            0 <= k < n && pool.relays[k].status == RelayStatus::Connected implies after.subscription.channels.dom().contains(
            pool.relays[k].address,
        ) && #[trigger] after.relays[k] == pool.relays[k].sent(
            open_command(
                after.subscription.channels[pool.relays[k].address],
                pool.subscription.filters,
            ),
        ) by {
            if k < m {
                assert(mid.relays[k] == pool.relays[k].sent(
                    open_command(
                        mid.subscription.channels[pool.relays[k].address],
                        pool.subscription.filters,
                    ),
                ));
                assert(mid.subscription.channels.dom().contains(pool.relays[k].address));
            }
        }
        assert forall|k: int|
            0 <= k < n && pool.relays[k].status != RelayStatus::Connected implies #[trigger] after.relays[k]
            == pool.relays[k] by {
            if k < m {
                assert(mid.relays[k] == pool.relays[k]);
            }
        }
        assert forall|k: int| n <= k < pool.relays.len() implies #[trigger] after.relays[k]
            == pool.relays[k] by {
            assert(mid.relays[k] == pool.relays[k]);
        }
        assert forall|url: Seq<char>| #[trigger]
            pool.subscription.channels.dom().contains(url) implies after.subscription.channels.dom().contains(
            url,
        ) && after.subscription.channels[url] == pool.subscription.channels[url] by {
            assert(mid.subscription.channels.dom().contains(url));
        }
    }
}

/// A subscription that is started again is issued again. After two starts,
/// with `first` and then with `second`, a connected relay with room for two
/// commands has been sent two commands that open its channel, the one with
/// `first` and then the one with `second`, both under the same identifier,
/// and no command that closes a channel.
pub proof fn law_subscription_reissued(
    pool: PoolView,
    i: int,
    first: Seq<nostr_sdk_base::SubscriptionFilter>,
    second: Seq<nostr_sdk_base::SubscriptionFilter>,
)
    requires
        0 <= i < pool.relays.len(),
        pool.relays[i].status == RelayStatus::Connected,
        pool.relays[i].pending.len() + 2 <= COMMAND_QUEUE_CAPACITY,
    ensures
        ({
            let after = pool.started(first).started(second);
            let address = pool.relays[i].address;
            &&& after.relays.len() == pool.relays.len()
            &&& after.subscription.filters == second
            &&& after.subscription.channels.dom().contains(address)
            &&& after.relays[i].pending == pool.relays[i].pending.push(
                open_command(after.subscription.channels[address], first),
            ).push(open_command(after.subscription.channels[address], second))
        }),
{
    let begun = PoolView { subscription: pool.subscription.updated(first), ..pool };
    lemma_subscribed_up_to(begun, pool.relays.len());
    let once = pool.started(first);
    assert(once.relays[i] == pool.relays[i].sent(
        open_command(once.subscription.channels[pool.relays[i].address], first),
    ));
    let again = PoolView { subscription: once.subscription.updated(second), ..once };
    lemma_subscribed_up_to(again, once.relays.len());
    let twice = once.started(second);
    assert(twice.relays[i] == once.relays[i].sent(
        open_command(twice.subscription.channels[once.relays[i].address], second),
    ));
    assert(once.subscription.channels.dom().contains(pool.relays[i].address));
    assert(again.subscription.channels.dom().contains(pool.relays[i].address));
}

} // verus!
