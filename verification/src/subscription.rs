//! The subscription tracker: one set of filters for the whole pool, and for
//! each relay the channel on which that set is registered there.

use vstd::prelude::*;
use crate::message::clone_filters;

verus! {

/// The channel of one relay.
#[derive(Debug, PartialEq, Eq)]
pub struct Channel {
    /// The identifier under which the relay knows the subscription.
    pub id: u64,
    /// The relay, by the URL it was added under.
    pub relay_url: String,
}

impl Clone for Channel {
    fn clone(&self) -> (copy: Channel)
        ensures
            copy.id == self.id,
            copy.relay_url@ == self.relay_url@,
    {
        Channel { id: self.id, relay_url: self.relay_url.clone() }
    }
}

/// The identifier that follows `id` when channels are handed out: the next
/// number, and 0 after the largest.
pub open spec fn following(id: u64) -> u64 {
    if id < u64::MAX {
        (id + 1) as u64
    } else {
        0
    }
}

/// The identifier that follows `id`.
pub fn next_channel_id(id: u64) -> (next: u64)
    ensures
        next == following(id),
{
    if id < u64::MAX {
        id + 1
    } else {
        0
    }
}

/// The mathematical value of a [`Subscription`].
pub struct SubscriptionView {
    /// The filters in force.
    pub filters: Seq<nostr_sdk_base::SubscriptionFilter>,
    /// The channel of each relay that has one, by the relay's URL.
    pub channels: Map<Seq<char>, u64>,
    /// The identifier that the next new channel gets.
    pub next_id: u64,
}

impl SubscriptionView {
    /// The tracker with another set of filters. The channels stay.
    pub open spec fn updated(self, filters: Seq<nostr_sdk_base::SubscriptionFilter>) -> SubscriptionView {
        SubscriptionView { filters, ..self }
    }

    /// The identifier of the relay's channel: the one it has, or the one it
    /// would be given.
    pub open spec fn channel_for(self, url: Seq<char>) -> u64 {
        if self.channels.dom().contains(url) {
            self.channels[url]
        } else {
            self.next_id
        }
    }

    /// The tracker once the relay has a channel: as before where it had
    /// one, with a new one where it had none.
    pub open spec fn with_channel(self, url: Seq<char>) -> SubscriptionView {
        if self.channels.dom().contains(url) {
            self
        } else {
            SubscriptionView {
                channels: self.channels.insert(url, self.next_id),
                next_id: following(self.next_id),
                ..self
            }
        }
    }

    /// The tracker without a channel for the relay.
    pub open spec fn without_channel(self, url: Seq<char>) -> SubscriptionView {
        SubscriptionView { channels: self.channels.remove(url), ..self }
    }
}

/// No two channels of the list belong to one relay.
pub open spec fn distinct_relays(channels: Seq<Channel>) -> bool {
    forall|i: int, j: int|
        0 <= i < j < channels.len() ==> (#[trigger] channels[i]).relay_url@ != (
        #[trigger] channels[j]).relay_url@
}

/// Whether `i` is the place of the relay's channel in the list.
pub open spec fn channel_at(channels: Seq<Channel>, url: Seq<char>, i: int) -> bool {
    0 <= i < channels.len() && channels[i].relay_url@ == url
}

/// The map from relay to channel identifier that a list of channels stands
/// for.
pub open spec fn channel_map(channels: Seq<Channel>) -> Map<Seq<char>, u64> {
    Map::new(
        |url: Seq<char>| exists|i: int| channel_at(channels, url, i),
        |url: Seq<char>| channels[choose|i: int| channel_at(channels, url, i)].id,
    )
}

/// In a list with one channel per relay, each channel is its relay's entry.
proof fn lemma_channel_at(channels: Seq<Channel>, i: int)
    requires
        distinct_relays(channels),
        0 <= i < channels.len(),
    ensures
        channel_map(channels).dom().contains(channels[i].relay_url@),
        channel_map(channels)[channels[i].relay_url@] == channels[i].id,
{
    let url = channels[i].relay_url@;
    assert(channel_at(channels, url, i));
    let j = choose|j: int| channel_at(channels, url, j);
    assert(channel_at(channels, url, j));
    if i < j {
        assert(channels[i].relay_url@ != channels[j].relay_url@);
    } else if j < i {
        assert(channels[j].relay_url@ != channels[i].relay_url@);
    }
}

/// Appending the channel of a relay that had none enters it in the map.
proof fn lemma_channel_push(channels: Seq<Channel>, channel: Channel)
    requires
        distinct_relays(channels),
        !channel_map(channels).dom().contains(channel.relay_url@),
    ensures
        distinct_relays(channels.push(channel)),
        channel_map(channels.push(channel)) == channel_map(channels).insert(
            channel.relay_url@,
            channel.id,
        ),
{
    let more = channels.push(channel);
    let url = channel.relay_url@;
    assert forall|i: int, j: int| 0 <= i < j < more.len() implies (#[trigger] more[i]).relay_url@
        != (#[trigger] more[j]).relay_url@ by {
        if j == channels.len() {
            assert(channel_at(channels, more[i].relay_url@, i));
        } else {
            assert(channels[i].relay_url@ != channels[j].relay_url@);
        }
    }
    assert forall|u: Seq<char>|
        channel_map(more).dom().contains(u) <==> channel_map(channels).insert(
            url,
            channel.id,
        ).dom().contains(u) by {
        if channel_map(more).dom().contains(u) {
            let i = choose|i: int| channel_at(more, u, i);
            if i < channels.len() {
                assert(channel_at(channels, u, i));
            }
        }
        if channel_map(channels).dom().contains(u) {
            let i = choose|i: int| channel_at(channels, u, i);
            assert(channel_at(more, u, i));
        }
        if u == url {
            assert(channel_at(more, u, channels.len() as int));
        }
    }
    assert forall|u: Seq<char>| channel_map(more).dom().contains(u) implies channel_map(more)[u]
        == channel_map(channels).insert(url, channel.id)[u] by {
        let i = choose|i: int| channel_at(more, u, i);
        lemma_channel_at(more, i);
        if i < channels.len() {
            lemma_channel_at(channels, i);
        }
    }
    assert(channel_map(more) =~= channel_map(channels).insert(url, channel.id));
}

/// Taking a channel out of the list takes its relay out of the map.
proof fn lemma_channel_remove(channels: Seq<Channel>, i: int)
    requires
        distinct_relays(channels),
        0 <= i < channels.len(),
    ensures
        distinct_relays(channels.remove(i)),
        channel_map(channels.remove(i)) == channel_map(channels).remove(channels[i].relay_url@),
{
    let fewer = channels.remove(i);
    let url = channels[i].relay_url@;
    assert forall|a: int, b: int| 0 <= a < b < fewer.len() implies (#[trigger] fewer[a]).relay_url@
        != (#[trigger] fewer[b]).relay_url@ by {
        let a0 = if a < i { a } else { a + 1 };
        let b0 = if b < i { b } else { b + 1 };
        assert(channels[a0].relay_url@ != channels[b0].relay_url@);
    }
    assert forall|u: Seq<char>|
        channel_map(fewer).dom().contains(u) <==> channel_map(channels).remove(url).dom().contains(
            u,
        ) by {
        if channel_map(fewer).dom().contains(u) {
            let k = choose|k: int| channel_at(fewer, u, k);
            let k0 = if k < i { k } else { k + 1 };
            assert(channel_at(channels, u, k0));
            if u == url {
                if k0 < i {
                    assert(channels[k0].relay_url@ != channels[i].relay_url@);
                } else {
                    assert(channels[i].relay_url@ != channels[k0].relay_url@);
                }
            }
        }
        if channel_map(channels).remove(url).dom().contains(u) {
            let k0 = choose|k: int| channel_at(channels, u, k);
            assert(channel_at(channels, u, k0));
            let k = if k0 < i { k0 } else { k0 - 1 };
            assert(channel_at(fewer, u, k));
        }
    }
    assert forall|u: Seq<char>| channel_map(fewer).dom().contains(u) implies channel_map(fewer)[u]
        == channel_map(channels).remove(url)[u] by {
        let k = choose|k: int| channel_at(fewer, u, k);
        assert(channel_at(fewer, u, k));
        lemma_channel_at(fewer, k);
        let k0 = if k < i { k } else { k + 1 };
        lemma_channel_at(channels, k0);
    }
    assert(channel_map(fewer) =~= channel_map(channels).remove(url));
}

/// Two lists that hold the same channels in the same places, one channel
/// per relay, stand for the same map.
proof fn lemma_same_channels(a: Seq<Channel>, b: Seq<Channel>)
    requires
        distinct_relays(a),
        a.len() == b.len(),
        forall|k: int|
            0 <= k < a.len() ==> (#[trigger] b[k]).id == a[k].id && b[k].relay_url@
                == a[k].relay_url@,
    ensures
        channel_map(b) == channel_map(a),
        distinct_relays(b),
{
    assert forall|i: int, j: int| 0 <= i < j < b.len() implies (#[trigger] b[i]).relay_url@ != (
    #[trigger] b[j]).relay_url@ by {
        assert(a[i].relay_url@ != a[j].relay_url@);
    }
    assert forall|url: Seq<char>|
        channel_map(a).dom().contains(url) <==> channel_map(b).dom().contains(url) by {
        if channel_map(a).dom().contains(url) {
            let i = choose|i: int| channel_at(a, url, i);
            assert(b[i].relay_url@ == a[i].relay_url@);
            assert(channel_at(b, url, i));
        }
        if channel_map(b).dom().contains(url) {
            let i = choose|i: int| channel_at(b, url, i);
            assert(b[i].relay_url@ == a[i].relay_url@);
            assert(channel_at(a, url, i));
        }
    }
    assert forall|url: Seq<char>| channel_map(a).dom().contains(url) implies channel_map(a)[url]
        == channel_map(b)[url] by {
        let i = choose|i: int| channel_at(a, url, i);
        assert(channel_at(a, url, i));
        assert(b[i].relay_url@ == a[i].relay_url@);
        lemma_channel_at(a, i);
        lemma_channel_at(b, i);
    }
    assert(channel_map(a) =~= channel_map(b));
}

/// The tracker of a pool's subscription.
pub struct Subscription {
    filters: Vec<nostr_sdk_base::SubscriptionFilter>,
    channels: Vec<Channel>,
    next_id: u64,
}

impl View for Subscription {
    type V = SubscriptionView;

    closed spec fn view(&self) -> SubscriptionView {
        SubscriptionView {
            filters: self.filters@,
            channels: channel_map(self.channels@),
            next_id: self.next_id,
        }
    }
}

impl Clone for Subscription {
    fn clone(&self) -> (copy: Subscription)
        ensures
            self.wf() ==> copy.wf() && copy@ == self@,
    {
        let mut channels: Vec<Channel> = Vec::new();
        let mut i: usize = 0;
        while i < self.channels.len()
            invariant
                i <= self.channels.len(),
                channels.len() == i,
                forall|k: int|
                    0 <= k < i ==> (#[trigger] channels[k]).id == self.channels[k].id
                        && channels[k].relay_url@ == self.channels[k].relay_url@,
            decreases self.channels.len() - i,
        {
            channels.push(self.channels[i].clone());
            i += 1;
        }
        proof {
            if self.wf() {
                lemma_same_channels(self.channels@, channels@);
            }
        }
        Subscription { filters: clone_filters(&self.filters), channels, next_id: self.next_id }
    }
}

impl Subscription {
    /// No relay has two channels.
    pub closed spec fn wf(&self) -> bool {
        distinct_relays(self.channels@)
    }

    /// A tracker without filters and without channels.
    pub fn new() -> (tracker: Subscription)
        ensures
            tracker.wf(),
            tracker@ == (SubscriptionView {
                filters: Seq::empty(),
                channels: Map::empty(),
                next_id: 0,
            }),
    {
        let tracker = Subscription { filters: Vec::new(), channels: Vec::new(), next_id: 0 };
        assert(tracker@.channels =~= Map::empty());
        tracker
    }

    /// Replaces the filters. No channel is opened or closed.
    pub fn update_filters(&mut self, filters: Vec<nostr_sdk_base::SubscriptionFilter>)
        requires
            old(self).wf(),
        ensures
            final(self).wf(),
            final(self)@ == old(self)@.updated(filters@),
    {
        self.filters = filters;
    }

    /// A copy of the filters in force.
    pub fn get_filters(&self) -> (filters: Vec<nostr_sdk_base::SubscriptionFilter>)
        ensures
            filters@ == self@.filters,
    {
        clone_filters(&self.filters)
    }

    /// Whether any filter is in force.
    pub fn has_filters(&self) -> (any: bool)
        ensures
            any == (self@.filters.len() > 0),
    {
        self.filters.len() > 0
    }

    /// Where in the list the relay's channel stands.
    fn position(&self, relay_url: &str) -> (place: Option<usize>)
        ensures
            match place {
                Some(i) => channel_at(self.channels@, relay_url@, i as int),
                None => !self@.channels.dom().contains(relay_url@),
            },
    {
        let wanted = relay_url.to_owned();
        let mut i: usize = 0;
        while i < self.channels.len()
            invariant
                i <= self.channels.len(),
                wanted@ == relay_url@,
                forall|k: int| 0 <= k < i ==> !channel_at(self.channels@, relay_url@, k),
            decreases self.channels.len() - i,
        {
            if self.channels[i].relay_url == wanted {
                return Some(i);
            }
            i += 1;
        }
        None
    }

    /// The relay's channel. A relay without one is given a channel under
    /// the next free identifier.
    pub fn get_channel(&mut self, relay_url: &str) -> (channel: Channel)
        requires
            old(self).wf(),
        ensures
            final(self).wf(),
            channel.id == old(self)@.channel_for(relay_url@),
            channel.relay_url@ == relay_url@,
            final(self)@ == old(self)@.with_channel(relay_url@),
    {
        match self.position(relay_url) {
            Some(i) => {
                proof {
                    lemma_channel_at(self.channels@, i as int);
                }
                self.channels[i].clone()
            },
            None => {
                let channel = Channel { id: self.next_id, relay_url: relay_url.to_owned() };
                let copy = channel.clone();
                proof {
                    lemma_channel_push(self.channels@, channel);
                }
                self.channels.push(channel);
                self.next_id = next_channel_id(self.next_id);
                copy
            },
        }
    }

    /// Takes the relay's channel out and returns it, if the relay has one.
    pub fn remove_channel(&mut self, relay_url: &str) -> (channel: Option<Channel>)
        requires
            old(self).wf(),
        ensures
            final(self).wf(),
            final(self)@ == old(self)@.without_channel(relay_url@),
            match channel {
                Some(c) => old(self)@.channels.dom().contains(relay_url@) && c.id == old(
                    self,
                )@.channels[relay_url@] && c.relay_url@ == relay_url@,
                None => !old(self)@.channels.dom().contains(relay_url@),
            },
    {
        match self.position(relay_url) {
            Some(i) => {
                proof {
                    lemma_channel_at(self.channels@, i as int);
                    lemma_channel_remove(self.channels@, i as int);
                }
                Some(self.channels.remove(i))
            },
            None => {
                assert(self@.channels =~= old(self)@.channels.remove(relay_url@));
                None
            },
        }
    }
}

} // verus!
