//! Messages that the server sends unasked: published messages and cache invalidations.
//!
//! Such a message is an array whose first element names its kind. It is told apart by its
//! shape, and an invalidation is handed to the listeners if tracking is switched on. What is
//! subscribed to, and whether tracking is on, is recorded so that it can be set up again
//! whenever a connection is made.

use crate::buffer::bytes_from_vec;
use crate::bus::{lemma_published_event_reaches_all, Bus, BusView};
use crate::routing::key_views;
use crate::topology::{Server, ServerView};
use crate::value::{bytes_eq, lemma_views_of, utf8, views_of, RedisKey, RedisValue, ValueView};
use vstd::prelude::*;
use vstd::slice::slice_to_vec;

verus! {

/// The channel on which invalidations arrive as ordinary messages, for connections that
/// cannot receive them out of band.
pub const INVALIDATION_CHANNEL: &'static str = "__redis__:invalidate";

/// The kinds of unasked messages.
#[derive(Clone, Copy, Debug, PartialEq, Eq, Structural)]
pub enum PushKind {
    /// A message on a subscribed channel: the word `message`, the channel, the payload.
    Message,
    /// A message for a subscribed pattern: the word `pmessage`, the pattern, the channel, the
    /// payload.
    PatternMessage,
    /// An invalidation: the word `invalidate` and the keys, or a message on the invalidation
    /// channel with the keys as payload.
    Invalidation,
    /// Anything else.
    Other,
}

/// The bytes of a value that is text or raw bytes.
pub open spec fn word(v: ValueView) -> Option<Seq<u8>> {
    match v {
        ValueView::String(s) => Some(s),
        ValueView::Bytes(b) => Some(b),
        _ => None,
    }
}

/// The kind of an unasked message, by its shape.
pub open spec fn push_kind(items: Seq<ValueView>) -> PushKind {
    if items.len() == 3 && word(items[0]) == Some(utf8("message")) {
        if word(items[1]) == Some(utf8(INVALIDATION_CHANNEL)) {
            PushKind::Invalidation
        } else {
            PushKind::Message
        }
    } else if items.len() == 4 && word(items[0]) == Some(utf8("pmessage")) {
        PushKind::PatternMessage
    } else if items.len() == 2 && word(items[0]) == Some(utf8("invalidate")) {
        PushKind::Invalidation
    } else {
        PushKind::Other
    }
}

/// The keys that the payload of an invalidation names: none for `Null`, which stands for all
/// keys at once; the elements of an array, which must all be text or bytes; or one key.
pub open spec fn invalidated_keys(payload: ValueView) -> Option<Seq<Seq<u8>>> {
    match payload {
        ValueView::Null => Some(Seq::empty()),
        ValueView::Array(items) => if forall|i: int|
            0 <= i < items.len() ==> word(#[trigger] items[i]) is Some {
            Some(Seq::new(items.len(), |i: int| word(items[i]).unwrap()))
        } else {
            None
        },
        v => match word(v) {
            Some(k) => Some(seq![k]),
            None => None,
        },
    }
}

/// Whether a value is text or raw bytes equal to `text`.
fn is_word(v: &RedisValue, text: &str) -> (r: bool)
    ensures
        r == (word(v@) == Some(utf8(text))),
{
    match v {
        RedisValue::String(_) | RedisValue::Bytes(_) => match v.as_bytes() {
            Some(b) => bytes_eq(b, text.as_bytes()),
            None => false,
        },
        _ => false,
    }
}

/// Tells the kind of an unasked message by its shape.
pub fn classify(items: &Vec<RedisValue>) -> (kind: PushKind)
    ensures
        kind == push_kind(views_of(items@)),
{
    proof {
        lemma_views_of(items@);
    }
    if items.len() == 3 && is_word(&items[0], "message") {
        if is_word(&items[1], INVALIDATION_CHANNEL) {
            PushKind::Invalidation
        } else {
            PushKind::Message
        }
    } else if items.len() == 4 && is_word(&items[0], "pmessage") {
        PushKind::PatternMessage
    } else if items.len() == 2 && is_word(&items[0], "invalidate") {
        PushKind::Invalidation
    } else {
        PushKind::Other
    }
}

/// The key that text or raw bytes make.
fn read_key(v: &RedisValue) -> (r: Option<RedisKey>)
    ensures
        match word(v@) {
            Some(k) => r matches Some(key) && key@ == k,
            None => r is None,
        },
{
    match v {
        RedisValue::String(_) | RedisValue::Bytes(_) => match v.as_bytes() {
            Some(b) => Some(RedisKey::from_bytes(bytes_from_vec(slice_to_vec(b)))),
            None => None,
        },
        _ => None,
    }
}

/// Reads the keys that the payload of an invalidation names.
pub fn read_invalidated_keys(payload: &RedisValue) -> (r: Option<Vec<RedisKey>>)
    ensures
        match invalidated_keys(payload@) {
            Some(keys) => r matches Some(v) && key_views(v@) == keys,
            None => r is None,
        },
{
    let mut keys: Vec<RedisKey> = Vec::new();
    match payload {
        RedisValue::Null => {
            assert(key_views(keys@) =~= Seq::empty());
            Some(keys)
        },
        RedisValue::Array(items) => {
            proof {
                lemma_views_of(items@);
            }
            let ghost views = views_of(items@);
            let mut i: usize = 0;
            while i < items.len()
                invariant
                    i <= items.len(),
                    keys.len() == i,
                    payload@ == ValueView::Array(views),
                    views.len() == items.len(),
                    forall|j: int| 0 <= j < items.len() ==> (#[trigger] views[j]) == items[j]@,
                    forall|j: int| 0 <= j < i ==> word(#[trigger] views[j]) == Some(keys[j]@),
                decreases items.len() - i,
            {
                match read_key(&items[i]) {
                    Some(key) => {
                        keys.push(key);
                    },
                    None => {
                        assert(word(views[i as int]) is None);
                        return None;
                    },
                }
                i = i + 1;
            }
            assert(key_views(keys@) =~= Seq::new(views.len(), |i: int| word(views[i]).unwrap()));
            Some(keys)
        },
        _ => match read_key(payload) {
            Some(key) => {
                let ghost k = key@;
                keys.push(key);
                assert(key_views(keys@) =~= seq![k]);
                Some(keys)
            },
            None => None,
        },
    }
}

/// An invalidation: the server that sent it and the keys whose cached values are no longer
/// valid. No keys at all means that nothing cached is valid any more.
#[derive(Debug)]
pub struct InvalidationEvent {
    pub server: Server,
    pub keys: Vec<RedisKey>,
}

/// What an [`InvalidationEvent`] stands for.
pub struct InvalidationView {
    pub server: ServerView,
    pub keys: Seq<Seq<u8>>,
}

impl View for InvalidationEvent {
    type V = InvalidationView;

    open spec fn view(&self) -> InvalidationView {
        InvalidationView { server: self.server@, keys: key_views(self.keys@) }
    }
}

impl InvalidationView {
    /// Whether the event invalidates `key`: it names the key, or it names none, which stands
    /// for all.
    pub open spec fn invalidates(self, key: Seq<u8>) -> bool {
        self.keys.len() == 0 || self.keys.contains(key)
    }
}

/// The views of a run of names.
pub open spec fn name_views(names: Seq<Vec<u8>>) -> Seq<Seq<u8>> {
    Seq::new(names.len(), |i: int| names[i]@)
}

/// No name occurs twice.
pub open spec fn distinct_names(names: Seq<Seq<u8>>) -> bool {
    forall|i: int, j: int| 0 <= i < j < names.len() ==> (#[trigger] names[i]) != (#[trigger] names[j])
}

/// Where `name` stands among `names`.
fn find_name(names: &Vec<Vec<u8>>, name: &[u8]) -> (r: Option<usize>)
    ensures
        match r {
            Some(i) => i < names.len() && names[i as int]@ == name@,
            None => !name_views(names@).contains(name@),
        },
{
    let mut i: usize = 0;
    while i < names.len()
        invariant
            i <= names.len(),
            forall|j: int| 0 <= j < i ==> names[j]@ != name@,
        decreases names.len() - i,
    {
        if bytes_eq(names[i].as_slice(), name) {
            return Some(i);
        }
        i = i + 1;
    }
    None
}

/// Adds `name` unless it is there.
fn add_name(names: &mut Vec<Vec<u8>>, name: &[u8]) -> (added: bool)
    requires
        distinct_names(name_views(old(names)@)),
    ensures
        distinct_names(name_views(final(names)@)),
        added == !name_views(old(names)@).contains(name@),
        name_views(final(names)@) == (if added {
            name_views(old(names)@).push(name@)
        } else {
            name_views(old(names)@)
        }),
{
    match find_name(names, name) {
        Some(i) => {
            assert(name_views(names@)[i as int] == name@);
            false
        },
        None => {
            let ghost before = name_views(names@);
            names.push(slice_to_vec(name));
            assert(name_views(names@) =~= before.push(name@));
            assert forall|i: int, j: int| 0 <= i < j < names.len() implies (#[trigger] name_views(
                names@,
            )[i]) != (#[trigger] name_views(names@)[j]) by {
                if j == before.len() {
                    assert(before.contains(before[i]));
                } else {
                    assert(before[i] != before[j]);
                }
            }
            true
        },
    }
}

/// Removes `name` if it is there.
fn remove_name(names: &mut Vec<Vec<u8>>, name: &[u8]) -> (removed: bool)
    requires
        distinct_names(name_views(old(names)@)),
    ensures
        distinct_names(name_views(final(names)@)),
        removed == name_views(old(names)@).contains(name@),
        !name_views(final(names)@).contains(name@),
        forall|other: Seq<u8>|
            other != name@ ==> (name_views(final(names)@).contains(other) <==> name_views(
                old(names)@,
            ).contains(other)),
{
    let ghost before = name_views(names@);
    match find_name(names, name) {
        Some(i) => {
            assert(before[i as int] == name@);
            names.remove(i);
            let ghost after = name_views(names@);
            assert(after =~= before.remove(i as int));
            proof {
                assert forall|a: int, b: int| 0 <= a < b < after.len() implies (#[trigger] after[a])
                    != (#[trigger] after[b]) by {
                    let a0 = if a < i {
                        a
                    } else {
                        a + 1
                    };
                    let b0 = if b < i {
                        b
                    } else {
                        b + 1
                    };
                    assert(before[a0] != before[b0]);
                }
                assert(!after.contains(name@)) by {
                    if after.contains(name@) {
                        let a = choose|a: int| 0 <= a < after.len() && after[a] == name@;
                        let a0 = if a < i {
                            a
                        } else {
                            a + 1
                        };
                        if a0 < i {
                            assert(before[a0] != before[i as int]);
                        } else {
                            assert(before[i as int] != before[a0]);
                        }
                    }
                }
                assert forall|other: Seq<u8>| other != name@ implies (after.contains(other)
                    <==> before.contains(other)) by {
                    if after.contains(other) {
                        let a = choose|a: int| 0 <= a < after.len() && after[a] == other;
                        let a0 = if a < i {
                            a
                        } else {
                            a + 1
                        };
                        assert(before[a0] == other);
                    }
                    if before.contains(other) {
                        let b = choose|b: int| 0 <= b < before.len() && before[b] == other;
                        let b1 = if b < i {
                            b
                        } else {
                            b - 1
                        };
                        assert(after[b1] == other);
                    }
                }
            }
            true
        },
        None => false,
    }
}

/// What is subscribed to and whether tracking is on. Connections never add to it on their
/// own; it is set up again, in full, on every connection before commands are accepted.
#[derive(Debug)]
pub struct SubscriptionSet {
    channels: Vec<Vec<u8>>,
    patterns: Vec<Vec<u8>>,
    tracking: bool,
}

/// What a [`SubscriptionSet`] stands for.
pub struct SubscriptionView {
    /// The subscribed channels, each once, in the order of subscription.
    pub channels: Seq<Seq<u8>>,
    /// The subscribed patterns, each once, in the order of subscription.
    pub patterns: Seq<Seq<u8>>,
    /// Whether invalidations are tracked.
    pub tracking: bool,
}

/// One step of setting up a connection's subscriptions.
#[derive(Debug)]
pub enum Replay {
    /// Subscribe to a channel.
    Subscribe(Vec<u8>),
    /// Subscribe to a pattern.
    PatternSubscribe(Vec<u8>),
    /// Switch tracking on.
    EnableTracking,
}

/// What a [`Replay`] stands for.
pub enum ReplayView {
    Subscribe(Seq<u8>),
    PatternSubscribe(Seq<u8>),
    EnableTracking,
}

impl View for Replay {
    type V = ReplayView;

    open spec fn view(&self) -> ReplayView {
        match self {
            Replay::Subscribe(c) => ReplayView::Subscribe(c@),
            Replay::PatternSubscribe(p) => ReplayView::PatternSubscribe(p@),
            Replay::EnableTracking => ReplayView::EnableTracking,
        }
    }
}

/// The views of a run of steps.
pub open spec fn replay_views(steps: Seq<Replay>) -> Seq<ReplayView> {
    Seq::new(steps.len(), |i: int| steps[i]@)
}

impl SubscriptionView {
    /// The steps that set the subscriptions up again: every channel, then every pattern, then
    /// tracking if it is on.
    pub open spec fn replay(self) -> Seq<ReplayView> {
        self.channels.map_values(|c: Seq<u8>| ReplayView::Subscribe(c)) + self.patterns.map_values(
            |p: Seq<u8>| ReplayView::PatternSubscribe(p),
        ) + (if self.tracking {
            seq![ReplayView::EnableTracking]
        } else {
            Seq::empty()
        })
    }
}

impl View for SubscriptionSet {
    type V = SubscriptionView;

    closed spec fn view(&self) -> SubscriptionView {
        SubscriptionView {
            channels: name_views(self.channels@),
            patterns: name_views(self.patterns@),
            tracking: self.tracking,
        }
    }
}

impl SubscriptionSet {
    #[verifier::type_invariant]
    spec fn names_once(self) -> bool {
        distinct_names(name_views(self.channels@)) && distinct_names(name_views(self.patterns@))
    }

    /// Nothing is subscribed to, and tracking is off.
    pub fn new() -> (s: Self)
        ensures
            s@ == (SubscriptionView {
                channels: Seq::empty(),
                patterns: Seq::empty(),
                tracking: false,
            }),
    {
        let s = SubscriptionSet { channels: Vec::new(), patterns: Vec::new(), tracking: false };
        assert(name_views(s.channels@) =~= Seq::empty());
        assert(name_views(s.patterns@) =~= Seq::empty());
        s
    }

    /// Whether tracking is on.
    pub fn is_tracking(&self) -> (r: bool)
        ensures
            r == self@.tracking,
    {
        self.tracking
    }

    /// Switches tracking on or off.
    pub fn set_tracking(&mut self, on: bool)
        ensures
            final(self)@ == (SubscriptionView { tracking: on, ..old(self)@ }),
    {
        proof {
            use_type_invariant(&*self);
        }
        self.tracking = on;
    }

    /// Records a subscription to `channel`. A channel is recorded once.
    pub fn subscribe(&mut self, channel: &[u8]) -> (added: bool)
        ensures
            added == !old(self)@.channels.contains(channel@),
            final(self)@ == (SubscriptionView {
                channels: if added {
                    old(self)@.channels.push(channel@)
                } else {
                    old(self)@.channels
                },
                ..old(self)@
            }),
    {
        proof {
            use_type_invariant(&*self);
        }
        let mut names: Vec<Vec<u8>> = Vec::new();
        std::mem::swap(&mut self.channels, &mut names);
        let added = add_name(&mut names, channel);
        self.channels = names;
        added
    }

    /// Drops the subscription to `channel`. Other channels stay subscribed.
    pub fn unsubscribe(&mut self, channel: &[u8]) -> (removed: bool)
        ensures
            removed == old(self)@.channels.contains(channel@),
            !final(self)@.channels.contains(channel@),
            forall|other: Seq<u8>|
                other != channel@ ==> (final(self)@.channels.contains(other) <==> old(
                    self,
                )@.channels.contains(other)),
            final(self)@.patterns == old(self)@.patterns,
            final(self)@.tracking == old(self)@.tracking,
    {
        proof {
            use_type_invariant(&*self);
        }
        let mut names: Vec<Vec<u8>> = Vec::new();
        std::mem::swap(&mut self.channels, &mut names);
        let removed = remove_name(&mut names, channel);
        self.channels = names;
        removed
    }

    /// Records a subscription to `pattern`. A pattern is recorded once.
    pub fn psubscribe(&mut self, pattern: &[u8]) -> (added: bool)
        ensures
            added == !old(self)@.patterns.contains(pattern@),
            final(self)@ == (SubscriptionView {
                patterns: if added {
                    old(self)@.patterns.push(pattern@)
                } else {
                    old(self)@.patterns
                },
                ..old(self)@
            }),
    {
        proof {
            use_type_invariant(&*self);
        }
        let mut names: Vec<Vec<u8>> = Vec::new();
        std::mem::swap(&mut self.patterns, &mut names);
        let added = add_name(&mut names, pattern);
        self.patterns = names;
        added
    }

    /// Drops the subscription to `pattern`. Other patterns stay subscribed.
    pub fn punsubscribe(&mut self, pattern: &[u8]) -> (removed: bool)
        ensures
            removed == old(self)@.patterns.contains(pattern@),
            !final(self)@.patterns.contains(pattern@),
            forall|other: Seq<u8>|
                other != pattern@ ==> (final(self)@.patterns.contains(other) <==> old(
                    self,
                )@.patterns.contains(other)),
            final(self)@.channels == old(self)@.channels,
            final(self)@.tracking == old(self)@.tracking,
    {
        proof {
            use_type_invariant(&*self);
        }
        let mut names: Vec<Vec<u8>> = Vec::new();
        std::mem::swap(&mut self.patterns, &mut names);
        let removed = remove_name(&mut names, pattern);
        self.patterns = names;
        removed
    }

    /// The steps that set everything up again on a connection, to be taken before the
    /// connection accepts commands.
    pub fn replay(&self) -> (steps: Vec<Replay>)
        ensures
            replay_views(steps@) == self@.replay(),
    {
        let mut steps: Vec<Replay> = Vec::new();
        let mut i: usize = 0;
        while i < self.channels.len()
            invariant
                i <= self.channels.len(),
                steps.len() == i,
                forall|j: int| 0 <= j < i ==> (#[trigger] steps[j])@ == ReplayView::Subscribe(
                    self.channels[j]@,
                ),
            decreases self.channels.len() - i,
        {
            steps.push(Replay::Subscribe(self.channels[i].clone()));
            i = i + 1;
        }
        let mut k: usize = 0;
        while k < self.patterns.len()
            invariant
                k <= self.patterns.len(),
                steps.len() == self.channels.len() + k,
                forall|j: int|
                    0 <= j < self.channels.len() ==> (#[trigger] steps[j])@
                        == ReplayView::Subscribe(self.channels[j]@),
                forall|j: int|
                    0 <= j < k ==> (#[trigger] steps[self.channels.len() + j])@
                        == ReplayView::PatternSubscribe(self.patterns[j]@),
            decreases self.patterns.len() - k,
        {
            steps.push(Replay::PatternSubscribe(self.patterns[k].clone()));
            k = k + 1;
        }
        if self.tracking {
            steps.push(Replay::EnableTracking);
        }
        proof {
            let n = self.channels.len() as int;
            assert forall|j: int| 0 <= j < steps.len() implies replay_views(steps@)[j]
                == self@.replay()[j] by {
                if j < n {
                } else if j < n + self.patterns.len() {
                    assert(steps[n + (j - n)]@ == ReplayView::PatternSubscribe(
                        self.patterns[j - n]@,
                    ));
                }
            }
            assert(replay_views(steps@) =~= self@.replay());
        }
        steps
    }
}

/// The keys of the invalidation that a message delivers to the listeners: those that it
/// names, if it is an invalidation and tracking is on. Without tracking nothing is delivered.
pub open spec fn delivered_keys(subscriptions: SubscriptionView, items: Seq<ValueView>) -> Option<
    Seq<Seq<u8>>,
> {
    if subscriptions.tracking && push_kind(items) == PushKind::Invalidation {
        invalidated_keys(items.last())
    } else {
        None
    }
}

/// Hands an unasked message from `server` to the listeners if it is an invalidation and
/// tracking is on, and says whether it did. Publishing does not wait for any listener.
pub fn deliver_invalidation(
    subscriptions: &SubscriptionSet,
    bus: &mut Bus<InvalidationEvent>,
    server: &Server,
    items: &Vec<RedisValue>,
) -> (delivered: bool)
    ensures
        delivered == (delivered_keys(subscriptions@, views_of(items@)) is Some),
        match delivered_keys(subscriptions@, views_of(items@)) {
            Some(keys) => {
                &&& final(bus)@.events.len() > 0
                &&& final(bus)@.events.last()@ == (InvalidationView { server: server@, keys })
                &&& final(bus)@ == old(bus)@.after_publish(final(bus)@.events.last())
            },
            None => final(bus)@ == old(bus)@,
        },
{
    proof {
        lemma_views_of(items@);
    }
    if !subscriptions.is_tracking() {
        return false;
    }
    match classify(items) {
        PushKind::Invalidation => {},
        _ => {
            return false;
        },
    }
    let payload = &items[items.len() - 1];
    match read_invalidated_keys(payload) {
        Some(keys) => {
            let event = InvalidationEvent { server: server.clone(), keys };
            bus.publish(event);
            true
        },
        None => false,
    }
}

/// While tracking is on, an invalidation reaches every registered listener: once it is
/// published, it is the latest event that each of them has still to receive, and it
/// invalidates every key that it names. No listener is held up for another, and none has to
/// exist.
pub proof fn lemma_invalidation_reaches_every_listener(
    bus: BusView<InvalidationEvent>,
    event: InvalidationEvent,
    key: Seq<u8>,
    i: int,
)
    requires
        bus.wf(),
        0 <= i < bus.listeners.len(),
        event@.keys.contains(key),
    ensures
        bus.after_publish(event).pending_of(i).len() >= 1,
        bus.after_publish(event).pending_of(i).last() == event,
        bus.after_publish(event).pending_of(i).last()@.invalidates(key),
{
    lemma_published_event_reaches_all(bus, event, i);
}

/// While tracking is off, no message delivers anything.
pub proof fn lemma_nothing_delivered_without_tracking(
    subscriptions: SubscriptionView,
    items: Seq<ValueView>,
)
    requires
        !subscriptions.tracking,
    ensures
        delivered_keys(subscriptions, items) is None,
{
}

} // verus!
