//! The dispatch core: which server a command goes to, and what follows from the way it ended.

use crate::error::{RedisError, RedisErrorKind};
use crate::redirect::{parse_redirect, redirect_parts, Redirect, RedirectKind};
use crate::retry::{RetryDecision, RetryPolicy};
use crate::routing::{common_slot, key_views, slot_for_keys, slot_of, CLUSTER_SLOTS};
use crate::topology::{
    is_known, is_partition, lemma_moved_slot_has_new_owner, owner_of, range_of, with_primary,
    Server, ServerView, SlotMap, SlotRangeView,
};
use crate::value::{bytes_eq, utf8, RedisKey};
use vstd::prelude::*;
use vstd::slice::slice_subrange;
use vstd::utf8::valid_utf8;

verus! {

/// How the servers are deployed.
#[derive(Debug)]
pub enum Topology {
    /// One server.
    Centralized(Server),
    /// A cluster, with the owners of its slots.
    Clustered(SlotMap),
    /// A group watched over by sentinels, with its present master if it is known.
    Sentinel(Option<Server>),
}

/// What a [`Topology`] stands for.
pub enum TopologyView {
    Centralized(ServerView),
    Clustered(Seq<SlotRangeView>),
    Sentinel(Option<ServerView>),
}

impl View for Topology {
    type V = TopologyView;

    open spec fn view(&self) -> TopologyView {
        match self {
            Topology::Centralized(s) => TopologyView::Centralized(s@),
            Topology::Clustered(m) => TopologyView::Clustered(m@),
            Topology::Sentinel(Some(s)) => TopologyView::Sentinel(Some(s@)),
            Topology::Sentinel(None) => TopologyView::Sentinel(None),
        }
    }
}

/// Where a command wants to go.
#[derive(Debug)]
pub enum Target {
    /// To this server and no other.
    Server(Server),
    /// To the server that owns these keys.
    Keys(Vec<RedisKey>),
    /// To any server.
    Any,
}

/// What a [`Target`] stands for.
pub enum TargetView {
    Server(ServerView),
    Keys(Seq<Seq<u8>>),
    Any,
}

impl View for Target {
    type V = TargetView;

    open spec fn view(&self) -> TargetView {
        match self {
            Target::Server(s) => TargetView::Server(s@),
            Target::Keys(keys) => TargetView::Keys(key_views(keys@)),
            Target::Any => TargetView::Any,
        }
    }
}

/// The server that a command with this target goes to, or the kind of error that it ends in.
///
/// A command that names a server goes there. Otherwise it goes to the one server of a
/// centralized deployment or to the master of a sentinel group; without a known master it
/// fails as `Io`. In a cluster it goes to the owner of the slot that all its keys share, and
/// to the owner of the first range if it has no keys; keys from different slots are an
/// `InvalidArgument`.
pub open spec fn route_of(topology: TopologyView, target: TargetView) -> Result<
    ServerView,
    RedisErrorKind,
> {
    match (target, topology) {
        (TargetView::Server(s), _) => Ok(s),
        (_, TopologyView::Centralized(s)) => Ok(s),
        (_, TopologyView::Sentinel(Some(s))) => Ok(s),
        (_, TopologyView::Sentinel(None)) => Err(RedisErrorKind::Io),
        (TargetView::Any, TopologyView::Clustered(ranges)) => Ok(ranges[0].primary),
        (TargetView::Keys(keys), TopologyView::Clustered(ranges)) => match common_slot(keys) {
            Some(Some(slot)) => Ok(owner_of(ranges, slot)),
            Some(None) => Ok(ranges[0].primary),
            None => Err(RedisErrorKind::InvalidArgument),
        },
    }
}

/// A command on its way.
#[derive(Debug)]
pub struct Command {
    /// The command's number.
    pub id: u64,
    /// Where it wants to go.
    pub target: Target,
    /// How often it has been sent.
    pub attempts: u32,
    /// Whether sending it twice could apply it twice.
    pub non_idempotent: bool,
    /// Whether it has been written to a connection.
    pub sent: bool,
    /// Whether the server is to track, or not to track, the keys of this one command, where
    /// the caller has said so.
    pub caching: Option<bool>,
}

/// A frame that goes out right before a command and holds for that command only.
#[derive(Clone, Copy, Debug, PartialEq, Eq, Structural)]
pub enum Prelude {
    /// Tells the server whether to track the keys of the command.
    Caching(bool),
    /// Asks a server to accept a command for a slot that is being moved to it.
    Asking,
}

/// The frames that go out right before a command, in order: the word on caching if the
/// caller gave one, and the request to accept the command if an `ASK` redirection is being
/// followed. They are sent with every attempt.
pub open spec fn prelude_of(command: Command, asking: bool) -> Seq<Prelude> {
    (match command.caching {
        Some(on) => seq![Prelude::Caching(on)],
        None => Seq::empty(),
    }) + (if asking {
        seq![Prelude::Asking]
    } else {
        Seq::empty()
    })
}

/// Lists the frames that go out right before a command.
pub fn prelude(command: &Command, asking: bool) -> (frames: Vec<Prelude>)
    ensures
        frames@ == prelude_of(*command, asking),
{
    let mut frames: Vec<Prelude> = Vec::new();
    match command.caching {
        Some(on) => {
            frames.push(Prelude::Caching(on));
        },
        None => {},
    }
    if asking {
        frames.push(Prelude::Asking);
    }
    assert(frames@ =~= prelude_of(*command, asking));
    frames
}

impl Command {
    /// Whether the command may be sent again: not if it could be applied twice and a server
    /// may already have it.
    pub open spec fn retryable(self) -> bool {
        !(self.non_idempotent && self.sent)
    }
}

/// What follows from the way a command ended.
#[derive(Debug)]
pub enum ReplyAction {
    /// The reply goes to the caller.
    Deliver,
    /// The slot has moved: the slot map names the new owner from now on, and the command is
    /// sent again, to that owner, at once. `refresh` asks for a new discovery of the topology,
    /// because the new owner was no server of the map.
    FollowMoved { server: Server, refresh: bool },
    /// The slot is being moved: the command is sent again, once, to the named server, behind
    /// a frame that asks that server to accept it. The slot map stays as it is.
    FollowAsk { server: Server },
    /// The command is sent again after `wait_ms` milliseconds, to the server that the topology
    /// then names. `refresh` asks for a new discovery of the topology in the meantime,
    /// because a cluster said that it is not ready.
    RetryAfter { wait_ms: u64, refresh: bool },
    /// The command is given up with an error of this kind.
    Fail(RedisErrorKind),
}

/// Whether `s` begins with `prefix`.
pub open spec fn has_prefix(s: Seq<u8>, prefix: Seq<u8>) -> bool {
    prefix.len() <= s.len() && s.take(prefix.len() as int) == prefix
}

/// Whether the payload of an error reply says that the cluster cannot serve the command right
/// now: it begins with `CLUSTERDOWN` or `TRYAGAIN`.
pub open spec fn is_cluster_unavailable(payload: Seq<u8>) -> bool {
    has_prefix(payload, utf8("CLUSTERDOWN")) || has_prefix(payload, utf8("TRYAGAIN"))
}

/// Whether `s` begins with `prefix`.
fn starts_with(s: &[u8], prefix: &[u8]) -> (r: bool)
    ensures
        r == has_prefix(s@, prefix@),
{
    if prefix.len() > s.len() {
        return false;
    }
    let head = slice_subrange(s, 0, prefix.len());
    assert(head@ =~= s@.take(prefix.len() as int));
    bytes_eq(head, prefix)
}

/// The redirection that a payload spells, as far as a router can follow it: its host has to
/// be valid UTF-8.
pub open spec fn redirect_of(payload: Seq<u8>) -> Option<(RedirectKind, u16, ServerView)> {
    match redirect_parts(payload) {
        Some(parts) => if valid_utf8(parts.host) {
            Some((parts.kind, parts.slot, parts.server()))
        } else {
            None
        },
        None => None,
    }
}

/// Whether the policy lets `command` follow a redirection: it has attempts left and may be
/// sent again.
pub open spec fn redirect_allowed(policy: RetryPolicy, command: Command) -> bool {
    !(policy.decision(RedisErrorKind::Redirect, command.attempts, command.retryable(), 0)
        is GiveUp)
}

/// How a redirection to `server` for `slot` is followed. Where the policy does not allow it,
/// the command fails as `Redirect` and nothing changes. Otherwise the attempt is counted; for
/// `MOVED` the new slot map has `server` as the owner of the slot's range, and a refresh is
/// asked for exactly when the old map did not know `server`; for `ASK` the map stays.
pub open spec fn followed(
    before: TopologyView,
    allowed: bool,
    attempts: u32,
    kind: RedirectKind,
    slot: u16,
    server: ServerView,
    action: ReplyAction,
    after: TopologyView,
    attempts_after: u32,
) -> bool {
    if !allowed {
        &&& action matches ReplyAction::Fail(RedisErrorKind::Redirect)
        &&& after == before
        &&& attempts_after == attempts
    } else {
        &&& attempts_after == attempts + 1
        &&& match kind {
            RedirectKind::Moved => {
                &&& action matches ReplyAction::FollowMoved { server: s, refresh }
                &&& s@ == server
                &&& before matches TopologyView::Clustered(ranges)
                &&& refresh == !is_known(ranges, server)
                &&& after == TopologyView::Clustered(
                    with_primary(ranges, range_of(ranges, slot), server),
                )
            },
            RedirectKind::Ask => {
                &&& action matches ReplyAction::FollowAsk { server: s }
                &&& s@ == server
                &&& after == before
            },
        }
    }
}

/// How a failure of `kind` is waited out. Where the policy decides on a retry after a wait,
/// that is the action, with or without a discovery as `discover` says, and the attempt is
/// counted; otherwise the command fails with `kind`.
pub open spec fn waited(
    policy: RetryPolicy,
    command: Command,
    kind: RedisErrorKind,
    jitter: u64,
    discover: bool,
    action: ReplyAction,
    attempts_after: u32,
) -> bool {
    match policy.decision(kind, command.attempts, command.retryable(), jitter) {
        RetryDecision::RetryAfter(ms) => {
            &&& action matches ReplyAction::RetryAfter { wait_ms, refresh }
            &&& wait_ms == ms
            &&& refresh == discover
            &&& attempts_after == command.attempts + 1
        },
        _ => {
            &&& action matches ReplyAction::Fail(k)
            &&& k == kind
            &&& attempts_after == command.attempts
        },
    }
}

/// The router: the topology as it is known, and the policy on retries.
#[derive(Debug)]
pub struct Router {
    pub topology: Topology,
    pub policy: RetryPolicy,
}

impl Router {
    /// A router for a deployment.
    pub fn new(topology: Topology, policy: RetryPolicy) -> (r: Self)
        ensures
            r.topology == topology,
            r.policy == policy,
    {
        Router { topology, policy }
    }

    /// Replaces the topology, whole, with one that was just discovered.
    pub fn install(&mut self, topology: Topology)
        ensures
            final(self).topology == topology,
            final(self).policy == old(self).policy,
    {
        self.topology = topology;
    }

    /// Takes note that the master of a sentinel group cannot be reached. The master is
    /// forgotten, and the result asks for it to be resolved anew. Other deployments are not
    /// concerned.
    pub fn master_lost(&mut self) -> (resolve: bool)
        ensures
            final(self).policy == old(self).policy,
            resolve == (old(self).topology is Sentinel),
            final(self).topology@ == (if resolve {
                TopologyView::Sentinel(None)
            } else {
                old(self).topology@
            }),
    {
        let sentinel: bool = match &self.topology {
            Topology::Sentinel(_) => true,
            _ => false,
        };
        if sentinel {
            self.topology = Topology::Sentinel(None);
        }
        sentinel
    }

    /// Takes note that the sentinels name `server` as the master of their group, on being
    /// asked or on their own. Other deployments are not concerned.
    pub fn master_resolved(&mut self, server: Server) -> (changed: bool)
        ensures
            final(self).policy == old(self).policy,
            changed == (old(self).topology is Sentinel),
            final(self).topology@ == (if changed {
                TopologyView::Sentinel(Some(server@))
            } else {
                old(self).topology@
            }),
    {
        let sentinel: bool = match &self.topology {
            Topology::Sentinel(_) => true,
            _ => false,
        };
        if sentinel {
            self.topology = Topology::Sentinel(Some(server));
        }
        sentinel
    }

    /// The server that a command with this target goes to.
    pub fn route(&self, target: &Target) -> (r: Result<Server, RedisError>)
        ensures
            match route_of(self.topology@, target@) {
                Ok(server) => r matches Ok(s) && s@ == server,
                Err(kind) => r matches Err(e) && e.kind() == kind,
            },
    {
        match target {
            Target::Server(s) => {
                return Ok(s.clone());
            },
            _ => {},
        }
        match &self.topology {
            Topology::Centralized(s) => Ok(s.clone()),
            Topology::Sentinel(Some(s)) => Ok(s.clone()),
            Topology::Sentinel(None) => Err(
                RedisError::new(RedisErrorKind::Io, "The master is not known."),
            ),
            Topology::Clustered(map) => {
                let ranges = map.ranges();
                let slot = match target {
                    Target::Keys(keys) => match slot_for_keys(keys) {
                        Ok(slot) => slot,
                        Err(e) => {
                            return Err(e);
                        },
                    },
                    _ => None,
                };
                match slot {
                    Some(s) => match map.get_server(s) {
                        Some(server) => Ok(server.clone()),
                        None => Ok(ranges[0].primary.clone()),
                    },
                    None => Ok(ranges[0].primary.clone()),
                }
            },
        }
    }

    /// Follows a redirection in a cluster, as long as the policy allows another attempt,
    /// which is counted. For `MOVED` the slot map is replaced by one in which the named
    /// server owns the slot's range; for `ASK` it stays as it is. Outside a cluster, and for
    /// a number that is no slot, there is nothing to follow, and the reply goes to the
    /// caller.
    pub fn follow(&mut self, command: &mut Command, redirect: Redirect) -> (action: ReplyAction)
        ensures
            final(self).policy == old(self).policy,
            final(command).id == old(command).id,
            final(command).target == old(command).target,
            final(command).non_idempotent == old(command).non_idempotent,
            final(command).sent == old(command).sent,
            final(command).caching == old(command).caching,
            if old(self).topology is Clustered && redirect.slot < CLUSTER_SLOTS {
                followed(
                    old(self).topology@,
                    redirect_allowed(old(self).policy, *old(command)),
                    old(command).attempts,
                    redirect.kind,
                    redirect.slot,
                    redirect.server@,
                    action,
                    final(self).topology@,
                    final(command).attempts,
                )
            } else {
                &&& action is Deliver
                &&& final(self).topology@ == old(self).topology@
                &&& final(command).attempts == old(command).attempts
            },
    {
        let clustered: bool = match &self.topology {
            Topology::Clustered(_) => true,
            _ => false,
        };
        if !clustered || redirect.slot >= CLUSTER_SLOTS {
            return ReplyAction::Deliver;
        }
        let retryable: bool = !(command.non_idempotent && command.sent);
        match self.policy.decide(RedisErrorKind::Redirect, command.attempts, retryable, 0) {
            RetryDecision::GiveUp => {
                return ReplyAction::Fail(RedisErrorKind::Redirect);
            },
            _ => {},
        }
        command.attempts = command.attempts + 1;
        let Redirect { kind, slot, server } = redirect;
        match kind {
            RedirectKind::Ask => ReplyAction::FollowAsk { server },
            RedirectKind::Moved => {
                let (next, refresh) = match &self.topology {
                    Topology::Clustered(map) => (
                        map.with_owner(slot, server.clone()),
                        !map.knows(&server),
                    ),
                    _ => {
                        return ReplyAction::Fail(RedisErrorKind::Redirect);
                    },
                };
                self.topology = Topology::Clustered(next);
                ReplyAction::FollowMoved { server, refresh }
            },
        }
    }

    /// What follows from a reply that says that the cluster is not ready: the command is
    /// sent again after the policy's wait, with a discovery of the topology in the meantime
    /// if the deployment is a cluster, or fails as `ClusterUnavailable` when the policy allows
    /// no further attempt.
    pub fn on_unavailable(&self, command: &mut Command, jitter: u64) -> (action: ReplyAction)
        ensures
            final(command).id == old(command).id,
            final(command).target == old(command).target,
            final(command).non_idempotent == old(command).non_idempotent,
            final(command).sent == old(command).sent,
            final(command).caching == old(command).caching,
            waited(
                self.policy,
                *old(command),
                RedisErrorKind::ClusterUnavailable,
                jitter,
                self.topology is Clustered,
                action,
                final(command).attempts,
            ),
    {
        let clustered: bool = match &self.topology {
            Topology::Clustered(_) => true,
            _ => false,
        };
        self.wait_out(command, RedisErrorKind::ClusterUnavailable, jitter, clustered)
    }

    /// What follows from an error reply to `command`.
    ///
    /// A redirection in a cluster is followed, see [`Router::follow`]. A reply that says that
    /// the cluster is not ready is retried later, see [`Router::on_unavailable`]. Every other
    /// error reply is the command's result and goes to the caller.
    pub fn on_error(&mut self, command: &mut Command, payload: &[u8], jitter: u64) -> (action:
        ReplyAction)
        ensures
            final(self).policy == old(self).policy,
            final(command).id == old(command).id,
            final(command).target == old(command).target,
            final(command).non_idempotent == old(command).non_idempotent,
            final(command).sent == old(command).sent,
            final(command).caching == old(command).caching,
            match (redirect_of(payload@), old(self).topology@) {
                (Some((kind, slot, server)), TopologyView::Clustered(ranges)) => followed(
                    old(self).topology@,
                    redirect_allowed(old(self).policy, *old(command)),
                    old(command).attempts,
                    kind,
                    slot,
                    server,
                    action,
                    final(self).topology@,
                    final(command).attempts,
                ),
                _ => {
                    &&& final(self).topology@ == old(self).topology@
                    &&& if is_cluster_unavailable(payload@) {
                        waited(
                            old(self).policy,
                            *old(command),
                            RedisErrorKind::ClusterUnavailable,
                            jitter,
                            old(self).topology is Clustered,
                            action,
                            final(command).attempts,
                        )
                    } else {
                        action is Deliver && final(command).attempts == old(command).attempts
                    }
                },
            },
    {
        let clustered: bool = match &self.topology {
            Topology::Clustered(_) => true,
            _ => false,
        };
        if clustered {
            match parse_redirect(payload) {
                Some(redirect) => {
                    return self.follow(command, redirect);
                },
                None => {},
            }
        }
        if starts_with(payload, "CLUSTERDOWN".as_bytes()) || starts_with(
            payload,
            "TRYAGAIN".as_bytes(),
        ) {
            self.on_unavailable(command, jitter)
        } else {
            ReplyAction::Deliver
        }
    }

    /// What follows when `command` could not be carried out for a reason other than an error
    /// reply: the transport failed, the reply could not be read, or the caller's patience
    /// ran out. A transport failure is retried after the policy's wait, with the target
    /// resolved anew, as long as the policy allows; everything else fails with its kind.
    pub fn on_failure(&self, command: &mut Command, kind: RedisErrorKind, jitter: u64) -> (action:
        ReplyAction)
        ensures
            final(command).id == old(command).id,
            final(command).target == old(command).target,
            final(command).non_idempotent == old(command).non_idempotent,
            final(command).sent == old(command).sent,
            final(command).caching == old(command).caching,
            waited(
                self.policy,
                *old(command),
                kind,
                jitter,
                false,
                action,
                final(command).attempts,
            ),
    {
        self.wait_out(command, kind, jitter, false)
    }

    /// Asks the policy about a failure and counts the attempt if there is to be another.
    fn wait_out(&self, command: &mut Command, kind: RedisErrorKind, jitter: u64, discover: bool) -> (action:
        ReplyAction)
        ensures
            final(command).id == old(command).id,
            final(command).target == old(command).target,
            final(command).non_idempotent == old(command).non_idempotent,
            final(command).sent == old(command).sent,
            final(command).caching == old(command).caching,
            waited(
                self.policy,
                *old(command),
                kind,
                jitter,
                discover,
                action,
                final(command).attempts,
            ),
    {
        let retryable: bool = !(command.non_idempotent && command.sent);
        match self.policy.decide(kind, command.attempts, retryable, jitter) {
            RetryDecision::RetryAfter(ms) => {
                assert(command.attempts < self.policy.max_attempts);
                command.attempts = command.attempts + 1;
                ReplyAction::RetryAfter { wait_ms: ms, refresh: discover }
            },
            _ => ReplyAction::Fail(kind),
        }
    }
}

/// Once a slot has moved to `server`, every command for a key of that slot is routed to
/// `server`, from the slot map alone.
pub proof fn lemma_moved_slot_routes_to_new_owner(
    ranges: Seq<SlotRangeView>,
    slot: u16,
    server: ServerView,
    key: Seq<u8>,
)
    requires
        is_partition(ranges),
        slot < CLUSTER_SLOTS,
        slot_of(key) == slot,
    ensures
        route_of(
            TopologyView::Clustered(with_primary(ranges, range_of(ranges, slot), server)),
            TargetView::Keys(seq![key]),
        ) == Ok::<ServerView, RedisErrorKind>(server),
{
    lemma_moved_slot_has_new_owner(ranges, slot, server, slot);
    let keys = seq![key];
    assert(keys[0] == key);
    assert(common_slot(keys) == Some(Some(slot)));
}

/// Keys that share a hash tag are routed to the same server, in every deployment.
pub proof fn lemma_shared_tag_shares_route(topology: TopologyView, k1: Seq<u8>, k2: Seq<u8>)
    requires
        crate::routing::hash_tag(k1) is Some,
        crate::routing::hash_tag(k1) == crate::routing::hash_tag(k2),
    ensures
        route_of(topology, TargetView::Keys(seq![k1])) == route_of(
            topology,
            TargetView::Keys(seq![k2]),
        ),
{
    let a = seq![k1];
    let b = seq![k2];
    assert(a[0] == k1);
    assert(b[0] == k2);
    assert(slot_of(k1) == slot_of(k2));
    assert(common_slot(a) == Some(Some(slot_of(k1))));
    assert(common_slot(b) == Some(Some(slot_of(k2))));
}

} // verus!
