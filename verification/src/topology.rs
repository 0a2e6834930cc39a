//! Servers and the map from hash slots to the servers that own them.

use crate::error::{RedisError, RedisErrorKind};
use crate::routing::CLUSTER_SLOTS;
use vstd::prelude::*;

verus! {

/// One endpoint: a host, a port and, for the master of a sentinel group, the group's name.
#[derive(Debug)]
pub struct Server {
    pub host: String,
    pub port: u16,
    pub name: Option<String>,
}

/// What a [`Server`] stands for.
pub struct ServerView {
    pub host: Seq<char>,
    pub port: u16,
    pub name: Option<Seq<char>>,
}

impl View for Server {
    type V = ServerView;

    open spec fn view(&self) -> ServerView {
        ServerView {
            host: self.host@,
            port: self.port,
            name: match self.name {
                Some(n) => Some(n@),
                None => None,
            },
        }
    }
}

impl Clone for Server {
    fn clone(&self) -> (r: Self)
        ensures
            r@ == self@,
    {
        Server {
            host: self.host.clone(),
            port: self.port,
            name: match &self.name {
                Some(n) => Some(n.clone()),
                None => None,
            },
        }
    }
}

impl PartialEq for Server {
    fn eq(&self, other: &Self) -> (r: bool) {
        self.port == other.port && self.host == other.host && match (&self.name, &other.name) {
            (Some(a), Some(b)) => *a == *b,
            (None, None) => true,
            _ => false,
        }
    }
}

impl vstd::std_specs::cmp::PartialEqSpecImpl for Server {
    open spec fn obeys_eq_spec() -> bool {
        true
    }

    open spec fn eq_spec(&self, other: &Self) -> bool {
        self@ == other@
    }
}

impl Eq for Server {

}

impl Server {
    /// The server at `host` and `port`.
    pub fn new(host: &str, port: u16) -> (s: Self)
        ensures
            s@ == (ServerView { host: host@, port, name: None }),
    {
        Server { host: host.to_owned(), port, name: None }
    }

    /// The master of the sentinel group `name`, at `host` and `port`.
    pub fn new_named(host: &str, port: u16, name: &str) -> (s: Self)
        ensures
            s@ == (ServerView { host: host@, port, name: Some(name@) }),
    {
        Server { host: host.to_owned(), port, name: Some(name.to_owned()) }
    }
}

/// A run of consecutive slots with the server that owns them and the servers that replicate
/// it.
#[derive(Debug)]
pub struct SlotRange {
    pub start: u16,
    pub end: u16,
    pub primary: Server,
    pub replicas: Vec<Server>,
}

/// What a [`SlotRange`] stands for.
pub struct SlotRangeView {
    pub start: u16,
    pub end: u16,
    pub primary: ServerView,
    pub replicas: Seq<ServerView>,
}

/// The views of a run of servers.
pub open spec fn server_views(servers: Seq<Server>) -> Seq<ServerView> {
    Seq::new(servers.len(), |i: int| servers[i]@)
}

impl View for SlotRange {
    type V = SlotRangeView;

    open spec fn view(&self) -> SlotRangeView {
        SlotRangeView {
            start: self.start,
            end: self.end,
            primary: self.primary@,
            replicas: server_views(self.replicas@),
        }
    }
}

/// Copies a run of servers.
fn clone_servers(servers: &Vec<Server>) -> (r: Vec<Server>)
    ensures
        server_views(r@) == server_views(servers@),
{
    let mut out: Vec<Server> = Vec::new();
    let mut i: usize = 0;
    while i < servers.len()
        invariant
            i <= servers.len(),
            out.len() == i,
            forall|j: int| 0 <= j < i ==> out[j]@ == servers[j]@,
        decreases servers.len() - i,
    {
        out.push(servers[i].clone());
        i = i + 1;
    }
    assert(server_views(out@) =~= server_views(servers@));
    out
}

impl Clone for SlotRange {
    fn clone(&self) -> (r: Self)
        ensures
            r@ == self@,
    {
        SlotRange {
            start: self.start,
            end: self.end,
            primary: self.primary.clone(),
            replicas: clone_servers(&self.replicas),
        }
    }
}

/// The views of a run of ranges.
pub open spec fn range_views(ranges: Seq<SlotRange>) -> Seq<SlotRangeView> {
    Seq::new(ranges.len(), |i: int| ranges[i]@)
}

/// The ranges divide the slots `0` to `16383` among them: the first starts at `0`, each next
/// one starts right after the one before, the last ends at `16383`, and none is empty.
pub open spec fn is_partition(ranges: Seq<SlotRangeView>) -> bool {
    &&& ranges.len() > 0
    &&& ranges[0].start == 0
    &&& ranges.last().end == CLUSTER_SLOTS - 1
    &&& forall|i: int| 0 <= i < ranges.len() ==> (#[trigger] ranges[i]).start <= ranges[i].end
    &&& forall|i: int|
        0 <= i < ranges.len() - 1 ==> (#[trigger] ranges[i]).end + 1 == ranges[i + 1].start
}

/// The range at index `i` holds `slot`.
pub open spec fn holds_slot(ranges: Seq<SlotRangeView>, i: int, slot: u16) -> bool {
    0 <= i < ranges.len() && ranges[i].start <= slot <= ranges[i].end
}

/// The index of the range that holds `slot`.
pub open spec fn range_of(ranges: Seq<SlotRangeView>, slot: u16) -> int {
    choose|i: int| holds_slot(ranges, i, slot)
}

/// The server that owns `slot`.
pub open spec fn owner_of(ranges: Seq<SlotRangeView>, slot: u16) -> ServerView {
    ranges[range_of(ranges, slot)].primary
}

/// Whether `server` is the primary or a replica of some range.
pub open spec fn is_known(ranges: Seq<SlotRangeView>, server: ServerView) -> bool {
    exists|i: int|
        0 <= i < ranges.len() && ((#[trigger] ranges[i]).primary == server
            || ranges[i].replicas.contains(server))
}

/// The ranges with `server` as the new primary of the range at index `i`.
pub open spec fn with_primary(ranges: Seq<SlotRangeView>, i: int, server: ServerView) -> Seq<
    SlotRangeView,
> {
    ranges.update(i, SlotRangeView { primary: server, ..ranges[i] })
}

/// In a partition, ranges further along start later.
pub proof fn lemma_ranges_ascend(ranges: Seq<SlotRangeView>, i: int, j: int)
    requires
        is_partition(ranges),
        0 <= i < j < ranges.len(),
    ensures
        ranges[i].end < ranges[j].start,
    decreases j - i,
{
    if i + 1 < j {
        lemma_ranges_ascend(ranges, i, j - 1);
        assert(ranges[j - 1].end + 1 == ranges[j].start);
    } else {
        assert(ranges[i].end + 1 == ranges[i + 1].start);
    }
}

/// In a partition, every slot below 16384 lies in exactly one range.
pub proof fn lemma_one_owner(ranges: Seq<SlotRangeView>, slot: u16)
    requires
        is_partition(ranges),
        slot < CLUSTER_SLOTS,
    ensures
        holds_slot(ranges, range_of(ranges, slot), slot),
        forall|i: int| holds_slot(ranges, i, slot) ==> i == range_of(ranges, slot),
{
    lemma_some_owner(ranges, slot, 0);
    let r = range_of(ranges, slot);
    assert forall|i: int| holds_slot(ranges, i, slot) implies i == r by {
        if i < r {
            lemma_ranges_ascend(ranges, i, r);
        } else if r < i {
            lemma_ranges_ascend(ranges, r, i);
        }
    }
}

/// In a partition, a slot at or after the start of range `from` lies in that range or a later
/// one.
proof fn lemma_some_owner(ranges: Seq<SlotRangeView>, slot: u16, from: int)
    requires
        is_partition(ranges),
        slot < CLUSTER_SLOTS,
        0 <= from < ranges.len(),
        ranges[from].start <= slot,
    ensures
        exists|i: int| holds_slot(ranges, i, slot),
    decreases ranges.len() - from,
{
    if slot <= ranges[from].end {
        assert(holds_slot(ranges, from, slot));
    } else {
        assert(from < ranges.len() - 1);
        assert(ranges[from].end + 1 == ranges[from + 1].start);
        lemma_some_owner(ranges, slot, from + 1);
    }
}

/// The owners of all hash slots: ranges that divide the slots `0` to `16383` among them. The
/// map is never changed in place; an update makes a new map, which replaces the old one whole.
#[derive(Debug)]
pub struct SlotMap {
    ranges: Vec<SlotRange>,
}

impl View for SlotMap {
    type V = Seq<SlotRangeView>;

    closed spec fn view(&self) -> Seq<SlotRangeView> {
        range_views(self.ranges@)
    }
}

impl SlotMap {
    #[verifier::type_invariant]
    spec fn divides_all_slots(self) -> bool {
        is_partition(range_views(self.ranges@))
    }

    /// The map made of `ranges`, which must divide all slots among them, in ascending order.
    /// Anything else is refused as a `Protocol` error.
    pub fn from_ranges(ranges: Vec<SlotRange>) -> (r: Result<SlotMap, RedisError>)
        ensures
            match r {
                Ok(m) => is_partition(range_views(ranges@)) && m@ == range_views(ranges@),
                Err(e) => !is_partition(range_views(ranges@)) && e.kind()
                    == RedisErrorKind::Protocol,
            },
    {
        let ghost views = range_views(ranges@);
        let n: usize = ranges.len();
        if n == 0 || ranges[0].start != 0 || ranges[n - 1].end != CLUSTER_SLOTS - 1 {
            return Err(RedisError::new(RedisErrorKind::Protocol, "Invalid cluster slots."));
        }
        let mut i: usize = 0;
        while i < n
            invariant
                i <= n,
                n == ranges.len(),
                views == range_views(ranges@),
                forall|j: int| 0 <= j < i ==> (#[trigger] views[j]).start <= views[j].end,
                forall|j: int|
                    0 <= j < i && j < n - 1 ==> (#[trigger] views[j]).end + 1 == views[j + 1].start,
            decreases n - i,
        {
            if ranges[i].start > ranges[i].end {
                assert(!(views[i as int].start <= views[i as int].end));
                return Err(RedisError::new(RedisErrorKind::Protocol, "Invalid cluster slots."));
            }
            if i + 1 < n && (ranges[i].end == u16::MAX || ranges[i].end + 1 != ranges[i
                + 1].start) {
                assert(!(views[i as int].end + 1 == views[i as int + 1].start));
                return Err(RedisError::new(RedisErrorKind::Protocol, "Invalid cluster slots."));
            }
            i = i + 1;
        }
        Ok(SlotMap { ranges })
    }

    /// The map divides all slots among its ranges.
    pub fn ranges(&self) -> (r: &Vec<SlotRange>)
        ensures
            range_views(r@) == self@,
            is_partition(self@),
    {
        proof {
            use_type_invariant(self);
        }
        &self.ranges
    }

    /// The index of the range that holds `slot`.
    fn find(&self, slot: u16) -> (i: usize)
        requires
            slot < CLUSTER_SLOTS,
        ensures
            i < self.ranges.len(),
            i == range_of(self@, slot),
            holds_slot(self@, i as int, slot),
            is_partition(self@),
    {
        proof {
            use_type_invariant(self);
            lemma_one_owner(self@, slot);
        }
        let mut i: usize = 0;
        while self.ranges[i].end < slot
            invariant
                i < self.ranges.len(),
                self@ == range_views(self.ranges@),
                is_partition(self@),
                slot < CLUSTER_SLOTS,
                self@[i as int].start <= slot,
            decreases self.ranges.len() - i,
        {
            assert(i < self.ranges.len() - 1) by {
                assert(self@.last().end == CLUSTER_SLOTS - 1);
            }
            assert(self@[i as int].end + 1 == self@[i + 1].start);
            i = i + 1;
        }
        assert(holds_slot(self@, i as int, slot));
        i
    }

    /// The server that owns `slot`. Every slot below 16384 has exactly one owner, and no other
    /// number is a slot.
    pub fn get_server(&self, slot: u16) -> (r: Option<&Server>)
        ensures
            match r {
                Some(s) => slot < CLUSTER_SLOTS && s@ == owner_of(self@, slot),
                None => slot >= CLUSTER_SLOTS,
            },
    {
        if slot >= CLUSTER_SLOTS {
            return None;
        }
        let i: usize = self.find(slot);
        Some(&self.ranges[i].primary)
    }

    /// Whether `server` is the primary or a replica of some range.
    pub fn knows(&self, server: &Server) -> (r: bool)
        ensures
            r == is_known(self@, server@),
    {
        let mut i: usize = 0;
        while i < self.ranges.len()
            invariant
                i <= self.ranges.len(),
                self@ == range_views(self.ranges@),
                forall|k: int|
                    0 <= k < i ==> !((#[trigger] self@[k]).primary == server@
                        || self@[k].replicas.contains(server@)),
            decreases self.ranges.len() - i,
        {
            if self.ranges[i].primary == *server {
                assert(self@[i as int].primary == server@);
                return true;
            }
            let replicas = &self.ranges[i].replicas;
            let mut j: usize = 0;
            while j < replicas.len()
                invariant
                    j <= replicas.len(),
                    i < self.ranges.len(),
                    self@ == range_views(self.ranges@),
                    replicas == &self.ranges[i as int].replicas,
                    forall|k: int| 0 <= k < j ==> replicas[k]@ != server@,
                decreases replicas.len() - j,
            {
                if replicas[j] == *server {
                    assert(self@[i as int].replicas[j as int] == server@);
                    return true;
                }
                j = j + 1;
            }
            i = i + 1;
        }
        false
    }

    /// A new map in which `server` owns the range that holds `slot`. All other ranges are as
    /// they were. A number that is no slot changes nothing.
    pub fn with_owner(&self, slot: u16, server: Server) -> (m: SlotMap)
        ensures
            m@ == (if slot < CLUSTER_SLOTS {
                with_primary(self@, range_of(self@, slot), server@)
            } else {
                self@
            }),
            is_partition(self@),
            is_partition(m@),
    {
        if slot >= CLUSTER_SLOTS {
            proof {
                use_type_invariant(self);
            }
            let same = self.clone();
            proof {
                use_type_invariant(&same);
            }
            return same;
        }
        let at: usize = self.find(slot);
        let mut out: Vec<SlotRange> = Vec::new();
        let mut i: usize = 0;
        while i < self.ranges.len()
            invariant
                i <= self.ranges.len(),
                at < self.ranges.len(),
                out.len() == i,
                self@ == range_views(self.ranges@),
                forall|j: int|
                    0 <= j < i ==> (#[trigger] out[j])@ == with_primary(self@, at as int, server@)[j],
            decreases self.ranges.len() - i,
        {
            let range = &self.ranges[i];
            if i == at {
                out.push(
                    SlotRange {
                        start: range.start,
                        end: range.end,
                        primary: server.clone(),
                        replicas: clone_servers(&range.replicas),
                    },
                );
            } else {
                out.push(range.clone());
            }
            i = i + 1;
        }
        proof {
            assert(range_views(out@) =~= with_primary(self@, at as int, server@));
        }
        SlotMap { ranges: out }
    }
}

impl Clone for SlotMap {
    fn clone(&self) -> (r: Self)
        ensures
            r@ == self@,
    {
        proof {
            use_type_invariant(self);
        }
        let mut out: Vec<SlotRange> = Vec::new();
        let mut i: usize = 0;
        while i < self.ranges.len()
            invariant
                i <= self.ranges.len(),
                out.len() == i,
                forall|j: int| 0 <= j < i ==> (#[trigger] out[j])@ == self.ranges[j]@,
            decreases self.ranges.len() - i,
        {
            out.push(self.ranges[i].clone());
            i = i + 1;
        }
        proof {
            assert(range_views(out@) =~= range_views(self.ranges@));
        }
        SlotMap { ranges: out }
    }
}

/// After `server` takes over the range that holds `slot`, it owns that slot and every other
/// slot of that range, and all other slots keep their owners.
pub proof fn lemma_moved_slot_has_new_owner(
    ranges: Seq<SlotRangeView>,
    slot: u16,
    server: ServerView,
    other: u16,
)
    requires
        is_partition(ranges),
        slot < CLUSTER_SLOTS,
        other < CLUSTER_SLOTS,
    ensures
        is_partition(with_primary(ranges, range_of(ranges, slot), server)),
        owner_of(with_primary(ranges, range_of(ranges, slot), server), slot) == server,
        range_of(ranges, other) == range_of(ranges, slot) ==> owner_of(
            with_primary(ranges, range_of(ranges, slot), server),
            other,
        ) == server,
        range_of(ranges, other) != range_of(ranges, slot) ==> owner_of(
            with_primary(ranges, range_of(ranges, slot), server),
            other,
        ) == owner_of(ranges, other),
{
    let at = range_of(ranges, slot);
    let after = with_primary(ranges, at, server);
    lemma_one_owner(ranges, slot);
    lemma_one_owner(ranges, other);
    assert(is_partition(after)) by {
        assert(after.len() == ranges.len());
        assert forall|i: int| 0 <= i < after.len() implies (#[trigger] after[i]).start
            <= after[i].end by {
            assert(ranges[i].start <= ranges[i].end);
        }
        assert forall|i: int| 0 <= i < after.len() - 1 implies (#[trigger] after[i]).end + 1
            == after[i + 1].start by {
            assert(ranges[i].end + 1 == ranges[i + 1].start);
        }
    }
    lemma_one_owner(after, slot);
    lemma_one_owner(after, other);
    assert(holds_slot(after, at, slot));
    assert(holds_slot(after, range_of(ranges, other), other));
}

} // verus!
