//! Finding out the topology.
//!
//! In a cluster, a node is asked for the table of slot ranges and their servers; the table is
//! read, put in order and checked, and the slot map made of it replaces the old one whole. A
//! node that does not answer, or answers with something that is no such table, is passed over
//! for the next known node; discovery fails only when every known node has been tried. The
//! master of a sentinel group is found in the same way, by asking the sentinels in turn.

use crate::buffer::string_from_utf8;
use crate::error::{RedisError, RedisErrorKind};
use crate::pubsub::word;
use crate::text::{parse_unsigned, parse_upto};
use crate::topology::{
    is_partition, range_views, server_views, Server, ServerView, SlotMap, SlotRange,
    SlotRangeView,
};
use crate::value::{lemma_views_of, views_of, RedisValue, ValueView};
use vstd::prelude::*;
use vstd::slice::slice_to_vec;
use vstd::utf8::{decode_utf8, encode_utf8_decode_utf8, valid_utf8};

verus! {

/// The server that an entry of the table names: an array that begins with a host, which is
/// text in valid UTF-8, and a port between 0 and 65535. What follows them is passed over.
pub open spec fn server_of(v: ValueView) -> Option<ServerView> {
    match v {
        ValueView::Array(items) => if items.len() >= 2 {
            match (word(items[0]), items[1]) {
                (Some(host), ValueView::Integer(port)) => if valid_utf8(host) && 0 <= port
                    <= 65535 {
                    Some(ServerView { host: decode_utf8(host), port: port as u16, name: None })
                } else {
                    None
                },
                _ => None,
            }
        } else {
            None
        },
        _ => None,
    }
}

/// Every element from index `from` on names a server.
pub open spec fn all_servers(items: Seq<ValueView>, from: int) -> bool {
    forall|k: int| from <= k < items.len() ==> server_of(#[trigger] items[k]) is Some
}

/// The range that a row of the table describes: an array of the first slot, the last slot,
/// the primary, and then the replicas. Both slots have to lie between 0 and 65535.
pub open spec fn range_of_row(v: ValueView) -> Option<SlotRangeView> {
    match v {
        ValueView::Array(items) => if items.len() >= 3 && all_servers(items, 2) {
            match (items[0], items[1]) {
                (ValueView::Integer(start), ValueView::Integer(end)) => if 0 <= start <= 65535
                    && 0 <= end <= 65535 {
                    Some(
                        SlotRangeView {
                            start: start as u16,
                            end: end as u16,
                            primary: server_of(items[2]).unwrap(),
                            replicas: Seq::new(
                                (items.len() - 3) as nat,
                                |k: int| server_of(items[k + 3]).unwrap(),
                            ),
                        },
                    )
                } else {
                    None
                },
                _ => None,
            }
        } else {
            None
        },
        _ => None,
    }
}

/// The rows of a table of slots, in the order in which they stand: an array in which every
/// element describes a range.
pub open spec fn slot_table(v: ValueView) -> Option<Seq<SlotRangeView>> {
    match v {
        ValueView::Array(rows) => if forall|k: int|
            0 <= k < rows.len() ==> range_of_row(#[trigger] rows[k]) is Some {
            Some(Seq::new(rows.len(), |k: int| range_of_row(rows[k]).unwrap()))
        } else {
            None
        },
        _ => None,
    }
}

/// Where a range goes among ranges in ascending order of their first slot: behind the last
/// one that does not start later.
pub open spec fn place_of(sorted: Seq<SlotRangeView>, range: SlotRangeView) -> int
    decreases sorted.len(),
{
    if sorted.len() == 0 || sorted.last().start <= range.start {
        sorted.len() as int
    } else {
        place_of(sorted.drop_last(), range)
    }
}

/// The ranges in ascending order of their first slot; ranges with the same first slot keep
/// their order.
pub open spec fn in_order(ranges: Seq<SlotRangeView>) -> Seq<SlotRangeView>
    decreases ranges.len(),
{
    if ranges.len() == 0 {
        Seq::empty()
    } else {
        let sorted = in_order(ranges.drop_last());
        sorted.insert(place_of(sorted, ranges.last()), ranges.last())
    }
}

/// No range starts before one that stands earlier.
pub open spec fn ascending(ranges: Seq<SlotRangeView>) -> bool {
    forall|i: int, j: int|
        0 <= i < j < ranges.len() ==> (#[trigger] ranges[i]).start <= (#[trigger] ranges[j]).start
}

/// Among ranges in ascending order, the place of a range lies behind everything that does not
/// start later and before everything that does.
proof fn lemma_place_of(sorted: Seq<SlotRangeView>, range: SlotRangeView)
    requires
        ascending(sorted),
    ensures
        0 <= place_of(sorted, range) <= sorted.len(),
        forall|i: int| 0 <= i < place_of(sorted, range) ==> (#[trigger] sorted[i]).start <= range.start,
        forall|i: int|
            place_of(sorted, range) <= i < sorted.len() ==> (#[trigger] sorted[i]).start
                > range.start,
    decreases sorted.len(),
{
    if sorted.len() == 0 {
    } else if sorted.last().start <= range.start {
        assert forall|i: int| 0 <= i < sorted.len() implies (#[trigger] sorted[i]).start
            <= range.start by {
            if i < sorted.len() - 1 {
                assert(sorted[i].start <= sorted[sorted.len() - 1].start);
            }
        }
    } else {
        let head = sorted.drop_last();
        assert(ascending(head)) by {
            assert forall|i: int, j: int| 0 <= i < j < head.len() implies (#[trigger] head[i]).start
                <= (#[trigger] head[j]).start by {
                assert(sorted[i].start <= sorted[j].start);
            }
        }
        lemma_place_of(head, range);
        assert forall|i: int| 0 <= i < place_of(sorted, range) implies (#[trigger] sorted[i]).start
            <= range.start by {
            assert(head[i].start <= range.start);
        }
        assert forall|i: int| place_of(sorted, range) <= i < sorted.len() implies (
        #[trigger] sorted[i]).start > range.start by {
            if i < head.len() {
                assert(head[i].start > range.start);
            }
        }
    }
}

/// Putting ranges in order changes nothing but their order: the result is ascending and holds
/// the same ranges, each as often as before.
pub proof fn lemma_in_order_sorts(ranges: Seq<SlotRangeView>)
    ensures
        ascending(in_order(ranges)),
        in_order(ranges).len() == ranges.len(),
        in_order(ranges).to_multiset() == ranges.to_multiset(),
    decreases ranges.len(),
{
    if ranges.len() == 0 {
        assert(in_order(ranges) =~= ranges);
    } else {
        let head = ranges.drop_last();
        let last = ranges.last();
        lemma_in_order_sorts(head);
        let sorted = in_order(head);
        lemma_place_of(sorted, last);
        let at = place_of(sorted, last);
        let after = sorted.insert(at, last);
        assert forall|i: int, j: int| 0 <= i < j < after.len() implies (#[trigger] after[i]).start
            <= (#[trigger] after[j]).start by {
            let i0 = if i < at {
                i
            } else {
                i - 1
            };
            let j0 = if j < at {
                j
            } else {
                j - 1
            };
            if i == at {
                assert(sorted[j0].start > last.start);
            } else if j == at {
                assert(sorted[i0].start <= last.start);
            } else {
                assert(sorted[i0].start <= sorted[j0].start);
            }
        }
        vstd::seq_lib::to_multiset_insert(sorted, at, last);
        vstd::seq_lib::to_multiset_build(head, last);
        assert(head.push(last) =~= ranges);
    }
}

/// Reads a server.
fn read_server(v: &RedisValue) -> (r: Option<Server>)
    ensures
        match server_of(v@) {
            Some(server) => r matches Some(s) && s@ == server,
            None => r is None,
        },
{
    match v {
        RedisValue::Array(items) => {
            proof {
                lemma_views_of(items@);
            }
            if items.len() < 2 {
                return None;
            }
            let host = match &items[0] {
                RedisValue::String(_) | RedisValue::Bytes(_) => match items[0].as_bytes() {
                    Some(b) => match string_from_utf8(slice_to_vec(b)) {
                        Some(h) => h,
                        None => {
                            return None;
                        },
                    },
                    None => {
                        return None;
                    },
                },
                _ => {
                    return None;
                },
            };
            proof {
                encode_utf8_decode_utf8(host@);
            }
            match &items[1] {
                RedisValue::Integer(port) => {
                    if 0 <= *port && *port <= 65535 {
                        Some(Server { host, port: *port as u16, name: None })
                    } else {
                        None
                    }
                },
                _ => None,
            }
        },
        _ => None,
    }
}

/// Reads a row of the table.
fn read_row(v: &RedisValue) -> (r: Option<SlotRange>)
    ensures
        match range_of_row(v@) {
            Some(range) => r matches Some(x) && x@ == range,
            None => r is None,
        },
{
    match v {
        RedisValue::Array(items) => {
            proof {
                lemma_views_of(items@);
            }
            let ghost views = views_of(items@);
            if items.len() < 3 {
                return None;
            }
            let primary = match read_server(&items[2]) {
                Some(s) => s,
                None => {
                    assert(server_of(views[2]) is None);
                    return None;
                },
            };
            let mut replicas: Vec<Server> = Vec::new();
            let mut k: usize = 3;
            while k < items.len()
                invariant
                    3 <= k <= items.len(),
                    v@ == ValueView::Array(views),
                    views == views_of(items@),
                    views.len() == items.len(),
                    forall|j: int| 0 <= j < items.len() ==> (#[trigger] views[j]) == items[j]@,
                    server_of(views[2]) is Some,
                    replicas.len() == k - 3,
                    forall|j: int| 3 <= j < k ==> server_of(#[trigger] views[j]) == Some(
                        replicas[j - 3]@,
                    ),
                decreases items.len() - k,
            {
                match read_server(&items[k]) {
                    Some(s) => {
                        replicas.push(s);
                    },
                    None => {
                        assert(server_of(views[k as int]) is None);
                        return None;
                    },
                }
                k = k + 1;
            }
            assert(all_servers(views, 2)) by {
                assert forall|j: int| 2 <= j < views.len() implies server_of(#[trigger] views[j])
                    is Some by {
                    if j >= 3 {
                        assert(server_of(views[j]) == Some(replicas[j - 3]@));
                    }
                }
            }
            match (&items[0], &items[1]) {
                (RedisValue::Integer(start), RedisValue::Integer(end)) => {
                    if 0 <= *start && *start <= 65535 && 0 <= *end && *end <= 65535 {
                        let range = SlotRange {
                            start: *start as u16,
                            end: *end as u16,
                            primary,
                            replicas,
                        };
                        assert(range@.replicas =~= range_of_row(v@).unwrap().replicas);
                        Some(range)
                    } else {
                        None
                    }
                },
                _ => None,
            }
        },
        _ => None,
    }
}

/// Puts `range` in its place among ranges that are in order.
fn place(sorted: &mut Vec<SlotRange>, range: SlotRange)
    ensures
        range_views(final(sorted)@) == range_views(old(sorted)@).insert(
            place_of(range_views(old(sorted)@), range@),
            range@,
        ),
{
    let ghost views = range_views(sorted@);
    let mut at: usize = sorted.len();
    assert(views.take(at as int) =~= views);
    while at > 0 && sorted[at - 1].start > range.start
        invariant
            at <= sorted.len(),
            views == range_views(sorted@),
            place_of(views, range@) == place_of(views.take(at as int), range@),
        decreases at,
    {
        assert(views.take(at as int).drop_last() =~= views.take(at - 1));
        at = at - 1;
    }
    proof {
        if at > 0 {
            assert(views.take(at as int).last() == views[at - 1]);
        }
    }
    sorted.insert(at, range);
    assert(range_views(sorted@) =~= views.insert(at as int, range@));
}

/// Reads the table of slots that a node answered with and makes a slot map of it. The rows
/// may stand in any order. An answer that is no table, or whose ranges do not divide the
/// slots `0` to `16383` among them, is refused as a `Protocol` error.
pub fn read_slot_table(value: &RedisValue) -> (r: Result<SlotMap, RedisError>)
    ensures
        match slot_table(value@) {
            Some(table) => if is_partition(in_order(table)) {
                r matches Ok(m) && m@ == in_order(table)
            } else {
                r matches Err(e) && e.kind() == RedisErrorKind::Protocol
            },
            None => r matches Err(e) && e.kind() == RedisErrorKind::Protocol,
        },
{
    match value {
        RedisValue::Array(rows) => {
            proof {
                lemma_views_of(rows@);
            }
            let ghost views = views_of(rows@);
            let ghost table = Seq::new(views.len(), |k: int| range_of_row(views[k]).unwrap());
            let mut sorted: Vec<SlotRange> = Vec::new();
            assert(table.take(0) =~= Seq::empty());
            assert(range_views(sorted@) =~= Seq::empty());
            let mut i: usize = 0;
            while i < rows.len()
                invariant
                    i <= rows.len(),
                    value@ == ValueView::Array(views),
                    views == views_of(rows@),
                    views.len() == rows.len(),
                    table == Seq::new(views.len(), |k: int| range_of_row(views[k]).unwrap()),
                    forall|j: int| 0 <= j < rows.len() ==> (#[trigger] views[j]) == rows[j]@,
                    forall|j: int| 0 <= j < i ==> range_of_row(#[trigger] views[j]) is Some,
                    range_views(sorted@) == in_order(table.take(i as int)),
                decreases rows.len() - i,
            {
                match read_row(&rows[i]) {
                    Some(range) => {
                        proof {
                            assert(table.take(i + 1).drop_last() =~= table.take(i as int));
                            assert(table.take(i + 1).last() == range@);
                        }
                        place(&mut sorted, range);
                    },
                    None => {
                        assert(range_of_row(views[i as int]) is None);
                        return Err(
                            RedisError::new(RedisErrorKind::Protocol, "Invalid cluster slots."),
                        );
                    },
                }
                i = i + 1;
            }
            assert(table.take(i as int) =~= table);
            SlotMap::from_ranges(sorted)
        },
        _ => Err(RedisError::new(RedisErrorKind::Protocol, "Invalid cluster slots.")),
    }
}

/// What to do next in a discovery.
#[derive(Debug)]
pub enum DiscoveryStep {
    /// Ask this node for the table of slots.
    Ask(Server),
    /// Replace the slot map with this one. The discovery is over.
    Install(SlotMap),
    /// Every known node has been tried in vain. The discovery has failed.
    Failed,
}

/// A discovery in progress: the known nodes, and how many of them have been asked.
#[derive(Debug)]
pub struct Discovery {
    nodes: Vec<Server>,
    asked: usize,
}

/// What a [`Discovery`] stands for.
pub struct DiscoveryView {
    /// The known nodes, in the order in which they are asked.
    pub nodes: Seq<ServerView>,
    /// How many of them have been asked.
    pub asked: nat,
}

impl View for Discovery {
    type V = DiscoveryView;

    closed spec fn view(&self) -> DiscoveryView {
        DiscoveryView { nodes: server_views(self.nodes@), asked: self.asked as nat }
    }
}

impl Discovery {
    #[verifier::type_invariant]
    spec fn asked_within(self) -> bool {
        self.asked <= self.nodes@.len()
    }

    /// A discovery that has asked none of the known nodes yet.
    pub fn new(nodes: Vec<Server>) -> (d: Self)
        ensures
            d@ == (DiscoveryView { nodes: server_views(nodes@), asked: 0 }),
    {
        Discovery { nodes, asked: 0 }
    }

    /// The next node to ask, in the order of the known nodes, each once. When all have been
    /// asked, the discovery has failed.
    pub fn next(&mut self) -> (step: DiscoveryStep)
        ensures
            final(self)@.nodes == old(self)@.nodes,
            old(self)@.asked <= old(self)@.nodes.len(),
            if old(self)@.asked < old(self)@.nodes.len() {
                &&& step matches DiscoveryStep::Ask(server)
                &&& server@ == old(self)@.nodes[old(self)@.asked as int]
                &&& final(self)@.asked == old(self)@.asked + 1
            } else {
                step is Failed && final(self)@.asked == old(self)@.asked
            },
    {
        proof {
            use_type_invariant(&*self);
        }
        if self.asked < self.nodes.len() {
            let server = self.nodes[self.asked].clone();
            self.asked = self.asked + 1;
            DiscoveryStep::Ask(server)
        } else {
            DiscoveryStep::Failed
        }
    }

    /// What follows from a node's answer, or from its silence, which is `None`: a table that
    /// makes a slot map is installed, and anything else sends the discovery on to the next
    /// node.
    pub fn on_answer(&mut self, answer: Option<&RedisValue>) -> (step: DiscoveryStep)
        ensures
            final(self)@.nodes == old(self)@.nodes,
            match answered_table(answer) {
                Some(table) => {
                    &&& step matches DiscoveryStep::Install(m)
                    &&& m@ == table
                    &&& is_partition(table)
                    &&& final(self)@ == old(self)@
                },
                None => if old(self)@.asked < old(self)@.nodes.len() {
                    &&& step matches DiscoveryStep::Ask(server)
                    &&& server@ == old(self)@.nodes[old(self)@.asked as int]
                    &&& final(self)@.asked == old(self)@.asked + 1
                } else {
                    step is Failed && final(self)@.asked == old(self)@.asked
                },
            },
    {
        match answer {
            Some(value) => match read_slot_table(value) {
                Ok(map) => {
                    return DiscoveryStep::Install(map);
                },
                Err(_) => {},
            },
            None => {},
        }
        self.next()
    }
}

/// The slot map that an answer makes: its table put in order, if that divides all slots.
pub open spec fn answered_table(answer: Option<&RedisValue>) -> Option<Seq<SlotRangeView>> {
    match answer {
        Some(value) => match slot_table(value@) {
            Some(table) => if is_partition(in_order(table)) {
                Some(in_order(table))
            } else {
                None
            },
            None => None,
        },
        None => None,
    }
}

/// The port that a value names: an integer between 0 and 65535, or text that spells one.
pub open spec fn port_of(v: ValueView) -> Option<u16> {
    match v {
        ValueView::Integer(port) => if 0 <= port <= 65535 {
            Some(port as u16)
        } else {
            None
        },
        other => match word(other) {
            Some(text) => match parse_unsigned(text, 65535) {
                Some(port) => Some(port as u16),
                None => None,
            },
            None => None,
        },
    }
}

/// The master that a sentinel names for the group `name`: an array of its host, which is text
/// in valid UTF-8, and its port.
pub open spec fn master_of(v: ValueView, name: Seq<char>) -> Option<ServerView> {
    match v {
        ValueView::Array(items) => if items.len() == 2 {
            match (word(items[0]), port_of(items[1])) {
                (Some(host), Some(port)) => if valid_utf8(host) {
                    Some(ServerView { host: decode_utf8(host), port, name: Some(name) })
                } else {
                    None
                },
                _ => None,
            }
        } else {
            None
        },
        _ => None,
    }
}

/// Reads a port.
fn read_port(v: &RedisValue) -> (r: Option<u16>)
    ensures
        r == port_of(v@),
{
    match v {
        RedisValue::Integer(port) => {
            if 0 <= *port && *port <= 65535 {
                Some(*port as u16)
            } else {
                None
            }
        },
        RedisValue::String(_) | RedisValue::Bytes(_) => match v.as_bytes() {
            Some(text) => match parse_upto(text, 65535) {
                Some(port) => Some(port as u16),
                None => None,
            },
            None => None,
        },
        _ => None,
    }
}

/// Reads the answer of a sentinel that was asked for the master of the group `name`.
pub fn read_master(value: &RedisValue, name: &str) -> (r: Option<Server>)
    ensures
        match master_of(value@, name@) {
            Some(server) => r matches Some(s) && s@ == server,
            None => r is None,
        },
{
    match value {
        RedisValue::Array(items) => {
            proof {
                lemma_views_of(items@);
            }
            if items.len() != 2 {
                return None;
            }
            let host = match &items[0] {
                RedisValue::String(_) | RedisValue::Bytes(_) => match items[0].as_bytes() {
                    Some(b) => match string_from_utf8(slice_to_vec(b)) {
                        Some(h) => h,
                        None => {
                            return None;
                        },
                    },
                    None => {
                        return None;
                    },
                },
                _ => {
                    return None;
                },
            };
            proof {
                encode_utf8_decode_utf8(host@);
            }
            match read_port(&items[1]) {
                Some(port) => Some(Server { host, port, name: Some(name.to_owned()) }),
                None => None,
            }
        },
        _ => None,
    }
}

/// What to do next in finding the master of a sentinel group.
#[derive(Debug)]
pub enum ResolveStep {
    /// Ask this sentinel for the master.
    Ask(Server),
    /// This is the master. The search is over.
    Resolved(Server),
    /// Every known sentinel has been tried in vain.
    Failed,
}

impl Discovery {
    /// What follows from a sentinel's answer to the question for the master of the group
    /// `name`, or from its silence, which is `None`: an answer that names a master ends the
    /// search, and anything else sends it on to the next sentinel.
    pub fn on_master_answer(&mut self, answer: Option<&RedisValue>, name: &str) -> (step:
        ResolveStep)
        ensures
            final(self)@.nodes == old(self)@.nodes,
            match answered_master(answer, name@) {
                Some(server) => {
                    &&& step matches ResolveStep::Resolved(s)
                    &&& s@ == server
                    &&& final(self)@ == old(self)@
                },
                None => if old(self)@.asked < old(self)@.nodes.len() {
                    &&& step matches ResolveStep::Ask(server)
                    &&& server@ == old(self)@.nodes[old(self)@.asked as int]
                    &&& final(self)@.asked == old(self)@.asked + 1
                } else {
                    step is Failed && final(self)@.asked == old(self)@.asked
                },
            },
    {
        match answer {
            Some(value) => match read_master(value, name) {
                Some(server) => {
                    return ResolveStep::Resolved(server);
                },
                None => {},
            },
            None => {},
        }
        match self.next() {
            DiscoveryStep::Ask(server) => ResolveStep::Ask(server),
            _ => ResolveStep::Failed,
        }
    }
}

/// The master that an answer names.
pub open spec fn answered_master(answer: Option<&RedisValue>, name: Seq<char>) -> Option<
    ServerView,
> {
    match answer {
        Some(value) => master_of(value@, name),
        None => None,
    }
}

} // verus!
