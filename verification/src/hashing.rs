//! What a value feeds to a hasher.
//!
//! A value is hashed as a byte that tells its kind, followed by its data. Maps cannot be
//! hashed, and neither can arrays that hold one.

use crate::buffer::{bytes_as_slice, str_inner};
use crate::value::{lemma_views_of, utf8, views_of, RedisValue, RedisValueKind, ValueView, QUEUED};
use vstd::prelude::*;
use vstd::slice::slice_to_vec;

verus! {

/// The text that stands for `Null` in a hash: the null of the wire protocol.
pub const NULL: &'static str = "$-1\r\n";

/// One thing fed to a hasher.
#[derive(Debug)]
pub enum HashPiece {
    /// A single byte.
    Byte(u8),
    /// A 64-bit integer.
    Int(i64),
    /// Text, fed as a string.
    Text(Vec<u8>),
    /// Bytes, fed as a slice.
    Raw(Vec<u8>),
}

/// What a [`HashPiece`] stands for.
pub enum HashPieceView {
    Byte(u8),
    Int(i64),
    Text(Seq<u8>),
    Raw(Seq<u8>),
}

impl View for HashPiece {
    type V = HashPieceView;

    open spec fn view(&self) -> HashPieceView {
        match self {
            HashPiece::Byte(b) => HashPieceView::Byte(*b),
            HashPiece::Int(i) => HashPieceView::Int(*i),
            HashPiece::Text(t) => HashPieceView::Text(t@),
            HashPiece::Raw(r) => HashPieceView::Raw(r@),
        }
    }
}

/// The views of a run of pieces.
pub open spec fn piece_views(pieces: Seq<HashPiece>) -> Seq<HashPieceView> {
    Seq::new(pieces.len(), |i: int| pieces[i]@)
}

/// The byte that tells a kind apart from all others: `B`, `d`, `i`, `s`, `n`, `q`, `a`, `m`
/// and `b`.
pub open spec fn kind_prefix(kind: RedisValueKind) -> u8 {
    match kind {
        RedisValueKind::Boolean => 66,
        RedisValueKind::Double => 100,
        RedisValueKind::Integer => 105,
        RedisValueKind::String => 115,
        RedisValueKind::Null => 110,
        RedisValueKind::Queued => 113,
        RedisValueKind::Array => 97,
        RedisValueKind::Mapping => 109,
        RedisValueKind::Bytes => 98,
    }
}

/// The eight bytes of a 64-bit pattern, most significant first.
pub open spec fn be_bytes(bits: u64) -> Seq<u8> {
    seq![
        (bits / 0x100_0000_0000_0000) as u8,
        (bits / 0x1_0000_0000_0000 % 256) as u8,
        (bits / 0x100_0000_0000 % 256) as u8,
        (bits / 0x1_0000_0000 % 256) as u8,
        (bits / 0x100_0000 % 256) as u8,
        (bits / 0x1_0000 % 256) as u8,
        (bits / 0x100 % 256) as u8,
        (bits % 256) as u8,
    ]
}

/// Whether a value can be hashed: it is no map and holds none.
pub open spec fn hashable(v: ValueView) -> bool
    decreases v,
{
    match v {
        ValueView::Mapping(_) => false,
        ValueView::Array(items) => each_hashable(items),
        _ => true,
    }
}

/// Whether every one of the values can be hashed.
pub open spec fn each_hashable(items: Seq<ValueView>) -> bool
    decreases items,
{
    forall|i: int| 0 <= i < items.len() ==> hashable(#[trigger] items[i])
}

/// What a value feeds to a hasher: the byte of its kind, then its data. A boolean is one
/// byte, an integer is itself, a double is the eight bytes of its bit pattern, text and the
/// stand-ins for `Null` and `Queued` are text, bytes are bytes, and an array is what its
/// elements feed, one after the other.
pub open spec fn hash_pieces(v: ValueView) -> Seq<HashPieceView>
    decreases v, 0nat,
{
    seq![HashPieceView::Byte(kind_prefix(v.kind()))] + (match v {
        ValueView::Boolean(b) => seq![
            HashPieceView::Byte(
                if b {
                    1u8
                } else {
                    0u8
                },
            ),
        ],
        ValueView::Double(d) => seq![HashPieceView::Raw(be_bytes(d.bits))],
        ValueView::Integer(i) => seq![HashPieceView::Int(i)],
        ValueView::String(s) => seq![HashPieceView::Text(s)],
        ValueView::Bytes(b) => seq![HashPieceView::Raw(b)],
        ValueView::Null => seq![HashPieceView::Text(utf8(NULL))],
        ValueView::Queued => seq![HashPieceView::Text(utf8(QUEUED))],
        ValueView::Array(items) => array_pieces(items, items.len()),
        ValueView::Mapping(_) => Seq::empty(),
    })
}

/// What the first `n` elements of an array feed to a hasher.
pub open spec fn array_pieces(items: Seq<ValueView>, n: nat) -> Seq<HashPieceView>
    decreases items, n,
{
    if n == 0 || n > items.len() {
        Seq::empty()
    } else {
        array_pieces(items, (n - 1) as nat) + hash_pieces(items[n - 1])
    }
}

/// Computes the eight bytes of a 64-bit pattern, most significant first.
fn be_bytes_of(bits: u64) -> (out: Vec<u8>)
    ensures
        out@ == be_bytes(bits),
{
    let mut out: Vec<u8> = Vec::new();
    out.push((bits / 0x100_0000_0000_0000) as u8);
    out.push((bits / 0x1_0000_0000_0000 % 256) as u8);
    out.push((bits / 0x100_0000_0000 % 256) as u8);
    out.push((bits / 0x1_0000_0000 % 256) as u8);
    out.push((bits / 0x100_0000 % 256) as u8);
    out.push((bits / 0x1_0000 % 256) as u8);
    out.push((bits / 0x100 % 256) as u8);
    out.push((bits % 256) as u8);
    assert(out@ =~= be_bytes(bits));
    out
}

/// Whether every one of the values can be hashed.
fn all_hashable(items: &Vec<RedisValue>) -> (r: bool)
    ensures
        r == hashable(ValueView::Array(views_of(items@))),
    decreases items,
{
    proof {
        lemma_views_of(items@);
    }
    let ghost views = views_of(items@);
    let mut i: usize = 0;
    while i < items.len()
        invariant
            i <= items.len(),
            views == views_of(items@),
            views.len() == items.len(),
            forall|j: int| 0 <= j < items.len() ==> (#[trigger] views[j]) == items[j]@,
            forall|j: int| 0 <= j < i ==> hashable(#[trigger] views[j]),
        decreases items.len() - i,
    {
        if !items[i].is_hashable() {
            assert(!hashable(views[i as int]));
            return false;
        }
        i = i + 1;
    }
    true
}

/// Adds what the values feed to a hasher to `out`.
fn feed_all(items: &Vec<RedisValue>, out: &mut Vec<HashPiece>)
    requires
        hashable(ValueView::Array(views_of(items@))),
    ensures
        piece_views(final(out)@) == piece_views(old(out)@) + array_pieces(
            views_of(items@),
            items.len() as nat,
        ),
    decreases items,
{
    proof {
        lemma_views_of(items@);
    }
    let ghost views = views_of(items@);
    let ghost start = piece_views(out@);
    assert forall|j: int| 0 <= j < views.len() implies hashable(#[trigger] views[j]) by {}
    assert(start =~= start + array_pieces(views, 0));
    let mut i: usize = 0;
    while i < items.len()
        invariant
            i <= items.len(),
            views == views_of(items@),
            views.len() == items.len(),
            forall|j: int| 0 <= j < items.len() ==> (#[trigger] views[j]) == items[j]@,
            forall|j: int| 0 <= j < items.len() ==> hashable(#[trigger] views[j]),
            piece_views(out@) == start + array_pieces(views, i as nat),
        decreases items.len() - i,
    {
        assert(hashable(views[i as int]));
        items[i].feed(out);
        assert(piece_views(out@) =~= start + array_pieces(views, (i + 1) as nat));
        i = i + 1;
    }
}

impl RedisValue {
    /// Whether the value can be hashed: it is no map and holds none.
    pub fn is_hashable(&self) -> (r: bool)
        ensures
            r == hashable(self@),
        decreases self,
    {
        match self {
            RedisValue::Mapping(_) => false,
            RedisValue::Array(items) => all_hashable(items),
            _ => true,
        }
    }

    /// Adds what the value feeds to a hasher to `out`.
    fn feed(&self, out: &mut Vec<HashPiece>)
        requires
            hashable(self@),
        ensures
            piece_views(final(out)@) == piece_views(old(out)@) + hash_pieces(self@),
        decreases self,
    {
        let ghost before = piece_views(out@);
        match self {
            RedisValue::Boolean(b) => {
                out.push(HashPiece::Byte(66));
                out.push(
                    HashPiece::Byte(
                        if *b {
                            1
                        } else {
                            0
                        },
                    ),
                );
            },
            RedisValue::Double(d) => {
                out.push(HashPiece::Byte(100));
                out.push(HashPiece::Raw(be_bytes_of(d.bits())));
            },
            RedisValue::Integer(i) => {
                out.push(HashPiece::Byte(105));
                out.push(HashPiece::Int(*i));
            },
            RedisValue::String(s) => {
                out.push(HashPiece::Byte(115));
                out.push(HashPiece::Text(slice_to_vec(bytes_as_slice(str_inner(s)))));
            },
            RedisValue::Bytes(b) => {
                out.push(HashPiece::Byte(98));
                out.push(HashPiece::Raw(slice_to_vec(bytes_as_slice(b))));
            },
            RedisValue::Null => {
                out.push(HashPiece::Byte(110));
                out.push(HashPiece::Text(slice_to_vec(NULL.as_bytes())));
            },
            RedisValue::Queued => {
                out.push(HashPiece::Byte(113));
                out.push(HashPiece::Text(slice_to_vec(QUEUED.as_bytes())));
            },
            RedisValue::Array(items) => {
                out.push(HashPiece::Byte(97));
                let ghost start = piece_views(out@);
                assert(start =~= before + seq![HashPieceView::Byte(97)]);
                proof {
                    lemma_views_of(items@);
                }
                feed_all(items, out);
            },
            RedisValue::Mapping(_) => {},
        }
        assert(piece_views(out@) =~= before + hash_pieces(self@));
    }

    /// What the value feeds to a hasher, in order.
    pub fn hash_pieces(&self) -> (out: Vec<HashPiece>)
        requires
            hashable(self@),
        ensures
            piece_views(out@) == hash_pieces(self@),
    {
        let mut out: Vec<HashPiece> = Vec::new();
        self.feed(&mut out);
        assert(piece_views(out@) =~= hash_pieces(self@));
        out
    }
}

/// Values of different kinds feed different first bytes to a hasher, so that values of
/// different kinds with the same data do not collide by construction.
pub proof fn lemma_kinds_hash_apart(a: ValueView, b: ValueView)
    requires
        a.kind() != b.kind(),
    ensures
        hash_pieces(a)[0] != hash_pieces(b)[0],
{
}

} // verus!
