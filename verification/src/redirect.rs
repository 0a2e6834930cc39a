//! Redirections: replies with which a cluster node sends a command on to the node that owns its
//! slot.
//!
//! A redirection is an error reply of three words, with one space between them: `MOVED` or
//! `ASK`, the slot, and the owner as `host:port`.

use crate::buffer::string_from_utf8;
use crate::text::{
    find_byte, find_last_byte, first_index, last_index, parse_unsigned, parse_upto,
};
use crate::topology::{Server, ServerView};
use crate::value::{bytes_eq, utf8};
use vstd::prelude::*;
use vstd::slice::{slice_subrange, slice_to_vec};
use vstd::utf8::{decode_utf8, encode_utf8_decode_utf8, valid_utf8};

verus! {

/// The two ways in which a node sends a command on.
#[derive(Clone, Copy, Debug, PartialEq, Eq, Structural)]
pub enum RedirectKind {
    /// The slot has moved for good: this and later commands go to the new owner.
    Moved,
    /// The slot is being moved: only this command goes to the named node.
    Ask,
}

/// A redirection.
#[derive(Debug)]
pub struct Redirect {
    pub kind: RedirectKind,
    pub slot: u16,
    pub server: Server,
}

/// The parts of a redirection as they stand in the payload.
pub struct RedirectParts {
    pub kind: RedirectKind,
    pub slot: u16,
    pub host: Seq<u8>,
    pub port: u16,
}

impl RedirectParts {
    /// The server that the redirection names.
    pub open spec fn server(self) -> ServerView {
        ServerView { host: decode_utf8(self.host), port: self.port, name: None }
    }
}

/// The kind that the first word names.
pub open spec fn redirect_kind(word: Seq<u8>) -> Option<RedirectKind> {
    if word == utf8("MOVED") {
        Some(RedirectKind::Moved)
    } else if word == utf8("ASK") {
        Some(RedirectKind::Ask)
    } else {
        None
    }
}

/// The host and port of an address: what stands before and after its last colon. The host
/// must not be empty and the port must be a decimal of at most 65535.
pub open spec fn address_parts(address: Seq<u8>) -> Option<(Seq<u8>, u16)> {
    let colon = last_index(address, 58, address.len() as int);
    if colon > 0 {
        match parse_unsigned(address.subrange(colon + 1, address.len() as int), 65535) {
            Some(port) => Some((address.subrange(0, colon), port as u16)),
            None => None,
        }
    } else {
        None
    }
}

/// The redirection that a payload spells, if it spells one: exactly three words, of which the
/// first is `MOVED` or `ASK`, the second a slot below 16384 and the third an address.
pub open spec fn redirect_parts(payload: Seq<u8>) -> Option<RedirectParts> {
    let sp1 = first_index(payload, 32, 0);
    let sp2 = first_index(payload, 32, sp1 + 1);
    if sp1 < payload.len() && sp2 < payload.len() && first_index(payload, 32, sp2 + 1)
        >= payload.len() {
        match (
            redirect_kind(payload.subrange(0, sp1)),
            parse_unsigned(payload.subrange(sp1 + 1, sp2), 16383),
            address_parts(payload.subrange(sp2 + 1, payload.len() as int)),
        ) {
            (Some(kind), Some(slot), Some((host, port))) => Some(
                RedirectParts { kind, slot: slot as u16, host, port },
            ),
            _ => None,
        }
    } else {
        None
    }
}

/// Reads the first word of a redirection.
fn read_kind(word: &[u8]) -> (r: Option<RedirectKind>)
    ensures
        r == redirect_kind(word@),
{
    if bytes_eq(word, "MOVED".as_bytes()) {
        Some(RedirectKind::Moved)
    } else if bytes_eq(word, "ASK".as_bytes()) {
        Some(RedirectKind::Ask)
    } else {
        None
    }
}

/// Reads an address as host and port.
fn read_address(address: &[u8]) -> (r: Option<(&[u8], u16)>)
    ensures
        match r {
            Some((host, port)) => address_parts(address@) == Some((host@, port)),
            None => address_parts(address@) is None,
        },
{
    match find_last_byte(address, 58) {
        Some(colon) => {
            if colon == 0 {
                return None;
            }
            match parse_upto(slice_subrange(address, colon + 1, address.len()), 65535) {
                Some(port) => Some((slice_subrange(address, 0, colon), port as u16)),
                None => None,
            }
        },
        None => None,
    }
}

/// Reads the payload of an error reply as a redirection. The result is a redirection exactly
/// when the payload spells one and its host is valid UTF-8.
pub fn parse_redirect(payload: &[u8]) -> (r: Option<Redirect>)
    ensures
        match r {
            Some(redirect) => redirect_parts(payload@) matches Some(parts) && valid_utf8(
                parts.host,
            ) && redirect.kind == parts.kind && redirect.slot == parts.slot && redirect.slot
                < 16384 && redirect.server@ == parts.server(),
            None => redirect_parts(payload@) matches Some(parts) ==> !valid_utf8(parts.host),
        },
{
    let n: usize = payload.len();
    let sp1: usize = find_byte(payload, 32, 0);
    if sp1 >= n {
        return None;
    }
    let sp2: usize = find_byte(payload, 32, sp1 + 1);
    if sp2 >= n {
        return None;
    }
    let sp3: usize = find_byte(payload, 32, sp2 + 1);
    if sp3 < n {
        return None;
    }
    let kind = match read_kind(slice_subrange(payload, 0, sp1)) {
        Some(k) => k,
        None => {
            return None;
        },
    };
    let slot: u16 = match parse_upto(slice_subrange(payload, sp1 + 1, sp2), 16383) {
        Some(s) => s as u16,
        None => {
            return None;
        },
    };
    let (host, port) = match read_address(slice_subrange(payload, sp2 + 1, n)) {
        Some(parts) => parts,
        None => {
            return None;
        },
    };
    match string_from_utf8(slice_to_vec(host)) {
        Some(name) => {
            proof {
                encode_utf8_decode_utf8(name@);
            }
            Some(Redirect { kind, slot, server: Server { host: name, port, name: None } })
        },
        None => None,
    }
}

} // verus!
