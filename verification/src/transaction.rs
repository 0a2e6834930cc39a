//! Transactions: commands that are queued on the server and then carried out together, or not
//! at all.
//!
//! After the begin marker every command is acknowledged with a provisional `QUEUED` instead of
//! its result. The commit marker is answered with an array of the results, one for each
//! command in the order in which they were queued. If the server refused to queue a command,
//! the transaction is aborted instead of committed.

use crate::error::{RedisError, RedisErrorKind};
use crate::value::{lemma_views_of, views_of, RedisValue, ValueView};
use vstd::prelude::*;

verus! {

/// The marker that ends a transaction.
#[derive(Clone, Copy, Debug, PartialEq, Eq, Structural)]
pub enum EndMarker {
    /// Carry out the queued commands.
    Commit,
    /// Drop the queued commands.
    Abort,
}

/// How a transaction ended.
#[derive(Debug)]
pub enum TransactionOutcome {
    /// All commands were carried out; their results stand in the order in which the commands
    /// were queued.
    Committed(Vec<RedisValue>),
    /// No command was carried out, and there are no results.
    Aborted,
}

/// A transaction in the making: the commands queued so far, and whether the server refused
/// one.
#[derive(Debug)]
pub struct Transaction {
    queued: Vec<u64>,
    failed: bool,
}

/// What a [`Transaction`] stands for.
pub struct TransactionView {
    /// The numbers of the commands that the server queued, in order.
    pub queued: Seq<u64>,
    /// Whether the server refused to queue a command.
    pub failed: bool,
}

/// How a transaction ends, given the reply to its end marker: committed with results, aborted,
/// or in a `Protocol` error.
///
/// A transaction in which a command was refused is aborted whatever the reply says. Otherwise
/// an array with one result for each queued command commits it, `Null` says that the server
/// aborted it, and every other reply is malformed.
pub open spec fn outcome_of(transaction: TransactionView, reply: ValueView) -> Result<
    Option<Seq<ValueView>>,
    RedisErrorKind,
> {
    if transaction.failed {
        Ok(None)
    } else {
        match reply {
            ValueView::Array(results) => if results.len() == transaction.queued.len() {
                Ok(Some(results))
            } else {
                Err(RedisErrorKind::Protocol)
            },
            ValueView::Null => Ok(None),
            _ => Err(RedisErrorKind::Protocol),
        }
    }
}

impl TransactionView {
    /// The transaction after the server answered the queuing of command `id`: with `QUEUED`,
    /// or with anything else, which is a refusal.
    pub open spec fn after_ack(self, id: u64, ack: ValueView) -> TransactionView {
        if ack is Queued {
            TransactionView { queued: self.queued.push(id), ..self }
        } else {
            TransactionView { failed: true, ..self }
        }
    }

    /// The marker that ends the transaction: commit, unless a command was refused.
    pub open spec fn end_marker(self) -> EndMarker {
        if self.failed {
            EndMarker::Abort
        } else {
            EndMarker::Commit
        }
    }
}

impl View for Transaction {
    type V = TransactionView;

    closed spec fn view(&self) -> TransactionView {
        TransactionView { queued: self.queued@, failed: self.failed }
    }
}

impl Transaction {
    /// A transaction without commands.
    pub fn new() -> (t: Self)
        ensures
            t@ == (TransactionView { queued: Seq::empty(), failed: false }),
    {
        Transaction { queued: Vec::new(), failed: false }
    }

    /// The number of commands queued so far.
    pub fn len(&self) -> (n: usize)
        ensures
            n == self@.queued.len(),
    {
        self.queued.len()
    }

    /// Whether the server refused to queue a command.
    pub fn has_failed(&self) -> (r: bool)
        ensures
            r == self@.failed,
    {
        self.failed
    }

    /// Takes note of the server's answer to the queuing of command `id`. For an error reply,
    /// pass the error as any value but `Queued`.
    pub fn on_ack(&mut self, id: u64, ack: &RedisValue)
        ensures
            final(self)@ == old(self)@.after_ack(id, ack@),
    {
        if ack.is_queued() {
            self.queued.push(id);
        } else {
            self.failed = true;
        }
    }

    /// The marker to end the transaction with.
    pub fn end_marker(&self) -> (m: EndMarker)
        ensures
            m == self@.end_marker(),
    {
        if self.failed {
            EndMarker::Abort
        } else {
            EndMarker::Commit
        }
    }

    /// Ends the transaction with the reply to its end marker.
    pub fn finish(self, reply: RedisValue) -> (r: Result<TransactionOutcome, RedisError>)
        ensures
            match outcome_of(self@, reply@) {
                Ok(Some(results)) => r matches Ok(TransactionOutcome::Committed(v)) && views_of(v@)
                    == results,
                Ok(None) => r matches Ok(TransactionOutcome::Aborted),
                Err(kind) => r matches Err(e) && e.kind() == kind,
            },
    {
        if self.failed {
            return Ok(TransactionOutcome::Aborted);
        }
        match reply {
            RedisValue::Array(results) => {
                proof {
                    lemma_views_of(results@);
                }
                if results.len() == self.queued.len() {
                    Ok(TransactionOutcome::Committed(results))
                } else {
                    Err(
                        RedisError::new(
                            RedisErrorKind::Protocol,
                            "The number of results differs from the number of commands.",
                        ),
                    )
                }
            },
            RedisValue::Null => Ok(TransactionOutcome::Aborted),
            _ => Err(RedisError::new(RedisErrorKind::Protocol, "Expected an array of results.")),
        }
    }
}

/// The transaction after the server answered the queuing of each command in turn.
pub open spec fn after_acks(acks: Seq<(u64, ValueView)>) -> TransactionView
    decreases acks.len(),
{
    if acks.len() == 0 {
        TransactionView { queued: Seq::empty(), failed: false }
    } else {
        after_acks(acks.drop_last()).after_ack(acks.last().0, acks.last().1)
    }
}

/// A transaction is carried out whole or not at all. If the server refused to queue any of
/// its commands, it ends aborted, without results, whatever the reply to the end marker. If
/// it ends committed, every command was queued, and there is exactly one result for each, in
/// the order in which the commands were submitted.
pub proof fn lemma_all_or_nothing(acks: Seq<(u64, ValueView)>, reply: ValueView)
    ensures
        (exists|i: int| 0 <= i < acks.len() && !((#[trigger] acks[i]).1 is Queued)) ==> after_acks(
            acks,
        ).end_marker() == EndMarker::Abort && outcome_of(after_acks(acks), reply) == Ok::<
            Option<Seq<ValueView>>,
            RedisErrorKind,
        >(None),
        outcome_of(after_acks(acks), reply) matches Ok(Some(results)) ==> {
            &&& forall|i: int| 0 <= i < acks.len() ==> (#[trigger] acks[i]).1 is Queued
            &&& results.len() == acks.len()
            &&& reply == ValueView::Array(results)
            &&& after_acks(acks).queued == acks.map_values(|a: (u64, ValueView)| a.0)
        },
{
    lemma_acks(acks);
}

/// A transaction has failed exactly if some command was refused, and otherwise holds all
/// commands in order.
proof fn lemma_acks(acks: Seq<(u64, ValueView)>)
    ensures
        after_acks(acks).failed <==> exists|i: int|
            0 <= i < acks.len() && !((#[trigger] acks[i]).1 is Queued),
        !after_acks(acks).failed ==> after_acks(acks).queued == acks.map_values(
            |a: (u64, ValueView)| a.0,
        ),
    decreases acks.len(),
{
    if acks.len() == 0 {
        assert(after_acks(acks).queued =~= acks.map_values(|a: (u64, ValueView)| a.0));
    } else {
        let head = acks.drop_last();
        lemma_acks(head);
        if after_acks(head).failed {
            let i = choose|i: int| 0 <= i < head.len() && !((#[trigger] head[i]).1 is Queued);
            assert(acks[i] == head[i]);
        } else if !(acks.last().1 is Queued) {
            assert(!(acks[acks.len() - 1].1 is Queued));
        } else {
            assert forall|i: int| 0 <= i < acks.len() implies (#[trigger] acks[i]).1 is Queued by {
                if i < head.len() {
                    assert(acks[i] == head[i]);
                }
            }
            assert(after_acks(acks).queued =~= acks.map_values(|a: (u64, ValueView)| a.0));
        }
    }
}

} // verus!
