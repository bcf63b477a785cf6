//! Ingest and control loop taken together: a model of every run of the two
//! around one channel, and what holds of all of them.

use crate::control::{left_waiting, load_command, next_command, taken, CommandView};
use crate::ingest::assembled;
use vstd::prelude::*;

verus! {

/// One thing that happens to the channel.
pub ghost enum Move {
    /// A connection that delivered these chunks has ended, and its locator
    /// was sent.
    Completed(Seq<Seq<u8>>),
    /// The control loop has run one iteration.
    Iterated,
}

/// Where a run stands: what `CommandChannel::received` and
/// `CommandChannel::pending` say of the channel, and what the control loop
/// has asked of the engine.
pub ghost struct Run {
    /// The locators that the control loop took from the channel, oldest
    /// first.
    pub received: Seq<Seq<char>>,
    /// The locators waiting in the channel, oldest first.
    pub pending: Seq<Seq<char>>,
    /// The commands issued to the engine so far, oldest first.
    pub submitted: Seq<CommandView>,
}

/// The state that a run reaches from an empty channel by `moves`. A
/// completion yields the locator that `Connection::on_read` hands out and
/// sends it as `CommandChannel::send` does on an open channel; an iteration
/// takes from the channel, and issues a command, as `iterate` does.
pub open spec fn after(moves: Seq<Move>) -> Run
    decreases moves.len(),
{
    if moves.len() == 0 {
        Run { received: Seq::empty(), pending: Seq::empty(), submitted: Seq::empty() }
    } else {
        let before = after(moves.drop_last());
        match moves.last() {
            Move::Completed(chunks) => Run {
                received: before.received,
                pending: before.pending.push(assembled(chunks)),
                submitted: before.submitted,
            },
            Move::Iterated => Run {
                received: before.received + taken(before.pending),
                pending: left_waiting(before.pending),
                submitted: match next_command(before.pending) {
                    Some(command) => before.submitted.push(command),
                    None => before.submitted,
                },
            },
        }
    }
}

/// The locators of the connections that completed during `moves`, in the
/// order of completion.
pub open spec fn completed(moves: Seq<Move>) -> Seq<Seq<char>>
    decreases moves.len(),
{
    if moves.len() == 0 {
        Seq::empty()
    } else {
        match moves.last() {
            Move::Completed(chunks) => completed(moves.drop_last()).push(assembled(chunks)),
            Move::Iterated => completed(moves.drop_last()),
        }
    }
}

/// The load commands for `locators`, one each, in the same order.
pub open spec fn load_commands(locators: Seq<Seq<char>>) -> Seq<CommandView> {
    Seq::new(locators.len(), |i: int| load_command(locators[i]))
}

/// The run in which the given connections complete one after the other.
pub open spec fn arrivals(connections: Seq<Seq<Seq<u8>>>) -> Seq<Move> {
    Seq::new(connections.len(), |i: int| Move::Completed(connections[i]))
}

/// A stretch of `count` iterations during which no connection completes.
pub open spec fn idle_iterations(count: nat) -> Seq<Move> {
    Seq::new(count, |i: int| Move::Iterated)
}

/// The locators of the given connections, one each, in the same order.
pub open spec fn locators(connections: Seq<Seq<Seq<u8>>>) -> Seq<Seq<char>> {
    Seq::new(connections.len(), |i: int| assembled(connections[i]))
}

/// However completions and iterations interleave, the locators that the
/// control loop received, followed by those still waiting, are the locators
/// of the completed connections in the order of completion, and the engine
/// was given one load command for each locator received, in the same order:
/// nothing is lost, repeated or overtaken.
pub proof fn lemma_order_is_kept(moves: Seq<Move>)
    ensures
        after(moves).received + after(moves).pending == completed(moves),
        after(moves).submitted == load_commands(after(moves).received),
        after(moves).submitted + load_commands(after(moves).pending) == load_commands(
            completed(moves),
        ),
    decreases moves.len(),
{
    if moves.len() > 0 {
        lemma_order_is_kept(moves.drop_last());
    }
}

/// Once the channel is empty, the engine has been given exactly one command
/// for each completed connection, in the order of completion.
pub proof fn lemma_drained_run_submitted_all(moves: Seq<Move>)
    requires
        after(moves).pending.len() == 0,
    ensures
        after(moves).received == completed(moves),
        after(moves).submitted == load_commands(completed(moves)),
{
    lemma_order_is_kept(moves);
}

/// Each iteration that finds a locator waiting issues the command for the
/// oldest one, so a waiting locator is held up by nothing but the locators
/// ahead of it: after `extra` further iterations, that many locators have
/// left the channel, or all of them.
pub proof fn lemma_iterations_drain(moves: Seq<Move>, extra: nat)
    ensures
        ({
            let waiting = after(moves).pending;
            let later = after(moves + idle_iterations(extra));
            if extra <= waiting.len() {
                &&& later.pending == waiting.skip(extra as int)
                &&& later.submitted == after(moves).submitted + load_commands(
                    waiting.take(extra as int),
                )
            } else {
                &&& later.pending.len() == 0
                &&& later.submitted == after(moves).submitted + load_commands(waiting)
            }
        }),
    decreases extra,
{
    if extra > 0 {
        let fewer = (extra - 1) as nat;
        lemma_iterations_drain(moves, fewer);
        assert((moves + idle_iterations(extra)).drop_last() =~= moves + idle_iterations(fewer));
    }
}

/// While connections complete and the control loop does not run, their
/// locators line up in the channel in the order of completion.
pub proof fn lemma_arrivals_line_up(connections: Seq<Seq<Seq<u8>>>)
    ensures
        after(arrivals(connections)).pending == locators(connections),
        after(arrivals(connections)).submitted == Seq::<CommandView>::empty(),
        completed(arrivals(connections)) == locators(connections),
    decreases connections.len(),
{
    if connections.len() > 0 {
        let earlier = connections.drop_last();
        lemma_arrivals_line_up(earlier);
        assert(arrivals(connections).drop_last() =~= arrivals(earlier));
    }
}

/// Connections served one after the other, whatever they carry, lead to
/// exactly one load command each, issued in the order in which the
/// connections completed, within as many iterations as there are
/// connections.
pub proof fn lemma_sequential_connections_are_served_in_order(connections: Seq<Seq<Seq<u8>>>)
    ensures
        ({
            let run = after(arrivals(connections) + idle_iterations(connections.len()));
            &&& run.submitted == load_commands(locators(connections))
            &&& run.pending.len() == 0
        }),
{
    lemma_arrivals_line_up(connections);
    lemma_iterations_drain(arrivals(connections), connections.len());
}

/// A locator that arrives while nothing waits is held up by nothing: the
/// very next iteration issues its command.
pub proof fn lemma_lone_arrival_is_served_next(moves: Seq<Move>, chunks: Seq<Seq<u8>>)
    requires
        after(moves).pending.len() == 0,
    ensures
        ({
            let later = after(moves.push(Move::Completed(chunks)).push(Move::Iterated));
            &&& later.submitted == after(moves).submitted.push(load_command(assembled(chunks)))
            &&& later.pending.len() == 0
        }),
{
    let arrived = moves.push(Move::Completed(chunks));
    assert(arrived.drop_last() =~= moves);
    assert(arrived.push(Move::Iterated).drop_last() =~= arrived);
    assert(after(arrived).pending =~= seq![assembled(chunks)]);
}

} // verus!
