//! The control loop: each iteration observes at most one playback event and
//! hands at most one waiting locator to the engine.

use crate::channel::CommandChannel;
use vstd::prelude::*;

verus! {

/// The longest that one iteration waits for a playback event, in seconds.
/// Nothing else in an iteration waits.
pub const EVENT_POLL_SECS: u64 = 1;

/// An instruction for the playback engine.
#[derive(Debug, PartialEq, Eq)]
pub struct Command {
    /// What the engine is to do.
    pub name: String,
    /// What it is to do it with, in the order the engine expects.
    pub args: Vec<String>,
}

/// A command as plain text.
pub ghost struct CommandView {
    pub name: Seq<char>,
    pub args: Seq<Seq<char>>,
}

impl CommandView {
    /// The command as the engine takes it: the name, then the arguments.
    pub open spec fn words(self) -> Seq<Seq<char>> {
        seq![self.name] + self.args
    }
}

impl View for Command {
    type V = CommandView;

    open spec fn view(&self) -> CommandView {
        CommandView { name: self.name@, args: self.args.deep_view() }
    }
}

/// The instruction that appends `locator` to the engine's queue and starts
/// playback if nothing is playing.
pub open spec fn load_command(locator: Seq<char>) -> CommandView {
    CommandView { name: "loadfile"@, args: seq![locator, "append-play"@] }
}

/// The command that an iteration issues when it finds `pending` in the
/// channel: one for the oldest locator, none when nothing waits.
pub open spec fn next_command(pending: Seq<Seq<char>>) -> Option<CommandView> {
    if pending.len() == 0 {
        None
    } else {
        Some(load_command(pending.first()))
    }
}

/// The locators that an iteration receives from a channel that holds
/// `pending`: the oldest one, if any.
pub open spec fn taken(pending: Seq<Seq<char>>) -> Seq<Seq<char>> {
    if pending.len() == 0 {
        Seq::empty()
    } else {
        seq![pending.first()]
    }
}

/// What an iteration leaves in the channel.
pub open spec fn left_waiting(pending: Seq<Seq<char>>) -> Seq<Seq<char>> {
    if pending.len() == 0 {
        pending
    } else {
        pending.drop_first()
    }
}

impl Command {
    /// Builds the command that plays `locator` after what is already queued.
    /// The locator is taken as it is, empty or not.
    pub fn load(locator: String) -> (command: Command)
        ensures
            command@ == load_command(locator@),
    {
        let ghost text = locator@;
        let mut args: Vec<String> = Vec::new();
        args.push(locator);
        args.push(String::from_str("append-play"));
        let command = Command { name: String::from_str("loadfile"), args };
        assert(command@.args =~= seq![text, "append-play"@]);
        command
    }

    /// The command as the list of words that the engine takes: the name,
    /// then the arguments in order.
    pub fn words(&self) -> (words: Vec<&str>)
        ensures
            words.deep_view() == self@.words(),
    {
        let mut words: Vec<&str> = Vec::new();
        words.push(self.name.as_str());
        let mut i: usize = 0;
        while i < self.args.len()
            invariant
                i <= self.args.len(),
                words.deep_view() == self@.words().take(1 + i),
            decreases self.args.len() - i,
        {
            let ghost before = words.deep_view();
            words.push(self.args[i].as_str());
            assert(words.deep_view() =~= before.push(self.args@[i as int]@));
            assert(self@.words().take(2 + i) =~= before.push(self@.args[i as int]));
            i += 1;
        }
        assert(self@.words().take(1 + i) =~= self@.words());
        words
    }
}

/// What one iteration of the control loop asks of its driver: first surface
/// `observed`, then submit `command`.
#[derive(Debug)]
pub struct Iteration<E> {
    /// The playback event to surface, if one arrived within the wait.
    pub observed: Option<E>,
    /// The command to submit to the engine, if a locator was waiting.
    pub command: Option<Command>,
}

/// Runs the deciding part of one iteration. `event` is what the bounded wait
/// for a playback event came back with; the channel is looked into once,
/// without waiting.
///
/// The event is passed on untouched whether or not a locator waits, and the
/// oldest waiting locator is received and turned into a command whether or
/// not an event arrived.
pub fn iterate<E>(channel: &mut CommandChannel, event: Option<E>) -> (iteration: Iteration<E>)
    ensures
        iteration.observed == event,
        match iteration.command {
            Some(command) => next_command(old(channel).pending()) == Some(command@),
            None => next_command(old(channel).pending()) is None,
        },
        final(channel).pending() == left_waiting(old(channel).pending()),
        final(channel).received() == old(channel).received() + taken(old(channel).pending()),
        final(channel).sent() == old(channel).sent(),
        final(channel).is_open() == old(channel).is_open(),
{
    let command = match channel.try_recv() {
        Some(locator) => Some(Command::load(locator)),
        None => None,
    };
    Iteration { observed: event, command }
}

/// Takes in the engine's answer to a submitted command. A refusal ends the
/// control loop, and with it the receiving side of the channel; the result
/// says whether the loop goes on.
pub fn after_submission(channel: &mut CommandChannel, accepted: bool) -> (go_on: bool)
    ensures
        go_on == accepted,
        final(channel).pending() == old(channel).pending(),
        final(channel).received() == old(channel).received(),
        final(channel).is_open() == (old(channel).is_open() && accepted),
{
    if !accepted {
        channel.disconnect();
    }
    accepted
}

} // verus!
