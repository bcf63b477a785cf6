use mpv_remote::channel::{CommandChannel, SendError};
use mpv_remote::control::{after_submission, iterate, Command, EVENT_POLL_SECS};

fn words_of(command: &Command) -> Vec<String> {
    command.words().into_iter().map(String::from).collect()
}

#[test]
fn event_wait_is_one_second() {
    assert_eq!(EVENT_POLL_SECS, 1);
}

#[test]
fn load_command_has_name_locator_and_mode() {
    let command = Command::load(String::from("http://example.com/video.mp4"));
    assert_eq!(command.name, "loadfile");
    assert_eq!(
        command.args,
        vec![String::from("http://example.com/video.mp4"), String::from("append-play")]
    );
    assert_eq!(command.words(), vec!["loadfile", "http://example.com/video.mp4", "append-play"]);
}

#[test]
fn words_list_every_argument_in_order() {
    let command = Command {
        name: String::from("seek"),
        args: vec![String::from("10"), String::from("relative"), String::from("exact")],
    };
    assert_eq!(command.words(), vec!["seek", "10", "relative", "exact"]);
    let bare = Command { name: String::from("stop"), args: Vec::new() };
    assert_eq!(bare.words(), vec!["stop"]);
}

#[test]
fn empty_locator_is_still_loaded() {
    let mut channel = CommandChannel::new();
    assert_eq!(channel.send(String::new()), Ok(()));
    let iteration = iterate::<u8>(&mut channel, None);
    let command = iteration.command.expect("a command for the empty locator");
    assert_eq!(words_of(&command), vec!["loadfile", "", "append-play"]);
}

#[test]
fn idle_iteration_asks_for_nothing() {
    let mut channel = CommandChannel::new();
    let iteration = iterate::<u8>(&mut channel, None);
    assert!(iteration.observed.is_none());
    assert!(iteration.command.is_none());
    assert_eq!(channel.len(), 0);
}

#[test]
fn event_is_observed_without_a_locator() {
    let mut channel = CommandChannel::new();
    let iteration = iterate(&mut channel, Some("playback-restart"));
    assert_eq!(iteration.observed, Some("playback-restart"));
    assert!(iteration.command.is_none());
}

#[test]
fn event_and_locator_are_both_served() {
    let mut channel = CommandChannel::new();
    assert_eq!(channel.send(String::from("a.mp4")), Ok(()));
    let iteration = iterate(&mut channel, Some(7u32));
    assert_eq!(iteration.observed, Some(7u32));
    let command = iteration.command.expect("a command for the waiting locator");
    assert_eq!(words_of(&command), vec!["loadfile", "a.mp4", "append-play"]);
    assert_eq!(channel.len(), 0);
}

#[test]
fn one_locator_leaves_per_iteration() {
    let mut channel = CommandChannel::new();
    assert_eq!(channel.send(String::from("a.mp4")), Ok(()));
    assert_eq!(channel.send(String::from("b.mp4")), Ok(()));
    let first = iterate::<u8>(&mut channel, None);
    assert_eq!(channel.len(), 1);
    let second = iterate::<u8>(&mut channel, None);
    assert_eq!(channel.len(), 0);
    let third = iterate::<u8>(&mut channel, None);
    assert_eq!(words_of(&first.command.unwrap()), vec!["loadfile", "a.mp4", "append-play"]);
    assert_eq!(words_of(&second.command.unwrap()), vec!["loadfile", "b.mp4", "append-play"]);
    assert!(third.command.is_none());
}

#[test]
fn accepted_submission_keeps_the_loop_going() {
    let mut channel = CommandChannel::new();
    assert_eq!(channel.send(String::from("kept")), Ok(()));
    assert!(after_submission(&mut channel, true));
    assert_eq!(channel.send(String::from("next")), Ok(()));
    assert_eq!(channel.len(), 2);
}

#[test]
fn refused_submission_ends_the_loop_and_hangs_up() {
    let mut channel = CommandChannel::new();
    assert_eq!(channel.send(String::from("kept")), Ok(()));
    assert!(!after_submission(&mut channel, false));
    assert_eq!(channel.send(String::from("late")), Err(SendError::Disconnected));
    assert_eq!(channel.len(), 1);
}
