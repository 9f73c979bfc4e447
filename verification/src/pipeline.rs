//! The command pipeline: input events become commands, commands wait in a
//! last-in-first-out queue, and each executed frame applies one of them.

use crate::graphics::{Quad, QuadState};
use crate::scheduler::{lemma_run_unfolds, lemma_stop_ends_run, SchedulerState, Tick};
use vstd::prelude::*;

verus! {

/// One of the four ways in which the quad moves.
#[derive(Debug, Clone, Copy, PartialEq, Eq, Structural)]
pub enum Direction {
    Up,
    Down,
    Left,
    Right,
}

/// What a frame can be asked to do.
#[derive(Debug, Clone, Copy, PartialEq, Eq, Structural)]
pub enum Command {
    /// End the loop.
    Quit,
    /// Move the quad one step.
    Move(Direction),
}

/// A key of the keyboard, as far as the pipeline tells keys apart.
#[derive(Debug, Clone, Copy, PartialEq, Eq, Structural)]
pub enum Key {
    Escape,
    Up,
    Down,
    Left,
    Right,
    /// Any other key.
    Other,
}

/// Whether a key went down or came up.
#[derive(Debug, Clone, Copy, PartialEq, Eq, Structural)]
pub enum KeyState {
    Pressed,
    Released,
}

/// An event of the window.
#[derive(Debug, Clone, Copy, PartialEq, Eq, Structural)]
pub enum InputEvent {
    /// A key changed its state. `key` is `None` where the window could not
    /// tell which key it was.
    Keyboard { state: KeyState, key: Option<Key> },
    /// Anything else: the mouse, the window's size or focus.
    Other,
}

/// The command that a key stands for, if it stands for one.
pub open spec fn command_for_key(key: Key) -> Option<Command> {
    match key {
        Key::Escape => Some(Command::Quit),
        Key::Up => Some(Command::Move(Direction::Up)),
        Key::Down => Some(Command::Move(Direction::Down)),
        Key::Left => Some(Command::Move(Direction::Left)),
        Key::Right => Some(Command::Move(Direction::Right)),
        Key::Other => None,
    }
}

/// The command that the window's next pending event stands for. Only the
/// release of a key that stands for a command gives one.
pub open spec fn command_for_event(event: Option<InputEvent>) -> Option<Command> {
    match event {
        Some(InputEvent::Keyboard { state: KeyState::Released, key: Some(key) }) => command_for_key(
            key,
        ),
        _ => None,
    }
}

/// The queue after the window's next pending event was translated: its
/// command, if it has one, is put at the tail.
pub open spec fn enqueued(commands: Seq<Command>, event: Option<InputEvent>) -> Seq<Command> {
    match command_for_event(event) {
        Some(command) => commands.push(command),
        None => commands,
    }
}

/// What a frame leaves behind.
pub struct FrameResult {
    /// The queue of pending commands.
    pub commands: Seq<Command>,
    /// The quad.
    pub quad: QuadState,
    /// Whether the loop goes on.
    pub keep_running: bool,
}

/// The dispatch of one frame: the command at the tail of the queue leaves
/// it. `Quit` ends the loop, `Move` moves the quad one step, and with an
/// empty queue nothing happens.
pub open spec fn dispatched(commands: Seq<Command>, quad: QuadState) -> FrameResult {
    if commands.len() == 0 {
        FrameResult { commands, quad, keep_running: true }
    } else {
        match commands.last() {
            Command::Quit => FrameResult {
                commands: commands.drop_last(),
                quad,
                keep_running: false,
            },
            Command::Move(direction) => FrameResult {
                commands: commands.drop_last(),
                quad: quad.translated(direction),
                keep_running: true,
            },
        }
    }
}

/// Whether the dispatch keeps the quad's origin within the range of its
/// coordinates: it does unless the command at the tail is a move that
/// leaves that range.
pub open spec fn dispatchable(commands: Seq<Command>, quad: QuadState) -> bool {
    commands.len() > 0 ==> (commands.last() matches Command::Move(direction)
        ==> quad.translated(direction).representable())
}

/// One executed frame, up to the drawing: the window's next pending event
/// is translated, then one command is dispatched.
pub open spec fn frame_result(
    event: Option<InputEvent>,
    commands: Seq<Command>,
    quad: QuadState,
) -> FrameResult {
    dispatched(enqueued(commands, event), quad)
}

/// Translates a key into the command it stands for: `Escape` into `Quit`,
/// an arrow key into the move in its direction, any other key into nothing.
pub fn get_keyboard_command(key: Key) -> (command: Option<Command>)
    ensures
        command == command_for_key(key),
{
    match key {
        Key::Escape => Some(Command::Quit),
        Key::Up => Some(Command::Move(Direction::Up)),
        Key::Down => Some(Command::Move(Direction::Down)),
        Key::Left => Some(Command::Move(Direction::Left)),
        Key::Right => Some(Command::Move(Direction::Right)),
        Key::Other => None,
    }
}

/// Translates the window's next pending event, if there is one, into the
/// command it stands for. Only the release of a key can stand for one; a
/// press, and an event that is not of a key, stand for none.
pub fn get_event_command(event: Option<InputEvent>) -> (command: Option<Command>)
    ensures
        command == command_for_event(event),
{
    match event {
        Some(InputEvent::Keyboard { state: KeyState::Released, key: Some(key) }) => {
            get_keyboard_command(key)
        },
        _ => None,
    }
}

/// Translates the window's next pending event, if there is one, and puts
/// its command at the tail of the queue. An event that is no release of a
/// key, or of a key that stands for no command, leaves the queue as it is.
pub fn process_events(event: Option<InputEvent>, commands: &mut Vec<Command>)
    ensures
        final(commands)@ == enqueued(old(commands)@, event),
{
    if let Some(command) = get_event_command(event) {
        commands.push(command);
    }
}

/// Whether `update_and_keep_running` may be called: whether the command at
/// the tail of the queue, if it is a move, keeps the quad's origin within
/// the range of its coordinates.
pub fn can_dispatch(commands: &Vec<Command>, quad: &Quad) -> (defined: bool)
    ensures
        defined == dispatchable(commands@, quad@),
{
    let length: usize = commands.len();
    if length == 0 {
        true
    } else {
        match commands[length - 1] {
            Command::Quit => true,
            Command::Move(direction) => quad.can_translate(direction),
        }
    }
}

/// Whether `run_frame` may be called: whether the command that the frame
/// will dispatch, if it is a move, keeps the quad's origin within the range
/// of its coordinates.
pub fn can_run_frame(event: Option<InputEvent>, commands: &Vec<Command>, quad: &Quad) -> (defined:
    bool)
    ensures
        defined == dispatchable(enqueued(commands@, event), quad@),
{
    match get_event_command(event) {
        Some(Command::Quit) => true,
        Some(Command::Move(direction)) => quad.can_translate(direction),
        None => can_dispatch(commands, quad),
    }
}

/// Takes the command at the tail of the queue and applies it. Returns
/// whether the loop goes on: `false` for `Quit`, whatever else is queued.
pub fn update_and_keep_running(
    commands: &mut Vec<Command>,
    quad: &mut Quad,
) -> (keep_running: bool)
    requires
        dispatchable(old(commands)@, old(quad)@),
    ensures
        final(commands)@ == dispatched(old(commands)@, old(quad)@).commands,
        final(quad)@ == dispatched(old(commands)@, old(quad)@).quad,
        keep_running == dispatched(old(commands)@, old(quad)@).keep_running,
{
    match commands.pop() {
        Some(Command::Quit) => {
            return false;
        },
        Some(Command::Move(direction)) => {
            quad.translate(direction);
        },
        None => {},
    }
    true
}

/// Runs the part of a frame that comes before the drawing: translates the
/// window's next pending event, then dispatches one command. Returns
/// whether the loop goes on; if it does, the caller draws the quad.
pub fn run_frame(
    event: Option<InputEvent>,
    commands: &mut Vec<Command>,
    quad: &mut Quad,
) -> (keep_running: bool)
    requires
        dispatchable(enqueued(old(commands)@, event), old(quad)@),
    ensures
        final(commands)@ == frame_result(event, old(commands)@, old(quad)@).commands,
        final(quad)@ == frame_result(event, old(commands)@, old(quad)@).quad,
        keep_running == frame_result(event, old(commands)@, old(quad)@).keep_running,
{
    process_events(event, commands);
    update_and_keep_running(commands, quad)
}

/// What a number of frames in a row leave behind when the window has no
/// event for any of them. A frame that ends the loop is the last.
pub open spec fn drained(commands: Seq<Command>, quad: QuadState, frames: nat) -> FrameResult
    decreases frames,
{
    if frames == 0 {
        FrameResult { commands, quad, keep_running: true }
    } else {
        let first = dispatched(commands, quad);
        if first.keep_running {
            drained(first.commands, first.quad, (frames - 1) as nat)
        } else {
            first
        }
    }
}

/// The quad after it was moved one step in each direction of `path`, from
/// the first to the last.
pub open spec fn moved_along(quad: QuadState, path: Seq<Direction>) -> QuadState
    decreases path.len(),
{
    if path.len() == 0 {
        quad
    } else {
        moved_along(quad.translated(path.first()), path.drop_first())
    }
}

/// The directions of the last `count` commands of a queue of moves, the
/// one that arrived last first.
pub open spec fn latest_first(commands: Seq<Command>, count: nat) -> Seq<Direction> {
    Seq::new(count, |k: int| commands[commands.len() - 1 - k]->0)
}

/// The queue is drained last-in-first-out: frames without events apply the
/// queued moves in the reverse of the order in which they arrived, one for
/// each frame, and leave the earlier ones queued.
pub proof fn lemma_drain_is_last_in_first_out(
    commands: Seq<Command>,
    quad: QuadState,
    frames: nat,
)
    requires
        frames <= commands.len(),
        forall|k: int| commands.len() - frames <= k < commands.len() ==> commands[k] is Move,
    ensures
        drained(commands, quad, frames).keep_running,
        drained(commands, quad, frames).commands == commands.take(commands.len() - frames),
        drained(commands, quad, frames).quad == moved_along(quad, latest_first(commands, frames)),
    decreases frames,
{
    if frames > 0 {
        let first = dispatched(commands, quad);
        let rest = (frames - 1) as nat;
        lemma_drain_is_last_in_first_out(first.commands, first.quad, rest);
        assert(latest_first(commands, frames).drop_first() == latest_first(first.commands, rest));
    }
}

/// A frame that takes `Quit` from the queue ends the loop, whatever is
/// queued before it, and moves nothing.
pub proof fn lemma_quit_stops_frame(earlier: Seq<Command>, quad: QuadState)
    ensures
        dispatched(earlier.push(Command::Quit), quad) == (FrameResult {
            commands: earlier,
            quad,
            keep_running: false,
        }),
{
    assert(earlier.push(Command::Quit).drop_last() == earlier);
}

/// A `Quit` anywhere in the queue ends the loop in the frame that takes it
/// from the queue: with only moves queued after it, that is the frame
/// after as many frames as there are such moves. Until then the loop goes
/// on; from then on it has ended, however many more frames are asked for,
/// and the commands before the `Quit` are still queued.
pub proof fn lemma_quit_ends_drain(
    commands: Seq<Command>,
    quad: QuadState,
    index: int,
    more: nat,
)
    requires
        0 <= index < commands.len(),
        commands[index] == Command::Quit,
        forall|k: int| index < k < commands.len() ==> commands[k] is Move,
    ensures
        drained(commands, quad, (commands.len() - index - 1) as nat).keep_running,
        !drained(commands, quad, (commands.len() - index + more) as nat).keep_running,
        drained(commands, quad, (commands.len() - index + more) as nat).commands == commands.take(
            index,
        ),
    decreases commands.len() - index,
{
    lemma_drain_is_last_in_first_out(commands, quad, (commands.len() - index - 1) as nat);
    if index < commands.len() - 1 {
        let first = dispatched(commands, quad);
        lemma_quit_ends_drain(first.commands, first.quad, index, more);
    }
}

/// The loop stops with the frame that takes `Quit` from the queue: where
/// an iteration of a run executes a frame, the frame finds `Quit` at the
/// tail of the queue once the event is translated, and the loop is told
/// what the frame answers, that iteration is the last of the run.
pub proof fn lemma_quit_ends_loop(
    state: SchedulerState,
    ticks: Seq<Tick>,
    i: int,
    event: Option<InputEvent>,
    commands: Seq<Command>,
    quad: QuadState,
)
    requires
        0 <= i < state.run(ticks).1.len(),
        state.run(ticks).1[i].ran_frame(),
        enqueued(commands, event).len() > 0,
        enqueued(commands, event).last() == Command::Quit,
        ticks[i].keep_running == frame_result(event, commands, quad).keep_running,
    ensures
        state.run(ticks).1[i] is Stopped,
        state.run(ticks).1.len() == i + 1,
{
    lemma_run_unfolds(state, ticks, i);
    lemma_stop_ends_run(state, ticks, i);
}

/// An event that stands for no command changes nothing: the frame does
/// what it does when the window has no event at all. With nothing queued
/// it leaves the queue and the quad as they are, and the loop goes on.
pub proof fn lemma_event_without_command_is_ignored(
    event: Option<InputEvent>,
    commands: Seq<Command>,
    quad: QuadState,
)
    requires
        command_for_event(event) is None,
    ensures
        enqueued(commands, event) == commands,
        frame_result(event, commands, quad) == frame_result(None, commands, quad),
        commands.len() == 0 ==> frame_result(event, commands, quad) == (FrameResult {
            commands,
            quad,
            keep_running: true,
        }),
{
}

/// What a number of frames in a row leave behind, one for each of
/// `events`: the event of a frame is what the window hands over to it. A
/// frame that ends the loop is the last.
pub open spec fn played(
    events: Seq<Option<InputEvent>>,
    commands: Seq<Command>,
    quad: QuadState,
) -> FrameResult
    decreases events.len(),
{
    if events.len() == 0 {
        FrameResult { commands, quad, keep_running: true }
    } else {
        let first = frame_result(events.first(), commands, quad);
        if first.keep_running {
            played(events.drop_first(), first.commands, first.quad)
        } else {
            first
        }
    }
}

/// Events that stand for no command neither change anything nor end the
/// loop, however many frames take them: the frames do what as many frames
/// without events do, and with nothing queued they leave the queue and the
/// quad as they are, and the loop goes on.
pub proof fn lemma_events_without_command_change_nothing(
    events: Seq<Option<InputEvent>>,
    commands: Seq<Command>,
    quad: QuadState,
)
    requires
        forall|i: int| 0 <= i < events.len() ==> command_for_event(#[trigger] events[i]) is None,
    ensures
        played(events, commands, quad) == drained(commands, quad, events.len()),
        commands.len() == 0 ==> played(events, commands, quad) == (FrameResult {
            commands,
            quad,
            keep_running: true,
        }),
    decreases events.len(),
{
    if events.len() > 0 {
        let first = frame_result(events.first(), commands, quad);
        assert(command_for_event(events[0]) is None);
        lemma_events_without_command_change_nothing(events.drop_first(), first.commands, first.quad);
    }
}

/// The events that stand for no command: those of a key that is none of
/// `Escape` and the four arrows, those of a key that the window could not
/// name, every press of a key, and every event that is not of a key.
pub proof fn lemma_events_without_command(state: KeyState, key: Option<Key>)
    ensures
        command_for_event(Some(InputEvent::Keyboard { state, key: Some(Key::Other) })) is None,
        command_for_event(Some(InputEvent::Keyboard { state, key: None })) is None,
        command_for_event(Some(InputEvent::Keyboard { state: KeyState::Pressed, key })) is None,
        command_for_event(Some(InputEvent::Other)) is None,
        command_for_event(None) is None,
{
}

} // verus!
