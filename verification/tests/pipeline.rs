use frameloop::{
    can_dispatch, can_run_frame, get_keyboard_command, process_events, run_frame,
    update_and_keep_running, Command, Direction, GameLoop, InputEvent, Iteration, Key, KeyState,
    Quad, Tick, NANOS_PER_MILLI,
};

fn released(key: Key) -> Option<InputEvent> {
    Some(InputEvent::Keyboard { state: KeyState::Released, key: Some(key) })
}

fn pressed(key: Key) -> Option<InputEvent> {
    Some(InputEvent::Keyboard { state: KeyState::Pressed, key: Some(key) })
}

#[test]
fn keys_stand_for_their_commands() {
    assert_eq!(get_keyboard_command(Key::Escape), Some(Command::Quit));
    assert_eq!(get_keyboard_command(Key::Up), Some(Command::Move(Direction::Up)));
    assert_eq!(get_keyboard_command(Key::Down), Some(Command::Move(Direction::Down)));
    assert_eq!(get_keyboard_command(Key::Left), Some(Command::Move(Direction::Left)));
    assert_eq!(get_keyboard_command(Key::Right), Some(Command::Move(Direction::Right)));
    assert_eq!(get_keyboard_command(Key::Other), None);
}

#[test]
fn released_keys_are_queued_at_the_tail() {
    let mut commands = vec![Command::Move(Direction::Left)];
    process_events(released(Key::Up), &mut commands);
    process_events(released(Key::Escape), &mut commands);
    assert_eq!(
        commands,
        vec![Command::Move(Direction::Left), Command::Move(Direction::Up), Command::Quit]
    );
}

#[test]
fn pressed_keys_are_ignored() {
    let mut commands = vec![Command::Move(Direction::Left)];
    process_events(pressed(Key::Up), &mut commands);
    process_events(pressed(Key::Escape), &mut commands);
    assert_eq!(commands, vec![Command::Move(Direction::Left)]);
}

#[test]
fn events_without_a_command_are_ignored() {
    let mut commands = Vec::new();
    process_events(None, &mut commands);
    process_events(Some(InputEvent::Other), &mut commands);
    process_events(released(Key::Other), &mut commands);
    process_events(Some(InputEvent::Keyboard { state: KeyState::Released, key: None }), &mut commands);
    assert_eq!(commands, Vec::<Command>::new());
}

#[test]
fn dispatch_on_an_empty_queue_does_nothing() {
    let mut commands = Vec::new();
    let mut quad = Quad::new((32, 32), (32, 32));
    assert!(update_and_keep_running(&mut commands, &mut quad));
    assert_eq!(commands, Vec::<Command>::new());
    assert_eq!(quad, Quad::new((32, 32), (32, 32)));
}

#[test]
fn dispatch_applies_the_command_at_the_tail() {
    let mut commands = vec![Command::Move(Direction::Up), Command::Move(Direction::Right)];
    let mut quad = Quad::new((32, 32), (32, 32));
    assert!(update_and_keep_running(&mut commands, &mut quad));
    assert_eq!(commands, vec![Command::Move(Direction::Up)]);
    assert_eq!(quad.position(), (64, 32));
}

#[test]
fn commands_drain_last_in_first_out() {
    let mut commands = Vec::new();
    process_events(released(Key::Up), &mut commands);
    process_events(released(Key::Left), &mut commands);
    process_events(released(Key::Down), &mut commands);
    let mut quad = Quad::new((100, 100), (32, 32));
    assert!(run_frame(None, &mut commands, &mut quad));
    assert_eq!(quad.position(), (100, 132));
    assert!(run_frame(None, &mut commands, &mut quad));
    assert_eq!(quad.position(), (68, 132));
    assert!(run_frame(None, &mut commands, &mut quad));
    assert_eq!(quad.position(), (68, 100));
    assert_eq!(commands, Vec::<Command>::new());
}

#[test]
fn quit_at_the_tail_stops_the_frame_whatever_else_is_queued() {
    let mut commands =
        vec![Command::Move(Direction::Up), Command::Move(Direction::Down), Command::Quit];
    let mut quad = Quad::new((32, 32), (32, 32));
    assert!(!update_and_keep_running(&mut commands, &mut quad));
    assert_eq!(commands, vec![Command::Move(Direction::Up), Command::Move(Direction::Down)]);
    assert_eq!(quad.position(), (32, 32));
}

#[test]
fn quit_in_the_middle_stops_the_frame_that_takes_it() {
    let mut commands = vec![
        Command::Move(Direction::Up),
        Command::Quit,
        Command::Move(Direction::Left),
        Command::Move(Direction::Left),
    ];
    let mut quad = Quad::new((100, 100), (32, 32));
    assert!(run_frame(None, &mut commands, &mut quad));
    assert!(run_frame(None, &mut commands, &mut quad));
    assert!(!run_frame(None, &mut commands, &mut quad));
    assert_eq!(commands, vec![Command::Move(Direction::Up)]);
    assert_eq!(quad.position(), (36, 100));
}

#[test]
fn escape_released_stops_the_frame_at_once() {
    let mut commands = vec![Command::Move(Direction::Up)];
    let mut quad = Quad::new((32, 32), (32, 32));
    assert!(!run_frame(released(Key::Escape), &mut commands, &mut quad));
    assert_eq!(commands, vec![Command::Move(Direction::Up)]);
    assert_eq!(quad.position(), (32, 32));
}

#[test]
fn quit_ends_the_loop_on_its_frame() {
    let mut commands = vec![Command::Move(Direction::Up)];
    let mut quad = Quad::new((32, 32), (32, 32));
    let events = [None, released(Key::Right), released(Key::Escape), released(Key::Down)];
    let mut game_loop = GameLoop::new(60, 0);
    let mut iterations = Vec::new();
    for (index, event) in events.iter().enumerate() {
        let now = (index as u64 + 1) * 20 * NANOS_PER_MILLI;
        let keep_running = run_frame(*event, &mut commands, &mut quad);
        let iteration = game_loop.step(Tick { now, keep_running });
        iterations.push(iteration);
        if !keep_running {
            break;
        }
    }
    assert_eq!(
        iterations,
        vec![
            Iteration::Executed { elapsed: 20 * NANOS_PER_MILLI, fps: None },
            Iteration::Executed { elapsed: 20 * NANOS_PER_MILLI, fps: None },
            Iteration::Stopped { elapsed: 20 * NANOS_PER_MILLI },
        ]
    );
    assert_eq!(quad.position(), (64, 0));
    assert_eq!(commands, Vec::<Command>::new());
}

#[test]
fn letter_key_changes_nothing_and_does_not_stop() {
    let mut commands = Vec::new();
    let mut quad = Quad::new((32, 32), (32, 32));
    assert!(run_frame(released(Key::Other), &mut commands, &mut quad));
    assert!(run_frame(pressed(Key::Other), &mut commands, &mut quad));
    assert_eq!(commands, Vec::<Command>::new());
    assert_eq!(quad, Quad::new((32, 32), (32, 32)));
}

#[test]
fn frame_translates_then_dispatches() {
    let mut commands = vec![Command::Move(Direction::Up)];
    let mut quad = Quad::new((32, 32), (32, 32));
    assert!(run_frame(released(Key::Right), &mut commands, &mut quad));
    assert_eq!(commands, vec![Command::Move(Direction::Up)]);
    assert_eq!(quad.position(), (64, 32));
}

#[test]
fn dispatch_is_refused_only_for_a_move_out_of_range() {
    let at_the_edge = Quad::new((i32::MAX - 10, i32::MIN + 10), (32, 32));
    assert!(can_dispatch(&Vec::new(), &at_the_edge));
    assert!(can_dispatch(&vec![Command::Move(Direction::Right), Command::Quit], &at_the_edge));
    assert!(can_dispatch(&vec![Command::Move(Direction::Right), Command::Move(Direction::Left)], &at_the_edge));
    assert!(can_dispatch(&vec![Command::Move(Direction::Down)], &at_the_edge));
    assert!(!can_dispatch(&vec![Command::Move(Direction::Left), Command::Move(Direction::Right)], &at_the_edge));
    assert!(!can_dispatch(&vec![Command::Move(Direction::Up)], &at_the_edge));
}

#[test]
fn frame_is_refused_only_for_a_move_out_of_range() {
    let at_the_edge = Quad::new((i32::MAX - 10, i32::MIN + 10), (32, 32));
    let queued = vec![Command::Move(Direction::Right)];
    assert!(!can_run_frame(None, &queued, &at_the_edge));
    assert!(!can_run_frame(released(Key::Other), &queued, &at_the_edge));
    assert!(!can_run_frame(pressed(Key::Left), &queued, &at_the_edge));
    assert!(can_run_frame(released(Key::Left), &queued, &at_the_edge));
    assert!(can_run_frame(released(Key::Escape), &queued, &at_the_edge));
    assert!(!can_run_frame(released(Key::Up), &Vec::new(), &at_the_edge));
    assert!(can_run_frame(None, &Vec::new(), &at_the_edge));
}
