use airjump::component::Airjump;
use airjump::entity::create_ball;
use airjump::state::{
    Button, EventKind, GamepadInput, GameState, InputEvent, NewController, Play, ShowImage,
};
use airjump::world::{Entity, World};
use airjump::Image;

fn press(id: usize, button: Button) -> InputEvent {
    InputEvent { id, kind: EventKind::ButtonPressed(button) }
}

const NO_TRIGGERS: GamepadInput = GamepadInput { left_trigger: false, right_trigger: false };
const LEFT_TRIGGER: GamepadInput = GamepadInput { left_trigger: true, right_trigger: false };
const RIGHT_TRIGGER: GamepadInput = GamepadInput { left_trigger: false, right_trigger: true };

#[test]
fn south_splits_one_gamepad_across_two_balls() {
    let mut w = World::new();
    let nc = NewController { id: 3 };
    let r = nc.event(press(3, Button::South), &mut w);
    assert!(matches!(r, GameState::ShowImage(_)));
    assert_eq!(w.entity_count(), 2);
    let c0 = w.control_of(Entity(0)).unwrap();
    let c1 = w.control_of(Entity(1)).unwrap();
    assert_eq!(c0.gamepad_id, 3);
    assert_eq!(c1.gamepad_id, 3);
    assert_eq!(c0.parts, [true, false]);
    assert_eq!(c1.parts, [false, true]);
}

#[test]
fn west_spawns_one_ball_on_both_sticks() {
    let mut w = World::new();
    let nc = NewController { id: 5 };
    let r = nc.event(press(5, Button::West), &mut w);
    assert!(matches!(r, GameState::ShowImage(_)));
    assert_eq!(w.entity_count(), 1);
    let c = w.control_of(Entity(0)).unwrap();
    assert_eq!(c.gamepad_id, 5);
    assert_eq!(c.parts, [true, true]);
    assert_eq!(w.airjump_of(Entity(0)), Some(Airjump(false)));
    assert!(w.has_restorer(Entity(0)));
    assert!(w.has_contactor(Entity(0)));
    assert!(w.body_of(Entity(0)).is_some());
}

#[test]
fn east_skips_and_other_gamepads_are_ignored() {
    let mut w = World::new();
    let nc = NewController { id: 2 };

    let r = nc.event(press(9, Button::South), &mut w);
    assert_eq!(r, GameState::NewController(nc));
    assert_eq!(w.entity_count(), 0);

    let r = nc.event(press(2, Button::East), &mut w);
    assert!(matches!(r, GameState::ShowImage(_)));
    assert_eq!(w.entity_count(), 0);

    let r = nc.event(InputEvent { id: 2, kind: EventKind::Disconnected }, &mut w);
    assert_eq!(r, GameState::Play(Play));
    assert_eq!(w.entity_count(), 0);
}

#[test]
fn unknown_gamepad_event_starts_registration() {
    let mut w = World::new();
    create_ball(1, [true, true], &mut w);
    let r = Play.event(press(1, Button::South), &mut w);
    assert_eq!(r, GameState::Play(Play));
    let r = Play.event(press(8, Button::Other), &mut w);
    assert_eq!(r, GameState::NewController(NewController { id: 8 }));
    // Registration screens are decided by events only; nothing was spawned.
    assert_eq!(w.entity_count(), 1);
}

#[test]
fn disconnecting_an_owning_gamepad_reopens_its_slot() {
    let mut w = World::new();
    create_ball(1, [true, true], &mut w);
    let r = Play.event(InputEvent { id: 1, kind: EventKind::Disconnected }, &mut w);
    assert_eq!(r, GameState::NewController(NewController { id: 1 }));
    // The ball itself stays; only the game flow returns to registration.
    assert_eq!(w.entity_count(), 1);
}

#[test]
fn show_image_counts_thirty_frames_down_to_play() {
    let mut w = World::new();
    let mut state = GameState::ShowImage(ShowImage::new(Image::NewController1));
    for frame in 0..30 {
        assert!(
            matches!(state, GameState::ShowImage(_)),
            "countdown ended early at frame {frame}"
        );
        state = state.update(&mut w);
        assert_eq!(w.take_draw_image(), Some(Image::NewController1));
    }
    assert_eq!(state, GameState::Play(Play));
}

#[test]
fn pause_needs_two_players() {
    let mut w = World::new();
    assert!(Play.paused(&w));
    create_ball(0, [true, true], &mut w);
    assert!(Play.paused(&w));
    create_ball(1, [true, true], &mut w);
    assert!(!Play.paused(&w));
    // The other states always pause.
    assert!(NewController { id: 0 }.paused(&w));
    assert!(ShowImage::new(Image::Wait).paused(&w));
}

#[test]
fn play_update_publishes_waiting_screens() {
    let mut w = World::new();
    Play.update(&mut w);
    assert_eq!(w.take_draw_image(), Some(Image::Start));
    create_ball(0, [true, true], &mut w);
    Play.update(&mut w);
    assert_eq!(w.take_draw_image(), Some(Image::Wait));
    create_ball(1, [true, true], &mut w);
    Play.update(&mut w);
    assert_eq!(w.take_draw_image(), None);
}

#[test]
fn new_controller_update_prompts_join_screen() {
    let mut w = World::new();
    let nc = NewController { id: 4 };
    let r = nc.update(&mut w);
    assert_eq!(r, GameState::NewController(nc));
    assert_eq!(w.take_draw_image(), Some(Image::NewController));
    // The overlay is consumed: reading it again yields nothing.
    assert_eq!(w.take_draw_image(), None);
}

#[test]
fn jump_consumes_the_capability_exactly_once() {
    let mut w = World::new();
    create_ball(1, [true, false], &mut w);
    let ball = Entity(0);
    w.add_airjump(ball, Airjump(true));

    // The right trigger is masked out for this ball: no jump.
    let (_, jumps) = Play.gamepad(1, RIGHT_TRIGGER, &mut w);
    assert_eq!(jumps, Vec::<Entity>::new());
    assert_eq!(w.airjump_of(ball), Some(Airjump(true)));

    // The left trigger fires: the capability is consumed.
    let (_, jumps) = Play.gamepad(1, LEFT_TRIGGER, &mut w);
    assert_eq!(jumps, vec![ball]);
    assert_eq!(w.airjump_of(ball), Some(Airjump(false)));

    // Triggering without the capability is a no-op.
    let (_, jumps) = Play.gamepad(1, LEFT_TRIGGER, &mut w);
    assert_eq!(jumps, Vec::<Entity>::new());
    assert_eq!(w.airjump_of(ball), Some(Airjump(false)));
}

#[test]
fn gamepad_poll_only_drives_its_own_balls() {
    let mut w = World::new();
    create_ball(1, [true, true], &mut w);
    create_ball(2, [true, true], &mut w);
    w.add_airjump(Entity(0), Airjump(true));
    w.add_airjump(Entity(1), Airjump(true));

    let (_, jumps) = Play.gamepad(2, LEFT_TRIGGER, &mut w);
    assert_eq!(jumps, vec![Entity(1)]);
    assert_eq!(w.airjump_of(Entity(0)), Some(Airjump(true)));
    assert_eq!(w.airjump_of(Entity(1)), Some(Airjump(false)));

    let (_, jumps) = Play.gamepad(2, NO_TRIGGERS, &mut w);
    assert_eq!(jumps, Vec::<Entity>::new());
}

#[test]
fn dispatcher_routes_like_the_states() {
    let mut w = World::new();
    let state = GameState::Play(Play);
    assert!(!state.quit());
    assert!(state.paused(&w));
    let state = state.event(press(6, Button::Other), &mut w);
    assert_eq!(state, GameState::NewController(NewController { id: 6 }));
    let state = state.event(press(6, Button::West), &mut w);
    assert!(matches!(state, GameState::ShowImage(_)));
    assert_eq!(w.entity_count(), 1);
    let (state, jumps) = state.gamepad(6, LEFT_TRIGGER, &mut w);
    assert!(matches!(state, GameState::ShowImage(_)));
    assert_eq!(jumps, Vec::<Entity>::new());
}
