use vstd::prelude::*;

verus! {

use crate::entity::{ball_created, create_ball};
use crate::world::{Entity, World};

/// The gamepad button roles the game distinguishes. Any other button is
/// reported as `Other` and ignored by every state.
#[derive(PartialEq, Eq, Structural, Clone, Copy, Debug)]
pub enum Button {
    West,
    South,
    East,
    Other,
}

/// A discrete gamepad event. Stick deflections are not events: they are
/// polled each frame (see `GamepadInput`).
#[derive(PartialEq, Eq, Structural, Clone, Copy, Debug)]
pub enum EventKind {
    ButtonPressed(Button),
    Disconnected,
    Other,
}

/// A discrete gamepad event tagged with the stable id of its gamepad.
#[derive(PartialEq, Eq, Structural, Clone, Copy, Debug)]
pub struct InputEvent {
    pub id: usize,
    pub kind: EventKind,
}

/// The per-frame polled button state of one gamepad, reduced to what the
/// jump decision reads: whether each trigger is held. Stick deflections are
/// polled alongside and steer the facing angle outside this crate.
#[derive(PartialEq, Eq, Structural, Clone, Copy, Debug)]
pub struct GamepadInput {
    pub left_trigger: bool,
    pub right_trigger: bool,
}

/// Waiting for the gamepad `id`, which pressed a button while unregistered,
/// to choose how to join: one ball on both sticks (west), two balls on one
/// stick each (south), or not at all (east).
#[derive(PartialEq, Eq, Structural, Clone, Copy, Debug)]
pub struct NewController {
    pub id: usize,
}

/// Showing a full-screen sprite for a fixed number of frames, then playing.
#[derive(PartialEq, Eq, Structural, Clone, Copy, Debug)]
pub struct ShowImage {
    time: usize,
    image: crate::Image,
}

/// The simulation is live: gamepads steer their balls, unregistered
/// gamepads may join.
#[derive(PartialEq, Eq, Structural, Clone, Copy, Debug)]
pub struct Play;

/// The game-flow states, as a tagged variant with transition functions
/// returning the next variant.
#[derive(PartialEq, Eq, Structural, Clone, Copy, Debug)]
pub enum GameState {
    NewController(NewController),
    ShowImage(ShowImage),
    Play(Play),
}

/// Two balls were spawned for gamepad `id`, splitting its sticks: the first
/// on the left stick only, the second on the right stick only.
pub open spec fn two_balls_created(pre: World, post: World, id: usize) -> bool {
    exists|mid: World|
        #![auto]
        ball_created(pre, mid, id, [true, false]) && ball_created(mid, post, id, [false, true])
}

/// Whether polling gamepad `id` with `input` makes the entity `i` jump this
/// frame: `i` is a ball of this gamepad holding the airjump capability, and
/// a trigger enabled by its stick mask is held.
pub open spec fn jump_fires(w: World, i: int, id: usize, input: GamepadInput) -> bool {
    &&& w.controls_map().dom().contains(i)
    &&& w.controls_map()[i].gamepad_id == id
    &&& w.airjumps_map().dom().contains(i)
    &&& w.airjumps_map()[i].0
    &&& w.rigid_bodies().dom().contains(i)
    &&& ((input.left_trigger && w.controls_map()[i].parts[0]) || (input.right_trigger
        && w.controls_map()[i].parts[1]))
}

/// The entities among the first `n` ids that jump this frame, in id order.
pub open spec fn jump_list(w: World, id: usize, input: GamepadInput, n: int) -> Seq<Entity>
    decreases n,
{
    if n <= 0 {
        Seq::<Entity>::empty()
    } else {
        let pre = jump_list(w, id, input, n - 1);
        if jump_fires(w, n - 1, id, input) {
            pre.push(Entity((n - 1) as usize))
        } else {
            pre
        }
    }
}

/// Law: every entity in a frame's jump list fired the jump decision — in
/// particular it held the airjump capability.
pub proof fn lemma_jump_list_fires(w: World, id: usize, input: GamepadInput, n: int, k: int)
    requires
        n <= usize::MAX,
        0 <= k < jump_list(w, id, input, n).len(),
    ensures
        jump_fires(w, jump_list(w, id, input, n)[k].0 as int, id, input),
        w.airjumps_map()[jump_list(w, id, input, n)[k].0 as int].0,
    decreases n,
{
    if n > 0 {
        let pre = jump_list(w, id, input, n - 1);
        if k < pre.len() {
            lemma_jump_list_fires(w, id, input, n - 1, k);
        }
    }
    let x = jump_list(w, id, input, n)[k].0 as int;
    assert(jump_fires(w, x, id, input));
    assert(w.airjumps_map()[x].0);
}

/// Law: conversely, every entity below `n` that fires the jump decision is
/// in the frame's jump list.
pub proof fn lemma_jump_list_complete(w: World, id: usize, input: GamepadInput, n: int, i: int)
    requires
        0 <= i < n <= usize::MAX,
        jump_fires(w, i, id, input),
    ensures
        jump_list(w, id, input, n).contains(Entity(i as usize)),
    decreases n,
{
    let pre = jump_list(w, id, input, n - 1);
    if i == n - 1 {
        assert(jump_list(w, id, input, n)[pre.len() as int] == Entity(i as usize));
    } else {
        lemma_jump_list_complete(w, id, input, n - 1, i);
        let k = choose|k: int| 0 <= k < pre.len() && pre[k] == Entity(i as usize);
        assert(jump_list(w, id, input, n)[k] == Entity(i as usize));
    }
}

/// Law: jump consumption. A ball that fires the jump decision leaves the
/// frame without the airjump capability, and a ball that held no capability
/// cannot fire, so its capability flag is untouched — as the airjump clause
/// of `Play::gamepad` relates `pre` to `post`.
pub proof fn lemma_jump_consumption(pre: World, post: World, i: int, id: usize, input: GamepadInput)
    requires
        pre.airjumps_map().dom().contains(i),
        post.airjumps_map()[i].0 == (pre.airjumps_map()[i].0 && !jump_fires(pre, i, id, input)),
    ensures
        jump_fires(pre, i, id, input) ==> !post.airjumps_map()[i].0,
        !pre.airjumps_map()[i].0 ==> !jump_fires(pre, i, id, input) && post.airjumps_map()[i].0
            == pre.airjumps_map()[i].0,
{
}

impl ShowImage {
    /// Frames left before the transition to `Play`; always at least one.
    pub closed spec fn time(self) -> int {
        self.time as int
    }

    /// The sprite shown while this state lasts.
    pub closed spec fn image(self) -> crate::Image {
        self.image
    }

    pub open spec fn wf(self) -> bool {
        self.time() >= 1
    }

    /// Shows `image` for thirty frames.
    pub fn new(image: crate::Image) -> (s: ShowImage)
        ensures
            s.wf(),
            s.time() == 30,
            s.image() == image,
    {
        ShowImage { image, time: 30 }
    }

    /// Publishes the sprite and counts the frame down; at zero, play begins.
    pub fn update(self, world: &mut World) -> (r: GameState)
        requires
            self.wf(),
            old(world).wf(),
        ensures
            final(world).wf(),
            r.wf(),
            final(world).draw_image() == Some(self.image()),
            self.time() == 1 ==> r == GameState::Play(Play),
            self.time() > 1 ==> (r matches GameState::ShowImage(s2) && s2.time() == self.time()
                - 1 && s2.image() == self.image()),
            final(world).same_but_draw_image(*old(world)),
    {
        world.set_draw_image(self.image);
        let time = self.time - 1;
        if time == 0 {
            GameState::Play(Play)
        } else {
            GameState::ShowImage(ShowImage { image: self.image, time })
        }
    }

    /// Discrete events do not interrupt the countdown.
    pub fn event(self, _event: InputEvent, world: &mut World) -> (r: GameState)
        ensures
            r == GameState::ShowImage(self),
            *final(world) == *old(world),
    {
        GameState::ShowImage(self)
    }

    /// Polled gamepad state is ignored during the countdown.
    pub fn gamepad(self, _id: usize, _input: GamepadInput, world: &mut World) -> (r: GameState)
        ensures
            r == GameState::ShowImage(self),
            *final(world) == *old(world),
    {
        GameState::ShowImage(self)
    }

    /// The countdown pauses the simulation.
    pub fn paused(&self, _world: &World) -> (b: bool)
        ensures
            b,
    {
        true
    }
}

impl NewController {
    /// Keeps prompting the pending gamepad with the join screen.
    pub fn update(self, world: &mut World) -> (r: GameState)
        requires
            old(world).wf(),
        ensures
            final(world).wf(),
            r == GameState::NewController(self),
            final(world).draw_image() == Some(crate::Image::NewController),
            final(world).same_but_draw_image(*old(world)),
    {
        world.set_draw_image(crate::Image::NewController);
        GameState::NewController(self)
    }

    /// The join decision of the pending gamepad. West spawns one ball
    /// steered by both sticks; south splits the gamepad across two balls
    /// with complementary single-stick masks; east skips; disconnecting
    /// returns to play. Events from other gamepads are ignored.
    pub fn event(self, event: InputEvent, world: &mut World) -> (r: GameState)
        requires
            old(world).wf(),
            old(world).num_entities() + 2 <= usize::MAX,
            old(world).bodies_allocated() + 2 < usize::MAX,
        ensures
            final(world).wf(),
            r.wf(),
            event.id != self.id ==> *final(world) == *old(world) && r
                == GameState::NewController(self),
            event.id == self.id ==> match event.kind {
                EventKind::Disconnected => *final(world) == *old(world) && r == GameState::Play(
                    Play,
                ),
                EventKind::ButtonPressed(Button::West) => ball_created(
                    *old(world),
                    *final(world),
                    self.id,
                    [true, true],
                ) && (r matches GameState::ShowImage(s) && s.image()
                    == crate::Image::NewController1 && s.time() == 30),
                EventKind::ButtonPressed(Button::South) => two_balls_created(
                    *old(world),
                    *final(world),
                    self.id,
                ) && (r matches GameState::ShowImage(s) && s.image()
                    == crate::Image::NewController2 && s.time() == 30),
                EventKind::ButtonPressed(Button::East) => *final(world) == *old(world) && (
                r matches GameState::ShowImage(s) && s.image() == crate::Image::NewControllerSkip
                    && s.time() == 30),
                _ => *final(world) == *old(world) && r == GameState::NewController(self),
            },
    {
        if event.id == self.id {
            match event.kind {
                EventKind::Disconnected => GameState::Play(Play),
                EventKind::ButtonPressed(Button::West) => {
                    create_ball(event.id, [true, true], world);
                    GameState::ShowImage(ShowImage::new(crate::Image::NewController1))
                },
                EventKind::ButtonPressed(Button::South) => {
                    create_ball(event.id, [true, false], world);
                    let ghost mid = *world;
                    create_ball(event.id, [false, true], world);
                    proof {
                        assert(ball_created(*old(world), mid, event.id, [true, false])
                            && ball_created(mid, *world, event.id, [false, true]));
                    }
                    GameState::ShowImage(ShowImage::new(crate::Image::NewController2))
                },
                EventKind::ButtonPressed(Button::East) => {
                    GameState::ShowImage(ShowImage::new(crate::Image::NewControllerSkip))
                },
                _ => GameState::NewController(self),
            }
        } else {
            GameState::NewController(self)
        }
    }

    /// Polled gamepad state is ignored while waiting for the join decision.
    pub fn gamepad(self, _id: usize, _input: GamepadInput, world: &mut World) -> (r: GameState)
        ensures
            r == GameState::NewController(self),
            *final(world) == *old(world),
    {
        GameState::NewController(self)
    }

    /// Waiting for a join decision pauses the simulation.
    pub fn paused(&self, _world: &World) -> (b: bool)
        ensures
            b,
    {
        true
    }
}

impl Play {
    /// Publishes the waiting screens while fewer than two players hold a
    /// ball: the start screen with none, the wait screen with one.
    pub fn update(self, world: &mut World) -> (r: GameState)
        requires
            old(world).wf(),
        ensures
            final(world).wf(),
            r == GameState::Play(Play),
            old(world).num_controls() == 0 ==> final(world).draw_image() == Some(
                crate::Image::Start,
            ),
            old(world).num_controls() == 1 ==> final(world).draw_image() == Some(
                crate::Image::Wait,
            ),
            old(world).num_controls() >= 2 ==> final(world).draw_image() == old(world).draw_image(),
            final(world).same_but_draw_image(*old(world)),
    {
        let count = world.count_controls();
        if count == 0 {
            world.set_draw_image(crate::Image::Start);
        } else if count == 1 {
            world.set_draw_image(crate::Image::Wait);
        }
        GameState::Play(Play)
    }

    /// An event from a gamepad that controls no ball starts its
    /// registration, and so does the disconnection of a gamepad that owns a
    /// ball: its slot goes back to waiting for a join decision. Every other
    /// event from a registered gamepad changes nothing here.
    pub fn event(self, event: InputEvent, world: &mut World) -> (r: GameState)
        requires
            old(world).wf(),
        ensures
            final(world).wf(),
            *final(world) == *old(world),
            ({
                let known = exists|i: int|
                    #[trigger] old(world).controls_map().dom().contains(i) && old(
                        world,
                    ).controls_map()[i].gamepad_id == event.id;
                if known && event.kind != EventKind::Disconnected {
                    r == GameState::Play(Play)
                } else {
                    r == GameState::NewController(NewController { id: event.id })
                }
            }),
    {
        if !world.has_control_for_gamepad(event.id) {
            return GameState::NewController(NewController { id: event.id });
        }
        match event.kind {
            EventKind::Disconnected => GameState::NewController(
                NewController { id: event.id },
            ),
            _ => GameState::Play(Play),
        }
    }

    /// The per-frame poll of one gamepad. Every ball of this gamepad whose
    /// stick mask enables a held trigger, and which holds the airjump
    /// capability, consumes the capability and jumps: the returned entities
    /// are handed to the physics side, which sets each ball's linear
    /// velocity along its facing angle. Triggering without the capability
    /// changes nothing.
    pub fn gamepad(self, id: usize, input: GamepadInput, world: &mut World) -> (r: (
        GameState,
        Vec<Entity>,
    ))
        requires
            old(world).wf(),
        ensures
            final(world).wf(),
            r.0 == GameState::Play(Play),
            r.1@ == jump_list(*old(world), id, input, old(world).num_entities() as int),
            final(world).airjumps_map().dom() == old(world).airjumps_map().dom(),
            forall|i: int| #[trigger]
                old(world).airjumps_map().dom().contains(i) ==> final(world).airjumps_map()[i].0
                    == (old(world).airjumps_map()[i].0 && !jump_fires(*old(world), i, id, input)),
            final(world).controls_map() == old(world).controls_map(),
            final(world).restorers_map() == old(world).restorers_map(),
            final(world).contactors_map() == old(world).contactors_map(),
            final(world).images_map() == old(world).images_map(),
            final(world).same_physics(*old(world)),
            final(world).same_infra(*old(world)),
    {
        let mut jumps: Vec<Entity> = Vec::new();
        let n = world.entity_count();
        let mut i: usize = 0;
        while i < n
            invariant
                0 <= i <= n,
                world.wf(),
                n as nat == old(world).num_entities(),
                jumps@ == jump_list(*old(world), id, input, i as int),
                world.airjumps_map().dom() == old(world).airjumps_map().dom(),
                forall|j: int|
                    i <= j && #[trigger] old(world).airjumps_map().dom().contains(j)
                        ==> world.airjumps_map()[j] == old(world).airjumps_map()[j],
                forall|j: int|
                    j < i && #[trigger] old(world).airjumps_map().dom().contains(j)
                        ==> world.airjumps_map()[j].0 == (old(world).airjumps_map()[j].0
                        && !jump_fires(*old(world), j, id, input)),
                world.controls_map() == old(world).controls_map(),
                world.restorers_map() == old(world).restorers_map(),
                world.contactors_map() == old(world).contactors_map(),
                world.images_map() == old(world).images_map(),
                world.same_physics(*old(world)),
                world.same_infra(*old(world)),
            decreases n - i,
        {
            let e = Entity(i);
            let fires = match (world.control_of(e), world.airjump_of(e), world.body_of(e)) {
                (Some(c), Some(a), Some(_)) => {
                    c.gamepad_id == id && a.0 && ((input.left_trigger && c.parts[0])
                        || (input.right_trigger && c.parts[1]))
                },
                _ => false,
            };
            if fires {
                world.add_airjump(e, crate::component::Airjump(false));
                jumps.push(e);
            }
            i = i + 1;
        }
        (GameState::Play(Play), jumps)
    }

    /// The simulation runs only with at least two registered players;
    /// fewer pause it.
    pub fn paused(&self, world: &World) -> (b: bool)
        requires
            world.wf(),
        ensures
            b == (world.num_controls() < 2),
    {
        world.count_controls() < 2
    }
}

impl GameState {
    /// Well-formedness of the active variant.
    pub open spec fn wf(self) -> bool {
        match self {
            GameState::ShowImage(s) => s.wf(),
            _ => true,
        }
    }

    /// Per-frame update of the active state.
    pub fn update(self, world: &mut World) -> (r: GameState)
        requires
            self.wf(),
            old(world).wf(),
        ensures
            final(world).wf(),
            r.wf(),
            final(world).same_but_draw_image(*old(world)),
            match self {
                GameState::NewController(nc) => r == GameState::NewController(nc) && final(world).draw_image() == Some(crate::Image::NewController),
                GameState::ShowImage(s) => final(world).draw_image() == Some(s.image()) && if s
                    .time() == 1 {
                    r == GameState::Play(Play)
                } else {
                    (r matches GameState::ShowImage(s2) && s2.time() == s.time() - 1
                        && s2.image() == s.image())
                },
                GameState::Play(p) => r == GameState::Play(Play) && if old(world).num_controls()
                    == 0 {
                    final(world).draw_image() == Some(crate::Image::Start)
                } else if old(world).num_controls() == 1 {
                    final(world).draw_image() == Some(crate::Image::Wait)
                } else {
                    final(world).draw_image() == old(world).draw_image()
                },
            },
    {
        match self {
            GameState::NewController(nc) => nc.update(world),
            GameState::ShowImage(s) => s.update(world),
            GameState::Play(p) => p.update(world),
        }
    }

    /// Routes a discrete gamepad event to the active state.
    pub fn event(self, event: InputEvent, world: &mut World) -> (r: GameState)
        requires
            self.wf(),
            old(world).wf(),
            old(world).num_entities() + 2 <= usize::MAX,
            old(world).bodies_allocated() + 2 < usize::MAX,
        ensures
            final(world).wf(),
            r.wf(),
            match self {
                GameState::NewController(nc) => {
                    &&& event.id != nc.id ==> *final(world) == *old(world) && r
                        == GameState::NewController(nc)
                    &&& event.id == nc.id ==> match event.kind {
                        EventKind::Disconnected => *final(world) == *old(world) && r
                            == GameState::Play(Play),
                        EventKind::ButtonPressed(Button::West) => ball_created(
                            *old(world),
                            *final(world),
                            nc.id,
                            [true, true],
                        ) && (r matches GameState::ShowImage(s) && s.image()
                            == crate::Image::NewController1 && s.time() == 30),
                        EventKind::ButtonPressed(Button::South) => two_balls_created(
                            *old(world),
                            *final(world),
                            nc.id,
                        ) && (r matches GameState::ShowImage(s) && s.image()
                            == crate::Image::NewController2 && s.time() == 30),
                        EventKind::ButtonPressed(Button::East) => *final(world) == *old(world)
                            && (r matches GameState::ShowImage(s) && s.image()
                            == crate::Image::NewControllerSkip && s.time() == 30),
                        _ => *final(world) == *old(world) && r == GameState::NewController(nc),
                    }
                },
                GameState::ShowImage(s) => *final(world) == *old(world) && r
                    == GameState::ShowImage(s),
                GameState::Play(p) => {
                    &&& *final(world) == *old(world)
                    &&& if (exists|i: int|
                        #[trigger] old(world).controls_map().dom().contains(i) && old(
                            world,
                        ).controls_map()[i].gamepad_id == event.id) && event.kind
                        != EventKind::Disconnected {
                        r == GameState::Play(Play)
                    } else {
                        r == GameState::NewController(NewController { id: event.id })
                    }
                },
            },
    {
        match self {
            GameState::NewController(nc) => nc.event(event, world),
            GameState::ShowImage(s) => s.event(event, world),
            GameState::Play(p) => p.event(event, world),
        }
    }

    /// Routes the per-frame poll of one gamepad to the active state. Only
    /// `Play` reacts; the returned entities jump this frame.
    pub fn gamepad(self, id: usize, input: GamepadInput, world: &mut World) -> (r: (
        GameState,
        Vec<Entity>,
    ))
        requires
            self.wf(),
            old(world).wf(),
        ensures
            final(world).wf(),
            r.0.wf(),
            match self {
                GameState::Play(p) => {
                    &&& r.0 == GameState::Play(Play)
                    &&& r.1@ == jump_list(*old(world), id, input, old(world).num_entities() as int)
                    &&& final(world).airjumps_map().dom() == old(world).airjumps_map().dom()
                    &&& forall|i: int| #[trigger]
                        old(world).airjumps_map().dom().contains(i) ==> final(world).airjumps_map()[i].0 == (old(world).airjumps_map()[i].0 && !jump_fires(
                            *old(world),
                            i,
                            id,
                            input,
                        ))
                    &&& final(world).controls_map() == old(world).controls_map()
                    &&& final(world).restorers_map() == old(world).restorers_map()
                    &&& final(world).contactors_map() == old(world).contactors_map()
                    &&& final(world).images_map() == old(world).images_map()
                    &&& final(world).same_physics(*old(world))
                    &&& final(world).same_infra(*old(world))
                },
                _ => *final(world) == *old(world) && r.0 == self && r.1@ == Seq::<Entity>::empty(),
            },
    {
        match self {
            GameState::NewController(nc) => {
                let r = nc.gamepad(id, input, world);
                (r, Vec::new())
            },
            GameState::ShowImage(s) => {
                let r = s.gamepad(id, input, world);
                (r, Vec::new())
            },
            GameState::Play(p) => p.gamepad(id, input, world),
        }
    }

    /// Whether the simulation is paused in the active state: always outside
    /// `Play`, and in `Play` whenever fewer than two players are registered.
    pub fn paused(&self, world: &World) -> (b: bool)
        requires
            world.wf(),
        ensures
            match *self {
                GameState::Play(p) => b == (world.num_controls() < 2),
                _ => b,
            },
    {
        match self {
            GameState::NewController(nc) => nc.paused(world),
            GameState::ShowImage(s) => s.paused(world),
            GameState::Play(p) => p.paused(world),
        }
    }

    /// No state asks the frame driver to quit; the driver exits on window
    /// input instead.
    pub fn quit(&self) -> (b: bool)
        ensures
            !b,
    {
        false
    }
}

} // verus!
