//! How a piece topples: from standing, through falling, to rest or out of the
//! level; and how the level ends.
use vstd::prelude::*;
use bevy::time::Timer;
use crate::body::Body;
use crate::camera::camera_moved;
use crate::game::AppState;
use crate::game::GameOverReason;
use crate::world::Handle;
use crate::world::ObjectView;
use crate::world::World;
use crate::fixed::length_squared;
use crate::fixed::magnitude;
use crate::immobile_timer::elapsed_nanos;
use crate::immobile_timer::once_timer;
use crate::immobile_timer::reset_timer;
use crate::immobile_timer::tick_timer;
use crate::immobile_timer::timer_counts;
use crate::immobile_timer::timer_duration;
use crate::immobile_timer::timer_elapsed;

verus! {

/// How long a fallen piece must lie still before it counts as stopped.
pub const IMMOBILE_NANOS: u64 = 1_000_000_000;

/// The sine of the tilt beyond which a standing piece counts as toppling.
pub const TILT: i32 = 100;

/// The square of the speed beyond which a fallen piece counts as moving.
pub const MOVING_SQUARED: i32 = 10_000;

/// The angular speed beyond which a fallen piece counts as moving.
pub const TURNING: i64 = 10;

/// The topple lifecycle of a piece.
#[derive(Debug)]
pub enum Toppleable {
    Standing,
    /// Down or going down; the timer counts the time it has lain still.
    Falling { immobile_timer: Timer },
    Stopped,
    FellOut,
}

/// The topple lifecycle of a piece, as plain values.
pub enum ToppleState {
    Standing,
    /// Down or going down, and still for so many nanoseconds.
    Falling { still_for: nat },
    Stopped,
    FellOut,
}

impl View for Toppleable {
    type V = ToppleState;

    open spec fn view(&self) -> ToppleState {
        match *self {
            Toppleable::Standing => ToppleState::Standing,
            Toppleable::Falling { immobile_timer } => ToppleState::Falling { still_for: timer_elapsed(immobile_timer) },
            Toppleable::Stopped => ToppleState::Stopped,
            Toppleable::FellOut => ToppleState::FellOut,
        }
    }
}

/// Whether a body leans far enough to count as toppling.
pub open spec fn tilted(body: Body) -> bool {
    magnitude(body.rotation.sin as int) > TILT
}

/// Whether a body still moves or turns.
pub open spec fn moving(body: Body) -> bool {
    length_squared(body.linear_velocity.plane()) > MOVING_SQUARED || magnitude(body.angular_velocity as int)
        > TURNING
}

/// The state of a piece after a step of `step` nanoseconds in which its body
/// was as `body` says.
pub open spec fn topple_step(state: ToppleState, body: Body, step: nat) -> ToppleState {
    match state {
        ToppleState::Standing => if tilted(body) {
            ToppleState::Falling { still_for: 0 }
        } else {
            ToppleState::Standing
        },
        ToppleState::Falling { still_for } => if moving(body) {
            ToppleState::Falling { still_for: 0 }
        } else if still_for + step >= IMMOBILE_NANOS {
            ToppleState::Stopped
        } else {
            ToppleState::Falling { still_for: still_for + step }
        },
        ToppleState::Stopped => ToppleState::Stopped,
        ToppleState::FellOut => ToppleState::FellOut,
    }
}

/// How far a piece has come: standing, then falling, then stopped, then out.
pub open spec fn progress(state: ToppleState) -> nat {
    match state {
        ToppleState::Standing => 0,
        ToppleState::Falling { .. } => 1,
        ToppleState::Stopped => 2,
        ToppleState::FellOut => 3,
    }
}

impl Toppleable {
    /// A valid state: the countdown of a falling piece runs once, is not
    /// paused, has not finished and lasts as long as a piece must lie still.
    pub open spec fn wf(&self) -> bool {
        match *self {
            Toppleable::Falling { immobile_timer } => timer_counts(immobile_timer) && timer_duration(immobile_timer)
                == IMMOBILE_NANOS,
            _ => true,
        }
    }

    /// A piece that has just begun to fall.
    pub fn falling() -> (state: Toppleable)
        ensures
            state.wf(),
            state@ == (ToppleState::Falling { still_for: 0 }),
    {
        Toppleable::Falling { immobile_timer: once_timer(IMMOBILE_NANOS) }
    }

    /// Advances the piece by one step of `step` nanoseconds, and tells whether
    /// it began to fall in this step.
    pub fn advance(&mut self, body: &Body, step: u64) -> (began_to_fall: bool)
        requires
            old(self).wf(),
        ensures
            final(self).wf(),
            final(self)@ == topple_step(old(self)@, *body, step as nat),
            began_to_fall == (old(self)@ is Standing && tilted(*body)),
    {
        match self {
            Toppleable::Standing => {
                if leans(body) {
                    *self = Toppleable::falling();
                    true
                } else {
                    false
                }
            },
            Toppleable::Falling { immobile_timer } => {
                if moves(body) {
                    reset_timer(immobile_timer);
                } else if tick_timer(immobile_timer, step) {
                    *self = Toppleable::Stopped;
                }
                false
            },
            Toppleable::Stopped => false,
            Toppleable::FellOut => false,
        }
    }

    /// For how many nanoseconds a falling piece has lain still.
    pub fn still_for(&self) -> (nanos: Option<u128>)
        ensures
            self@ matches ToppleState::Falling { still_for } ==> nanos matches Some(spent) && spent == still_for,
            !(self@ is Falling) ==> nanos is None,
    {
        match self {
            Toppleable::Falling { immobile_timer } => Some(elapsed_nanos(immobile_timer)),
            _ => None,
        }
    }
}

/// Whether a body leans far enough to count as toppling.
pub fn leans(body: &Body) -> (leaning: bool)
    ensures
        leaning == tilted(*body),
{
    body.rotation.sin > TILT || body.rotation.sin < -TILT
}

/// Whether a body still moves or turns.
pub fn moves(body: &Body) -> (moving_now: bool)
    ensures
        moving_now == moving(*body),
{
    let vx: i64 = body.linear_velocity.x as i64;
    let vy: i64 = body.linear_velocity.y as i64;
    assert(vx * vx <= 0x8000_0000 * 0x8000_0000) by (nonlinear_arith)
        requires
            -0x8000_0000 <= vx <= 0x8000_0000,
    ;
    assert(vy * vy <= 0x8000_0000 * 0x8000_0000) by (nonlinear_arith)
        requires
            -0x8000_0000 <= vy <= 0x8000_0000,
    ;
    assert(vx * vx >= 0) by (nonlinear_arith);
    assert(vy * vy >= 0) by (nonlinear_arith);
    let speed_squared: i128 = (vx * vx) as i128 + (vy * vy) as i128;
    speed_squared > (MOVING_SQUARED as i128) || body.angular_velocity > TURNING || body.angular_velocity < -TURNING
}


/// Whether the tracked object `i` begins to fall in this step.
pub open spec fn begins_to_fall(objects: Seq<ObjectView>, i: int) -> bool {
    objects[i].toppleable == Some(ToppleState::Standing) && tilted(objects[i].body)
}

/// The last of the objects below `upto` that begins to fall in this step.
pub open spec fn last_to_fall(objects: Seq<ObjectView>, upto: int) -> Option<int>
    decreases upto,
{
    if upto <= 0 {
        None
    } else if begins_to_fall(objects, upto - 1) {
        Some(upto - 1)
    } else {
        last_to_fall(objects, upto - 1)
    }
}

/// An object with its piece advanced by one step.
pub open spec fn piece_advanced(object: ObjectView, step: nat) -> ObjectView {
    ObjectView {
        toppleable: match object.toppleable {
            Some(state) => Some(topple_step(state, object.body, step)),
            None => None,
        },
        ..object
    }
}

/// The objects with every piece below `upto` advanced by one step.
pub open spec fn pieces_advanced(objects: Seq<ObjectView>, step: nat, upto: int) -> Seq<ObjectView> {
    Seq::new(
        objects.len(),
        |i: int|
            if i < upto {
                piece_advanced(objects[i], step)
            } else {
                objects[i]
            },
    )
}

/// The objects once the tracker has looked at those below `upto`: their
/// pieces are advanced, and the camera follows the last that began to fall.
pub open spec fn watched(objects: Seq<ObjectView>, step: nat, upto: int) -> Seq<ObjectView> {
    match last_to_fall(objects, upto) {
        Some(target) => camera_moved(pieces_advanced(objects, step, upto), target as usize),
        None => pieces_advanced(objects, step, upto),
    }
}

/// The objects after one step of the tracker.
pub open spec fn toppleables_updated(objects: Seq<ObjectView>, step: nat) -> Seq<ObjectView> {
    watched(objects, step, objects.len() as int)
}

/// The last object to fall, if there is one, is one of those looked at.
pub proof fn lemma_last_to_fall_in_range(objects: Seq<ObjectView>, upto: int)
    ensures
        last_to_fall(objects, upto) matches Some(target) ==> 0 <= target < upto && begins_to_fall(objects, target),
    decreases upto,
{
    if upto > 0 && !begins_to_fall(objects, upto - 1) {
        lemma_last_to_fall_in_range(objects, upto - 1);
    }
}

impl World {
    /// One step of the tracker of `step` nanoseconds: every piece is advanced,
    /// and the camera turns to a piece that begins to fall.
    pub fn update_toppleable(&mut self, step: u64)
        requires
            old(self).wf(),
        ensures
            final(self).wf(),
            final(self)@ == toppleables_updated(old(self)@, step as nat),
            final(self).game_over_reason == old(self).game_over_reason,
            final(self).next_state == old(self).next_state,
    {
        let count: usize = self.objects.len();
        let mut i: usize = 0;
        assert(self@ =~= watched(old(self)@, step as nat, 0));
        while i < count
            invariant
                0 <= i <= count,
                count == self.objects.len(),
                count == old(self).objects.len(),
                self.wf(),
                self.game_over_reason == old(self).game_over_reason,
                self.next_state == old(self).next_state,
                self@ == watched(old(self)@, step as nat, i as int),
            decreases count - i,
        {
            let ghost start = old(self)@;
            let ghost before = self@;
            proof {
                lemma_last_to_fall_in_range(start, i as int);
                assert(before[i as int] == self.objects[i as int]@);
            }
            let body: Body = self.objects[i].body;
            let began_to_fall: bool = match &mut self.objects[i].toppleable {
                Some(state) => state.advance(&body, step),
                None => false,
            };
            let ghost advanced = self@;
            proof {
                assert(before[i as int].toppleable == start[i as int].toppleable);
                assert(before[i as int].body == start[i as int].body);
                assert(advanced[i as int] == self.objects[i as int]@);
                assert(began_to_fall == begins_to_fall(start, i as int));
                assert(advanced =~= before.update(i as int, piece_advanced(before[i as int], step as nat)));
            }
            if began_to_fall {
                self.move_camera_target(i);
            }
            proof {
                lemma_last_to_fall_in_range(start, i + 1);
                let after = watched(start, step as nat, i + 1);
                assert forall|j: int| 0 <= j < count implies self@[j] == after[j] by {
                    assert(pieces_advanced(start, step as nat, i as int)[j] == if j < i {
                        piece_advanced(start[j], step as nat)
                    } else {
                        start[j]
                    });
                    assert(pieces_advanced(start, step as nat, i + 1)[j] == if j < i + 1 {
                        piece_advanced(start[j], step as nat)
                    } else {
                        start[j]
                    });
                }
                assert(self@ =~= after);
            }
            i += 1;
        }
    }
}


/// The objects after the fall-out check: every piece below `lowest_y` has
/// fallen out, whatever it did before. Without a lowest height nothing is
/// checked.
pub open spec fn fallen_out(objects: Seq<ObjectView>, lowest_y: Option<i64>) -> Seq<ObjectView> {
    match lowest_y {
        None => objects,
        Some(lowest) => Seq::new(
            objects.len(),
            |i: int|
                if objects[i].toppleable is Some && objects[i].body.position.y < lowest {
                    ObjectView { toppleable: Some(ToppleState::FellOut), ..objects[i] }
                } else {
                    objects[i]
                },
        ),
    }
}

/// Whether the piece `i` is falling.
pub open spec fn is_falling(objects: Seq<ObjectView>, i: int) -> bool {
    objects[i].toppleable matches Some(ToppleState::Falling { .. })
}

/// Whether the piece `i` still stands.
pub open spec fn is_standing(objects: Seq<ObjectView>, i: int) -> bool {
    objects[i].toppleable == Some(ToppleState::Standing)
}

/// Whether the piece `i` has come to rest or fallen out.
pub open spec fn is_settled(objects: Seq<ObjectView>, i: int) -> bool {
    objects[i].toppleable == Some(ToppleState::Stopped) || objects[i].toppleable == Some(ToppleState::FellOut)
}

/// Whether a piece below `upto` is falling.
pub open spec fn any_falling(objects: Seq<ObjectView>, upto: int) -> bool {
    exists|i: int| 0 <= i < upto && #[trigger] is_falling(objects, i)
}

/// Whether a piece below `upto` has come to rest or fallen out.
pub open spec fn any_settled(objects: Seq<ObjectView>, upto: int) -> bool {
    exists|i: int| 0 <= i < upto && #[trigger] is_settled(objects, i)
}

/// How many of the pieces below `upto` still stand.
pub open spec fn count_standing(objects: Seq<ObjectView>, upto: int) -> nat
    decreases upto,
{
    if upto <= 0 {
        0
    } else if is_standing(objects, upto - 1) {
        count_standing(objects, upto - 1) + 1
    } else {
        count_standing(objects, upto - 1)
    }
}

/// The first of the pieces below `upto` that still stands.
pub open spec fn first_standing(objects: Seq<ObjectView>, upto: int) -> Option<int>
    decreases upto,
{
    if upto <= 0 {
        None
    } else {
        match first_standing(objects, upto - 1) {
            Some(first) => Some(first),
            None => if is_standing(objects, upto - 1) {
                Some(upto - 1)
            } else {
                None
            },
        }
    }
}

/// What the outcome detector finds.
#[derive(Clone, Copy, Debug, PartialEq, Eq, Structural)]
pub enum Verdict {
    /// A piece is falling: the reaction goes on.
    InProgress,
    /// No piece has come to rest or fallen out: nothing has happened yet.
    NotTriggered,
    /// The reaction has ended and `count` pieces still stand, `standing` the
    /// first of them.
    Stalled { standing: Handle, count: usize },
    /// The reaction has ended and no piece stands.
    Completed,
}

/// What the outcome detector finds in these objects.
pub open spec fn verdict_of(objects: Seq<ObjectView>) -> Verdict {
    let all = objects.len() as int;
    if any_falling(objects, all) {
        Verdict::InProgress
    } else if !any_settled(objects, all) {
        Verdict::NotTriggered
    } else {
        match first_standing(objects, all) {
            Some(first) => Verdict::Stalled { standing: first as usize, count: count_standing(objects, all) as usize },
            None => Verdict::Completed,
        }
    }
}

/// The first standing piece stands, no piece before it does, and it is found
/// exactly when a piece stands.
pub proof fn lemma_first_standing(objects: Seq<ObjectView>, upto: int)
    requires
        upto <= objects.len(),
    ensures
        count_standing(objects, upto) <= (if upto < 0 {
            0
        } else {
            upto
        }),
        first_standing(objects, upto) is None <==> count_standing(objects, upto) == 0,
        first_standing(objects, upto) is None ==> forall|i: int| 0 <= i < upto ==> !is_standing(objects, i),
        first_standing(objects, upto) matches Some(first) ==> 0 <= first < upto && is_standing(objects, first)
            && forall|i: int| 0 <= i < first ==> !is_standing(objects, i),
    decreases upto,
{
    if upto > 0 {
        lemma_first_standing(objects, upto - 1);
    }
}

/// The objects after the outcome detector: where the reaction has stalled,
/// the camera turns to the first piece that still stands.
pub open spec fn finish_detected(objects: Seq<ObjectView>) -> Seq<ObjectView> {
    match verdict_of(objects) {
        Verdict::Stalled { standing, count } => camera_moved(objects, standing),
        _ => objects,
    }
}

/// The reason for the end of the game after the outcome detector.
pub open spec fn reason_after_finish(objects: Seq<ObjectView>, reason: GameOverReason) -> GameOverReason {
    match verdict_of(objects) {
        Verdict::Stalled { standing, count } => GameOverReason::TilesStillStanding(count),
        _ => reason,
    }
}

/// The phase asked for after the outcome detector.
pub open spec fn state_after_finish(objects: Seq<ObjectView>, next_state: Option<AppState>) -> Option<AppState> {
    match verdict_of(objects) {
        Verdict::Stalled { standing, count } => Some(AppState::GameOver),
        Verdict::Completed => Some(AppState::LevelCompleted),
        _ => next_state,
    }
}

/// Whether a player is below `lowest`.
pub open spec fn player_fell(objects: Seq<ObjectView>, lowest: i64, upto: int) -> bool {
    exists|i: int| 0 <= i < upto && #[trigger] is_player_below(objects, i, lowest)
}

/// Whether the object `i` is a player below `lowest`.
pub open spec fn is_player_below(objects: Seq<ObjectView>, i: int, lowest: i64) -> bool {
    objects[i].player is Some && objects[i].body.position.y < lowest
}

/// Whether a player is below the lowest height, where there is one.
pub open spec fn player_lost(objects: Seq<ObjectView>, lowest_y: Option<i64>) -> bool {
    match lowest_y {
        Some(lowest) => player_fell(objects, lowest, objects.len() as int),
        None => false,
    }
}

impl World {
    /// The fall-out check: every piece below `lowest_y` has fallen out.
    pub fn detect_toppleables_who_fell_out(&mut self, lowest_y: Option<i64>)
        requires
            old(self).wf(),
        ensures
            final(self).wf(),
            final(self)@ == fallen_out(old(self)@, lowest_y),
            final(self).game_over_reason == old(self).game_over_reason,
            final(self).next_state == old(self).next_state,
    {
        let lowest: i64 = match lowest_y {
            Some(lowest) => lowest,
            None => {
                return ;
            },
        };
        let count: usize = self.objects.len();
        let mut i: usize = 0;
        while i < count
            invariant
                0 <= i <= count,
                lowest_y == Some(lowest),
                count == self.objects.len(),
                count == old(self).objects.len(),
                self.wf(),
                self.game_over_reason == old(self).game_over_reason,
                self.next_state == old(self).next_state,
                forall|j: int|
                    0 <= j < i ==> (#[trigger] self.objects[j])@ == fallen_out(old(self)@, lowest_y)[j],
                forall|j: int| i <= j < count ==> (#[trigger] self.objects[j])@ == old(self)@[j],
            decreases count - i,
        {
            if self.objects[i].toppleable.is_some() && (self.objects[i].body.position.y as i64) < lowest {
                self.objects[i].toppleable = Some(Toppleable::FellOut);
            }
            i += 1;
        }
        assert(self@ =~= fallen_out(old(self)@, lowest_y));
    }

    /// What the outcome detector finds in this world.
    pub fn verdict(&self) -> (verdict: Verdict)
        ensures
            verdict == verdict_of(self@),
            verdict matches Verdict::Stalled { standing, count } ==> standing < self@.len() && is_standing(
                self@,
                standing as int,
            ) && 0 < count <= self@.len(),
    {
        let count: usize = self.objects.len();
        let mut falling: bool = false;
        let mut settled: bool = false;
        let mut first: Option<usize> = None;
        let mut standing: usize = 0;
        let mut i: usize = 0;
        while i < count
            invariant
                0 <= i <= count,
                count == self.objects.len(),
                falling == any_falling(self@, i as int),
                settled == any_settled(self@, i as int),
                standing == count_standing(self@, i as int),
                standing <= i,
                first is None <==> first_standing(self@, i as int) is None,
                first matches Some(found) ==> first_standing(self@, i as int) == Some(found as int),
            decreases count - i,
        {
            assert(self@[i as int] == self.objects[i as int]@);
            match &self.objects[i].toppleable {
                Some(Toppleable::Standing) => {
                    if first.is_none() {
                        first = Some(i);
                    }
                    standing += 1;
                    assert(is_standing(self@, i as int));
                },
                Some(Toppleable::Falling { .. }) => {
                    falling = true;
                    assert(is_falling(self@, i as int));
                },
                Some(Toppleable::Stopped) => {
                    settled = true;
                    assert(is_settled(self@, i as int));
                },
                Some(Toppleable::FellOut) => {
                    settled = true;
                    assert(is_settled(self@, i as int));
                },
                None => {},
            }
            i += 1;
        }
        proof {
            lemma_first_standing(self@, count as int);
        }
        if falling {
            Verdict::InProgress
        } else if !settled {
            Verdict::NotTriggered
        } else {
            match first {
                Some(found) => Verdict::Stalled { standing: found, count: standing },
                None => Verdict::Completed,
            }
        }
    }

    /// The outcome detector: where the reaction has ended, asks for the phase
    /// that follows; where it has stalled, also turns the camera to the first
    /// piece that still stands and records how many do.
    pub fn detect_finish(&mut self)
        requires
            old(self).wf(),
        ensures
            final(self).wf(),
            final(self)@ == finish_detected(old(self)@),
            final(self).game_over_reason == reason_after_finish(old(self)@, old(self).game_over_reason),
            final(self).next_state == state_after_finish(old(self)@, old(self).next_state),
    {
        match self.verdict() {
            Verdict::Stalled { standing, count } => {
                self.move_camera_target(standing);
                self.game_over_reason = GameOverReason::TilesStillStanding(count);
                self.next_state = Some(AppState::GameOver);
            },
            Verdict::Completed => {
                self.next_state = Some(AppState::LevelCompleted);
            },
            _ => {},
        }
    }

    /// The fall detector of the player: where a player is below `lowest_y`,
    /// the game is over for that reason. Without a lowest height nothing is
    /// checked.
    pub fn kill_player_when_they_fall(&mut self, lowest_y: Option<i64>)
        ensures
            final(self).objects == old(self).objects,
            final(self).game_over_reason == (if player_lost(old(self)@, lowest_y) {
                GameOverReason::PlayerFell
            } else {
                old(self).game_over_reason
            }),
            final(self).next_state == (if player_lost(old(self)@, lowest_y) {
                Some(AppState::GameOver)
            } else {
                old(self).next_state
            }),
    {
        let lowest: i64 = match lowest_y {
            Some(lowest) => lowest,
            None => {
                return ;
            },
        };
        let count: usize = self.objects.len();
        let mut fell: bool = false;
        let mut i: usize = 0;
        while i < count
            invariant
                0 <= i <= count,
                count == self.objects.len(),
                self.objects == old(self).objects,
                self.game_over_reason == old(self).game_over_reason,
                self.next_state == old(self).next_state,
                fell == player_fell(self@, lowest, i as int),
            decreases count - i,
        {
            assert(self@[i as int] == self.objects[i as int]@);
            if self.objects[i].player.is_some() && (self.objects[i].body.position.y as i64) < lowest {
                fell = true;
                assert(is_player_below(self@, i as int, lowest));
            }
            i += 1;
        }
        if fell {
            self.game_over_reason = GameOverReason::PlayerFell;
            self.next_state = Some(AppState::GameOver);
        }
    }
}

} // verus!
