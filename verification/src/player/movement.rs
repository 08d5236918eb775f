//! How a character moves: what counts as standing on the ground, how the
//! keyboard pushes it, and how its speed dies away.

use vstd::arithmetic::power::pow;
use vstd::prelude::*;
use crate::input::{Input, KeyCode};
use crate::math::{magnitude, product, saturate, truncated_quotient, Scalar, Vector, ONE, PI};

verus! {

/// The raw factor by which the shape that is cast below a character is
/// smaller than the character's collider (0.99).
pub const GROUND_CASTER_SCALE: i64 = 990_000;

/// The raw distance below a character within which the shape cast looks for
/// surfaces (10).
pub const GROUND_CASTER_REACH: i64 = 10_000_000;

/// A request to push the characters: `x` is -1, 0 or 1 for left, none or
/// right; `y` is 1 where a jump is asked for, else 0.
#[derive(Clone, Copy, Debug, PartialEq, Eq, Structural)]
pub struct MovementEvent(pub Vector);

impl MovementEvent {
    /// The direction that the event carries.
    pub open spec fn direction(self) -> Vector {
        self.0
    }
}

/// Whether a character stands on walkable ground; found anew on every tick.
#[derive(Clone, Copy, Debug, PartialEq, Eq, Structural)]
pub struct Grounded(pub bool);

/// How a character answers to the player's input.
#[derive(Clone, Copy, Debug, PartialEq, Eq, Structural)]
pub struct Movement {
    /// The gain of horizontal speed for each second of a held key.
    pub acceleration: Scalar,
    /// What remains of the horizontal speed after a tick.
    pub damping_factor: Scalar,
    /// The vertical speed that a jump sets.
    pub jump_impulse: Scalar,
    /// The steepest slope, in radians from level ground, that still counts
    /// as ground; `None` where every slope does.
    pub max_slope_angle: Option<Scalar>,
}

/// One surface that the shape cast below a character has met.
#[derive(Clone, Copy, Debug, PartialEq, Eq, Structural)]
pub struct ShapeHit {
    /// The angle, in radians and with either sign, between the surface's
    /// normal and the upward axis.
    pub normal_angle: Scalar,
}

/// A character that the player controls.
#[derive(Clone, Debug)]
pub struct CharacterController {
    pub movement: Movement,
    pub linear_velocity: Vector,
    pub grounded: Grounded,
    /// What the shape cast below the character has met on this tick.
    pub hits: Vec<ShapeHit>,
}

/// A surface counts as ground where no steepest slope is set, or where the
/// angle of its normal from the upward axis is at most the steepest slope.
pub open spec fn is_walkable(hit: ShapeHit, max_slope_angle: Option<Scalar>) -> bool {
    match max_slope_angle {
        Some(angle) => saturate(magnitude(hit.normal_angle@)) <= angle@,
        None => true,
    }
}

/// A character is grounded where at least one of the surfaces below it
/// counts as ground.
pub open spec fn stands_on_ground(hits: Seq<ShapeHit>, max_slope_angle: Option<Scalar>) -> bool {
    exists|i: int| 0 <= i < hits.len() && is_walkable(#[trigger] hits[i], max_slope_angle)
}

/// Classifies the surfaces below one character.
pub fn classify_hits(hits: &Vec<ShapeHit>, max_slope_angle: Option<Scalar>) -> (r: bool)
    ensures
        r == stands_on_ground(hits@, max_slope_angle),
{
    let mut i: usize = 0;
    while i < hits.len()
        invariant
            i <= hits.len(),
            forall|j: int| 0 <= j < i ==> !is_walkable(#[trigger] hits@[j], max_slope_angle),
        decreases hits.len() - i,
    {
        let walkable: bool = match max_slope_angle {
            Some(angle) => hits[i].normal_angle.abs().raw <= angle.raw,
            None => true,
        };
        if walkable {
            assert(is_walkable(hits@[i as int], max_slope_angle));
            return true;
        }
        i += 1;
    }
    false
}

/// Finds for every character, from the surfaces met on this tick alone,
/// whether it stands on the ground.
pub fn update_grounded(controllers: &mut Vec<CharacterController>)
    ensures
        final(controllers)@.len() == old(controllers)@.len(),
        forall|i: int|
            0 <= i < old(controllers)@.len() ==> {
                &&& (#[trigger] final(controllers)@[i]).grounded.0 == stands_on_ground(
                    old(controllers)@[i].hits@,
                    old(controllers)@[i].movement.max_slope_angle,
                )
                &&& final(controllers)@[i].movement == old(controllers)@[i].movement
                &&& final(controllers)@[i].linear_velocity == old(controllers)@[i].linear_velocity
                &&& final(controllers)@[i].hits == old(controllers)@[i].hits
            },
{
    let mut i: usize = 0;
    while i < controllers.len()
        invariant
            i <= controllers.len(),
            controllers@.len() == old(controllers)@.len(),
            forall|j: int|
                0 <= j < i ==> {
                    &&& (#[trigger] controllers@[j]).grounded.0 == stands_on_ground(
                        old(controllers)@[j].hits@,
                        old(controllers)@[j].movement.max_slope_angle,
                    )
                    &&& controllers@[j].movement == old(controllers)@[j].movement
                    &&& controllers@[j].linear_velocity == old(controllers)@[j].linear_velocity
                    &&& controllers@[j].hits == old(controllers)@[j].hits
                },
            forall|j: int| i <= j < controllers@.len() ==> controllers@[j] == old(controllers)@[j],
        decreases controllers.len() - i,
    {
        let is_grounded: bool = classify_hits(
            &controllers[i].hits,
            controllers[i].movement.max_slope_angle,
        );
        controllers[i].grounded = Grounded(is_grounded);
        i += 1;
    }
}

impl Default for Movement {
    /// An acceleration of 600, a damping factor of 0.9, a jump impulse of
    /// 150 and a steepest slope of 0.45 times pi.
    fn default() -> (r: Movement)
        ensures
            r.acceleration@ == 600 * ONE,
            r.damping_factor@ == 900_000,
            r.jump_impulse@ == 150 * ONE,
            r.max_slope_angle == Some(Scalar { raw: 1_413_716 }),
    {
        Movement {
            acceleration: Scalar::from_int(600),
            damping_factor: Scalar::from_raw(900_000),
            jump_impulse: Scalar::from_int(150),
            max_slope_angle: Some(Scalar::from_raw(PI).sat_mul(Scalar::from_raw(450_000))),
        }
    }
}

/// The push that the keyboard asks for: left for `A` or `Left` held, right
/// for `D` or `Right` held, and a jump for `Space` freshly pressed. Keys that
/// ask for nothing give no event.
pub open spec fn movement_request(keys: Input) -> Option<MovementEvent> {
    let left = keys.is_pressed(KeyCode::A) || keys.is_pressed(KeyCode::Left);
    let right = keys.is_pressed(KeyCode::D) || keys.is_pressed(KeyCode::Right);
    let jump = keys.is_just_pressed(KeyCode::Space);
    let x = (if right { 1int } else { 0int }) - (if left { 1int } else { 0int });
    if x == 0 && !jump {
        None
    } else {
        Some(
            MovementEvent(
                Vector {
                    x: Scalar { raw: (x * ONE) as i64 },
                    y: Scalar { raw: if jump { ONE } else { 0i64 } },
                },
            ),
        )
    }
}

/// Translates the keyboard into a push, if it asks for one.
pub fn keyboard_input(keys: &Input) -> (r: Option<MovementEvent>)
    ensures
        r == movement_request(*keys),
{
    let left: bool = keys.any_pressed(KeyCode::A, KeyCode::Left);
    let right: bool = keys.any_pressed(KeyCode::D, KeyCode::Right);
    let jump: bool = keys.just_pressed(KeyCode::Space);
    let x: i32 = (if right { 1i32 } else { 0i32 }) - (if left { 1i32 } else { 0i32 });
    if x == 0 && !jump {
        None
    } else {
        let y: i32 = if jump { 1 } else { 0 };
        Some(MovementEvent(Vector::new(Scalar::from_int(x), Scalar::from_int(y))))
    }
}

/// The velocity of a character after one push: the horizontal speed gains the
/// direction times the acceleration times the length of the tick; the
/// vertical speed is set to the jump impulse where the character is grounded
/// and the push asks for a jump, and is otherwise left alone.
pub open spec fn pushed(
    velocity: Vector,
    event: MovementEvent,
    movement: Movement,
    is_grounded: bool,
    delta_time: int,
) -> Vector {
    Vector {
        x: Scalar {
            raw: saturate(
                velocity.x@ + product(product(event.0.x@, movement.acceleration@), delta_time),
            ) as i64,
        },
        y: if is_grounded && event.0.y@ != 0 {
            movement.jump_impulse
        } else {
            velocity.y
        },
    }
}

/// The velocity of a character after the pushes of a tick, taken in the
/// order in which they came.
pub open spec fn pushed_by_all(
    velocity: Vector,
    events: Seq<MovementEvent>,
    movement: Movement,
    is_grounded: bool,
    delta_time: int,
) -> Vector
    decreases events.len(),
{
    if events.len() == 0 {
        velocity
    } else {
        pushed(
            pushed_by_all(velocity, events.drop_last(), movement, is_grounded, delta_time),
            events.last(),
            movement,
            is_grounded,
            delta_time,
        )
    }
}

/// Applies one push to a velocity.
pub fn push(
    velocity: Vector,
    event: &MovementEvent,
    movement: &Movement,
    is_grounded: bool,
    delta_time: Scalar,
) -> (r: Vector)
    ensures
        r == pushed(velocity, *event, *movement, is_grounded, delta_time@),
{
    let gain: Scalar = event.0.x.sat_mul(movement.acceleration).sat_mul(delta_time);
    let x: Scalar = velocity.x.sat_add(gain);
    let y: Scalar = if is_grounded && event.0.y.raw != 0 {
        movement.jump_impulse
    } else {
        velocity.y
    };
    Vector { x, y }
}

/// Applies the pushes of a tick to every character.
pub fn movement(
    delta_time: Scalar,
    events: &Vec<MovementEvent>,
    controllers: &mut Vec<CharacterController>,
)
    ensures
        final(controllers)@.len() == old(controllers)@.len(),
        forall|i: int|
            0 <= i < old(controllers)@.len() ==> {
                &&& (#[trigger] final(controllers)@[i]).linear_velocity == pushed_by_all(
                    old(controllers)@[i].linear_velocity,
                    events@,
                    old(controllers)@[i].movement,
                    old(controllers)@[i].grounded.0,
                    delta_time@,
                )
                &&& final(controllers)@[i].movement == old(controllers)@[i].movement
                &&& final(controllers)@[i].grounded == old(controllers)@[i].grounded
                &&& final(controllers)@[i].hits == old(controllers)@[i].hits
            },
{
    let mut i: usize = 0;
    while i < controllers.len()
        invariant
            i <= controllers.len(),
            controllers@.len() == old(controllers)@.len(),
            forall|j: int|
                0 <= j < i ==> {
                    &&& (#[trigger] controllers@[j]).linear_velocity == pushed_by_all(
                        old(controllers)@[j].linear_velocity,
                        events@,
                        old(controllers)@[j].movement,
                        old(controllers)@[j].grounded.0,
                        delta_time@,
                    )
                    &&& controllers@[j].movement == old(controllers)@[j].movement
                    &&& controllers@[j].grounded == old(controllers)@[j].grounded
                    &&& controllers@[j].hits == old(controllers)@[j].hits
                },
            forall|j: int| i <= j < controllers@.len() ==> controllers@[j] == old(controllers)@[j],
        decreases controllers.len() - i,
    {
        let setting: Movement = controllers[i].movement;
        let is_grounded: bool = controllers[i].grounded.0;
        let start: Vector = controllers[i].linear_velocity;
        let mut velocity: Vector = start;
        let mut k: usize = 0;
        proof {
            assert(events@.take(0).len() == 0);
        }
        while k < events.len()
            invariant
                k <= events.len(),
                velocity == pushed_by_all(
                    start,
                    events@.take(k as int),
                    setting,
                    is_grounded,
                    delta_time@,
                ),
            decreases events.len() - k,
        {
            proof {
                let shorter = events@.take(k as int);
                let longer = events@.take(k + 1);
                assert(longer.drop_last() == shorter);
                assert(longer.last() == events@[k as int]);
            }
            velocity = push(velocity, &events[k], &setting, is_grounded, delta_time);
            k += 1;
        }
        proof {
            assert(events@.take(events.len() as int) == events@);
        }
        controllers[i].linear_velocity = velocity;
        i += 1;
    }
}

/// Lets the horizontal speed of every character die away by its damping
/// factor. The vertical speed is left alone.
pub fn apply_movement_damping(controllers: &mut Vec<CharacterController>)
    ensures
        final(controllers)@.len() == old(controllers)@.len(),
        forall|i: int|
            0 <= i < old(controllers)@.len() ==> {
                &&& (#[trigger] final(controllers)@[i]).linear_velocity.x@ == product(
                    old(controllers)@[i].linear_velocity.x@,
                    old(controllers)@[i].movement.damping_factor@,
                )
                &&& final(controllers)@[i].linear_velocity.y == old(
                    controllers,
                )@[i].linear_velocity.y
                &&& final(controllers)@[i].movement == old(controllers)@[i].movement
                &&& final(controllers)@[i].grounded == old(controllers)@[i].grounded
                &&& final(controllers)@[i].hits == old(controllers)@[i].hits
            },
{
    let mut i: usize = 0;
    while i < controllers.len()
        invariant
            i <= controllers.len(),
            controllers@.len() == old(controllers)@.len(),
            forall|j: int|
                0 <= j < i ==> {
                    &&& (#[trigger] controllers@[j]).linear_velocity.x@ == product(
                        old(controllers)@[j].linear_velocity.x@,
                        old(controllers)@[j].movement.damping_factor@,
                    )
                    &&& controllers@[j].linear_velocity.y == old(controllers)@[j].linear_velocity.y
                    &&& controllers@[j].movement == old(controllers)@[j].movement
                    &&& controllers@[j].grounded == old(controllers)@[j].grounded
                    &&& controllers@[j].hits == old(controllers)@[j].hits
                },
            forall|j: int| i <= j < controllers@.len() ==> controllers@[j] == old(controllers)@[j],
        decreases controllers.len() - i,
    {
        let damped: Scalar = controllers[i].linear_velocity.x.sat_mul(
            controllers[i].movement.damping_factor,
        );
        controllers[i].linear_velocity.x = damped;
        i += 1;
    }
}

/// The raw horizontal speed that is left of `speed` after `ticks` ticks of
/// damping by `factor`, where nothing pushes.
pub open spec fn damped(speed: int, factor: int, ticks: nat) -> int
    decreases ticks,
{
    if ticks == 0 {
        speed
    } else {
        product(damped(speed, factor, (ticks - 1) as nat), factor)
    }
}

/// One step of the bound on the damping error.
proof fn lemma_damping_error_step(error: int, rest: int, scale: int, factor: int, ticks: int)
    requires
        ticks >= 1,
        scale >= 0,
        0 <= factor <= ONE,
        -((ticks - 1) * scale) <= error <= (ticks - 1) * scale,
        -ONE <= rest <= ONE,
    ensures
        -(ticks * (ONE * scale)) <= factor * error - rest * scale <= ticks * (ONE * scale),
{
    let bound = (ticks - 1) * scale;
    assert(-(ONE * bound) <= factor * error <= ONE * bound) by (nonlinear_arith)
        requires
            0 <= factor <= ONE,
            -bound <= error <= bound,
    ;
    assert(-(ONE * scale) <= rest * scale <= ONE * scale) by (nonlinear_arith)
        requires
            scale >= 0,
            -ONE <= rest <= ONE,
    ;
    assert(ONE * bound + ONE * scale == ticks * (ONE * scale)) by (nonlinear_arith)
        requires
            bound == (ticks - 1) * scale,
    ;
}

/// A damped speed is the truncated quotient itself: it never leaves the
/// range, is no larger in magnitude than the speed before and has its sign.
proof fn lemma_damping_step(speed: int, factor: int)
    requires
        i64::MIN <= speed <= i64::MAX,
        0 <= factor <= ONE,
    ensures
        product(speed, factor) == truncated_quotient(speed * factor, ONE as int),
        magnitude(product(speed, factor)) <= magnitude(speed),
        speed >= 0 ==> product(speed, factor) >= 0,
        speed <= 0 ==> product(speed, factor) <= 0,
        -ONE < speed * factor - product(speed, factor) * ONE < ONE,
{
    let n = speed * factor;
    if speed >= 0 {
        assert(0 <= n <= speed * ONE) by (nonlinear_arith)
            requires
                n == speed * factor,
                speed >= 0,
                0 <= factor <= ONE,
        ;
        assert(0 <= n / (ONE as int) <= speed && 0 <= n - (n / (ONE as int)) * ONE < ONE)
            by (nonlinear_arith)
            requires
                0 <= n <= speed * ONE,
                ONE == 1_000_000,
        ;
    } else {
        let m = -n;
        assert(0 <= m <= (-speed) * ONE && m == -(speed * factor)) by (nonlinear_arith)
            requires
                m == -(speed * factor),
                speed < 0,
                0 <= factor <= ONE,
        ;
        assert(0 <= m / (ONE as int) <= -speed && 0 <= m - (m / (ONE as int)) * ONE < ONE)
            by (nonlinear_arith)
            requires
                0 <= m <= (-speed) * ONE,
                ONE == 1_000_000,
        ;
        if n >= 0 {
            assert(n == 0);
        }
    }
}

/// Damping is a geometric decay: after any number of ticks the speed has
/// kept its sign, has not grown, and differs from the starting speed times
/// the factor raised to the number of ticks by at most one millionth for
/// each tick. (Both sides of the comparison are multiplied by a million
/// raised to the number of ticks, so that they are whole numbers.)
pub proof fn lemma_damping_decay(speed: int, factor: int, ticks: nat)
    requires
        i64::MIN <= speed <= i64::MAX,
        0 <= factor <= ONE,
    ensures
        magnitude(damped(speed, factor, ticks)) <= magnitude(speed),
        speed >= 0 ==> damped(speed, factor, ticks) >= 0,
        speed <= 0 ==> damped(speed, factor, ticks) <= 0,
        magnitude(
            damped(speed, factor, ticks) * pow(ONE as int, ticks) - speed * pow(factor, ticks),
        ) <= ticks * pow(ONE as int, ticks),
    decreases ticks,
{
    reveal(pow);
    if ticks == 0 {
        assert(pow(ONE as int, 0) == 1);
        assert(pow(factor, 0) == 1);
    } else {
        let before = (ticks - 1) as nat;
        lemma_damping_decay(speed, factor, before);
        let w = damped(speed, factor, before);
        let q = damped(speed, factor, ticks);
        lemma_damping_step(w, factor);
        let scale = pow(ONE as int, before);
        let power = pow(factor, before);
        vstd::arithmetic::power::lemma_pow_positive(ONE as int, before);
        assert(pow(ONE as int, ticks) == ONE * scale);
        assert(pow(factor, ticks) == factor * power);
        let error = w * scale - speed * power;
        let rest = w * factor - q * ONE;
        assert(factor * error == factor * (w * scale) - factor * (speed * power))
            by (nonlinear_arith)
            requires
                error == w * scale - speed * power,
        ;
        assert(rest * scale == (w * factor) * scale - (q * ONE) * scale) by (nonlinear_arith)
            requires
                rest == w * factor - q * ONE,
        ;
        assert(factor * (w * scale) == (w * factor) * scale) by (nonlinear_arith);
        assert((q * ONE) * scale == q * (ONE * scale)) by (nonlinear_arith);
        assert(factor * (speed * power) == speed * (factor * power)) by (nonlinear_arith);
        lemma_damping_error_step(error, rest, scale, factor, ticks as int);
    }
}

/// A character that is not grounded keeps its vertical speed, whatever the
/// pushes of the tick ask for.
pub proof fn lemma_no_jump_in_the_air(
    velocity: Vector,
    events: Seq<MovementEvent>,
    movement: Movement,
    delta_time: int,
)
    ensures
        pushed_by_all(velocity, events, movement, false, delta_time).y == velocity.y,
    decreases events.len(),
{
    if events.len() > 0 {
        lemma_no_jump_in_the_air(velocity, events.drop_last(), movement, delta_time);
    }
}

} // verus!
