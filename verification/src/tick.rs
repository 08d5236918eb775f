//! One tick of the simulation.
//!
//! A tick runs its three phases in a fixed order. The events that the input
//! phase sends are read by the two later phases of the same tick and are
//! gone when the tick ends, whether anything has read them or not.

use vstd::prelude::*;
use crate::input::{Input, MouseWheel};
use crate::level::resizable::{
    apply_scale_factors, handle_keyboard_input, handle_mouse_scrolling,
    lemma_accumulators_stay_in_range, net_steps, object_scaled, scales_in_range, scales_updated,
    scroll_delta, selection_request, setup_groups, total_change, update_scale, update_selection,
    ChangeScaleEvent, Scalable, Scale, ScaleGroup, SelectFactorEvent, SelectedGroup,
};
use crate::math::{product, Scalar, Transform};
use crate::player::movement::{
    apply_movement_damping, keyboard_input, movement, movement_request, pushed_by_all,
    stands_on_ground, update_grounded, CharacterController, MovementEvent,
};
use crate::GameplaySet;

verus! {

/// The events of a tick that are waiting to be read.
#[derive(Debug)]
pub struct Mailbox {
    pub movement: Vec<MovementEvent>,
    pub select_factor: Vec<SelectFactorEvent>,
    pub change_scale: Vec<ChangeScaleEvent>,
}

impl Mailbox {
    /// No event is waiting.
    pub open spec fn is_empty(self) -> bool {
        &&& self.movement@.len() == 0
        &&& self.select_factor@.len() == 0
        &&& self.change_scale@.len() == 0
    }

    /// A mailbox in which no event is waiting.
    pub fn new() -> (r: Mailbox)
        ensures
            r.is_empty(),
    {
        Mailbox { movement: Vec::new(), select_factor: Vec::new(), change_scale: Vec::new() }
    }

    /// Throws away every event that is waiting.
    pub fn clear(&mut self)
        ensures
            final(self).is_empty(),
    {
        self.movement.clear();
        self.select_factor.clear();
        self.change_scale.clear();
    }
}

/// Everything that a tick reads and changes.
#[derive(Debug)]
pub struct World {
    pub selected: SelectedGroup,
    pub scales: Vec<(ScaleGroup, Scale)>,
    pub scalable_objects: Vec<(Scalable, Transform, ScaleGroup)>,
    pub controllers: Vec<CharacterController>,
}

impl World {
    /// The bounds of every platform are in order.
    pub open spec fn wf(self) -> bool {
        forall|i: int|
            0 <= i < self.scalable_objects@.len() ==> (#[trigger] self.scalable_objects@[i]).0.wf()
    }

    /// A world with the groups of a fresh level and nothing else.
    pub fn new() -> (r: World)
        ensures
            r.wf(),
            r.selected.0 == ScaleGroup::Red,
            r.scales@.len() == 3,
            forall|i: int|
                0 <= i < 3 ==> (#[trigger] r.scales@[i]).0 == ScaleGroup::at(i) && r.scales@[i].1.0@
                    == 0,
            scales_in_range(r.scales@),
            r.scalable_objects@.len() == 0,
            r.controllers@.len() == 0,
    {
        let groups: (Vec<(ScaleGroup, Scale)>, SelectedGroup) = setup_groups();
        World {
            selected: groups.1,
            scales: groups.0,
            scalable_objects: Vec::new(),
            controllers: Vec::new(),
        }
    }
}

/// The raw amount that the turns of the scroll wheel add up to.
pub open spec fn scroll_total(mouse_scroll: Seq<MouseWheel>) -> int
    decreases mouse_scroll.len(),
{
    if mouse_scroll.len() == 0 {
        0
    } else {
        scroll_total(mouse_scroll.drop_last()) + scroll_delta(
            mouse_scroll.last().unit,
            mouse_scroll.last().y@,
        )
    }
}

/// The pushes that wait after the input phase: those that waited before,
/// followed by the one that the keyboard asks for.
pub open spec fn pushes_after_input(pending: Seq<MovementEvent>, keys: Input) -> Seq<
    MovementEvent,
> {
    match movement_request(keys) {
        Some(event) => pending.push(event),
        None => pending,
    }
}

/// `after` is the mailbox `before` once the input phase has run: the events
/// that waited are still there, in their order, and behind them stand the
/// push and the selection request that the keyboard asks for, if any, and one
/// change of scale for each turn of the scroll wheel.
pub open spec fn input_sent(
    before: Mailbox,
    keys: Input,
    mouse_scroll: Seq<MouseWheel>,
    after: Mailbox,
) -> bool {
    &&& after.movement@ == pushes_after_input(before.movement@, keys)
    &&& if selection_request(keys) == 0 {
        after.select_factor@ == before.select_factor@
    } else {
        &&& after.select_factor@.len() == before.select_factor@.len() + 1
        &&& after.select_factor@.drop_last() == before.select_factor@
        &&& after.select_factor@.last().steps() == selection_request(keys)
    }
    &&& after.change_scale@.len() == before.change_scale@.len() + mouse_scroll.len()
    &&& after.change_scale@.take(before.change_scale@.len() as int) == before.change_scale@
    &&& forall|i: int|
        0 <= i < mouse_scroll.len() ==> after.change_scale@[before.change_scale@.len() + i].0@
            == scroll_delta((#[trigger] mouse_scroll[i]).unit, mouse_scroll[i].y@)
}

/// Changes of scale that stand behind others add their scroll total to the
/// total of those.
pub proof fn lemma_changes_appended(
    before: Seq<ChangeScaleEvent>,
    mouse_scroll: Seq<MouseWheel>,
    after: Seq<ChangeScaleEvent>,
)
    requires
        after.len() == before.len() + mouse_scroll.len(),
        after.take(before.len() as int) == before,
        forall|i: int|
            0 <= i < mouse_scroll.len() ==> after[before.len() + i].0@ == scroll_delta(
                (#[trigger] mouse_scroll[i]).unit,
                mouse_scroll[i].y@,
            ),
    ensures
        total_change(after) == total_change(before) + scroll_total(mouse_scroll),
    decreases mouse_scroll.len(),
{
    if mouse_scroll.len() == 0 {
        assert(after.take(before.len() as int) == after);
    } else {
        let last = mouse_scroll.len() - 1;
        assert(after.last().0@ == scroll_delta(mouse_scroll[last].unit, mouse_scroll[last].y@));
        assert(after.drop_last().take(before.len() as int) == after.take(before.len() as int));
        assert forall|i: int| 0 <= i < mouse_scroll.drop_last().len() implies after.drop_last()[
            before.len() + i
        ].0@ == scroll_delta(
            (#[trigger] mouse_scroll.drop_last()[i]).unit,
            mouse_scroll.drop_last()[i].y@,
        ) by {
            assert(mouse_scroll.drop_last()[i] == mouse_scroll[i]);
        }
        lemma_changes_appended(before, mouse_scroll.drop_last(), after.drop_last());
    }
}

/// What the input phase sends adds the keyboard's steps to the net steps
/// that waited, and the scroll total to the change that waited.
pub proof fn lemma_input_sums(
    before: Mailbox,
    keys: Input,
    mouse_scroll: Seq<MouseWheel>,
    after: Mailbox,
)
    requires
        input_sent(before, keys, mouse_scroll, after),
    ensures
        net_steps(after.select_factor@) == net_steps(before.select_factor@) + selection_request(
            keys,
        ),
        total_change(after.change_scale@) == total_change(before.change_scale@) + scroll_total(
            mouse_scroll,
        ),
{
    lemma_changes_appended(before.change_scale@, mouse_scroll, after.change_scale@);
}

/// `after` is the character `before` with its ground state found anew from
/// the surfaces below it.
pub open spec fn controller_updated(
    before: CharacterController,
    after: CharacterController,
) -> bool {
    &&& after.grounded.0 == stands_on_ground(before.hits@, before.movement.max_slope_angle)
    &&& after.movement == before.movement
    &&& after.linear_velocity == before.linear_velocity
    &&& after.hits == before.hits
}

/// `after` is the world `before` once the update phase has read `mailbox`:
/// the selection has gone round by the net steps asked for; then the changes
/// of scale have gone to the group selected now; and every character has its
/// ground state found anew.
pub open spec fn world_updated(before: World, mailbox: Mailbox, after: World) -> bool {
    &&& after.selected.0 == before.selected.0.stepped(net_steps(mailbox.select_factor@))
    &&& scales_updated(
        before.scales@,
        after.selected.0,
        total_change(mailbox.change_scale@),
        after.scales@,
    )
    &&& after.scalable_objects@ == before.scalable_objects@
    &&& after.controllers@.len() == before.controllers@.len()
    &&& forall|i: int|
        0 <= i < before.controllers@.len() ==> controller_updated(
            #[trigger] before.controllers@[i],
            after.controllers@[i],
        )
}

/// `after` is the character `before` once it has taken the pushes of the
/// tick and its horizontal speed has then been damped.
pub open spec fn controller_moved(
    before: CharacterController,
    pushes: Seq<MovementEvent>,
    delta_time: int,
    after: CharacterController,
) -> bool {
    let pushed = pushed_by_all(
        before.linear_velocity,
        pushes,
        before.movement,
        before.grounded.0,
        delta_time,
    );
    &&& after.linear_velocity.x@ == product(pushed.x@, before.movement.damping_factor@)
    &&& after.linear_velocity.y == pushed.y
    &&& after.movement == before.movement
    &&& after.grounded == before.grounded
    &&& after.hits == before.hits
}

/// `after` is the world `before` once the movement phase has read
/// `mailbox`: every platform is scaled to the accumulator of its group, and
/// every character has moved.
pub open spec fn world_moved(
    before: World,
    mailbox: Mailbox,
    delta_time: int,
    after: World,
) -> bool {
    &&& after.selected == before.selected
    &&& after.scales@ == before.scales@
    &&& after.scalable_objects@.len() == before.scalable_objects@.len()
    &&& forall|i: int|
        0 <= i < before.scalable_objects@.len() ==> object_scaled(
            before.scales@,
            #[trigger] before.scalable_objects@[i],
            after.scalable_objects@[i],
        )
    &&& after.controllers@.len() == before.controllers@.len()
    &&& forall|i: int|
        0 <= i < before.controllers@.len() ==> controller_moved(
            #[trigger] before.controllers@[i],
            mailbox.movement@,
            delta_time,
            after.controllers@[i],
        )
}

/// The input phase: turns what the devices report into events and puts them
/// behind those that wait.
pub fn input_phase(keys: &Input, mouse_scroll: &Vec<MouseWheel>, mailbox: &mut Mailbox)
    ensures
        input_sent(*old(mailbox), *keys, mouse_scroll@, *final(mailbox)),
{
    match keyboard_input(keys) {
        Some(event) => {
            mailbox.movement.push(event);
        },
        None => {},
    }
    match handle_keyboard_input(keys) {
        Some(event) => {
            mailbox.select_factor.push(event);
            proof {
                assert(mailbox.select_factor@.drop_last() == old(mailbox).select_factor@);
            }
        },
        None => {},
    }
    let changes: Vec<ChangeScaleEvent> = handle_mouse_scrolling(mouse_scroll);
    let ghost waiting = old(mailbox).change_scale@.len();
    let mut i: usize = 0;
    while i < changes.len()
        invariant
            i <= changes.len(),
            changes@.len() == mouse_scroll@.len(),
            forall|j: int|
                0 <= j < changes@.len() ==> (#[trigger] changes@[j]).0@ == scroll_delta(
                    mouse_scroll@[j].unit,
                    mouse_scroll@[j].y@,
                ),
            mailbox.movement@ == pushes_after_input(old(mailbox).movement@, *keys),
            if selection_request(*keys) == 0 {
                mailbox.select_factor@ == old(mailbox).select_factor@
            } else {
                &&& mailbox.select_factor@.len() == old(mailbox).select_factor@.len() + 1
                &&& mailbox.select_factor@.drop_last() == old(mailbox).select_factor@
                &&& mailbox.select_factor@.last().steps() == selection_request(*keys)
            },
            waiting == old(mailbox).change_scale@.len(),
            mailbox.change_scale@.len() == waiting + i,
            mailbox.change_scale@.take(waiting as int) == old(mailbox).change_scale@,
            forall|j: int|
                0 <= j < i ==> mailbox.change_scale@[waiting + j] == #[trigger] changes@[j],
        decreases changes.len() - i,
    {
        let ghost so_far = mailbox.change_scale@;
        mailbox.change_scale.push(changes[i]);
        proof {
            assert(mailbox.change_scale@.take(waiting as int) == so_far.take(waiting as int));
        }
        i += 1;
    }
    proof {
        assert forall|j: int| 0 <= j < mouse_scroll@.len() implies mailbox.change_scale@[waiting
            + j].0@ == scroll_delta((#[trigger] mouse_scroll@[j]).unit, mouse_scroll@[j].y@) by {
            assert(mailbox.change_scale@[waiting + j] == changes@[j]);
        }
    }
}

/// The update phase: first the selection, then the scale of the group that
/// is selected after it, and the ground state of every character.
pub fn update_phase(world: &mut World, mailbox: &Mailbox)
    ensures
        world_updated(*old(world), *mailbox, *final(world)),
        scales_in_range(old(world).scales@) ==> scales_in_range(final(world).scales@),
{
    update_selection(&mut world.selected, &mailbox.select_factor);
    update_scale(&world.selected, &mut world.scales, &mailbox.change_scale);
    update_grounded(&mut world.controllers);
}

/// The movement phase: the platforms take the scale of their groups, the
/// characters take the pushes, and their horizontal speed is damped.
pub fn movement_phase(world: &mut World, mailbox: &Mailbox, delta_time: Scalar)
    requires
        old(world).wf(),
    ensures
        world_moved(*old(world), *mailbox, delta_time@, *final(world)),
        final(world).wf(),
{
    apply_scale_factors(&mut world.scalable_objects, &world.scales);
    proof {
        assert forall|i: int| 0 <= i < world.scalable_objects@.len() implies (
        #[trigger] world.scalable_objects@[i]).0.wf() by {
            assert(old(world).scalable_objects@[i].0.wf());
            assert(object_scaled(
                world.scales@,
                old(world).scalable_objects@[i],
                world.scalable_objects@[i],
            ));
        }
    }
    movement(delta_time, &mailbox.movement, &mut world.controllers);
    apply_movement_damping(&mut world.controllers);
}

/// Runs one phase of a tick.
pub fn run_set(
    set: GameplaySet,
    world: &mut World,
    mailbox: &mut Mailbox,
    keys: &Input,
    mouse_scroll: &Vec<MouseWheel>,
    delta_time: Scalar,
)
    requires
        old(world).wf(),
    ensures
        final(world).wf(),
        scales_in_range(old(world).scales@) ==> scales_in_range(final(world).scales@),
        set == GameplaySet::Input ==> {
            &&& *final(world) == *old(world)
            &&& input_sent(*old(mailbox), *keys, mouse_scroll@, *final(mailbox))
        },
        set == GameplaySet::Update ==> {
            &&& *final(mailbox) == *old(mailbox)
            &&& world_updated(*old(world), *old(mailbox), *final(world))
        },
        set == GameplaySet::Movement ==> {
            &&& *final(mailbox) == *old(mailbox)
            &&& world_moved(*old(world), *old(mailbox), delta_time@, *final(world))
        },
{
    match set {
        GameplaySet::Input => input_phase(keys, mouse_scroll, mailbox),
        GameplaySet::Update => update_phase(world, mailbox),
        GameplaySet::Movement => movement_phase(world, mailbox, delta_time),
    }
}

/// `after` is the character `before` one tick later: its ground state is
/// found from the surfaces below it; with that ground state it takes the
/// pushes of the tick; and its horizontal speed is then damped.
pub open spec fn controller_ticked(
    before: CharacterController,
    pushes: Seq<MovementEvent>,
    delta_time: int,
    after: CharacterController,
) -> bool {
    let is_grounded = stands_on_ground(before.hits@, before.movement.max_slope_angle);
    let pushed = pushed_by_all(
        before.linear_velocity,
        pushes,
        before.movement,
        is_grounded,
        delta_time,
    );
    &&& after.grounded.0 == is_grounded
    &&& after.linear_velocity.x@ == product(pushed.x@, before.movement.damping_factor@)
    &&& after.linear_velocity.y == pushed.y
    &&& after.movement == before.movement
    &&& after.hits == before.hits
}

/// `after` is the world `before` one tick later, where `pending` holds the
/// events that waited when the tick began. The events of the tick are those
/// that waited and, behind them, those that the devices ask for. The
/// selection goes round by the net steps of the tick; the changes of the tick
/// go to the group that is selected after that; every platform is scaled to
/// the accumulator that its group has after that; and every character is
/// pushed according to the ground state that it has on this tick.
pub open spec fn ticked(
    before: World,
    pending: Mailbox,
    keys: Input,
    mouse_scroll: Seq<MouseWheel>,
    delta_time: int,
    after: World,
) -> bool {
    let steps = net_steps(pending.select_factor@) + selection_request(keys);
    let change = total_change(pending.change_scale@) + scroll_total(mouse_scroll);
    let pushes = pushes_after_input(pending.movement@, keys);
    &&& after.selected.0 == before.selected.0.stepped(steps)
    &&& scales_updated(before.scales@, after.selected.0, change, after.scales@)
    &&& after.scalable_objects@.len() == before.scalable_objects@.len()
    &&& forall|i: int|
        0 <= i < before.scalable_objects@.len() ==> object_scaled(
            after.scales@,
            #[trigger] before.scalable_objects@[i],
            after.scalable_objects@[i],
        )
    &&& after.controllers@.len() == before.controllers@.len()
    &&& forall|i: int|
        0 <= i < before.controllers@.len() ==> controller_ticked(
            #[trigger] before.controllers@[i],
            pushes,
            delta_time,
            after.controllers@[i],
        )
}

/// A tick keeps the accumulators within the range of group scales, whatever
/// the devices report and whatever waited in the mailbox.
pub proof fn lemma_tick_keeps_scales_in_range(
    before: World,
    pending: Mailbox,
    keys: Input,
    mouse_scroll: Seq<MouseWheel>,
    delta_time: int,
    after: World,
)
    requires
        ticked(before, pending, keys, mouse_scroll, delta_time, after),
        scales_in_range(before.scales@),
    ensures
        scales_in_range(after.scales@),
{
    lemma_accumulators_stay_in_range(
        before.scales@,
        after.selected.0,
        total_change(pending.change_scale@) + scroll_total(mouse_scroll),
        after.scales@,
    );
}

/// A tick is deterministic: the world after it depends on nothing but the
/// world before it, the events that waited, what the devices report and the
/// length of the tick.
pub proof fn lemma_tick_deterministic(
    before: World,
    pending: Mailbox,
    keys: Input,
    mouse_scroll: Seq<MouseWheel>,
    delta_time: int,
    one: World,
    other: World,
)
    requires
        ticked(before, pending, keys, mouse_scroll, delta_time, one),
        ticked(before, pending, keys, mouse_scroll, delta_time, other),
    ensures
        one.selected == other.selected,
        one.scales@ == other.scales@,
        one.scalable_objects@ == other.scalable_objects@,
        one.controllers@ == other.controllers@,
{
    assert(one.scales@ =~= other.scales@) by {
        assert forall|i: int| 0 <= i < one.scales@.len() implies one.scales@[i]
            == other.scales@[i] by {
            assert(one.scales@[i].0 == before.scales@[i].0);
            assert(other.scales@[i].0 == before.scales@[i].0);
            assert(one.scales@[i].1.0@ == other.scales@[i].1.0@);
        }
    }
    assert(one.scalable_objects@ =~= other.scalable_objects@) by {
        assert forall|i: int| 0 <= i < one.scalable_objects@.len() implies one.scalable_objects@[i]
            == other.scalable_objects@[i] by {
            let start = before.scalable_objects@[i];
            assert(object_scaled(one.scales@, start, one.scalable_objects@[i]));
            assert(object_scaled(other.scales@, start, other.scalable_objects@[i]));
        }
    }
    assert(one.controllers@ =~= other.controllers@) by {
        let pushes = pushes_after_input(pending.movement@, keys);
        assert forall|i: int| 0 <= i < one.controllers@.len() implies one.controllers@[i]
            == other.controllers@[i] by {
            let start = before.controllers@[i];
            assert(controller_ticked(start, pushes, delta_time, one.controllers@[i]));
            assert(controller_ticked(start, pushes, delta_time, other.controllers@[i]));
        }
    }
}

/// Runs one tick: the input phase, the update phase and the movement phase,
/// in this order, and then empties the mailbox.
pub fn run_tick(
    world: &mut World,
    mailbox: &mut Mailbox,
    keys: &Input,
    mouse_scroll: &Vec<MouseWheel>,
    delta_time: Scalar,
)
    requires
        old(world).wf(),
    ensures
        final(world).wf(),
        scales_in_range(old(world).scales@) ==> scales_in_range(final(world).scales@),
        final(mailbox).is_empty(),
        ticked(*old(world), *old(mailbox), *keys, mouse_scroll@, delta_time@, *final(world)),
{
    run_set(GameplaySet::Input, world, mailbox, keys, mouse_scroll, delta_time);
    let ghost sent = *mailbox;
    run_set(GameplaySet::Update, world, mailbox, keys, mouse_scroll, delta_time);
    let ghost updated = *world;
    run_set(GameplaySet::Movement, world, mailbox, keys, mouse_scroll, delta_time);
    proof {
        lemma_input_sums(*old(mailbox), *keys, mouse_scroll@, sent);
        assert forall|i: int| 0 <= i < old(world).controllers@.len() implies controller_ticked(
            #[trigger] old(world).controllers@[i],
            pushes_after_input(old(mailbox).movement@, *keys),
            delta_time@,
            world.controllers@[i],
        ) by {
            assert(controller_updated(old(world).controllers@[i], updated.controllers@[i]));
            assert(controller_moved(
                updated.controllers@[i],
                sent.movement@,
                delta_time@,
                world.controllers@[i],
            ));
        }
        assert forall|i: int| 0 <= i < old(world).scalable_objects@.len() implies object_scaled(
            world.scales@,
            #[trigger] old(world).scalable_objects@[i],
            world.scalable_objects@[i],
        ) by {
            assert(object_scaled(
                updated.scales@,
                updated.scalable_objects@[i],
                world.scalable_objects@[i],
            ));
        }
    }
    mailbox.clear();
}

} // verus!
