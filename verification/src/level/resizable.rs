//! Resizable platforms.
//!
//! Every platform belongs to one of a few scale groups. A group holds an
//! accumulator that the player changes; a platform turns its group's
//! accumulator into a stretch along one axis, keeping the edge opposite to
//! its direction where it is.

use vstd::prelude::*;
use crate::input::{Input, KeyCode, MouseScrollUnit, MouseWheel};
use crate::level::scale_table::{table_entries, table_get, table_insert, table_new, ScaleTable};
use crate::math::{
    clamped, lemma_truncated_quotient_bounds, narrow, nearest_whole, saturate,
    truncated_quotient, wide_product, Scalar, Transform, Vector, HALF, ONE,
};

verus! {

/// The least raw value of a group's accumulator (-0.9).
pub const MIN_GROUP_SCALE: i64 = -900_000;

/// The greatest raw value of a group's accumulator (4.0).
pub const MAX_GROUP_SCALE: i64 = 4_000_000;

/// One of the groups that platforms are scaled in.
#[derive(Clone, Copy, Debug, PartialEq, Eq, Hash, Structural)]
pub enum ScaleGroup {
    Red,
    Green,
    Blue,
}

impl ScaleGroup {
    /// How many groups there are.
    pub open spec fn count() -> int {
        3
    }

    /// The group's place in the cyclic order: 0 for `Red`, 1 for `Green`,
    /// 2 for `Blue`.
    pub open spec fn index(self) -> int {
        match self {
            ScaleGroup::Red => 0,
            ScaleGroup::Green => 1,
            ScaleGroup::Blue => 2,
        }
    }

    /// The group at place `i`, for `0 <= i < 3`.
    pub open spec fn at(i: int) -> ScaleGroup {
        if i == 0 {
            ScaleGroup::Red
        } else if i == 1 {
            ScaleGroup::Green
        } else {
            ScaleGroup::Blue
        }
    }

    /// The group reached from `self` by `steps` steps round the cycle,
    /// forward for a positive number and backward for a negative one.
    pub open spec fn stepped(self, steps: int) -> ScaleGroup {
        Self::at((self.index() + steps) % Self::count())
    }

    /// The group's place in the cyclic order.
    pub fn ordinal(self) -> (r: u8)
        ensures
            r == self.index(),
    {
        match self {
            ScaleGroup::Red => 0,
            ScaleGroup::Green => 1,
            ScaleGroup::Blue => 2,
        }
    }

    /// The group at place `ordinal`, if there is one.
    pub fn from_ordinal(ordinal: u8) -> (r: Option<ScaleGroup>)
        ensures
            ordinal < 3 ==> r == Some(Self::at(ordinal as int)),
            ordinal >= 3 ==> r is None,
    {
        if ordinal == 0 {
            Some(ScaleGroup::Red)
        } else if ordinal == 1 {
            Some(ScaleGroup::Green)
        } else if ordinal == 2 {
            Some(ScaleGroup::Blue)
        } else {
            None
        }
    }

    /// Every group, in cyclic order.
    pub fn all() -> (r: Vec<ScaleGroup>)
        ensures
            r@ == seq![ScaleGroup::Red, ScaleGroup::Green, ScaleGroup::Blue],
    {
        let mut groups: Vec<ScaleGroup> = Vec::new();
        groups.push(ScaleGroup::Red);
        groups.push(ScaleGroup::Green);
        groups.push(ScaleGroup::Blue);
        groups
    }
}

/// The edge toward which a platform grows; the opposite edge stays fixed.
#[derive(Clone, Copy, Debug, PartialEq, Eq, Structural)]
pub enum ScaleDirection {
    Up,
    Down,
    Left,
    Right,
}

impl ScaleDirection {
    /// Whether the platform is stretched along the vertical axis.
    pub open spec fn is_vertical(self) -> bool {
        self == ScaleDirection::Up || self == ScaleDirection::Down
    }

    /// `1` where the platform grows toward larger coordinates, `-1` where it
    /// grows toward smaller ones.
    pub open spec fn sign(self) -> int {
        if self == ScaleDirection::Up || self == ScaleDirection::Right {
            1
        } else {
            -1
        }
    }
}

/// The accumulator of a scale group.
#[derive(Clone, Copy, Debug, PartialEq, Eq, Structural)]
pub struct Scale(pub Scalar);

/// What makes a platform resizable.
#[derive(Clone, Copy, Debug, PartialEq, Eq, Structural)]
pub struct Scalable {
    /// How strongly the group's accumulator acts on this platform.
    pub factor: Scalar,
    pub direction: ScaleDirection,
    /// The centre of the unstretched platform.
    pub position: Vector,
    /// Width and height of the unstretched platform.
    pub size: Vector,
    /// The least stretch that the platform takes.
    pub min: Scalar,
    /// The greatest stretch that the platform takes.
    pub max: Scalar,
}

impl Scalable {
    /// The bounds are in order.
    pub open spec fn wf(self) -> bool {
        self.min@ <= self.max@
    }

    /// Whether the bounds are in order.
    pub fn is_wf(&self) -> (r: bool)
        ensures
            r == self.wf(),
    {
        self.min.raw <= self.max.raw
    }
}

/// The stretch of a platform: one plus the accumulator times the platform's
/// factor, limited to the platform's own bounds. All values are raw.
pub open spec fn effective_scale(accumulator: int, factor: int, min: int, max: int) -> int {
    clamped(ONE + truncated_quotient(accumulator * factor, ONE as int), min, max)
}

/// How far the centre of a platform of extent `size` moves when it is
/// stretched by `scale` in the direction of `sign`: half of the growth.
pub open spec fn anchor_offset(sign: int, scale: int, size: int) -> int {
    truncated_quotient(sign * (scale - ONE) * size, 2 * ONE)
}

/// `after` is what the platform `scalable` makes of `before` when its group's
/// accumulator is `accumulator`: along the platform's axis the stretch is the
/// effective scale and the centre is moved by the anchor offset from the
/// unstretched position (stopping at the bounds of the number range); the
/// other axis is as before.
pub open spec fn scaled_to(
    scalable: Scalable,
    accumulator: int,
    before: Transform,
    after: Transform,
) -> bool {
    let scale = effective_scale(
        accumulator,
        scalable.factor@,
        scalable.min@,
        scalable.max@,
    );
    let sign = scalable.direction.sign();
    if scalable.direction.is_vertical() {
        &&& after.scale.y@ == scale
        &&& after.translation.y@ == saturate(
            scalable.position.y@ + anchor_offset(sign, scale, scalable.size.y@),
        )
        &&& after.scale.x == before.scale.x
        &&& after.translation.x == before.translation.x
    } else {
        &&& after.scale.x@ == scale
        &&& after.translation.x@ == saturate(
            scalable.position.x@ + anchor_offset(sign, scale, scalable.size.x@),
        )
        &&& after.scale.y == before.scale.y
        &&& after.translation.y == before.translation.y
    }
}

/// The accumulator that a list of group entries gives for `group`: that of
/// the last entry of the group, if there is any.
pub open spec fn group_scale(scales: Seq<(ScaleGroup, Scale)>, group: ScaleGroup) -> Option<Scalar>
    decreases scales.len(),
{
    if scales.len() == 0 {
        None
    } else if scales.last().0 == group {
        Some(scales.last().1.0)
    } else {
        group_scale(scales.drop_last(), group)
    }
}

/// Computes the effective scale of a platform.
pub fn compute_effective_scale(accumulator: Scalar, scalable: &Scalable) -> (r: Scalar)
    requires
        scalable.wf(),
    ensures
        r@ == effective_scale(
            accumulator@,
            scalable.factor@,
            scalable.min@,
            scalable.max@,
        ),
{
    let wide: i128 = wide_product(accumulator.raw, scalable.factor.raw);
    let raw: i128 = ONE as i128 + wide / (ONE as i128);
    if raw < scalable.min.raw as i128 {
        scalable.min
    } else if raw > scalable.max.raw as i128 {
        scalable.max
    } else {
        Scalar { raw: raw as i64 }
    }
}

/// Computes where the centre goes along one axis: the unstretched coordinate
/// plus the anchor offset.
pub fn compute_anchored(positive: bool, scale: Scalar, size: Scalar, anchor: Scalar) -> (r: Scalar)
    ensures
        r@ == saturate(
            anchor@ + anchor_offset(if positive { 1int } else { -1int }, scale@, size@),
        ),
{
    let growth: i128 = scale.raw as i128 - ONE as i128;
    proof {
        lemma_growth_fits(growth as int, size@);
    }
    let stretched: i128 = growth * (size.raw as i128);
    let signed: i128 = if positive { stretched } else { -stretched };
    let offset: i128 = signed / (2 * ONE as i128);
    proof {
        let sign = if positive { 1int } else { -1int };
        assert(sign * (scale@ - ONE) * size@ == signed) by (nonlinear_arith)
            requires
                signed == (if positive { growth * size@ } else { -(growth * size@) }),
                growth == scale@ - ONE,
                sign == (if positive { 1int } else { -1int }),
        ;
    }
    Scalar { raw: narrow(anchor.raw as i128 + offset) }
}

/// The growth of a platform times its extent stays well inside 128 bits.
proof fn lemma_growth_fits(growth: int, size: int)
    requires
        i64::MIN - ONE <= growth <= i64::MAX - ONE,
        i64::MIN <= size <= i64::MAX,
    ensures
        -0x6000_0000_0000_0000_0000_0000_0000_0000 <= growth * size
            <= 0x6000_0000_0000_0000_0000_0000_0000_0000,
{
    assert(-0x6000_0000_0000_0000_0000_0000_0000_0000 <= growth * size
        <= 0x6000_0000_0000_0000_0000_0000_0000_0000) by (nonlinear_arith)
        requires
            -0x8000_0000_0010_0000 <= growth <= 0x8000_0000_0010_0000,
            -0x8000_0000_0000_0000 <= size <= 0x8000_0000_0000_0000,
    ;
}

/// Applies a platform to a transform, given the accumulator of its group.
pub fn scale_transform(scalable: &Scalable, accumulator: Scalar, transform: &mut Transform)
    requires
        scalable.wf(),
    ensures
        scaled_to(*scalable, accumulator@, *old(transform), *final(transform)),
{
    let scale: Scalar = compute_effective_scale(accumulator, scalable);
    match scalable.direction {
        ScaleDirection::Up => {
            transform.scale.y = scale;
            transform.translation.y = compute_anchored(
                true,
                scale,
                scalable.size.y,
                scalable.position.y,
            );
        },
        ScaleDirection::Down => {
            transform.scale.y = scale;
            transform.translation.y = compute_anchored(
                false,
                scale,
                scalable.size.y,
                scalable.position.y,
            );
        },
        ScaleDirection::Left => {
            transform.scale.x = scale;
            transform.translation.x = compute_anchored(
                false,
                scale,
                scalable.size.x,
                scalable.position.x,
            );
        },
        ScaleDirection::Right => {
            transform.scale.x = scale;
            transform.translation.x = compute_anchored(
                true,
                scale,
                scalable.size.x,
                scalable.position.x,
            );
        },
    }
}

/// The table holds, for every group, exactly what `scales` gives for it.
pub open spec fn table_matches(table: ScaleTable, scales: Seq<(ScaleGroup, Scale)>) -> bool {
    forall|group: ScaleGroup|
        match #[trigger] group_scale(scales, group) {
            Some(accumulator) => {
                &&& table_entries(table).dom().contains(group.index() as u8)
                &&& table_entries(table)[group.index() as u8] == accumulator@
            },
            None => !table_entries(table).dom().contains(group.index() as u8),
        }
}

/// Collects the group entries into a lookup table; a later entry of a group
/// replaces an earlier one.
pub fn collect_scales(scales: &Vec<(ScaleGroup, Scale)>) -> (table: ScaleTable)
    ensures
        table_matches(table, scales@),
{
    let mut table: ScaleTable = table_new();
    let mut i: usize = 0;
    while i < scales.len()
        invariant
            i <= scales.len(),
            table_matches(table, scales@.take(i as int)),
        decreases scales.len() - i,
    {
        let entry: (ScaleGroup, Scale) = scales[i];
        table_insert(&mut table, entry.0.ordinal(), entry.1.0.raw);
        proof {
            let shorter = scales@.take(i as int);
            let longer = scales@.take(i + 1);
            assert(longer.drop_last() == shorter);
            assert(longer.last() == entry);
            assert forall|group: ScaleGroup|
                match #[trigger] group_scale(longer, group) {
                    Some(accumulator) => {
                        &&& table_entries(table).dom().contains(group.index() as u8)
                        &&& table_entries(table)[group.index() as u8] == accumulator@
                    },
                    None => !table_entries(table).dom().contains(group.index() as u8),
                } by {
                if entry.0 != group {
                    assert(group_scale(longer, group) == group_scale(shorter, group));
                    assert(entry.0.index() as u8 != group.index() as u8);
                } else {
                    assert(group_scale(longer, group) == Some(entry.1.0));
                }
            }
        }
        i += 1;
    }
    proof {
        assert(scales@.take(scales.len() as int) == scales@);
    }
    table
}

/// Looks the accumulator of `group` up in a table.
pub fn lookup_scale(table: &ScaleTable, group: ScaleGroup) -> (r: Option<Scalar>)
    ensures
        match r {
            Some(accumulator) => {
                &&& table_entries(*table).dom().contains(group.index() as u8)
                &&& table_entries(*table)[group.index() as u8] == accumulator@
            },
            None => !table_entries(*table).dom().contains(group.index() as u8),
        },
{
    match table_get(table, group.ordinal()) {
        Some(raw) => Some(Scalar { raw }),
        None => None,
    }
}

/// `after` is the platform entity `before` once the scale factors are
/// applied: where `scales` has an accumulator for the entity's group, the
/// transform is scaled to it; where it has none, nothing changes. The
/// platform record and the group are never touched.
pub open spec fn object_scaled(
    scales: Seq<(ScaleGroup, Scale)>,
    before: (Scalable, Transform, ScaleGroup),
    after: (Scalable, Transform, ScaleGroup),
) -> bool {
    &&& after.0 == before.0
    &&& after.2 == before.2
    &&& match group_scale(scales, before.2) {
        Some(accumulator) => scaled_to(before.0, accumulator@, before.1, after.1),
        None => after.1 == before.1,
    }
}

/// Recomputes the transform of every resizable platform from the accumulator
/// of its group.
pub fn apply_scale_factors(
    scalable_objects: &mut Vec<(Scalable, Transform, ScaleGroup)>,
    scales: &Vec<(ScaleGroup, Scale)>,
)
    requires
        forall|i: int|
            0 <= i < old(scalable_objects).len() ==> (#[trigger] old(
                scalable_objects,
            )[i]).0.wf(),
    ensures
        final(scalable_objects).len() == old(scalable_objects).len(),
        forall|i: int|
            0 <= i < old(scalable_objects).len() ==> object_scaled(
                scales@,
                #[trigger] old(scalable_objects)[i],
                final(scalable_objects)[i],
            ),
{
    let table: ScaleTable = collect_scales(scales);
    let mut i: usize = 0;
    while i < scalable_objects.len()
        invariant
            i <= scalable_objects.len(),
            scalable_objects.len() == old(scalable_objects).len(),
            table_matches(table, scales@),
            forall|j: int|
                0 <= j < i ==> object_scaled(
                    scales@,
                    #[trigger] old(scalable_objects)[j],
                    scalable_objects[j],
                ),
            forall|j: int|
                i <= j < scalable_objects.len() ==> scalable_objects[j] == old(
                    scalable_objects,
                )[j],
            forall|j: int|
                0 <= j < old(scalable_objects).len() ==> (#[trigger] old(
                    scalable_objects,
                )[j]).0.wf(),
        decreases scalable_objects.len() - i,
    {
        let object: (Scalable, Transform, ScaleGroup) = scalable_objects[i];
        match lookup_scale(&table, object.2) {
            Some(accumulator) => {
                let mut transform: Transform = object.1;
                scale_transform(&object.0, accumulator, &mut transform);
                scalable_objects.set(i, (object.0, transform, object.2));
            },
            None => {},
        }
        i += 1;
    }
}

/// The group that the player's changes go to.
#[derive(Clone, Copy, Debug, PartialEq, Eq, Structural)]
pub struct SelectedGroup(pub ScaleGroup);

/// A request to select the next or the previous group.
#[derive(Clone, Copy, Debug)]
pub struct SelectFactorEvent {
    direction: i8,
}

impl SelectFactorEvent {
    #[verifier::type_invariant]
    spec fn one_step(self) -> bool {
        self.direction == 1 || self.direction == -1
    }

    /// The number of steps round the cycle that the event asks for: `1`
    /// forward, `-1` backward.
    pub closed spec fn steps(self) -> int {
        self.direction as int
    }

    /// A request for the next group.
    pub fn forward() -> (r: SelectFactorEvent)
        ensures
            r.steps() == 1,
    {
        SelectFactorEvent { direction: 1 }
    }

    /// A request for the previous group.
    pub fn backward() -> (r: SelectFactorEvent)
        ensures
            r.steps() == -1,
    {
        SelectFactorEvent { direction: -1 }
    }

    /// `1` for a request forward, `-1` for one backward.
    pub fn direction(&self) -> (r: i8)
        ensures
            r == self.steps(),
            r == 1 || r == -1,
    {
        proof {
            use_type_invariant(self);
        }
        self.direction
    }
}

/// A request to add an amount to the accumulator of the selected group.
#[derive(Clone, Copy, Debug, PartialEq, Eq, Structural)]
pub struct ChangeScaleEvent(pub Scalar);

/// The steps that the keyboard asks for: `-1` where `S` or `Down` is freshly
/// pressed; otherwise `1` where `W` or `Up` is freshly pressed; otherwise
/// `0`.
pub open spec fn selection_request(keyboard_input: Input) -> int {
    if keyboard_input.is_just_pressed(KeyCode::S) || keyboard_input.is_just_pressed(
        KeyCode::Down,
    ) {
        -1
    } else if keyboard_input.is_just_pressed(KeyCode::W) || keyboard_input.is_just_pressed(
        KeyCode::Up,
    ) {
        1
    } else {
        0
    }
}

/// Translates the keyboard into a selection request, if it asks for one.
pub fn handle_keyboard_input(keyboard_input: &Input) -> (r: Option<SelectFactorEvent>)
    ensures
        match r {
            Some(event) => {
                &&& event.steps() == selection_request(*keyboard_input)
                &&& selection_request(*keyboard_input) != 0
            },
            None => selection_request(*keyboard_input) == 0,
        },
{
    if keyboard_input.any_just_pressed(KeyCode::S, KeyCode::Down) {
        Some(SelectFactorEvent::backward())
    } else if keyboard_input.any_just_pressed(KeyCode::W, KeyCode::Up) {
        Some(SelectFactorEvent::forward())
    } else {
        None
    }
}

/// The raw amount that one turn of the scroll wheel adds to an accumulator: a
/// tenth of a turn given in lines; for a turn given in pixels, a third of it,
/// rounded to a whole number, in hundredths.
pub open spec fn scroll_delta(unit: MouseScrollUnit, y: int) -> int {
    match unit {
        MouseScrollUnit::Line => truncated_quotient(y, 10),
        MouseScrollUnit::Pixel => truncated_quotient(
            nearest_whole(truncated_quotient(y, 3)) * ONE,
            100,
        ),
    }
}

/// Computes the amount that one turn of the scroll wheel adds.
pub fn compute_scroll_delta(event: &MouseWheel) -> (r: Scalar)
    ensures
        r@ == scroll_delta(event.unit, event.y@),
{
    match event.unit {
        MouseScrollUnit::Line => event.y.div_int(10),
        MouseScrollUnit::Pixel => {
            let third: Scalar = event.y.div_int(3);
            proof {
                lemma_truncated_quotient_bounds(event.y@, 3);
                lemma_nearest_whole_bounds(third@);
            }
            third.round().div_int(100)
        },
    }
}

/// The nearest whole number, taken as a raw value, differs from the value by
/// at most a half.
pub proof fn lemma_nearest_whole_bounds(x: int)
    ensures
        x - HALF <= nearest_whole(x) * ONE <= x + HALF,
{
    if x >= 0 {
        let n = x + HALF;
        assert(n - ONE < (n / (ONE as int)) * ONE <= n) by (nonlinear_arith)
            requires
                n >= 0,
                ONE == 1_000_000,
        ;
    } else {
        let n = -x + HALF;
        assert(n - ONE < (n / (ONE as int)) * ONE <= n) by (nonlinear_arith)
            requires
                n >= 0,
                ONE == 1_000_000,
        ;
        assert((-(n / (ONE as int))) * ONE == -((n / (ONE as int)) * ONE)) by (nonlinear_arith);
    }
}

/// Translates the turns of the scroll wheel into changes of scale, one for
/// each turn and in the same order.
pub fn handle_mouse_scrolling(mouse_scroll: &Vec<MouseWheel>) -> (r: Vec<ChangeScaleEvent>)
    ensures
        r@.len() == mouse_scroll@.len(),
        forall|i: int|
            0 <= i < r@.len() ==> (#[trigger] r@[i]).0@ == scroll_delta(
                mouse_scroll@[i].unit,
                mouse_scroll@[i].y@,
            ),
{
    let mut events: Vec<ChangeScaleEvent> = Vec::new();
    let mut i: usize = 0;
    while i < mouse_scroll.len()
        invariant
            i <= mouse_scroll.len(),
            events@.len() == i,
            forall|j: int|
                0 <= j < i ==> (#[trigger] events@[j]).0@ == scroll_delta(
                    mouse_scroll@[j].unit,
                    mouse_scroll@[j].y@,
                ),
        decreases mouse_scroll.len() - i,
    {
        let delta: Scalar = compute_scroll_delta(&mouse_scroll[i]);
        events.push(ChangeScaleEvent(delta));
        i += 1;
    }
    events
}

/// The steps that a sequence of selection requests adds up to.
pub open spec fn net_steps(events: Seq<SelectFactorEvent>) -> int
    decreases events.len(),
{
    if events.len() == 0 {
        0
    } else {
        net_steps(events.drop_last()) + events.last().steps()
    }
}

/// Stepping twice is stepping once by the sum.
pub proof fn lemma_stepped_twice(group: ScaleGroup, first: int, second: int)
    ensures
        group.stepped(first).stepped(second) == group.stepped(first + second),
{
    let i = group.index();
    let m = (i + first) % 3;
    assert(((i + first) % 3 + second) % 3 == (i + first + second) % 3) by {
        vstd::arithmetic::div_mod::lemma_add_mod_noop(i + first, second, 3);
        vstd::arithmetic::div_mod::lemma_mod_twice(i + first, 3);
        vstd::arithmetic::div_mod::lemma_add_mod_noop((i + first) % 3, second, 3);
    }
    assert(ScaleGroup::at(m).index() == m);
}

/// Carries out the selection requests of a tick, one step each, in the order
/// in which they came.
pub fn update_selection(selected: &mut SelectedGroup, events: &Vec<SelectFactorEvent>)
    ensures
        final(selected).0 == old(selected).0.stepped(net_steps(events@)),
{
    let mut i: usize = 0;
    proof {
        assert(events@.take(0).len() == 0);
        assert(old(selected).0.stepped(0) == old(selected).0);
    }
    while i < events.len()
        invariant
            i <= events.len(),
            selected.0 == old(selected).0.stepped(net_steps(events@.take(i as int))),
        decreases events.len() - i,
    {
        let event: &SelectFactorEvent = &events[i];
        let ordinal: u8 = selected.0.ordinal();
        let next: u8 = if event.direction() == 1 {
            (ordinal + 1) % 3
        } else {
            (ordinal + 2) % 3
        };
        proof {
            let shorter = events@.take(i as int);
            let longer = events@.take(i + 1);
            assert(longer.drop_last() == shorter);
            assert(longer.last() == *event);
            lemma_stepped_twice(old(selected).0, net_steps(shorter), event.steps());
            assert(ScaleGroup::at(next as int) == selected.0.stepped(event.steps()));
        }
        match ScaleGroup::from_ordinal(next) {
            Some(group) => {
                selected.0 = group;
            },
            None => {},
        }
        i += 1;
    }
    proof {
        assert(events@.take(events.len() as int) == events@);
    }
}

/// Requests whose steps add up to a multiple of the number of groups lead
/// back to the group that was selected before them.
pub proof fn lemma_selection_wraps(group: ScaleGroup, events: Seq<SelectFactorEvent>)
    requires
        net_steps(events) % 3 == 0,
    ensures
        group.stepped(net_steps(events)) == group,
{
    let n = net_steps(events);
    let i = group.index();
    assert((i + n) % 3 == i) by {
        vstd::arithmetic::div_mod::lemma_add_mod_noop(i, n, 3);
    }
}

/// A single request always moves the selection: one step, forward or
/// backward, never leads to the group that was selected.
pub proof fn lemma_step_moves(group: ScaleGroup)
    ensures
        group.stepped(1) != group,
        group.stepped(-1) != group,
        group.stepped(1).stepped(-1) == group,
        group.stepped(-1).stepped(1) == group,
{
}

/// Requests that all go forward add up to their number.
pub proof fn lemma_forward_steps(events: Seq<SelectFactorEvent>)
    requires
        forall|i: int| 0 <= i < events.len() ==> (#[trigger] events[i]).steps() == 1,
    ensures
        net_steps(events) == events.len(),
    decreases events.len(),
{
    if events.len() > 0 {
        lemma_forward_steps(events.drop_last());
    }
}

/// As many requests forward as there are groups lead back to the group that
/// was selected before them.
pub proof fn lemma_full_round(group: ScaleGroup, events: Seq<SelectFactorEvent>)
    requires
        events.len() == ScaleGroup::count(),
        forall|i: int| 0 <= i < events.len() ==> (#[trigger] events[i]).steps() == 1,
    ensures
        group.stepped(net_steps(events)) == group,
{
    lemma_forward_steps(events);
    lemma_selection_wraps(group, events);
}

/// The raw amount that a sequence of changes adds up to.
pub open spec fn total_change(events: Seq<ChangeScaleEvent>) -> int
    decreases events.len(),
{
    if events.len() == 0 {
        0
    } else {
        total_change(events.drop_last()) + events.last().0@
    }
}

/// Entry `i` is the first entry of `group` in `scales`.
pub open spec fn is_first_of(scales: Seq<(ScaleGroup, Scale)>, i: int, group: ScaleGroup) -> bool {
    &&& 0 <= i < scales.len()
    &&& scales[i].0 == group
    &&& forall|j: int| 0 <= j < i ==> (#[trigger] scales[j]).0 != group
}

/// Every accumulator lies between the least and the greatest group scale.
pub open spec fn scales_in_range(scales: Seq<(ScaleGroup, Scale)>) -> bool {
    forall|i: int|
        0 <= i < scales.len() ==> MIN_GROUP_SCALE <= (#[trigger] scales[i]).1.0@
            <= MAX_GROUP_SCALE
}

/// `after` is `before` once `change` is added to the accumulator of `group`:
/// the first entry of the group holds its old value plus the change, limited
/// to the range of group scales; every other entry is as before.
pub open spec fn scales_updated(
    before: Seq<(ScaleGroup, Scale)>,
    group: ScaleGroup,
    change: int,
    after: Seq<(ScaleGroup, Scale)>,
) -> bool {
    &&& after.len() == before.len()
    &&& forall|i: int|
        0 <= i < before.len() ==> {
            &&& (#[trigger] after[i]).0 == before[i].0
            &&& after[i].1.0@ == (if is_first_of(before, i, group) {
                clamped(before[i].1.0@ + change, MIN_GROUP_SCALE as int, MAX_GROUP_SCALE as int)
            } else {
                before[i].1.0@
            })
        }
}

/// Whatever is added, the accumulator that takes the change lies within the
/// range of group scales afterwards; and where every accumulator lay within
/// the range before, every one does so afterwards.
pub proof fn lemma_accumulators_stay_in_range(
    before: Seq<(ScaleGroup, Scale)>,
    group: ScaleGroup,
    change: int,
    after: Seq<(ScaleGroup, Scale)>,
)
    requires
        scales_updated(before, group, change, after),
    ensures
        forall|i: int|
            is_first_of(before, i, group) ==> MIN_GROUP_SCALE <= (#[trigger] after[i]).1.0@
                <= MAX_GROUP_SCALE,
        scales_in_range(before) ==> scales_in_range(after),
{
    assert forall|i: int| 0 <= i < after.len() && scales_in_range(before) implies MIN_GROUP_SCALE
        <= (#[trigger] after[i]).1.0@ <= MAX_GROUP_SCALE by {
        assert(MIN_GROUP_SCALE <= before[i].1.0@ <= MAX_GROUP_SCALE);
    }
}

/// Adds up the changes of a tick.
pub fn sum_changes(events: &Vec<ChangeScaleEvent>) -> (r: i128)
    ensures
        r == total_change(events@),
        -(events@.len() * 0x8000_0000_0000_0000) <= r <= events@.len() * 0x8000_0000_0000_0000,
{
    let mut sum: i128 = 0;
    let mut i: usize = 0;
    proof {
        assert(events@.take(0).len() == 0);
    }
    while i < events.len()
        invariant
            i <= events.len(),
            sum == total_change(events@.take(i as int)),
            -(i * 0x8000_0000_0000_0000) <= sum <= i * 0x8000_0000_0000_0000,
        decreases events.len() - i,
    {
        proof {
            let shorter = events@.take(i as int);
            let longer = events@.take(i + 1);
            assert(longer.drop_last() == shorter);
            assert(longer.last() == events@[i as int]);
        }
        sum = sum + events[i].0.raw as i128;
        i += 1;
    }
    proof {
        assert(events@.take(events.len() as int) == events@);
    }
    sum
}

/// The place of the first entry of `group`, if it has one.
pub fn find_group(scales: &Vec<(ScaleGroup, Scale)>, group: ScaleGroup) -> (r: Option<usize>)
    ensures
        match r {
            Some(i) => is_first_of(scales@, i as int, group),
            None => forall|j: int| 0 <= j < scales@.len() ==> (#[trigger] scales@[j]).0 != group,
        },
{
    let mut i: usize = 0;
    while i < scales.len()
        invariant
            i <= scales.len(),
            forall|j: int| 0 <= j < i ==> (#[trigger] scales@[j]).0 != group,
        decreases scales.len() - i,
    {
        if scales[i].0 == group {
            return Some(i);
        }
        i += 1;
    }
    None
}

/// Adds the changes of a tick to the accumulator of the selected group and
/// then limits it, once, to the range of group scales. The accumulator is
/// that of the first entry of the group; where the group has no entry,
/// nothing changes.
pub fn update_scale(
    selected: &SelectedGroup,
    scales: &mut Vec<(ScaleGroup, Scale)>,
    events: &Vec<ChangeScaleEvent>,
)
    ensures
        scales_updated(old(scales)@, selected.0, total_change(events@), final(scales)@),
        scales_in_range(old(scales)@) ==> scales_in_range(final(scales)@),
{
    match find_group(scales, selected.0) {
        Some(k) => {
            let sum: i128 = sum_changes(events);
            let entry: (ScaleGroup, Scale) = scales[k];
            let count: usize = events.len();
            proof {
                assert(events@.len() == count);
                assert(count <= 0xffff_ffff_ffff_ffff);
                assert(events@.len() * 0x8000_0000_0000_0000 <= 0xffff_ffff_ffff_ffff
                    * 0x8000_0000_0000_0000) by (nonlinear_arith)
                    requires
                        events@.len() <= 0xffff_ffff_ffff_ffff,
                ;
            }
            let raised: i128 = entry.1.0.raw as i128 + sum;
            let limited: i64 = if raised < MIN_GROUP_SCALE as i128 {
                MIN_GROUP_SCALE
            } else if raised > MAX_GROUP_SCALE as i128 {
                MAX_GROUP_SCALE
            } else {
                raised as i64
            };
            scales.set(k, (entry.0, Scale(Scalar { raw: limited })));
        },
        None => {},
    }
}

/// The groups at the start of a level: one entry for each group, every
/// accumulator at zero, and `Red` selected.
pub fn setup_groups() -> (r: (Vec<(ScaleGroup, Scale)>, SelectedGroup))
    ensures
        r.0@.len() == 3,
        forall|i: int|
            0 <= i < 3 ==> (#[trigger] r.0@[i]).0 == ScaleGroup::at(i) && r.0@[i].1.0@ == 0,
        r.1.0 == ScaleGroup::Red,
        scales_in_range(r.0@),
{
    let groups: Vec<ScaleGroup> = ScaleGroup::all();
    let mut scales: Vec<(ScaleGroup, Scale)> = Vec::new();
    let mut i: usize = 0;
    while i < groups.len()
        invariant
            i <= groups.len(),
            groups@ == seq![ScaleGroup::Red, ScaleGroup::Green, ScaleGroup::Blue],
            scales@.len() == i,
            forall|j: int|
                0 <= j < i ==> (#[trigger] scales@[j]).0 == ScaleGroup::at(j) && scales@[j].1.0@
                    == 0,
        decreases groups.len() - i,
    {
        scales.push((groups[i], Scale(Scalar { raw: 0 })));
        i += 1;
    }
    (scales, SelectedGroup(ScaleGroup::Red))
}

/// Puts every accumulator back to zero.
pub fn reset_scales(scales: &mut Vec<(ScaleGroup, Scale)>)
    ensures
        final(scales)@.len() == old(scales)@.len(),
        forall|i: int|
            0 <= i < old(scales)@.len() ==> (#[trigger] final(scales)@[i]).0 == old(scales)@[i].0
                && final(scales)@[i].1.0@ == 0,
        scales_in_range(final(scales)@),
{
    let mut i: usize = 0;
    while i < scales.len()
        invariant
            i <= scales.len(),
            scales@.len() == old(scales)@.len(),
            forall|j: int|
                0 <= j < i ==> (#[trigger] scales@[j]).0 == old(scales)@[j].0 && scales@[j].1.0@
                    == 0,
            forall|j: int| i <= j < scales@.len() ==> scales@[j] == old(scales)@[j],
        decreases scales.len() - i,
    {
        let group: ScaleGroup = scales[i].0;
        scales.set(i, (group, Scale(Scalar { raw: 0 })));
        i += 1;
    }
}

/// The effective scale of a platform whose bounds are in order lies within
/// them.
pub proof fn lemma_effective_scale_bounded(accumulator: int, factor: int, min: int, max: int)
    requires
        min <= max,
    ensures
        min <= effective_scale(accumulator, factor, min, max) <= max,
{
}

/// The component of `v` along the axis of `direction`, as a raw value.
pub open spec fn along(direction: ScaleDirection, v: Vector) -> int {
    if direction.is_vertical() {
        v.y@
    } else {
        v.x@
    }
}

/// Where the edge lies that a platform of extent `size` does not grow toward,
/// when its centre is at `centre` and it is stretched by `scale`. The
/// coordinate is given in half millionths of a millionth, so that it is a
/// whole number: it is the centre less half of the stretched extent, taken
/// against the direction of growth.
pub open spec fn fixed_edge(sign: int, centre: int, scale: int, size: int) -> int {
    2 * ONE * centre - sign * scale * size
}

/// The fixed edge of a platform under a transform.
pub open spec fn fixed_edge_of(scalable: Scalable, transform: Transform) -> int {
    fixed_edge(
        scalable.direction.sign(),
        along(scalable.direction, transform.translation),
        along(scalable.direction, transform.scale),
        along(scalable.direction, scalable.size),
    )
}

/// The fixed edge of the unstretched platform.
pub open spec fn resting_edge(scalable: Scalable) -> int {
    fixed_edge(
        scalable.direction.sign(),
        along(scalable.direction, scalable.position),
        ONE as int,
        along(scalable.direction, scalable.size),
    )
}

/// The anchor offset is half of the growth, to within one raw step, and
/// exactly where half of the growth is a whole number of raw steps.
pub proof fn lemma_anchor_offset(sign: int, scale: int, size: int)
    ensures
        ({
            let growth = sign * (scale - ONE) * size;
            let drift = 2 * ONE * anchor_offset(sign, scale, size) - growth;
            &&& -2 * ONE < drift < 2 * ONE
            &&& growth % (2 * ONE) == 0 ==> drift == 0
        }),
{
    let growth = sign * (scale - ONE) * size;
    let offset = anchor_offset(sign, scale, size);
    assert(2 * ONE == 2_000_000);
    assert(2 * ONE * offset == 2_000_000 * offset) by (nonlinear_arith)
        requires
            ONE == 1_000_000,
    ;
    if growth >= 0 {
        assert(offset == growth / 2_000_000);
        assert(growth == 2_000_000 * (growth / 2_000_000) + growth % 2_000_000);
    } else {
        let n = -growth;
        assert(offset == -(n / 2_000_000));
        assert(n == 2_000_000 * (n / 2_000_000) + n % 2_000_000);
        assert(growth % 2_000_000 == 0 ==> n % 2_000_000 == 0);
    }
}

/// Scaling pins the anchor: whatever the accumulator, the edge that the
/// platform does not grow toward stays where it is when the platform is not
/// stretched. The stretched edge is off by less than one raw step, and by
/// nothing where half of the growth is a whole number of raw steps. This
/// holds wherever the new centre is within the range of numbers.
pub proof fn lemma_anchor_pinned(
    scalable: Scalable,
    accumulator: int,
    before: Transform,
    after: Transform,
)
    requires
        scaled_to(scalable, accumulator, before, after),
        ({
            let scale = effective_scale(
                accumulator,
                scalable.factor@,
                scalable.min@,
                scalable.max@,
            );
            let centre = along(scalable.direction, scalable.position) + anchor_offset(
                scalable.direction.sign(),
                scale,
                along(scalable.direction, scalable.size),
            );
            i64::MIN <= centre <= i64::MAX
        }),
    ensures
        -2 * ONE < fixed_edge_of(scalable, after) - resting_edge(scalable) < 2 * ONE,
        (scalable.direction.sign() * (along(scalable.direction, after.scale) - ONE) * along(
            scalable.direction,
            scalable.size,
        )) % (2 * ONE) == 0 ==> fixed_edge_of(scalable, after) == resting_edge(scalable),
{
    let sign = scalable.direction.sign();
    let scale = along(scalable.direction, after.scale);
    let size = along(scalable.direction, scalable.size);
    let anchor = along(scalable.direction, scalable.position);
    let offset = anchor_offset(sign, scale, size);
    lemma_anchor_offset(sign, scale, size);
    assert(along(scalable.direction, after.translation) == anchor + offset);
    assert(sign * scale * size - sign * ONE * size == sign * (scale - ONE) * size)
        by (nonlinear_arith);
    assert(2 * ONE * (anchor + offset) == 2 * ONE * anchor + 2 * ONE * offset)
        by (nonlinear_arith);
}

/// Scaling is idempotent: applied again with the same platform and the same
/// accumulator, it gives the same transform again.
pub proof fn lemma_scaling_idempotent(
    scalable: Scalable,
    accumulator: int,
    first: Transform,
    second: Transform,
    third: Transform,
)
    requires
        scaled_to(scalable, accumulator, first, second),
        scaled_to(scalable, accumulator, second, third),
    ensures
        third == second,
{
}

/// Scaling depends on nothing but its inputs: the same platform, accumulator
/// and transform always give the same result.
pub proof fn lemma_scaling_deterministic(
    scalable: Scalable,
    accumulator: int,
    before: Transform,
    one: Transform,
    other: Transform,
)
    requires
        scaled_to(scalable, accumulator, before, one),
        scaled_to(scalable, accumulator, before, other),
    ensures
        one == other,
{
}

/// Applying the scale factors a second time, with the same group entries,
/// changes nothing.
pub proof fn lemma_apply_idempotent(
    scales: Seq<(ScaleGroup, Scale)>,
    first: (Scalable, Transform, ScaleGroup),
    second: (Scalable, Transform, ScaleGroup),
    third: (Scalable, Transform, ScaleGroup),
)
    requires
        object_scaled(scales, first, second),
        object_scaled(scales, second, third),
    ensures
        third == second,
{
}

} // verus!
