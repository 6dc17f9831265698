//! Whole-number geometry: points, footprints, overlap and motion.

use crate::mask::{first_set, lemma_first_set_is, lemma_first_set_none};
use vstd::prelude::*;

verus! {

/// Sub-units in one pixel. All lengths and positions are whole numbers of sub-units,
/// all speeds whole numbers of sub-units per second. The value is divisible by 21 and by
/// 20, so that a tile of a 21-column level over a 500-pixel arena and a particle a
/// twentieth of a pixel wide are both whole.
pub const UNIT: i64 = 2100;

/// Nanoseconds in one second.
pub const NANOS_PER_SECOND: u64 = 1_000_000_000;

/// A point or a displacement in the plane.
#[derive(Clone, Copy, Debug, PartialEq, Eq, Structural)]
pub struct Vec2 {
    pub x: i64,
    pub y: i64,
}

/// Where an entity is (the centre of its footprint) and how large its footprint is.
#[derive(Clone, Copy, Debug, PartialEq, Eq, Structural)]
pub struct Transform {
    pub translation: Vec2,
    pub scale: Vec2,
}

/// The nearest value to `v` that a coordinate can hold.
pub open spec fn clamp(v: int) -> int {
    if v < i64::MIN {
        i64::MIN as int
    } else if v > i64::MAX {
        i64::MAX as int
    } else {
        v
    }
}

/// The quotient of `a` by a positive `b`, rounded toward zero.
pub open spec fn div_toward_zero(a: int, b: int) -> int
    recommends
        b > 0,
{
    if a >= 0 {
        a / b
    } else {
        -((-a) / b)
    }
}

/// The distance covered in `nanos` nanoseconds at `speed` sub-units per second, rounded
/// toward zero.
pub open spec fn travel(speed: int, nanos: int) -> int {
    div_toward_zero(speed * nanos, NANOS_PER_SECOND as int)
}

/// The coordinate reached from `position` after `nanos` nanoseconds at `speed`; it stops
/// at the ends of the coordinate range.
pub open spec fn advanced(position: int, speed: int, nanos: int) -> int {
    clamp(position + travel(speed, nanos))
}

/// Whether two footprints overlap on both axes. Touching edges do not overlap. Each side
/// is doubled, which keeps the half-sizes whole.
pub open spec fn overlaps(a: Transform, b: Transform) -> bool {
    &&& 2 * a.translation.x - a.scale.x < 2 * b.translation.x + b.scale.x
    &&& 2 * a.translation.x + a.scale.x > 2 * b.translation.x - b.scale.x
    &&& 2 * a.translation.y - a.scale.y < 2 * b.translation.y + b.scale.y
    &&& 2 * a.translation.y + a.scale.y > 2 * b.translation.y - b.scale.y
}

/// For each of `others`, whether `subject` overlaps it.
pub open spec fn touch_mask(subject: Transform, others: Seq<Transform>) -> Seq<bool> {
    Seq::new(others.len(), |index: int| overlaps(subject, others[index]))
}

/// Whether `subject` overlaps any of `others`.
pub open spec fn touches_any(subject: Transform, others: Seq<Transform>) -> bool {
    exists|index: int| 0 <= index < others.len() && overlaps(subject, others[index])
}

/// The first of `others` that `subject` overlaps, if it overlaps any.
pub open spec fn first_touched(subject: Transform, others: Seq<Transform>) -> Option<int> {
    first_set(touch_mask(subject, others))
}

impl Vec2 {
    /// The point that is `nanos` nanoseconds further along `velocity`.
    pub open spec fn moved(self, velocity: Vec2, nanos: int) -> Vec2 {
        Vec2 {
            x: advanced(self.x as int, velocity.x as int, nanos) as i64,
            y: advanced(self.y as int, velocity.y as int, nanos) as i64,
        }
    }

    /// The squared length, which is what a speed is compared by.
    pub open spec fn length_squared(self) -> int {
        self.x * self.x + self.y * self.y
    }

    /// The point at `x` and `y`.
    pub fn new(x: i64, y: i64) -> (point: Vec2)
        ensures
            point == (Vec2 { x, y }),
    {
        Vec2 { x, y }
    }

    /// The point that lies `step` further; it stops at the ends of the range.
    pub open spec fn shifted(self, step: Vec2) -> Vec2 {
        Vec2 { x: clamp(self.x + step.x) as i64, y: clamp(self.y + step.y) as i64 }
    }

    /// Moves the point by `step`.
    pub fn shift(&self, step: &Vec2) -> (point: Vec2)
        ensures
            point == self.shifted(*step),
    {
        Vec2 { x: shift_coordinate(self.x, step.x), y: shift_coordinate(self.y, step.y) }
    }

    /// Moves the point along `velocity` for `nanos` nanoseconds.
    pub fn advance(&self, velocity: &Vec2, nanos: u64) -> (point: Vec2)
        ensures
            point == self.moved(*velocity, nanos as int),
    {
        Vec2 {
            x: advance_coordinate(self.x, velocity.x, nanos),
            y: advance_coordinate(self.y, velocity.y, nanos),
        }
    }
}

impl Transform {
    /// The same footprint, `nanos` nanoseconds further along `velocity`.
    pub open spec fn moved(self, velocity: Vec2, nanos: int) -> Transform {
        Transform { translation: self.translation.moved(velocity, nanos), scale: self.scale }
    }

    /// The footprint of size `scale` around `translation`.
    pub fn new(translation: Vec2, scale: Vec2) -> (transform: Transform)
        ensures
            transform == (Transform { translation, scale }),
    {
        Transform { translation, scale }
    }

    /// Whether this footprint overlaps `other`.
    pub fn overlaps(&self, other: &Transform) -> (hit: bool)
        ensures
            hit == overlaps(*self, *other),
    {
        let ax: i128 = 2 * (self.translation.x as i128);
        let ay: i128 = 2 * (self.translation.y as i128);
        let bx: i128 = 2 * (other.translation.x as i128);
        let by: i128 = 2 * (other.translation.y as i128);
        let aw: i128 = self.scale.x as i128;
        let ah: i128 = self.scale.y as i128;
        let bw: i128 = other.scale.x as i128;
        let bh: i128 = other.scale.y as i128;
        ax - aw < bx + bw && ax + aw > bx - bw && ay - ah < by + bh && ay + ah > by - bh
    }
}

/// Overlap does not depend on the order of the two footprints.
pub proof fn lemma_overlaps_symmetric(a: Transform, b: Transform)
    ensures
        overlaps(a, b) == overlaps(b, a),
{
}

/// Finds the first of `others` that `subject` overlaps.
pub fn find_first_touched(subject: &Transform, others: &Vec<Transform>) -> (found: Option<usize>)
    ensures
        found matches Some(index) ==> index < others.len() && first_touched(*subject, others@)
            == Some(index as int) && overlaps(*subject, others@[index as int]),
        found is None ==> first_touched(*subject, others@) is None && !touches_any(
            *subject,
            others@,
        ),
{
    let ghost mask = touch_mask(*subject, others@);
    let mut index: usize = 0;
    while index < others.len()
        invariant
            index <= others.len(),
            mask == touch_mask(*subject, others@),
            forall|earlier: int| 0 <= earlier < index ==> !mask[earlier],
        decreases others.len() - index,
    {
        if subject.overlaps(&others[index]) {
            proof {
                lemma_first_set_is(mask, index as int);
            }
            return Some(index);
        }
        index += 1;
    }
    proof {
        lemma_first_set_none(mask);
        assert forall|index: int| 0 <= index < others.len() implies !overlaps(
            *subject,
            others@[index],
        ) by {
            assert(!mask[index]);
        }
    }
    None
}

/// A product of a coordinate and a time stays well inside the wide integers.
proof fn lemma_product_bound(speed: int, nanos: int)
    requires
        i64::MIN <= speed <= i64::MAX,
        0 <= nanos <= u64::MAX,
    ensures
        -0x7fff_ffff_ffff_ffff_8000_0000_0000_0000 <= speed * nanos
            <= 0x7fff_ffff_ffff_ffff_8000_0000_0000_0000,
{
    assert(speed * nanos <= 0x8000_0000_0000_0000 * 0xffff_ffff_ffff_ffff) by (nonlinear_arith)
        requires
            speed <= 0x8000_0000_0000_0000,
            0 <= nanos <= 0xffff_ffff_ffff_ffff,
    ;
    assert(speed * nanos >= -0x8000_0000_0000_0000 * 0xffff_ffff_ffff_ffff) by (nonlinear_arith)
        requires
            speed >= -0x8000_0000_0000_0000,
            0 <= nanos <= 0xffff_ffff_ffff_ffff,
    ;
}

/// Brings a wide value into the range of a coordinate.
pub fn narrow(value: i128) -> (coordinate: i64)
    ensures
        coordinate == clamp(value as int),
{
    if value < i64::MIN as i128 {
        i64::MIN
    } else if value > i64::MAX as i128 {
        i64::MAX
    } else {
        value as i64
    }
}

/// Divides `a` by a positive `b` and rounds toward zero.
pub fn divide_toward_zero(a: i128, b: i128) -> (quotient: i128)
    requires
        b > 0,
        a > i128::MIN,
    ensures
        quotient == div_toward_zero(a as int, b as int),
{
    if a >= 0 {
        a / b
    } else {
        -((-a) / b)
    }
}

/// Moves one coordinate along its speed for `nanos` nanoseconds.
pub fn advance_coordinate(position: i64, speed: i64, nanos: u64) -> (reached: i64)
    ensures
        reached == advanced(position as int, speed as int, nanos as int),
{
    proof {
        lemma_product_bound(speed as int, nanos as int);
    }
    let product: i128 = (speed as i128) * (nanos as i128);
    let step: i128 = divide_toward_zero(product, NANOS_PER_SECOND as i128);
    let target: i128 = (position as i128) + step;
    narrow(target)
}

/// Whether `root` is the square root of `square`, rounded down.
pub open spec fn is_root(square: nat, root: nat) -> bool {
    root * root <= square < (root + 1) * (root + 1)
}

/// The square root of `square`, rounded down.
pub open spec fn root(square: nat) -> nat {
    choose|root: nat| is_root(square, root)
}

/// A number has one rounded square root, and `root` names it.
pub proof fn lemma_root_is(square: nat, found: nat)
    requires
        is_root(square, found),
    ensures
        root(square) == found,
{
    let chosen = root(square);
    assert(is_root(square, chosen));
    if chosen < found {
        assert((chosen + 1) * (chosen + 1) <= found * found) by (nonlinear_arith)
            requires
                chosen + 1 <= found,
        ;
    } else if found < chosen {
        assert((found + 1) * (found + 1) <= chosen * chosen) by (nonlinear_arith)
            requires
                found + 1 <= chosen,
        ;
    }
}

/// Computes the square root of `square`, rounded down.
pub fn isqrt(square: u128) -> (found: u64)
    ensures
        found == root(square as nat),
        is_root(square as nat, found as nat),
{
    let mut low: u128 = 0;
    let mut high: u128 = 0x1_0000_0000_0000_0000;
    assert(low * low <= square);
    assert(square < high * high) by (nonlinear_arith)
        requires
            high == 0x1_0000_0000_0000_0000,
            square <= u128::MAX,
    ;
    while high - low > 1
        invariant
            low < high <= 0x1_0000_0000_0000_0000,
            low * low <= square < high * high,
        decreases high - low,
    {
        let middle: u128 = low + (high - low) / 2;
        assert(middle * middle <= 0xffff_ffff_ffff_ffff * 0xffff_ffff_ffff_ffff)
            by (nonlinear_arith)
            requires
                0 <= middle <= 0xffff_ffff_ffff_ffff,
        ;
        if middle * middle <= square {
            low = middle;
        } else {
            high = middle;
        }
    }
    proof {
        assert(high == low + 1);
        lemma_root_is(square as nat, low as nat);
    }
    low as u64
}

/// The squared distance between two points that lie `depth` apart in a third direction.
pub open spec fn distance_squared(origin: Vec2, target: Vec2, depth: int) -> int {
    (target.x - origin.x) * (target.x - origin.x) + (target.y - origin.y) * (target.y
        - origin.y) + depth * depth
}

/// Whether the distance between two points can be computed: its square must fit the
/// widest integer.
pub open spec fn in_reach(origin: Vec2, target: Vec2, depth: int) -> bool {
    distance_squared(origin, target, depth) <= u128::MAX
}

/// One part of the step of length `reach` along a line of length `length`, where the
/// line covers `part` in that direction; rounded toward zero.
pub open spec fn scaled(part: int, reach: int, length: int) -> int {
    div_toward_zero(part * reach, length)
}

/// The step of length `reach` from `origin` toward `target`, each part rounded toward
/// zero. The length of the line is rounded down before the step is taken. Nothing leads
/// toward a target at no distance.
pub open spec fn aimed(origin: Vec2, target: Vec2, depth: int, reach: int) -> Option<Vec2> {
    let length = root(distance_squared(origin, target, depth) as nat);
    if length == 0 {
        None
    } else {
        Some(
            Vec2 {
                x: scaled(target.x - origin.x, reach, length as int) as i64,
                y: scaled(target.y - origin.y, reach, length as int) as i64,
            },
        )
    }
}

/// No part of a line is longer than the line.
proof fn lemma_part_within_length(part: int, rest: int, length: nat)
    requires
        0 <= part,
        0 <= rest,
        is_root((part * part + rest) as nat, length),
    ensures
        part <= length,
{
    if part > length {
        assert((length + 1) * (length + 1) <= part * part) by (nonlinear_arith)
            requires
                length + 1 <= part,
        ;
    }
}

/// One part of a step, from the size of the line's part in that direction.
fn scale_part(part: i128, reach: i64, length: u64) -> (step: i64)
    requires
        -0xffff_ffff_ffff_ffff <= part <= 0xffff_ffff_ffff_ffff,
        0 <= reach,
        0 < length,
        -length <= part <= length,
    ensures
        step == scaled(part as int, reach as int, length as int),
        -reach <= step <= reach,
{
    let size: u128 = if part >= 0 {
        part as u128
    } else {
        (-part) as u128
    };
    assert(size * reach <= length * reach) by (nonlinear_arith)
        requires
            0 <= size <= length,
            0 <= reach,
    ;
    assert(length * reach <= 0xffff_ffff_ffff_ffff * 0x7fff_ffff_ffff_ffff) by (nonlinear_arith)
        requires
            0 <= length <= 0xffff_ffff_ffff_ffff,
            0 <= reach <= 0x7fff_ffff_ffff_ffff,
    ;
    let product: u128 = size * (reach as u128);
    let quotient: u128 = product / (length as u128);
    assert(quotient <= reach) by (nonlinear_arith)
        requires
            quotient == product / (length as u128),
            product <= length * reach,
            0 < length,
            0 <= reach,
    ;
    if part >= 0 {
        quotient as i64
    } else {
        assert((-part) * reach == -(part * reach)) by (nonlinear_arith);
        assert(part * reach <= 0) by (nonlinear_arith)
            requires
                part < 0,
                0 <= reach,
        ;
        -(quotient as i64)
    }
}

/// Tells whether the distance between two points can be computed.
pub fn within_reach(origin: &Vec2, target: &Vec2, depth: u32) -> (possible: bool)
    ensures
        possible == in_reach(*origin, *target, depth as int),
{
    let across: i128 = (target.x as i128) - (origin.x as i128);
    let along: i128 = (target.y as i128) - (origin.y as i128);
    let wide: u128 = if across >= 0 {
        across as u128
    } else {
        (-across) as u128
    };
    let tall: u128 = if along >= 0 {
        along as u128
    } else {
        (-along) as u128
    };
    proof {
        assert(wide * wide == across * across) by (nonlinear_arith)
            requires
                wide == across || wide == -across,
        ;
        assert(tall * tall == along * along) by (nonlinear_arith)
            requires
                tall == along || tall == -along,
        ;
        assert(wide * wide <= 0xffff_ffff_ffff_ffff * 0xffff_ffff_ffff_ffff) by (nonlinear_arith)
            requires
                0 <= wide <= 0xffff_ffff_ffff_ffff,
        ;
        assert(tall * tall <= 0xffff_ffff_ffff_ffff * 0xffff_ffff_ffff_ffff) by (nonlinear_arith)
            requires
                0 <= tall <= 0xffff_ffff_ffff_ffff,
        ;
        assert(0 <= depth * depth <= 0xffff_ffff * 0xffff_ffff) by (nonlinear_arith)
            requires
                0 <= depth <= 0xffff_ffff,
        ;
    }
    let flat: u128 = wide * wide;
    let high: u128 = tall * tall;
    let deep: u128 = (depth as u128) * (depth as u128);
    flat <= u128::MAX - high && flat + high <= u128::MAX - deep
}

/// Computes the step of length `reach` from `origin` toward `target`.
pub fn aim(origin: &Vec2, target: &Vec2, depth: u32, reach: i64) -> (step: Option<Vec2>)
    requires
        in_reach(*origin, *target, depth as int),
        0 <= reach,
    ensures
        step == aimed(*origin, *target, depth as int, reach as int),
        step matches Some(step) ==> -reach <= step.x <= reach && -reach <= step.y <= reach,
{
    let across: i128 = (target.x as i128) - (origin.x as i128);
    let along: i128 = (target.y as i128) - (origin.y as i128);
    let wide: u128 = if across >= 0 {
        across as u128
    } else {
        (-across) as u128
    };
    let tall: u128 = if along >= 0 {
        along as u128
    } else {
        (-along) as u128
    };
    proof {
        assert(wide * wide == across * across) by (nonlinear_arith)
            requires
                wide == across || wide == -across,
        ;
        assert(tall * tall == along * along) by (nonlinear_arith)
            requires
                tall == along || tall == -along,
        ;
        assert(0 <= wide * wide) by (nonlinear_arith);
        assert(0 <= tall * tall) by (nonlinear_arith);
        assert(0 <= depth * depth) by (nonlinear_arith);
    }
    let deep: u128 = (depth as u128) * (depth as u128);
    let square: u128 = wide * wide + tall * tall + deep;
    let length = isqrt(square);
    if length == 0 {
        None
    } else {
        proof {
            lemma_part_within_length(wide as int, (tall * tall + deep) as int, length as nat);
            lemma_part_within_length(tall as int, (wide * wide + deep) as int, length as nat);
        }
        Some(Vec2 { x: scale_part(across, reach, length), y: scale_part(along, reach, length) })
    }
}

/// The sum of a coordinate and a step; it stops at the ends of the coordinate range.
pub fn shift_coordinate(position: i64, step: i64) -> (reached: i64)
    ensures
        reached == clamp(position + step),
{
    let target: i128 = (position as i128) + (step as i128);
    narrow(target)
}

} // verus!
