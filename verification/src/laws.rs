//! Engine-wide laws: properties of the transition functions that hold for
//! every store, proved once and for all.

use vstd::prelude::*;
use crate::geometry::{spec_clamp, Rect, LIMIT, Vector2};
use crate::objects::Object;
use crate::engine::VectorGraphics;

verus! {

/// Combat never moves anything: one-directional damage keeps every
/// entity's rectangle, velocity, collision reaction and target.
pub proof fn lemma_damage_to_keeps_shape(s: Seq<Object>, a: int, b: int, frame: u64)
    requires
        0 <= a < s.len(),
        0 <= b < s.len(),
    ensures
        VectorGraphics::apply_damage_to_spec(s, a, b, frame).len() == s.len(),
        forall|j: int|
            0 <= j < s.len() ==> {
                let r = #[trigger] VectorGraphics::apply_damage_to_spec(s, a, b, frame)[j];
                r.rect == s[j].rect && r.velocity == s[j].velocity && r.collision_type
                    == s[j].collision_type && r.target == s[j].target
            },
{
}

/// Combat never moves anything: symmetric damage keeps every entity's
/// rectangle, velocity, collision reaction and target.
pub proof fn lemma_damage_keeps_shape(s: Seq<Object>, a: int, b: int, frame: u64)
    requires
        0 <= a < s.len(),
        0 <= b < s.len(),
    ensures
        VectorGraphics::apply_damage_spec(s, a, b, frame).len() == s.len(),
        forall|j: int|
            0 <= j < s.len() ==> {
                let r = #[trigger] VectorGraphics::apply_damage_spec(s, a, b, frame)[j];
                r.rect == s[j].rect && r.velocity == s[j].velocity && r.collision_type
                    == s[j].collision_type && r.target == s[j].target
            },
{
    lemma_damage_to_keeps_shape(s, a, b, frame);
    lemma_damage_to_keeps_shape(
        VectorGraphics::apply_damage_to_spec(s, a, b, frame),
        b,
        a,
        frame,
    );
}

/// Through a teleport's overlap walk the mover's extents never change;
/// on failure it sits exactly at the recorded position, on success
/// exactly where the walk began.
pub proof fn lemma_portal_scan_shape(
    s: Seq<Object>,
    id: int,
    old_x: i64,
    old_y: i64,
    frame: u64,
    os: Seq<usize>,
    k: int,
)
    requires
        0 <= id < s.len(),
        VectorGraphics::idxs_ok(os, id, s.len() as int),
    ensures
        ({
            let r = VectorGraphics::portal_scan_spec(s, id, old_x, old_y, frame, os, k);
            &&& r.0.len() == s.len()
            &&& (r.1 ==> r.0[id].rect == s[id].rect)
            &&& (!r.1 ==> r.0[id].rect == Rect {
                x: old_x,
                y: old_y,
                width: s[id].rect.width,
                height: s[id].rect.height,
            })
        }),
    decreases os.len() - k,
{
    if 0 <= k < os.len() {
        let o = os[k] as int;
        let s1 = VectorGraphics::apply_damage_spec(s, id, o, frame);
        lemma_damage_keeps_shape(s, id, o, frame);
        if !(s1[o].collision_type is Bounce) {
            lemma_portal_scan_shape(s1, id, old_x, old_y, frame, os, k + 1);
        }
    }
}

/// Portal atomicity: a teleport that fails (the destination is occupied
/// by a Bounce entity) leaves the mover's rectangle bit-for-bit equal to
/// its pre-teleport rectangle; one that succeeds puts the mover's centre
/// exactly on the destination, whenever the destination lies within the
/// storable range.
pub proof fn lemma_portal_atomic(s: Seq<Object>, id: int, location: Vector2, frame: u64)
    requires
        0 <= id < s.len(),
        s.len() <= usize::MAX,
    ensures
        ({
            let r = VectorGraphics::portal_to_spec(s, id, location, frame);
            &&& r.0.len() == s.len()
            &&& (!r.1 ==> r.0[id].rect == s[id].rect)
            &&& (r.1 ==> r.0[id].rect == Rect {
                x: spec_clamp(location.x - s[id].rect.width / 2),
                y: spec_clamp(location.y - s[id].rect.height / 2),
                width: s[id].rect.width,
                height: s[id].rect.height,
            })
            &&& (r.1 && -LIMIT <= location.x - s[id].rect.width / 2 <= LIMIT && -LIMIT
                <= location.y - s[id].rect.height / 2 <= LIMIT ==> r.0[id].rect.spec_center()
                == location)
        }),
{
    let moved = VectorGraphics::moved_to_spec(s, id, location);
    VectorGraphics::lemma_overlap_idxs_props(moved, id, moved.len() as int);
    lemma_portal_scan_shape(
        moved,
        id,
        s[id].rect.x,
        s[id].rect.y,
        frame,
        VectorGraphics::overlap_idxs(moved, id, moved.len() as int),
        0,
    );
}

/// Through a slide's overlap walk the store's size never changes, and a
/// walk that reports blocked leaves the mover exactly at the recorded X
/// position with its X velocity zeroed.
pub proof fn lemma_slide_scan_x_blocked(
    s: Seq<Object>,
    id: int,
    old_x: i64,
    frame: u64,
    os: Seq<usize>,
    k: int,
)
    requires
        0 <= id < s.len(),
        s.len() <= usize::MAX,
        VectorGraphics::idxs_ok(os, id, s.len() as int),
    ensures
        ({
            let r = VectorGraphics::slide_scan_x_spec(s, id, old_x, frame, os, k);
            &&& r.0.len() == s.len()
            &&& (r.1 ==> r.0[id].rect.x == old_x && r.0[id].velocity.x == 0)
        }),
    decreases os.len() - k,
{
    if 0 <= k < os.len() {
        let o = os[k] as int;
        let s1 = VectorGraphics::apply_damage_spec(s, id, o, frame);
        lemma_damage_keeps_shape(s, id, o, frame);
        match s1[o].collision_type {
            crate::objects::CollisionType::Bounce => {},
            crate::objects::CollisionType::PortalTo => {
                if (s1[o].target as int) < s1.len() {
                    let loc = s1[s1[o].target as int].rect.spec_center();
                    lemma_portal_atomic(s1, id, loc, frame);
                    let pr = VectorGraphics::portal_to_spec(s1, id, loc, frame);
                    if !pr.1 {
                        lemma_slide_scan_x_blocked(pr.0, id, old_x, frame, os, k + 1);
                    }
                } else {
                    lemma_slide_scan_x_blocked(s1, id, old_x, frame, os, k + 1);
                }
            },
            crate::objects::CollisionType::Pass => {
                lemma_slide_scan_x_blocked(s1, id, old_x, frame, os, k + 1);
            },
        }
    }
}

/// As `lemma_slide_scan_x_blocked`, for the Y axis.
pub proof fn lemma_slide_scan_y_blocked(
    s: Seq<Object>,
    id: int,
    old_y: i64,
    frame: u64,
    os: Seq<usize>,
    k: int,
)
    requires
        0 <= id < s.len(),
        s.len() <= usize::MAX,
        VectorGraphics::idxs_ok(os, id, s.len() as int),
    ensures
        ({
            let r = VectorGraphics::slide_scan_y_spec(s, id, old_y, frame, os, k);
            &&& r.0.len() == s.len()
            &&& (r.1 ==> r.0[id].rect.y == old_y && r.0[id].velocity.y == 0)
        }),
    decreases os.len() - k,
{
    if 0 <= k < os.len() {
        let o = os[k] as int;
        let s1 = VectorGraphics::apply_damage_spec(s, id, o, frame);
        lemma_damage_keeps_shape(s, id, o, frame);
        match s1[o].collision_type {
            crate::objects::CollisionType::Bounce => {},
            crate::objects::CollisionType::PortalTo => {
                if (s1[o].target as int) < s1.len() {
                    let loc = s1[s1[o].target as int].rect.spec_center();
                    lemma_portal_atomic(s1, id, loc, frame);
                    let pr = VectorGraphics::portal_to_spec(s1, id, loc, frame);
                    if !pr.1 {
                        lemma_slide_scan_y_blocked(pr.0, id, old_y, frame, os, k + 1);
                    }
                } else {
                    lemma_slide_scan_y_blocked(s1, id, old_y, frame, os, k + 1);
                }
            },
            crate::objects::CollisionType::Pass => {
                lemma_slide_scan_y_blocked(s1, id, old_y, frame, os, k + 1);
            },
        }
    }
}

/// Bounce invariant, X axis: a slide that reports blocked leaves the
/// mover's X position exactly equal to its pre-slide X position and
/// zeroes its X velocity.
pub proof fn lemma_bounce_restores_x(s: Seq<Object>, id: int, distance: i64, frame: u64)
    requires
        0 <= id < s.len(),
        s.len() <= usize::MAX,
    ensures
        ({
            let r = VectorGraphics::slide_x_spec(s, id, distance, frame);
            r.1 ==> r.0[id].rect.x == s[id].rect.x && r.0[id].velocity.x == 0
        }),
{
    let moved = VectorGraphics::slid_x_spec(s, id, distance);
    VectorGraphics::lemma_overlap_idxs_props(moved, id, moved.len() as int);
    lemma_slide_scan_x_blocked(
        moved,
        id,
        s[id].rect.x,
        frame,
        VectorGraphics::overlap_idxs(moved, id, moved.len() as int),
        0,
    );
}

/// Bounce invariant, Y axis: a slide that reports blocked leaves the
/// mover's Y position exactly equal to its pre-slide Y position and
/// zeroes its Y velocity.
pub proof fn lemma_bounce_restores_y(s: Seq<Object>, id: int, distance: i64, frame: u64)
    requires
        0 <= id < s.len(),
        s.len() <= usize::MAX,
    ensures
        ({
            let r = VectorGraphics::slide_y_spec(s, id, distance, frame);
            r.1 ==> r.0[id].rect.y == s[id].rect.y && r.0[id].velocity.y == 0
        }),
{
    let moved = VectorGraphics::slid_y_spec(s, id, distance);
    VectorGraphics::lemma_overlap_idxs_props(moved, id, moved.len() as int);
    lemma_slide_scan_y_blocked(
        moved,
        id,
        s[id].rect.y,
        frame,
        VectorGraphics::overlap_idxs(moved, id, moved.len() as int),
        0,
    );
}

/// Damage idempotence: when damage applies, one resolution decreases the
/// defender's health by exactly the attacker's payload (clamped at zero)
/// and consumes the payload, so a second resolution of the same pair
/// changes nothing at all.
pub proof fn lemma_damage_idempotent(s: Seq<Object>, id: int, other: int, frame: u64, frame2: u64)
    requires
        0 <= id < s.len(),
        0 <= other < s.len(),
        id != other,
        VectorGraphics::damage_applies(s, id, other),
        s[id].wf(),
        s[other].wf(),
    ensures
        ({
            let s1 = VectorGraphics::apply_damage_to_spec(s, id, other, frame);
            &&& s1[id].health == (if s[id].health - s[other].damage <= 0 {
                0
            } else {
                s[id].health - s[other].damage
            })
            &&& s1[other].damage == 0
            &&& VectorGraphics::apply_damage_to_spec(s1, id, other, frame2) == s1
        }),
{
}

/// Damage idempotence for a full symmetric resolution against an
/// invulnerable attacker such as a projectile: the defender loses exactly
/// the payload once, and resolving the same overlap again changes
/// nothing.
pub proof fn lemma_damage_once_symmetric(
    s: Seq<Object>,
    id: int,
    other: int,
    frame: u64,
    frame2: u64,
)
    requires
        0 <= id < s.len(),
        0 <= other < s.len(),
        id != other,
        VectorGraphics::damage_applies(s, id, other),
        s[id].wf(),
        s[other].wf(),
        s[other].max_health == 0,
    ensures
        ({
            let s1 = VectorGraphics::apply_damage_spec(s, id, other, frame);
            &&& s1[id].health == (if s[id].health - s[other].damage <= 0 {
                0
            } else {
                s[id].health - s[other].damage
            })
            &&& s1[other].damage == 0
            &&& VectorGraphics::apply_damage_spec(s1, id, other, frame2) == s1
        }),
{
}

} // verus!
