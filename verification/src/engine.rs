//! The entity simulation engine and authoring state machine.
//!
//! One `VectorGraphics` value owns the entity store and all per-session
//! state.  The host feeds it pointer moves, logical key events and one
//! `update` call per frame; it hands back a list of coloured quads to draw.
//! Saving and loading are requested from the host through the value
//! returned by `keydown`; the host passes a loaded entity list back through
//! `set_objects`.

use vstd::prelude::*;
use crate::geometry::{
    iabs,
    in_range,
    spec_clamp,
    clamp_coord,
    Rect,
    Vector2,
    LIMIT,
    UNIT,
};
use crate::draw::{DrawList, Quad};
use crate::input::{Input, Key};
use crate::objects::{all_wf, CollisionType, Color, Controller, Object, FACTION_ENEMY,
    FACTION_PLAYER};

verus! {

/// Authoring or simulating; the two modes share the entity store.
#[derive(Clone, Copy, PartialEq, Eq, Structural, Debug)]
pub enum Mode {
    Play,
    Edit,
}

/// An action that only the host can carry out, requested by a key press.
#[derive(Clone, Copy, PartialEq, Eq, Structural, Debug)]
pub enum PersistRequest {
    /// Serialize the entity list and write it out.
    Save,
    /// Read a stored entity list and hand it to `set_objects`.
    Load,
}

/// An in-progress edit-mode rectangle drag, in world coordinates.
#[derive(Clone, Copy, PartialEq, Eq, Structural, Debug)]
pub struct Drag {
    pub dragging: bool,
    pub x: i64,
    pub y: i64,
    pub x2: i64,
    pub y2: i64,
}

impl Drag {
    /// Drag corners come from pointer positions shifted by the camera, so
    /// they stay within twice the coordinate bound.
    pub open spec fn wf(self) -> bool {
        &&& -2 * LIMIT <= self.x <= 2 * LIMIT
        &&& -2 * LIMIT <= self.y <= 2 * LIMIT
        &&& -2 * LIMIT <= self.x2 <= 2 * LIMIT
        &&& -2 * LIMIT <= self.y2 <= 2 * LIMIT
    }
}

/// The frame counter stays below this, so every scheduling deadline the
/// engine writes (`frame` plus at most 120) still fits in `u64`.
pub const FRAME_LIMIT: u64 = 0xffff_ffff_ffff_0000;

/// The whole editor and simulation state.
pub struct VectorGraphics {
    /// The entity store: all simulation state, addressed by index.
    pub objects: Vec<Object>,
    /// An in-progress edit-mode rectangle drag.
    pub drag: Drag,
    /// Last pointer position, in screen coordinates.
    pub mouse_position: Vector2,
    /// Edit or play.
    pub mode: Mode,
    /// Player and AI horizontal speed, per tick.
    pub speed: i64,
    /// Edit-mode camera pan speed, per tick.
    pub editor_speed: i64,
    /// Jump impulse subtracted from a grounded jumper's vertical velocity.
    pub jump_force: i64,
    /// The entity most recently marked as a portal entry, awaiting an exit.
    pub last_portal_in: usize,
    /// Camera position: world coordinates of the screen's top-left corner.
    pub cam: Vector2,
    /// Screen extent, for centring the camera on the player.
    pub screen: Vector2,
    /// Monotonically increasing tick counter; the engine's only clock.
    pub frame: u64,
    /// Currently held keys.
    pub input: Input,
}

impl VectorGraphics {
    /// Everything the tick's arithmetic relies on.
    pub open spec fn wf(self) -> bool {
        &&& all_wf(self.objects@)
        &&& 0 <= self.speed <= LIMIT
        &&& 0 <= self.editor_speed <= LIMIT
        &&& 0 <= self.jump_force <= LIMIT
        &&& self.cam.wf()
        &&& 0 <= self.screen.x <= LIMIT
        &&& 0 <= self.screen.y <= LIMIT
        &&& self.mouse_position.wf()
        &&& self.drag.wf()
    }

    pub fn new() -> (r: VectorGraphics)
        ensures
            r.wf(),
            r.objects@ =~= Seq::<Object>::empty(),
            !r.drag.dragging,
            r.mode == Mode::Edit,
            r.speed == 5 * UNIT,
            r.editor_speed == 7 * UNIT + 500,
            r.jump_force == 14 * UNIT,
            r.last_portal_in == 0,
            r.cam == (Vector2 { x: 0, y: 0 }),
            r.screen == (Vector2 { x: 0, y: 0 }),
            r.mouse_position == (Vector2 { x: 0, y: 0 }),
            r.frame == 0,
            r.input.keys@ =~= Seq::<Key>::empty(),
    {
        VectorGraphics {
            objects: Vec::new(),
            drag: Drag { dragging: false, x: 0, y: 0, x2: 0, y2: 0 },
            mouse_position: Vector2 { x: 0, y: 0 },
            mode: Mode::Edit,
            speed: 5 * UNIT,
            // seven and a half world pixels per tick
            editor_speed: 7 * UNIT + 500,
            jump_force: 14 * UNIT,
            input: Input::new(),
            last_portal_in: 0,
            cam: Vector2 { x: 0, y: 0 },
            screen: Vector2 { x: 0, y: 0 },
            frame: 0,
        }
    }

    /// Record the pointer position; while a drag is in progress its far
    /// corner follows the pointer.
    pub fn mousemove(&mut self, mouse_position: Vector2)
        requires
            old(self).wf(),
            mouse_position.wf(),
        ensures
            final(self).wf(),
            final(self).mouse_position == mouse_position,
            final(self).drag == (if old(self).drag.dragging {
                Drag {
                    x2: (mouse_position.x + old(self).cam.x) as i64,
                    y2: (mouse_position.y + old(self).cam.y) as i64,
                    ..old(self).drag
                }
            } else {
                old(self).drag
            }),
            final(self).objects == old(self).objects,
            final(self).mode == old(self).mode,
            final(self).cam == old(self).cam,
            final(self).screen == old(self).screen,
            final(self).frame == old(self).frame,
            final(self).input == old(self).input,
            final(self).last_portal_in == old(self).last_portal_in,
            final(self).speed == old(self).speed,
            final(self).editor_speed == old(self).editor_speed,
            final(self).jump_force == old(self).jump_force,
    {
        self.mouse_position = mouse_position;
        let relative_mouse_position = self.get_relative_mouse_position();
        if self.drag.dragging {
            self.drag.x2 = relative_mouse_position.x;
            self.drag.y2 = relative_mouse_position.y;
        }
    }

    /// The pointer position in world coordinates.
    pub fn get_relative_mouse_position(&self) -> (r: Vector2)
        requires
            self.wf(),
        ensures
            r.x == self.mouse_position.x + self.cam.x,
            r.y == self.mouse_position.y + self.cam.y,
    {
        Vector2 { x: self.mouse_position.x + self.cam.x, y: self.mouse_position.y + self.cam.y }
    }

    /// Record the screen extent.
    pub fn resize(&mut self, screen_x: i64, screen_y: i64)
        requires
            old(self).wf(),
            0 <= screen_x <= LIMIT,
            0 <= screen_y <= LIMIT,
        ensures
            final(self).wf(),
            *final(self) == (VectorGraphics {
                screen: Vector2 { x: screen_x, y: screen_y },
                ..*old(self)
            }),
    {
        self.screen.x = screen_x;
        self.screen.y = screen_y;
    }

    /// Replace the entity store wholesale, as the load hook does.  Nothing
    /// changes unless every arriving entity is storable, so a malformed
    /// save file leaves the current list untouched.
    #[verifier::loop_isolation(false)]
    pub fn set_objects(&mut self, objects: Vec<Object>) -> (r: bool)
        requires
            old(self).wf(),
        ensures
            final(self).wf(),
            r == all_wf(objects@),
            r ==> *final(self) == (VectorGraphics { objects, ..*old(self) }),
            !r ==> *final(self) == *old(self),
    {
        let mut i: usize = 0;
        while i < objects.len()
            invariant
                i <= objects@.len(),
                forall|j: int| 0 <= j < i ==> #[trigger] objects@[j].wf(),
            decreases objects@.len() - i,
        {
            if !objects[i].check() {
                return false;
            }
            i += 1;
        }
        self.objects = objects;
        true
    }

    /// The first entity whose rectangle strictly contains `point`.
    pub open spec fn find_from(s: Seq<Object>, point: Vector2, i: int) -> Option<usize>
        decreases s.len() - i,
    {
        if i < 0 || i >= s.len() {
            Option::None
        } else if s[i].rect.spec_contains(point) {
            Option::Some(i as usize)
        } else {
            Self::find_from(s, point, i + 1)
        }
    }

    #[verifier::loop_isolation(false)]
    pub fn find_object_at_point(&self, point: Vector2) -> (r: Option<usize>)
        requires
            self.wf(),
        ensures
            r == Self::find_from(self.objects@, point, 0),
            r is Some ==> r->0 < self.objects@.len(),
    {
        let mut i: usize = 0;
        while i < self.objects.len()
            invariant
                self.wf(),
                i <= self.objects@.len(),
                Self::find_from(self.objects@, point, 0) == Self::find_from(
                    self.objects@,
                    point,
                    i as int,
                ),
            decreases self.objects@.len() - i,
        {
            proof {
                assert(self.objects@[i as int].wf());
            }
            if self.objects[i].rect.contains(point) {
                return Some(i);
            }
            i += 1;
        }
        None
    }

    /// The indices of all entities other than `id` whose rectangles
    /// overlap `id`'s, in increasing order, among the first `n` entities.
    pub open spec fn overlap_idxs(s: Seq<Object>, id: int, n: int) -> Seq<usize>
        decreases n,
    {
        if n <= 0 {
            Seq::empty()
        } else {
            let prefix = Self::overlap_idxs(s, id, n - 1);
            if n - 1 != id && Rect::spec_overlaps(s[id].rect, s[n - 1].rect) {
                prefix.push((n - 1) as usize)
            } else {
                prefix
            }
        }
    }

    /// Every index of `r` is a valid index below `n` and differs from `id`.
    pub open spec fn idxs_ok(r: Seq<usize>, id: int, n: int) -> bool {
        forall|j: int| 0 <= j < r.len() ==> ((#[trigger] r[j]) as int) < n && r[j] as int != id
    }

    /// Every enumerated overlap index is a valid store index other
    /// than `id`.
    pub proof fn lemma_overlap_idxs_props(s: Seq<Object>, id: int, n: int)
        requires
            0 <= n <= s.len(),
            n <= usize::MAX,
        ensures
            Self::idxs_ok(Self::overlap_idxs(s, id, n), id, n),
        decreases n,
    {
        if n > 0 {
            Self::lemma_overlap_idxs_props(s, id, n - 1);
            let prefix = Self::overlap_idxs(s, id, n - 1);
            let cur = Self::overlap_idxs(s, id, n);
            assert forall|j: int| 0 <= j < cur.len() implies ((#[trigger] cur[j]) as int) < n
                && cur[j] as int != id by {
                if n - 1 != id && Rect::spec_overlaps(s[id].rect, s[n - 1].rect) {
                    assert(cur == prefix.push((n - 1) as usize));
                    if j < prefix.len() {
                        assert((prefix[j] as int) < n - 1 && prefix[j] as int != id);
                        assert(cur[j] == prefix[j]);
                    } else {
                        assert(cur[j] == (n - 1) as usize);
                    }
                } else {
                    assert(cur == prefix);
                    assert((prefix[j] as int) < n - 1 && prefix[j] as int != id);
                }
            }
        }
    }

    /// Enumerate the entities overlapping entity `object_id`.
    #[verifier::loop_isolation(false)]
    pub fn overlaps(&self, object_id: usize) -> (r: Vec<usize>)
        requires
            self.wf(),
            object_id < self.objects@.len(),
        ensures
            r@ == Self::overlap_idxs(
                self.objects@,
                object_id as int,
                self.objects@.len() as int,
            ),
    {
        let mut result: Vec<usize> = Vec::new();
        let mut i: usize = 0;
        while i < self.objects.len()
            invariant
                i <= self.objects@.len(),
                result@ == Self::overlap_idxs(self.objects@, object_id as int, i as int),
            decreases self.objects@.len() - i,
        {
            proof {
                assert(self.objects@[i as int].wf());
                assert(self.objects@[object_id as int].wf());
            }
            if i != object_id && Rect::overlaps(&self.objects[object_id].rect, &self.objects[i].rect) {
                result.push(i);
            }
            i += 1;
        }
        result
    }

    /// Does damage transfer from `other` (the attacker) to `id` (the
    /// defender)?  Only across factions, only onto entities with positive
    /// maximum health, and only while the attacker carries a payload.
    pub open spec fn damage_applies(s: Seq<Object>, id: int, other: int) -> bool {
        &&& s[id].faction != s[other].faction
        &&& s[id].max_health > 0
        &&& s[other].damage != 0
    }

    /// One-directional damage: the defender loses the attacker's payload,
    /// the payload is consumed, the defender's health bar is shown for 120
    /// frames, and a defender at zero health is armed for destruction now.
    pub open spec fn apply_damage_to_spec(s: Seq<Object>, id: int, other: int, frame: u64) -> Seq<
        Object,
    > {
        if Self::damage_applies(s, id, other) {
            let h = s[id].health - s[other].damage;
            let defender = Object {
                health: if h <= 0 {
                    0
                } else {
                    h as i64
                },
                destroying: h <= 0 || s[id].destroying,
                destroy_at_frame: if h <= 0 {
                    frame
                } else {
                    s[id].destroy_at_frame
                },
                disable_damage_bar_at_frame: (frame + 120) as u64,
                ..s[id]
            };
            s.update(id, defender).update(other, Object { damage: 0, ..s[other] })
        } else {
            s
        }
    }

    /// Symmetric damage resolution: both directions, in both orders.
    pub open spec fn apply_damage_spec(s: Seq<Object>, id: int, other: int, frame: u64) -> Seq<
        Object,
    > {
        Self::apply_damage_to_spec(
            Self::apply_damage_to_spec(s, id, other, frame),
            other,
            id,
            frame,
        )
    }

    /// Deliver `other_id`'s damage payload to `id` if it applies.
    pub fn apply_damage_to_id(&mut self, id: usize, other_id: usize)
        requires
            old(self).wf(),
            id < old(self).objects@.len(),
            other_id < old(self).objects@.len(),
            id != other_id,
            old(self).frame < FRAME_LIMIT,
        ensures
            final(self).wf(),
            *final(self) == (VectorGraphics { objects: final(self).objects, ..*old(self) }),
            final(self).objects@ == Self::apply_damage_to_spec(
                old(self).objects@,
                id as int,
                other_id as int,
                old(self).frame,
            ),
    {
        if self.objects[id].faction != self.objects[other_id].faction && self.objects[id].max_health
            > 0 && self.objects[other_id].damage != 0 {
            proof {
                assert(self.objects@[id as int].wf());
                assert(self.objects@[other_id as int].wf());
            }
            let mut defender = self.objects[id];
            defender.health = defender.health - self.objects[other_id].damage;
            if defender.health <= 0 {
                defender.health = 0;
                defender.destroying = true;
                defender.destroy_at_frame = self.frame;
            }
            defender.disable_damage_bar_at_frame = self.frame + 120;
            self.objects[id] = defender;
            let mut attacker = self.objects[other_id];
            attacker.damage = 0;
            self.objects[other_id] = attacker;
            proof {
                assert forall|j: int| 0 <= j < self.objects@.len() implies #[trigger] self.objects@[j].wf() by {
                    assert(old(self).objects@[j].wf());
                }
            }
        }
    }

    /// Symmetric damage resolution between two overlapping entities.
    pub fn apply_damage(&mut self, id: usize, other_id: usize)
        requires
            old(self).wf(),
            id < old(self).objects@.len(),
            other_id < old(self).objects@.len(),
            id != other_id,
            old(self).frame < FRAME_LIMIT,
        ensures
            final(self).wf(),
            *final(self) == (VectorGraphics { objects: final(self).objects, ..*old(self) }),
            final(self).objects@ == Self::apply_damage_spec(
                old(self).objects@,
                id as int,
                other_id as int,
                old(self).frame,
            ),
    {
        self.apply_damage_to_id(id, other_id);
        self.apply_damage_to_id(other_id, id);
    }

    /// Entity `id` relocated so its rectangle's centre is `location`,
    /// saturated into the storable range.
    pub open spec fn moved_to_spec(s: Seq<Object>, id: int, location: Vector2) -> Seq<Object> {
        let o = s[id];
        s.update(
            id,
            Object {
                rect: Rect {
                    x: spec_clamp(location.x - o.rect.width / 2),
                    y: spec_clamp(location.y - o.rect.height / 2),
                    ..o.rect
                },
                ..o
            },
        )
    }

    /// Entity `id` moved back to the position it held before a teleport
    /// or a slide.
    pub open spec fn restored_spec(s: Seq<Object>, id: int, old_x: i64, old_y: i64) -> Seq<
        Object,
    > {
        s.update(id, Object { rect: Rect { x: old_x, y: old_y, ..s[id].rect }, ..s[id] })
    }

    /// Walk the overlaps found at a teleport destination: combat applies to
    /// every overlap; the first Bounce entity reverts the move and reports
    /// failure.
    pub open spec fn portal_scan_spec(
        s: Seq<Object>,
        id: int,
        old_x: i64,
        old_y: i64,
        frame: u64,
        os: Seq<usize>,
        k: int,
    ) -> (Seq<Object>, bool)
        decreases os.len() - k,
    {
        if k < 0 || k >= os.len() {
            (s, true)
        } else {
            let o = os[k] as int;
            let s1 = Self::apply_damage_spec(s, id, o, frame);
            if s1[o].collision_type is Bounce {
                (Self::restored_spec(s1, id, old_x, old_y), false)
            } else {
                Self::portal_scan_spec(s1, id, old_x, old_y, frame, os, k + 1)
            }
        }
    }

    /// Atomic teleport: the store and success flag after relocating entity
    /// `id`'s centre to `location` and resolving the overlaps found there.
    pub open spec fn portal_to_spec(s: Seq<Object>, id: int, location: Vector2, frame: u64) -> (
        Seq<Object>,
        bool,
    ) {
        let moved = Self::moved_to_spec(s, id, location);
        Self::portal_scan_spec(
            moved,
            id,
            s[id].rect.x,
            s[id].rect.y,
            frame,
            Self::overlap_idxs(moved, id, moved.len() as int),
            0,
        )
    }

    /// Teleport entity `id` so its centre lands on `location`.  Combat is
    /// resolved against everything overlapping the destination; if any of
    /// it is a Bounce entity the move is reverted and `false` returned.
    #[verifier::loop_isolation(false)]
    pub fn portal_to(&mut self, id: usize, location: Vector2) -> (r: bool)
        requires
            old(self).wf(),
            id < old(self).objects@.len(),
            old(self).frame < FRAME_LIMIT,
            iabs(location.x as int) <= 2 * LIMIT,
            iabs(location.y as int) <= 2 * LIMIT,
        ensures
            final(self).wf(),
            *final(self) == (VectorGraphics { objects: final(self).objects, ..*old(self) }),
            final(self).objects@.len() == old(self).objects@.len(),
            (final(self).objects@, r) == Self::portal_to_spec(
                old(self).objects@,
                id as int,
                location,
                old(self).frame,
            ),
    {
        proof {
            assert(self.objects@[id as int].wf());
        }
        let old_x = self.objects[id].rect.x;
        let old_y = self.objects[id].rect.y;
        let mut moved = self.objects[id];
        let half_w = ((moved.rect.width as u64) / 2) as i64;
        let half_h = ((moved.rect.height as u64) / 2) as i64;
        moved.rect.x = clamp_coord(location.x - half_w);
        moved.rect.y = clamp_coord(location.y - half_h);
        self.objects[id] = moved;
        proof {
            assert(self.objects@ == Self::moved_to_spec(
                old(self).objects@,
                id as int,
                location,
            ));
            assert forall|j: int| 0 <= j < self.objects@.len() implies #[trigger] self.objects@[j].wf() by {
                assert(old(self).objects@[j].wf());
            }
        }
        let ghost start = self.objects@;
        let store_len = self.objects.len();
        let others = self.overlaps(id);
        proof {
            assert(start.len() == store_len);
            Self::lemma_overlap_idxs_props(start, id as int, start.len() as int);
        }
        let mut k: usize = 0;
        while k < others.len()
            invariant
                self.wf(),
                k <= others@.len(),
                self.objects@.len() == old(self).objects@.len(),
                *self == (VectorGraphics { objects: self.objects, ..*old(self) }),
                Self::portal_scan_spec(
                    self.objects@,
                    id as int,
                    old_x,
                    old_y,
                    self.frame,
                    others@,
                    k as int,
                ) == Self::portal_scan_spec(
                    start,
                    id as int,
                    old_x,
                    old_y,
                    self.frame,
                    others@,
                    0,
                ),
            decreases others@.len() - k,
    {
            let other_id = others[k];
            let ghost prev = self.objects@;
            proof {
                assert(Self::idxs_ok(others@, id as int, start.len() as int));
                assert((others@[k as int] as int) < start.len());
            }
            self.apply_damage(id, other_id);
            proof {
                assert(self.objects@ == Self::apply_damage_spec(
                    prev,
                    id as int,
                    other_id as int,
                    self.frame,
                ));
            }
            match self.objects[other_id].collision_type {
                CollisionType::Bounce => {
                    let ghost damaged = self.objects@;
                    proof {
                        assert(self.objects@[id as int].wf());
                    }
                    let mut back = self.objects[id];
                    back.rect.x = old_x;
                    back.rect.y = old_y;
                    self.objects[id] = back;
                    proof {
                        assert(self.objects@ == Self::restored_spec(
                            damaged,
                            id as int,
                            old_x,
                            old_y,
                        ));
                        assert forall|j: int|
                            0 <= j < self.objects@.len() implies #[trigger] self.objects@[j].wf()
                        by {
                            assert(damaged[j].wf());
                        }
                        assert(Self::portal_scan_spec(
                            prev,
                            id as int,
                            old_x,
                            old_y,
                            self.frame,
                            others@,
                            k as int,
                        ) == (self.objects@, false));
                    }
                    return false;
                },
                _ => {},
            }
            k += 1;
        }
        true
    }

    /// Entity `id` displaced by `distance` along the X axis, saturated.
    pub open spec fn slid_x_spec(s: Seq<Object>, id: int, distance: i64) -> Seq<Object> {
        s.update(
            id,
            Object {
                rect: Rect { x: spec_clamp(s[id].rect.x + distance), ..s[id].rect },
                ..s[id]
            },
        )
    }

    /// Entity `id` displaced by `distance` along the Y axis, saturated.
    pub open spec fn slid_y_spec(s: Seq<Object>, id: int, distance: i64) -> Seq<Object> {
        s.update(
            id,
            Object {
                rect: Rect { y: spec_clamp(s[id].rect.y + distance), ..s[id].rect },
                ..s[id]
            },
        )
    }

    /// Walk the overlaps discovered after an X displacement.  Combat
    /// applies to every overlap; a Bounce entity undoes the displacement,
    /// zeroes the X velocity and reports blocked; a portal entity whose
    /// teleport succeeds ends the walk unblocked.
    pub open spec fn slide_scan_x_spec(
        s: Seq<Object>,
        id: int,
        old_x: i64,
        frame: u64,
        os: Seq<usize>,
        k: int,
    ) -> (Seq<Object>, bool)
        decreases os.len() - k,
    {
        if k < 0 || k >= os.len() {
            (s, false)
        } else {
            let o = os[k] as int;
            let s1 = Self::apply_damage_spec(s, id, o, frame);
            match s1[o].collision_type {
                CollisionType::Bounce => (
                    s1.update(
                        id,
                        Object {
                            rect: Rect { x: old_x, ..s1[id].rect },
                            velocity: Vector2 { x: 0, y: s1[id].velocity.y },
                            ..s1[id]
                        },
                    ),
                    true,
                ),
                CollisionType::PortalTo => if (s1[o].target as int) < s1.len() {
                    let loc = s1[s1[o].target as int].rect.spec_center();
                    let pr = Self::portal_to_spec(s1, id, loc, frame);
                    if pr.1 {
                        (pr.0, false)
                    } else {
                        Self::slide_scan_x_spec(pr.0, id, old_x, frame, os, k + 1)
                    }
                } else {
                    Self::slide_scan_x_spec(s1, id, old_x, frame, os, k + 1)
                },
                CollisionType::Pass => Self::slide_scan_x_spec(s1, id, old_x, frame, os, k + 1),
            }
        }
    }

    /// As `slide_scan_x_spec`, for the Y axis.
    pub open spec fn slide_scan_y_spec(
        s: Seq<Object>,
        id: int,
        old_y: i64,
        frame: u64,
        os: Seq<usize>,
        k: int,
    ) -> (Seq<Object>, bool)
        decreases os.len() - k,
    {
        if k < 0 || k >= os.len() {
            (s, false)
        } else {
            let o = os[k] as int;
            let s1 = Self::apply_damage_spec(s, id, o, frame);
            match s1[o].collision_type {
                CollisionType::Bounce => (
                    s1.update(
                        id,
                        Object {
                            rect: Rect { y: old_y, ..s1[id].rect },
                            velocity: Vector2 { x: s1[id].velocity.x, y: 0 },
                            ..s1[id]
                        },
                    ),
                    true,
                ),
                CollisionType::PortalTo => if (s1[o].target as int) < s1.len() {
                    let loc = s1[s1[o].target as int].rect.spec_center();
                    let pr = Self::portal_to_spec(s1, id, loc, frame);
                    if pr.1 {
                        (pr.0, false)
                    } else {
                        Self::slide_scan_y_spec(pr.0, id, old_y, frame, os, k + 1)
                    }
                } else {
                    Self::slide_scan_y_spec(s1, id, old_y, frame, os, k + 1)
                },
                CollisionType::Pass => Self::slide_scan_y_spec(s1, id, old_y, frame, os, k + 1),
            }
        }
    }

    /// The store and blocked flag after sliding entity `id` by `distance`
    /// on the X axis and resolving every overlap this uncovers.
    pub open spec fn slide_x_spec(s: Seq<Object>, id: int, distance: i64, frame: u64) -> (
        Seq<Object>,
        bool,
    ) {
        let moved = Self::slid_x_spec(s, id, distance);
        Self::slide_scan_x_spec(
            moved,
            id,
            s[id].rect.x,
            frame,
            Self::overlap_idxs(moved, id, moved.len() as int),
            0,
        )
    }

    /// The store and blocked flag after sliding entity `id` by `distance`
    /// on the Y axis and resolving every overlap this uncovers.
    pub open spec fn slide_y_spec(s: Seq<Object>, id: int, distance: i64, frame: u64) -> (
        Seq<Object>,
        bool,
    ) {
        let moved = Self::slid_y_spec(s, id, distance);
        Self::slide_scan_y_spec(
            moved,
            id,
            s[id].rect.y,
            frame,
            Self::overlap_idxs(moved, id, moved.len() as int),
            0,
        )
    }

    /// Slide entity `id` by `distance` along the X axis and resolve the
    /// overlaps; reports whether a Bounce entity blocked the move.
    #[verifier::loop_isolation(false)]
    pub fn slide_x(&mut self, id: usize, distance: i64) -> (r: bool)
        requires
            old(self).wf(),
            id < old(self).objects@.len(),
            old(self).frame < FRAME_LIMIT,
            iabs(distance as int) <= 0x10_0000_0000_0000,
        ensures
            final(self).wf(),
            *final(self) == (VectorGraphics { objects: final(self).objects, ..*old(self) }),
            final(self).objects@.len() == old(self).objects@.len(),
            (final(self).objects@, r) == Self::slide_x_spec(
                old(self).objects@,
                id as int,
                distance,
                old(self).frame,
            ),
    {
        proof {
            assert(self.objects@[id as int].wf());
        }
        let old_x = self.objects[id].rect.x;
        let mut moved = self.objects[id];
        moved.rect.x = clamp_coord(old_x + distance);
        self.objects[id] = moved;
        proof {
            assert(self.objects@ == Self::slid_x_spec(old(self).objects@, id as int, distance));
            assert forall|j: int| 0 <= j < self.objects@.len() implies #[trigger] self.objects@[j].wf() by {
                assert(old(self).objects@[j].wf());
            }
        }
        let ghost start = self.objects@;
        let store_len = self.objects.len();
        let others = self.overlaps(id);
        proof {
            assert(start.len() == store_len);
            Self::lemma_overlap_idxs_props(start, id as int, start.len() as int);
        }
        let mut k: usize = 0;
        while k < others.len()
            invariant
                self.wf(),
                k <= others@.len(),
                self.objects@.len() == old(self).objects@.len(),
                *self == (VectorGraphics { objects: self.objects, ..*old(self) }),
                Self::slide_scan_x_spec(
                    self.objects@,
                    id as int,
                    old_x,
                    self.frame,
                    others@,
                    k as int,
                ) == Self::slide_scan_x_spec(start, id as int, old_x, self.frame, others@, 0),
            decreases others@.len() - k,
        {
            let other_id = others[k];
            let ghost prev = self.objects@;
            proof {
                assert(Self::idxs_ok(others@, id as int, start.len() as int));
                assert((others@[k as int] as int) < start.len());
            }
            self.apply_damage(id, other_id);
            proof {
                assert(self.objects@ == Self::apply_damage_spec(
                    prev,
                    id as int,
                    other_id as int,
                    self.frame,
                ));
            }
            match self.objects[other_id].collision_type {
                CollisionType::Bounce => {
                    let ghost damaged = self.objects@;
                    proof {
                        assert(self.objects@[id as int].wf());
                    }
                    let mut back = self.objects[id];
                    back.rect.x = old_x;
                    back.velocity.x = 0;
                    self.objects[id] = back;
                    proof {
                        assert forall|j: int|
                            0 <= j < self.objects@.len() implies #[trigger] self.objects@[j].wf()
                        by {
                            assert(damaged[j].wf());
                        }
                        assert(Self::slide_scan_x_spec(
                            prev,
                            id as int,
                            old_x,
                            self.frame,
                            others@,
                            k as int,
                        ) == (self.objects@, true));
                    }
                    return true;
                },
                CollisionType::PortalTo => {
                    let t = self.objects[other_id].target;
                    if t < self.objects.len() {
                        proof {
                            assert(self.objects@[t as int].wf());
                        }
                        let location = self.objects[t].rect.center();
                        if self.portal_to(id, location) {
                            return false;
                        }
                    }
                },
                CollisionType::Pass => {},
            }
            k += 1;
        }
        false
    }

    /// Slide entity `id` by `distance` along the Y axis and resolve the
    /// overlaps; reports whether a Bounce entity blocked the move.
    #[verifier::loop_isolation(false)]
    pub fn slide_y(&mut self, id: usize, distance: i64) -> (r: bool)
        requires
            old(self).wf(),
            id < old(self).objects@.len(),
            old(self).frame < FRAME_LIMIT,
            iabs(distance as int) <= 0x10_0000_0000_0000,
        ensures
            final(self).wf(),
            *final(self) == (VectorGraphics { objects: final(self).objects, ..*old(self) }),
            final(self).objects@.len() == old(self).objects@.len(),
            (final(self).objects@, r) == Self::slide_y_spec(
                old(self).objects@,
                id as int,
                distance,
                old(self).frame,
            ),
    {
        proof {
            assert(self.objects@[id as int].wf());
        }
        let old_y = self.objects[id].rect.y;
        let mut moved = self.objects[id];
        moved.rect.y = clamp_coord(old_y + distance);
        self.objects[id] = moved;
        proof {
            assert(self.objects@ == Self::slid_y_spec(old(self).objects@, id as int, distance));
            assert forall|j: int| 0 <= j < self.objects@.len() implies #[trigger] self.objects@[j].wf() by {
                assert(old(self).objects@[j].wf());
            }
        }
        let ghost start = self.objects@;
        let store_len = self.objects.len();
        let others = self.overlaps(id);
        proof {
            assert(start.len() == store_len);
            Self::lemma_overlap_idxs_props(start, id as int, start.len() as int);
        }
        let mut k: usize = 0;
        while k < others.len()
            invariant
                self.wf(),
                k <= others@.len(),
                self.objects@.len() == old(self).objects@.len(),
                *self == (VectorGraphics { objects: self.objects, ..*old(self) }),
                Self::slide_scan_y_spec(
                    self.objects@,
                    id as int,
                    old_y,
                    self.frame,
                    others@,
                    k as int,
                ) == Self::slide_scan_y_spec(start, id as int, old_y, self.frame, others@, 0),
            decreases others@.len() - k,
        {
            let other_id = others[k];
            let ghost prev = self.objects@;
            proof {
                assert(Self::idxs_ok(others@, id as int, start.len() as int));
                assert((others@[k as int] as int) < start.len());
            }
            self.apply_damage(id, other_id);
            proof {
                assert(self.objects@ == Self::apply_damage_spec(
                    prev,
                    id as int,
                    other_id as int,
                    self.frame,
                ));
            }
            match self.objects[other_id].collision_type {
                CollisionType::Bounce => {
                    let ghost damaged = self.objects@;
                    proof {
                        assert(self.objects@[id as int].wf());
                    }
                    let mut back = self.objects[id];
                    back.rect.y = old_y;
                    back.velocity.y = 0;
                    self.objects[id] = back;
                    proof {
                        assert forall|j: int|
                            0 <= j < self.objects@.len() implies #[trigger] self.objects@[j].wf()
                        by {
                            assert(damaged[j].wf());
                        }
                        assert(Self::slide_scan_y_spec(
                            prev,
                            id as int,
                            old_y,
                            self.frame,
                            others@,
                            k as int,
                        ) == (self.objects@, true));
                    }
                    return true;
                },
                CollisionType::PortalTo => {
                    let t = self.objects[other_id].target;
                    if t < self.objects.len() {
                        proof {
                            assert(self.objects@[t as int].wf());
                        }
                        let location = self.objects[t].rect.center();
                        if self.portal_to(id, location) {
                            return false;
                        }
                    }
                },
                CollisionType::Pass => {},
            }
            k += 1;
        }
        false
    }

    /// The projectile aim offset: the pointer offset from the shooter's
    /// centre, normalised, then stretched to the shooter's extents.
    pub open spec fn projectile_direction_spec(shooter: Object, mouse_rel: Vector2) -> Vector2 {
        let c = shooter.rect.spec_center();
        let off = Vector2 {
            x: spec_clamp(mouse_rel.x - c.x),
            y: spec_clamp(mouse_rel.y - c.y),
        };
        off.spec_normalize().spec_scale(shooter.rect.width as int, shooter.rect.height as int)
    }

    /// The projectile spawned by entity `i`: a pass-through follower of its
    /// shooter carrying a one-shot damage payload, expiring 20 frames on.
    pub open spec fn projectile_spec(s: Seq<Object>, i: int, mouse_rel: Vector2, frame: u64) -> Object {
        let o = s[i];
        Object {
            controller: Controller::FollowTarget,
            rect: o.rect,
            color: Color { r: 1000, g: 1000, b: 200 },
            velocity: Vector2 { x: 0, y: 0 },
            gravity: 0,
            direction: Self::projectile_direction_spec(o, mouse_rel),
            collision_type: CollisionType::Pass,
            destroying: true,
            destroy_at_frame: (frame + 20) as u64,
            enable_firing_at_frame: 0,
            target: i as usize,
            faction: o.faction,
            health: 0,
            max_health: 0,
            damage: 5,
            disable_damage_bar_at_frame: 0,
        }
    }

    /// The player's fire action: once the fire gate has passed, push the
    /// gate 30 frames on and spawn a projectile aimed at the pointer.
    pub open spec fn fire_spec(
        s: Seq<Object>,
        cam: Vector2,
        mouse: Vector2,
        frame: u64,
        i: int,
    ) -> Seq<Object> {
        if s[i].enable_firing_at_frame <= frame {
            let armed = s.update(
                i,
                Object { enable_firing_at_frame: (frame + 30) as u64, ..s[i] },
            );
            let mouse_rel = Vector2 {
                x: (mouse.x + cam.x) as i64,
                y: (mouse.y + cam.y) as i64,
            };
            armed.push(Self::projectile_spec(armed, i, mouse_rel, frame))
        } else {
            s
        }
    }

    /// Post-slide behaviour of the player: jump if held and grounded, move
    /// horizontally unless both directions are held, fire at most once per
    /// 30 frames, and centre the camera on the player.
    pub open spec fn player_step_spec(
        s: Seq<Object>,
        cam: Vector2,
        keys: Seq<Key>,
        mouse: Vector2,
        screen: Vector2,
        speed: i64,
        jump: i64,
        frame: u64,
        i: int,
        grounded: bool,
    ) -> (Seq<Object>, Vector2) {
        let s3 = if keys.contains(Key::Jump) && grounded {
            s.update(
                i,
                Object {
                    velocity: Vector2 {
                        x: s[i].velocity.x,
                        y: spec_clamp(s[i].velocity.y - jump),
                    },
                    ..s[i]
                },
            )
        } else {
            s
        };
        let s4 = if !(keys.contains(Key::Left) && keys.contains(Key::Right)) {
            let sa = if keys.contains(Key::Left) {
                Self::slide_x_spec(s3, i, (-speed) as i64, frame).0
            } else {
                s3
            };
            if keys.contains(Key::Right) {
                Self::slide_x_spec(sa, i, speed, frame).0
            } else {
                sa
            }
        } else {
            s3
        };
        let s5 = if keys.contains(Key::Fire) {
            Self::fire_spec(s4, cam, mouse, frame, i)
        } else {
            s4
        };
        let c = s5[i].rect.spec_center();
        let cam2 = Vector2 {
            x: spec_clamp(c.x - screen.x / 2),
            y: spec_clamp(c.y - screen.y / 2),
        };
        (s5, cam2)
    }

    /// Post-slide behaviour of an AI entity: pace along its direction,
    /// reverse when blocked, hop whenever grounded.
    pub open spec fn ai_step_spec(
        s: Seq<Object>,
        speed: i64,
        jump: i64,
        frame: u64,
        i: int,
        grounded: bool,
    ) -> Seq<Object> {
        let d = Vector2::spec_scale_part(s[i].direction.x as int, speed as int) as i64;
        let sr = Self::slide_x_spec(s, i, d, frame);
        let s1 = sr.0;
        let s2 = if sr.1 {
            s1.update(
                i,
                Object {
                    direction: Vector2 {
                        x: (-s1[i].direction.x) as i64,
                        y: s1[i].direction.y,
                    },
                    ..s1[i]
                },
            )
        } else {
            s1
        };
        if grounded {
            s2.update(
                i,
                Object {
                    velocity: Vector2 {
                        x: s2[i].velocity.x,
                        y: spec_clamp(s2[i].velocity.y - jump),
                    },
                    ..s2[i]
                },
            )
        } else {
            s2
        }
    }

    /// Post-slide behaviour of a follower: re-centre on its target's
    /// centre plus the stored offset; a stale target index is a no-op.
    pub open spec fn follow_step_spec(s: Seq<Object>, i: int) -> Seq<Object> {
        let t = s[i].target as int;
        if t < s.len() {
            let c = s[t].rect.spec_center();
            s.update(
                i,
                Object {
                    rect: Rect {
                        x: spec_clamp(c.x - s[i].rect.width / 2 + s[i].direction.x),
                        y: spec_clamp(c.y - s[i].rect.height / 2 + s[i].direction.y),
                        ..s[i].rect
                    },
                    ..s[i]
                },
            )
        } else {
            s
        }
    }

    /// One entity's whole tick: integrate gravity, slide on X then Y, then
    /// the controller-specific behaviour.  Grounded means the downward
    /// slide was blocked.
    pub open spec fn step_entity_spec(
        s: Seq<Object>,
        cam: Vector2,
        keys: Seq<Key>,
        mouse: Vector2,
        screen: Vector2,
        speed: i64,
        jump: i64,
        frame: u64,
        i: int,
    ) -> (Seq<Object>, Vector2) {
        let o = s[i];
        let s0 = s.update(
            i,
            Object {
                velocity: Vector2 {
                    x: o.velocity.x,
                    y: spec_clamp(o.velocity.y + o.gravity),
                },
                ..o
            },
        );
        let s1 = Self::slide_x_spec(s0, i, s0[i].velocity.x, frame).0;
        let vy = s1[i].velocity.y;
        let sr = Self::slide_y_spec(s1, i, vy, frame);
        let s2 = sr.0;
        let grounded = sr.1 && vy >= 0;
        match s2[i].controller {
            Controller::Player => Self::player_step_spec(
                s2,
                cam,
                keys,
                mouse,
                screen,
                speed,
                jump,
                frame,
                i,
                grounded,
            ),
            Controller::AI => (Self::ai_step_spec(s2, speed, jump, frame, i, grounded), cam),
            Controller::FollowTarget => (Self::follow_step_spec(s2, i), cam),
            Controller::Idle => (s2, cam),
        }
    }

    /// The store and camera after stepping entities `i` up to `n`, in
    /// index order.  Entities spawned during the pass are not stepped
    /// this tick.
    pub open spec fn play_pass_spec(
        s: Seq<Object>,
        cam: Vector2,
        keys: Seq<Key>,
        mouse: Vector2,
        screen: Vector2,
        speed: i64,
        jump: i64,
        frame: u64,
        i: int,
        n: int,
    ) -> (Seq<Object>, Vector2)
        decreases n - i,
    {
        if i < 0 || i >= n {
            (s, cam)
        } else {
            let st = Self::step_entity_spec(s, cam, keys, mouse, screen, speed, jump, frame, i);
            Self::play_pass_spec(st.0, st.1, keys, mouse, screen, speed, jump, frame, i + 1, n)
        }
    }

    /// The AI pace displacement: `speed` scaled by a direction component
    /// that is a (signed) fraction of `UNIT`.
    fn pace_distance(n: i64, s: i64) -> (r: i64)
        requires
            in_range(n),
            0 <= s <= LIMIT,
        ensures
            r as int == Vector2::spec_scale_part(n as int, s as int),
            iabs(r as int) <= 0x10_0000_0000_0000,
    {
        let an: u64 = if n < 0 {
            (-n) as u64
        } else {
            n as u64
        };
        assert(an * (s as u64) <= 0x4000_0000u64 * 0x4000_0000u64) by (nonlinear_arith)
            requires
                0 <= an <= 0x4000_0000u64 && 0 <= s <= 0x4000_0000i64,
        ;
        let q: u64 = an * (s as u64) / (UNIT as u64);
        proof {
            vstd::arithmetic::div_mod::lemma_div_is_ordered(
                (an * (s as u64)) as int,
                0x4000_0000i64 * 0x4000_0000i64,
                UNIT as int,
            );
        }
        if n < 0 {
            -(q as i64)
        } else {
            q as i64
        }
    }

    /// The player's fire action, as `fire_spec` describes it.
    #[verifier::spinoff_prover]
    fn fire(&mut self, i: usize)
        requires
            old(self).wf(),
            i < old(self).objects@.len(),
            old(self).frame < FRAME_LIMIT,
        ensures
            final(self).wf(),
            *final(self) == (VectorGraphics { objects: final(self).objects, ..*old(self) }),
            final(self).objects@.len() >= old(self).objects@.len(),
            final(self).objects@ == Self::fire_spec(
                old(self).objects@,
                old(self).cam,
                old(self).mouse_position,
                old(self).frame,
                i as int,
            ),
    {
        if self.objects[i].enable_firing_at_frame <= self.frame {
            let ghost s4 = self.objects@;
            proof {
                assert(self.objects@[i as int].wf());
            }
            let mut p = self.objects[i];
            p.enable_firing_at_frame = self.frame + 30;
            self.objects[i] = p;
            proof {
                assert forall|j: int|
                    0 <= j < self.objects@.len() implies #[trigger] self.objects@[j].wf()
                by {
                    assert(s4[j].wf());
                }
                assert(self.objects@[i as int].wf());
            }
            let center = self.objects[i].rect.center();
            let mousepos = self.get_relative_mouse_position();
            let offset_to_mouse = Vector2 {
                x: clamp_coord(mousepos.x - center.x),
                y: clamp_coord(mousepos.y - center.y),
            };
            let direction = offset_to_mouse.normalize().scale(
                self.objects[i].rect.width,
                self.objects[i].rect.height,
            );
            let shooter = self.objects[i];
            let projectile = Object {
                controller: Controller::FollowTarget,
                rect: shooter.rect,
                color: Color { r: 1000, g: 1000, b: 200 },
                velocity: Vector2 { x: 0, y: 0 },
                gravity: 0,
                direction,
                collision_type: CollisionType::Pass,
                destroying: true,
                destroy_at_frame: self.frame + 20,
                enable_firing_at_frame: 0,
                target: i,
                faction: shooter.faction,
                health: 0,
                max_health: 0,
                damage: 5,
                disable_damage_bar_at_frame: 0,
            };
            let ghost armed = self.objects@;
            self.objects.push(projectile);
            proof {
                assert(projectile == Self::projectile_spec(
                    armed,
                    i as int,
                    Vector2 {
                        x: (old(self).mouse_position.x + old(self).cam.x) as i64,
                        y: (old(self).mouse_position.y + old(self).cam.y) as i64,
                    },
                    self.frame,
                ));
                assert forall|j: int|
                    0 <= j < self.objects@.len() implies #[trigger] self.objects@[j].wf()
                by {
                    if j < armed.len() {
                        assert(armed[j].wf());
                    }
                }
            }
        }
    }

    /// Post-slide player behaviour, as `player_step_spec` describes it.
    #[verifier::rlimit(100)]
    #[verifier::spinoff_prover]
    fn player_step(&mut self, i: usize, grounded: bool)
        requires
            old(self).wf(),
            i < old(self).objects@.len(),
            old(self).frame < FRAME_LIMIT,
        ensures
            final(self).wf(),
            *final(self) == (VectorGraphics {
                objects: final(self).objects,
                cam: final(self).cam,
                ..*old(self)
            }),
            final(self).objects@.len() >= old(self).objects@.len(),
            (final(self).objects@, final(self).cam) == Self::player_step_spec(
                old(self).objects@,
                old(self).cam,
                old(self).input.keys@,
                old(self).mouse_position,
                old(self).screen,
                old(self).speed,
                old(self).jump_force,
                old(self).frame,
                i as int,
                grounded,
            ),
    {
        let ghost s2 = self.objects@;
        if self.input.is_pressed(&Key::Jump) {
            if grounded {
                proof {
                    assert(self.objects@[i as int].wf());
                }
                let mut p = self.objects[i];
                p.velocity.y = clamp_coord(p.velocity.y - self.jump_force);
                self.objects[i] = p;
                proof {
                    assert forall|j: int|
                        0 <= j < self.objects@.len() implies #[trigger] self.objects@[j].wf()
                    by {
                        assert(s2[j].wf());
                    }
                }
            }
        }
        let left_held = self.input.is_pressed(&Key::Left);
        let right_held = self.input.is_pressed(&Key::Right);
        if !(left_held && right_held) {
            if left_held {
                self.slide_x(i, -self.speed);
            }
            if right_held {
                self.slide_x(i, self.speed);
            }
        }
        if self.input.is_pressed(&Key::Fire) {
            self.fire(i);
        }
        proof {
            assert(self.objects@[i as int].wf());
        }
        let player_position = self.objects[i].rect.center();
        let half_sx = ((self.screen.x as u64) / 2) as i64;
        let half_sy = ((self.screen.y as u64) / 2) as i64;
        self.cam.x = clamp_coord(player_position.x - half_sx);
        self.cam.y = clamp_coord(player_position.y - half_sy);
    }

    /// Post-slide AI behaviour, as `ai_step_spec` describes it.
    fn ai_step(&mut self, i: usize, grounded: bool)
        requires
            old(self).wf(),
            i < old(self).objects@.len(),
            old(self).frame < FRAME_LIMIT,
        ensures
            final(self).wf(),
            *final(self) == (VectorGraphics { objects: final(self).objects, ..*old(self) }),
            final(self).objects@.len() == old(self).objects@.len(),
            final(self).objects@ == Self::ai_step_spec(
                old(self).objects@,
                old(self).speed,
                old(self).jump_force,
                old(self).frame,
                i as int,
                grounded,
            ),
    {
        proof {
            assert(self.objects@[i as int].wf());
        }
        let d = Self::pace_distance(self.objects[i].direction.x, self.speed);
        let blocked = self.slide_x(i, d);
        let ghost s1 = self.objects@;
        if blocked {
            proof {
                assert(self.objects@[i as int].wf());
            }
            let mut p = self.objects[i];
            p.direction.x = -p.direction.x;
            self.objects[i] = p;
            proof {
                assert forall|j: int|
                    0 <= j < self.objects@.len() implies #[trigger] self.objects@[j].wf()
                by {
                    assert(s1[j].wf());
                }
            }
        }
        if grounded {
            let ghost sg = self.objects@;
            proof {
                assert(self.objects@[i as int].wf());
            }
            let mut p = self.objects[i];
            p.velocity.y = clamp_coord(p.velocity.y - self.jump_force);
            self.objects[i] = p;
            proof {
                assert forall|j: int|
                    0 <= j < self.objects@.len() implies #[trigger] self.objects@[j].wf()
                by {
                    assert(sg[j].wf());
                }
            }
        }
    }

    /// Post-slide follower behaviour, as `follow_step_spec` describes it.
    fn follow_step(&mut self, i: usize)
        requires
            old(self).wf(),
            i < old(self).objects@.len(),
        ensures
            final(self).wf(),
            *final(self) == (VectorGraphics { objects: final(self).objects, ..*old(self) }),
            final(self).objects@.len() == old(self).objects@.len(),
            final(self).objects@ == Self::follow_step_spec(old(self).objects@, i as int),
    {
        let ghost s2 = self.objects@;
        let t = self.objects[i].target;
        if t < self.objects.len() {
            proof {
                assert(self.objects@[i as int].wf());
                assert(self.objects@[t as int].wf());
            }
            let c = self.objects[t].rect.center();
            let mut p = self.objects[i];
            let half_w = ((p.rect.width as u64) / 2) as i64;
            let half_h = ((p.rect.height as u64) / 2) as i64;
            p.rect.x = clamp_coord(c.x - half_w + p.direction.x);
            p.rect.y = clamp_coord(c.y - half_h + p.direction.y);
            self.objects[i] = p;
            proof {
                assert forall|j: int|
                    0 <= j < self.objects@.len() implies #[trigger] self.objects@[j].wf()
                by {
                    assert(s2[j].wf());
                }
            }
        }
    }

    /// One entity's whole tick, as `step_entity_spec` describes it.
    fn step_entity(&mut self, i: usize)
        requires
            old(self).wf(),
            i < old(self).objects@.len(),
            old(self).frame < FRAME_LIMIT,
        ensures
            final(self).wf(),
            *final(self) == (VectorGraphics {
                objects: final(self).objects,
                cam: final(self).cam,
                ..*old(self)
            }),
            final(self).objects@.len() >= old(self).objects@.len(),
            (final(self).objects@, final(self).cam) == Self::step_entity_spec(
                old(self).objects@,
                old(self).cam,
                old(self).input.keys@,
                old(self).mouse_position,
                old(self).screen,
                old(self).speed,
                old(self).jump_force,
                old(self).frame,
                i as int,
            ),
    {
        proof {
            assert(self.objects@[i as int].wf());
        }
        let mut o = self.objects[i];
        o.velocity.y = clamp_coord(o.velocity.y + o.gravity);
        self.objects[i] = o;
        proof {
            assert forall|j: int| 0 <= j < self.objects@.len() implies #[trigger] self.objects@[j].wf() by {
                assert(old(self).objects@[j].wf());
            }
        }
        let vx = self.objects[i].velocity.x;
        proof {
            assert(self.objects@[i as int].wf());
        }
        self.slide_x(i, vx);
        let vy = self.objects[i].velocity.y;
        proof {
            assert(self.objects@[i as int].wf());
        }
        let blocked_y = self.slide_y(i, vy);
        let grounded = blocked_y && vy >= 0;
        match self.objects[i].controller {
            Controller::Player => {
                self.player_step(i, grounded);
            },
            Controller::AI => {
                self.ai_step(i, grounded);
            },
            Controller::FollowTarget => {
                self.follow_step(i);
            },
            Controller::Idle => {},
        }
    }

    /// Entity fields after the removal of index `k`: a `target` above `k`
    /// is decremented so it keeps naming the same entity; one at or below
    /// `k` is left alone.
    pub open spec fn retarget_spec(o: Object, k: int) -> Object {
        if o.target > k {
            Object { target: (o.target - 1) as usize, ..o }
        } else {
            o
        }
    }

    /// The store after removing entity `k`: later entities shift down one
    /// slot and every surviving `target` reference is remapped.
    pub open spec fn remove_remap_spec(s: Seq<Object>, k: int) -> Seq<Object> {
        s.remove(k).map_values(|o: Object| Self::retarget_spec(o, k))
    }

    /// Index remap, spelled out: removing entity `k` keeps every other
    /// entity in order, decrements exactly the `target` fields that were
    /// above `k`, and touches nothing else.
    pub proof fn lemma_remove_remap(s: Seq<Object>, k: int)
        requires
            0 <= k < s.len(),
        ensures
            Self::remove_remap_spec(s, k).len() == s.len() - 1,
            forall|j: int|
                0 <= j < k ==> #[trigger] Self::remove_remap_spec(s, k)[j]
                    == Self::retarget_spec(s[j], k),
            forall|j: int|
                k <= j < s.len() - 1 ==> #[trigger] Self::remove_remap_spec(s, k)[j]
                    == Self::retarget_spec(s[j + 1], k),
    {
    }

    /// The store after the destruction sweep, scanning from index `i`:
    /// every entity whose armed removal has come due is removed, with the
    /// index remap applied at each removal.
    pub open spec fn sweep_from_spec(s: Seq<Object>, frame: u64, i: int) -> Seq<Object>
        decreases s.len() - i,
    {
        if i < 0 || i >= s.len() {
            s
        } else if s[i].destroying && s[i].destroy_at_frame <= frame {
            Self::sweep_from_spec(Self::remove_remap_spec(s, i), frame, i)
        } else {
            Self::sweep_from_spec(s, frame, i + 1)
        }
    }

    /// Remove entity `k` and remap every surviving `target` reference.
    #[verifier::loop_isolation(false)]
    pub fn remove_object(&mut self, k: usize)
        requires
            old(self).wf(),
            k < old(self).objects@.len(),
        ensures
            final(self).wf(),
            *final(self) == (VectorGraphics { objects: final(self).objects, ..*old(self) }),
            final(self).objects@.len() == old(self).objects@.len() - 1,
            final(self).objects@ == Self::remove_remap_spec(old(self).objects@, k as int),
    {
        self.objects.remove(k);
        let ghost shrunk = self.objects@;
        proof {
            assert forall|j: int| 0 <= j < shrunk.len() implies #[trigger] shrunk[j].wf() by {
                if j < k {
                    assert(shrunk[j] == old(self).objects@[j]);
                    assert(old(self).objects@[j].wf());
                } else {
                    assert(shrunk[j] == old(self).objects@[j + 1]);
                    assert(old(self).objects@[j + 1].wf());
                }
            }
        }
        let mut ii: usize = 0;
        while ii < self.objects.len()
            invariant
                ii <= self.objects@.len(),
                *self == (VectorGraphics { objects: self.objects, ..*old(self) }),
                self.objects@.len() == shrunk.len(),
                forall|j: int|
                    0 <= j < ii ==> #[trigger] self.objects@[j] == Self::retarget_spec(
                        shrunk[j],
                        k as int,
                    ),
                forall|j: int| ii <= j < shrunk.len() ==> #[trigger] self.objects@[j] == shrunk[j],
            decreases self.objects@.len() - ii,
        {
            if self.objects[ii].target > k {
                let mut p = self.objects[ii];
                p.target -= 1;
                self.objects[ii] = p;
            }
            ii += 1;
        }
        proof {
            assert(self.objects@ =~= shrunk.map_values(
                |o: Object| Self::retarget_spec(o, k as int),
            ));
            assert forall|j: int| 0 <= j < self.objects@.len() implies #[trigger] self.objects@[j].wf() by {
                assert(self.objects@[j] == Self::retarget_spec(shrunk[j], k as int));
                assert(shrunk[j].wf());
            }
        }
    }

    /// The destruction sweep: remove every entity whose armed removal has
    /// come due, remapping `target` references at each removal.
    #[verifier::loop_isolation(false)]
    pub fn sweep(&mut self)
        requires
            old(self).wf(),
        ensures
            final(self).wf(),
            *final(self) == (VectorGraphics { objects: final(self).objects, ..*old(self) }),
            final(self).objects@ == Self::sweep_from_spec(
                old(self).objects@,
                old(self).frame,
                0,
            ),
    {
        let ghost start = self.objects@;
        let mut i: usize = 0;
        while i < self.objects.len()
            invariant
                self.wf(),
                i <= self.objects@.len(),
                *self == (VectorGraphics { objects: self.objects, ..*old(self) }),
                Self::sweep_from_spec(self.objects@, self.frame, i as int)
                    == Self::sweep_from_spec(start, self.frame, 0),
            decreases self.objects@.len() - i,
        {
            let o = self.objects[i];
            if o.destroying && o.destroy_at_frame <= self.frame {
                self.remove_object(i);
            } else {
                i += 1;
            }
        }
    }

    /// Edit-mode camera panning by the held arrow keys, one axis at a
    /// time, saturated.
    pub open spec fn edit_cam_spec(cam: Vector2, keys: Seq<Key>, editor_speed: i64) -> Vector2 {
        let x1 = if keys.contains(Key::PanLeft) {
            spec_clamp(cam.x - editor_speed)
        } else {
            cam.x
        };
        let x2 = if keys.contains(Key::PanRight) {
            spec_clamp(x1 + editor_speed)
        } else {
            x1
        };
        let y1 = if keys.contains(Key::PanUp) {
            spec_clamp(cam.y - editor_speed)
        } else {
            cam.y
        };
        let y2 = if keys.contains(Key::PanDown) {
            spec_clamp(y1 + editor_speed)
        } else {
            y1
        };
        Vector2 { x: x2, y: y2 }
    }

    /// Pan the camera by the held arrow keys.
    fn pan_camera(&mut self)
        requires
            old(self).wf(),
        ensures
            final(self).wf(),
            *final(self) == (VectorGraphics { cam: final(self).cam, ..*old(self) }),
            final(self).cam == Self::edit_cam_spec(
                old(self).cam,
                old(self).input.keys@,
                old(self).editor_speed,
            ),
    {
        if self.input.is_pressed(&Key::PanLeft) {
            self.cam.x = clamp_coord(self.cam.x - self.editor_speed);
        }
        if self.input.is_pressed(&Key::PanRight) {
            self.cam.x = clamp_coord(self.cam.x + self.editor_speed);
        }
        if self.input.is_pressed(&Key::PanUp) {
            self.cam.y = clamp_coord(self.cam.y - self.editor_speed);
        }
        if self.input.is_pressed(&Key::PanDown) {
            self.cam.y = clamp_coord(self.cam.y + self.editor_speed);
        }
    }

    /// The quad drawn for one entity: its rectangle shifted by the camera,
    /// in its colour.
    pub open spec fn object_quad_spec(o: Object, cam: Vector2) -> Quad {
        Quad {
            x: (o.rect.x - cam.x) as i64,
            y: (o.rect.y - cam.y) as i64,
            width: o.rect.width,
            height: o.rect.height,
            color: o.color,
        }
    }

    /// The quads of the first `n` entities, in store order.
    pub open spec fn object_quads_spec(s: Seq<Object>, cam: Vector2, n: int) -> Seq<Quad>
        decreases n,
    {
        if n <= 0 {
            Seq::empty()
        } else {
            Self::object_quads_spec(s, cam, n - 1).push(Self::object_quad_spec(s[n - 1], cam))
        }
    }

    /// Whether entity `o`'s health bar is visible this frame.
    pub open spec fn bar_visible_spec(o: Object, frame: u64) -> bool {
        o.disable_damage_bar_at_frame > frame && o.max_health > 0
    }

    /// The health bar quad of one entity: a green strip above it whose
    /// width is the healthy fraction of the entity's width.
    pub open spec fn bar_quad_spec(o: Object, cam: Vector2) -> Quad {
        Quad {
            x: (o.rect.x - cam.x) as i64,
            y: (o.rect.y - cam.y - o.rect.height / 2 - 20 * UNIT) as i64,
            width: (o.rect.width * o.health / (o.max_health as int)) as i64,
            height: (10 * UNIT) as i64,
            color: Color { r: 0, g: 1000, b: 0 },
        }
    }

    /// The visible health bars of the first `n` entities, in store order.
    pub open spec fn bar_quads_spec(s: Seq<Object>, cam: Vector2, frame: u64, n: int) -> Seq<
        Quad,
    >
        decreases n,
    {
        if n <= 0 {
            Seq::empty()
        } else {
            let prefix = Self::bar_quads_spec(s, cam, frame, n - 1);
            if Self::bar_visible_spec(s[n - 1], frame) {
                prefix.push(Self::bar_quad_spec(s[n - 1], cam))
            } else {
                prefix
            }
        }
    }

    /// Append one quad per entity to the draw list.
    #[verifier::loop_isolation(false)]
    fn push_object_quads(&self, list: &mut DrawList)
        requires
            self.wf(),
        ensures
            final(list)@ == old(list)@ + Self::object_quads_spec(
                self.objects@,
                self.cam,
                self.objects@.len() as int,
            ),
    {
        let mut i: usize = 0;
        proof {
            assert(old(list)@ + Self::object_quads_spec(self.objects@, self.cam, 0) =~= old(
                list,
            )@);
        }
        while i < self.objects.len()
            invariant
                i <= self.objects@.len(),
                list@ == old(list)@ + Self::object_quads_spec(self.objects@, self.cam, i as int),
            decreases self.objects@.len() - i,
        {
            proof {
                assert(self.objects@[i as int].wf());
            }
            let o = self.objects[i];
            list.add_rect(o.rect.x - self.cam.x, o.rect.y - self.cam.y, o.rect.width,
                o.rect.height, o.color);
            proof {
                assert(list@ =~= old(list)@ + Self::object_quads_spec(
                    self.objects@,
                    self.cam,
                    i + 1,
                ));
            }
            i += 1;
        }
    }

    /// Append the visible health bars to the draw list.
    #[verifier::loop_isolation(false)]
    fn push_bar_quads(&self, list: &mut DrawList)
        requires
            self.wf(),
        ensures
            final(list)@ == old(list)@ + Self::bar_quads_spec(
                self.objects@,
                self.cam,
                self.frame,
                self.objects@.len() as int,
            ),
    {
        let mut i: usize = 0;
        proof {
            assert(old(list)@ + Self::bar_quads_spec(self.objects@, self.cam, self.frame, 0)
                =~= old(list)@);
        }
        while i < self.objects.len()
            invariant
                i <= self.objects@.len(),
                list@ == old(list)@ + Self::bar_quads_spec(
                    self.objects@,
                    self.cam,
                    self.frame,
                    i as int,
                ),
            decreases self.objects@.len() - i,
        {
            proof {
                assert(self.objects@[i as int].wf());
            }
            let o = self.objects[i];
            if o.disable_damage_bar_at_frame > self.frame && o.max_health > 0 {
                let w64: u64 = o.rect.width as u64;
                let h64: u64 = o.health as u64;
                assert(w64 * h64 <= 0x4000_0000u64 * 0x4000_0000u64) by (nonlinear_arith)
                    requires
                        0 <= w64 <= 0x4000_0000u64 && 0 <= h64 <= 0x4000_0000u64,
                ;
                let num: u64 = w64 * h64;
                let bar_w: u64 = num / (o.max_health as u64);
                proof {
                    vstd::arithmetic::div_mod::lemma_div_is_ordered(
                        num as int,
                        0x4000_0000i64 * 0x4000_0000i64,
                        o.max_health as int,
                    );
                    vstd::arithmetic::div_mod::lemma_div_is_ordered_by_denominator(
                        0x4000_0000i64 * 0x4000_0000i64,
                        1,
                        o.max_health as int,
                    );
                }
                let half_h = ((o.rect.height as u64) / 2) as i64;
                list.add_rect(
                    o.rect.x - self.cam.x,
                    o.rect.y - self.cam.y - half_h - 20 * UNIT,
                    bar_w as i64,
                    10 * UNIT,
                    Color { r: 0, g: 1000, b: 0 },
                );
                proof {
                    assert(list@ =~= old(list)@ + Self::bar_quads_spec(
                        self.objects@,
                        self.cam,
                        self.frame,
                        i + 1,
                    ));
                }
            } else {
                proof {
                    assert(list@ =~= old(list)@ + Self::bar_quads_spec(
                        self.objects@,
                        self.cam,
                        self.frame,
                        i + 1,
                    ));
                }
            }
            i += 1;
        }
    }

    /// The quad showing an in-progress drag, drawn with the camera as it
    /// stood when the tick began.
    pub open spec fn drag_quad_spec(drag: Drag, cam: Vector2) -> Seq<Quad> {
        if drag.dragging {
            let ar = Self::spec_abs_rect(
                drag.x - cam.x,
                drag.y - cam.y,
                drag.x2 - drag.x,
                drag.y2 - drag.y,
            );
            seq![
                Quad {
                    x: ar.0 as i64,
                    y: ar.1 as i64,
                    width: ar.2 as i64,
                    height: ar.3 as i64,
                    color: Color { r: 0, g: 0, b: 1000 },
                },
            ]
        } else {
            Seq::empty()
        }
    }

    /// One full tick.  In play mode every entity that existed when the
    /// tick began is stepped in index order; in edit mode the camera pans.
    /// Then the destruction sweep runs, the surviving entities and their
    /// health bars are rendered behind the drag quad, and the frame
    /// counter advances.
    #[verifier::loop_isolation(false)]
    pub fn update(&mut self) -> (r: DrawList)
        requires
            old(self).wf(),
            old(self).frame < FRAME_LIMIT,
        ensures
            final(self).wf(),
            final(self).frame == old(self).frame + 1,
            final(self).mode == old(self).mode,
            final(self).drag == old(self).drag,
            final(self).mouse_position == old(self).mouse_position,
            final(self).screen == old(self).screen,
            final(self).input == old(self).input,
            final(self).last_portal_in == old(self).last_portal_in,
            final(self).speed == old(self).speed,
            final(self).editor_speed == old(self).editor_speed,
            final(self).jump_force == old(self).jump_force,
            old(self).mode == Mode::Play ==> {
                let pp = Self::play_pass_spec(
                    old(self).objects@,
                    old(self).cam,
                    old(self).input.keys@,
                    old(self).mouse_position,
                    old(self).screen,
                    old(self).speed,
                    old(self).jump_force,
                    old(self).frame,
                    0,
                    old(self).objects@.len() as int,
                );
                final(self).objects@ == Self::sweep_from_spec(pp.0, old(self).frame, 0)
                    && final(self).cam == pp.1
            },
            old(self).mode == Mode::Edit ==> final(self).objects@ == Self::sweep_from_spec(
                old(self).objects@,
                old(self).frame,
                0,
            ) && final(self).cam == Self::edit_cam_spec(
                old(self).cam,
                old(self).input.keys@,
                old(self).editor_speed,
            ),
            r@ == Self::drag_quad_spec(old(self).drag, old(self).cam) + Self::object_quads_spec(
                final(self).objects@,
                final(self).cam,
                final(self).objects@.len() as int,
            ) + Self::bar_quads_spec(
                final(self).objects@,
                final(self).cam,
                old(self).frame,
                final(self).objects@.len() as int,
            ),
    {
        let mut list = DrawList::new();
        if self.drag.dragging {
            let ar = Self::abs_rect(
                self.drag.x - self.cam.x,
                self.drag.y - self.cam.y,
                self.drag.x2 - self.drag.x,
                self.drag.y2 - self.drag.y,
            );
            list.add_rect(ar.0, ar.1, ar.2, ar.3, Color { r: 0, g: 0, b: 1000 });
        }
        proof {
            assert(list@ =~= Self::drag_quad_spec(self.drag, self.cam));
        }
        let ghost drag_part = list@;
        match self.mode {
            Mode::Play => {
                let count = self.objects.len();
                let mut i: usize = 0;
                while i < count
                    invariant
                        i <= count,
                        count <= self.objects@.len(),
                        self.wf(),
                        *self == (VectorGraphics {
                            objects: self.objects,
                            cam: self.cam,
                            ..*old(self)
                        }),
                        Self::play_pass_spec(
                            self.objects@,
                            self.cam,
                            old(self).input.keys@,
                            old(self).mouse_position,
                            old(self).screen,
                            old(self).speed,
                            old(self).jump_force,
                            old(self).frame,
                            i as int,
                            count as int,
                        ) == Self::play_pass_spec(
                            old(self).objects@,
                            old(self).cam,
                            old(self).input.keys@,
                            old(self).mouse_position,
                            old(self).screen,
                            old(self).speed,
                            old(self).jump_force,
                            old(self).frame,
                            0,
                            count as int,
                        ),
                    decreases count - i,
                {
                    self.step_entity(i);
                    i += 1;
                }
            },
            Mode::Edit => {
                self.pan_camera();
            },
        }
        self.sweep();
        self.push_object_quads(&mut list);
        self.push_bar_quads(&mut list);
        proof {
            assert(list@ =~= drag_part + Self::object_quads_spec(
                self.objects@,
                self.cam,
                self.objects@.len() as int,
            ) + Self::bar_quads_spec(
                self.objects@,
                self.cam,
                self.frame,
                self.objects@.len() as int,
            ));
        }
        self.frame = self.frame + 1;
        list
    }
    /// The persistence request a key press makes, if any: save and load
    /// are edit-mode actions carried out by the host.
    pub open spec fn keydown_request_spec(mode: Mode, key: Key) -> Option<PersistRequest> {
        if mode == Mode::Edit && key == Key::Save {
            Option::Some(PersistRequest::Save)
        } else if mode == Mode::Edit && key == Key::Load {
            Option::Some(PersistRequest::Load)
        } else {
            Option::None
        }
    }

    /// The mode after a key press: Escape toggles between play and edit.
    pub open spec fn keydown_mode_spec(mode: Mode, key: Key) -> Mode {
        if key == Key::Escape {
            if mode == Mode::Play {
                Mode::Edit
            } else {
                Mode::Play
            }
        } else {
            mode
        }
    }

    /// The drag state after a key press: the draw key starts a fresh drag
    /// at the pointer unless one is already in progress.
    pub open spec fn keydown_drag_spec(drag: Drag, mode: Mode, key: Key, pointer: Vector2) -> Drag {
        if mode == Mode::Edit && key == Key::Draw && !drag.dragging {
            Drag { dragging: true, x: pointer.x, y: pointer.y, x2: pointer.x, y2: pointer.y }
        } else {
            drag
        }
    }

    /// The pending portal entry after a key press: marking an entity as a
    /// portal entry remembers its index, last-in-wins.
    pub open spec fn keydown_portal_in_spec(
        last_portal_in: usize,
        s: Seq<Object>,
        mode: Mode,
        key: Key,
        pointer: Vector2,
    ) -> usize {
        if mode == Mode::Edit && key == Key::MakePortalIn {
            match Self::find_from(s, pointer, 0) {
                Option::Some(id) => id,
                Option::None => last_portal_in,
            }
        } else {
            last_portal_in
        }
    }

    /// The entity store after an edit-mode key press at `pointer`:
    /// deletion arms destruction now; the role keys reassign the entity
    /// under the pointer; the portal-exit key additionally back-patches
    /// the pending portal entry to point at the new exit.
    pub open spec fn keydown_objects_spec(
        s: Seq<Object>,
        mode: Mode,
        key: Key,
        pointer: Vector2,
        frame: u64,
        last_portal_in: usize,
    ) -> Seq<Object> {
        if mode != Mode::Edit {
            s
        } else {
            match Self::find_from(s, pointer, 0) {
                Option::None => s,
                Option::Some(id) => {
                    let i = id as int;
                    if key == Key::Delete {
                        s.update(i, Object { destroying: true, destroy_at_frame: frame, ..s[i] })
                    } else if key == Key::MakePlayer {
                        s.update(
                            i,
                            Object {
                                faction: FACTION_PLAYER,
                                controller: Controller::Player,
                                color: Color { r: 1000, g: 500, b: 0 },
                                gravity: (3 * UNIT / 10) as i64,
                                ..s[i]
                            },
                        )
                    } else if key == Key::MakeEnemy {
                        s.update(
                            i,
                            Object {
                                faction: FACTION_ENEMY,
                                controller: Controller::AI,
                                color: Color { r: 1000, g: 0, b: 0 },
                                gravity: (3 * UNIT / 10) as i64,
                                direction: Vector2 { x: (-UNIT) as i64, y: 0 },
                                health: 20,
                                max_health: 20,
                                ..s[i]
                            },
                        )
                    } else if key == Key::MakePortalIn {
                        s.update(
                            i,
                            Object {
                                color: Color { r: 200, g: 1000, b: 200 },
                                collision_type: CollisionType::Pass,
                                ..s[i]
                            },
                        )
                    } else if key == Key::MakePortalOut {
                        let s1 = s.update(
                            i,
                            Object {
                                color: Color { r: 200, g: 200, b: 1000 },
                                collision_type: CollisionType::Pass,
                                ..s[i]
                            },
                        );
                        if (last_portal_in as int) < s1.len() {
                            s1.update(
                                last_portal_in as int,
                                Object {
                                    collision_type: CollisionType::PortalTo,
                                    target: id,
                                    ..s1[last_portal_in as int]
                                },
                            )
                        } else {
                            s1
                        }
                    } else {
                        s
                    }
                },
            }
        }
    }

    /// Handle a key press: record the key as held, then perform its mode-
    /// dependent authoring action.  Save and load are handed back to the
    /// host as a request; an action aimed at the pointer with no entity
    /// under it does nothing.
    pub fn keydown(&mut self, key: Key) -> (r: Option<PersistRequest>)
        requires
            old(self).wf(),
        ensures
            final(self).wf(),
            r == Self::keydown_request_spec(old(self).mode, key),
            final(self).input.keys@ == (if old(self).input.keys@.contains(key) {
                old(self).input.keys@
            } else {
                old(self).input.keys@.push(key)
            }),
            final(self).mode == Self::keydown_mode_spec(old(self).mode, key),
            final(self).drag == Self::keydown_drag_spec(
                old(self).drag,
                old(self).mode,
                key,
                Vector2 {
                    x: (old(self).mouse_position.x + old(self).cam.x) as i64,
                    y: (old(self).mouse_position.y + old(self).cam.y) as i64,
                },
            ),
            final(self).last_portal_in == Self::keydown_portal_in_spec(
                old(self).last_portal_in,
                old(self).objects@,
                old(self).mode,
                key,
                Vector2 {
                    x: (old(self).mouse_position.x + old(self).cam.x) as i64,
                    y: (old(self).mouse_position.y + old(self).cam.y) as i64,
                },
            ),
            final(self).objects@ == Self::keydown_objects_spec(
                old(self).objects@,
                old(self).mode,
                key,
                Vector2 {
                    x: (old(self).mouse_position.x + old(self).cam.x) as i64,
                    y: (old(self).mouse_position.y + old(self).cam.y) as i64,
                },
                old(self).frame,
                old(self).last_portal_in,
            ),
            final(self).cam == old(self).cam,
            final(self).screen == old(self).screen,
            final(self).mouse_position == old(self).mouse_position,
            final(self).frame == old(self).frame,
            final(self).speed == old(self).speed,
            final(self).editor_speed == old(self).editor_speed,
            final(self).jump_force == old(self).jump_force,
    {
        let ghost s0 = self.objects@;
        self.input.press(key);
        match self.mode {
            Mode::Play => {
                match key {
                    Key::Escape => {
                        self.mode = Mode::Edit;
                    },
                    _ => {},
                }
                None
            },
            Mode::Edit => {
                match key {
                    Key::Delete => {
                        let pointer = self.get_relative_mouse_position();
                        match self.find_object_at_point(pointer) {
                            Some(id) => {
                                proof {
                                    assert(self.objects@[id as int].wf());
                                }
                                let mut p = self.objects[id];
                                p.destroying = true;
                                p.destroy_at_frame = self.frame;
                                self.objects[id] = p;
                                proof {
                                    assert forall|j: int|
                                        0 <= j < self.objects@.len() implies
                                        #[trigger] self.objects@[j].wf()
                                    by {
                                        assert(s0[j].wf());
                                    }
                                }
                            },
                            _ => {},
                        }
                        None
                    },
                    Key::Draw => {
                        if !self.drag.dragging {
                            let pointer = self.get_relative_mouse_position();
                            self.drag.x = pointer.x;
                            self.drag.y = pointer.y;
                            self.drag.x2 = pointer.x;
                            self.drag.y2 = pointer.y;
                            self.drag.dragging = true;
                        }
                        None
                    },
                    Key::MakePlayer => {
                        let pointer = self.get_relative_mouse_position();
                        match self.find_object_at_point(pointer) {
                            Some(id) => {
                                proof {
                                    assert(self.objects@[id as int].wf());
                                }
                                let mut p = self.objects[id];
                                p.faction = FACTION_PLAYER;
                                p.controller = Controller::Player;
                                p.color = Color { r: 1000, g: 500, b: 0 };
                                // three tenths of a world pixel per tick
                                p.gravity = 3 * UNIT / 10;
                                self.objects[id] = p;
                                proof {
                                    assert forall|j: int|
                                        0 <= j < self.objects@.len() implies
                                        #[trigger] self.objects@[j].wf()
                                    by {
                                        assert(s0[j].wf());
                                    }
                                }
                            },
                            _ => {},
                        }
                        None
                    },
                    Key::MakeEnemy => {
                        let pointer = self.get_relative_mouse_position();
                        match self.find_object_at_point(pointer) {
                            Some(id) => {
                                proof {
                                    assert(self.objects@[id as int].wf());
                                }
                                let mut p = self.objects[id];
                                p.faction = FACTION_ENEMY;
                                p.controller = Controller::AI;
                                p.color = Color { r: 1000, g: 0, b: 0 };
                                p.gravity = 3 * UNIT / 10;
                                p.direction = Vector2 { x: -UNIT, y: 0 };
                                p.health = 20;
                                p.max_health = 20;
                                self.objects[id] = p;
                                proof {
                                    assert forall|j: int|
                                        0 <= j < self.objects@.len() implies
                                        #[trigger] self.objects@[j].wf()
                                    by {
                                        assert(s0[j].wf());
                                    }
                                }
                            },
                            _ => {},
                        }
                        None
                    },
                    Key::MakePortalIn => {
                        let pointer = self.get_relative_mouse_position();
                        match self.find_object_at_point(pointer) {
                            Some(id) => {
                                proof {
                                    assert(self.objects@[id as int].wf());
                                }
                                let mut p = self.objects[id];
                                p.color = Color { r: 200, g: 1000, b: 200 };
                                p.collision_type = CollisionType::Pass;
                                self.objects[id] = p;
                                self.last_portal_in = id;
                                proof {
                                    assert forall|j: int|
                                        0 <= j < self.objects@.len() implies
                                        #[trigger] self.objects@[j].wf()
                                    by {
                                        assert(s0[j].wf());
                                    }
                                }
                            },
                            _ => {},
                        }
                        None
                    },
                    Key::MakePortalOut => {
                        let pointer = self.get_relative_mouse_position();
                        match self.find_object_at_point(pointer) {
                            Some(id) => {
                                proof {
                                    assert(self.objects@[id as int].wf());
                                }
                                let mut p = self.objects[id];
                                p.color = Color { r: 200, g: 200, b: 1000 };
                                p.collision_type = CollisionType::Pass;
                                self.objects[id] = p;
                                let ghost s1 = self.objects@;
                                if self.last_portal_in < self.objects.len() {
                                    proof {
                                        assert(self.objects@[self.last_portal_in as int].wf());
                                    }
                                    let mut q = self.objects[self.last_portal_in];
                                    q.collision_type = CollisionType::PortalTo;
                                    q.target = id;
                                    self.objects[self.last_portal_in] = q;
                                }
                                proof {
                                    assert forall|j: int|
                                        0 <= j < self.objects@.len() implies
                                        #[trigger] self.objects@[j].wf()
                                    by {
                                        assert(s0[j].wf());
                                    }
                                }
                            },
                            _ => {},
                        }
                        None
                    },
                    Key::Escape => {
                        self.mode = Mode::Play;
                        None
                    },
                    Key::Save => Some(PersistRequest::Save),
                    Key::Load => Some(PersistRequest::Load),
                    _ => None,
                }
            },
        }
    }

    /// The entity a finished drag commits: a solid block with the
    /// normalised drag rectangle, saturated into the storable range.
    pub open spec fn block_spec(drag: Drag) -> Object {
        let ar = Self::spec_abs_rect(drag.x as int, drag.y as int, drag.x2 - drag.x, drag.y2 - drag.y);
        Object {
            faction: FACTION_PLAYER,
            controller: Controller::Idle,
            rect: Rect {
                x: spec_clamp(ar.0),
                y: spec_clamp(ar.1),
                width: spec_clamp(ar.2),
                height: spec_clamp(ar.3),
            },
            color: Color { r: 25, g: 25, b: 25 },
            velocity: Vector2 { x: 0, y: 0 },
            gravity: 0,
            direction: Vector2 { x: 0, y: 0 },
            collision_type: CollisionType::Bounce,
            destroying: false,
            destroy_at_frame: 0,
            enable_firing_at_frame: 0,
            target: 0,
            health: 0,
            max_health: 0,
            damage: 0,
            disable_damage_bar_at_frame: 0,
        }
    }

    /// Handle a key release: the key is no longer held, and releasing the
    /// draw key commits the dragged rectangle as a new block entity.
    pub fn keyup(&mut self, key: Key)
        requires
            old(self).wf(),
        ensures
            final(self).wf(),
            final(self).input.keys@ == crate::input::without_key(old(self).input.keys@, key),
            final(self).objects@ == (if key == Key::Draw && old(self).drag.dragging {
                old(self).objects@.push(Self::block_spec(old(self).drag))
            } else {
                old(self).objects@
            }),
            final(self).drag == (if key == Key::Draw && old(self).drag.dragging {
                Drag { dragging: false, ..old(self).drag }
            } else {
                old(self).drag
            }),
            final(self).mode == old(self).mode,
            final(self).cam == old(self).cam,
            final(self).screen == old(self).screen,
            final(self).mouse_position == old(self).mouse_position,
            final(self).frame == old(self).frame,
            final(self).last_portal_in == old(self).last_portal_in,
            final(self).speed == old(self).speed,
            final(self).editor_speed == old(self).editor_speed,
            final(self).jump_force == old(self).jump_force,
    {
        let ghost s0 = self.objects@;
        self.input.release(&key);
        match key {
            Key::Draw => {
                if self.drag.dragging {
                    self.drag.dragging = false;
                    let ar = Self::abs_rect(
                        self.drag.x,
                        self.drag.y,
                        self.drag.x2 - self.drag.x,
                        self.drag.y2 - self.drag.y,
                    );
                    let rect = Rect {
                        x: clamp_coord(ar.0),
                        y: clamp_coord(ar.1),
                        width: clamp_coord(ar.2),
                        height: clamp_coord(ar.3),
                    };
                    self.objects.push(Object {
                        faction: FACTION_PLAYER,
                        controller: Controller::Idle,
                        rect,
                        color: Color { r: 25, g: 25, b: 25 },
                        velocity: Vector2 { x: 0, y: 0 },
                        gravity: 0,
                        direction: Vector2 { x: 0, y: 0 },
                        collision_type: CollisionType::Bounce,
                        destroying: false,
                        destroy_at_frame: 0,
                        enable_firing_at_frame: 0,
                        target: 0,
                        health: 0,
                        max_health: 0,
                        damage: 0,
                        disable_damage_bar_at_frame: 0,
                    });
                    proof {
                        assert forall|j: int|
                            0 <= j < self.objects@.len() implies #[trigger] self.objects@[j].wf()
                        by {
                            if j < s0.len() {
                                assert(s0[j].wf());
                            }
                        }
                    }
                }
            },
            _ => {},
        }
    }
    /// Normalise a dragged rectangle so extents are non-negative,
    /// moving the origin when the drag went up or left.
    pub open spec fn spec_abs_rect(x: int, y: int, w: int, h: int) -> (int, int, int, int) {
        let (rx, rw) = if w < 0 {
            (x + w, -w)
        } else {
            (x, w)
        };
        let (ry, rh) = if h < 0 {
            (y + h, -h)
        } else {
            (y, h)
        };
        (rx, ry, rw, rh)
    }

    pub fn abs_rect(x: i64, y: i64, w: i64, h: i64) -> (r: (i64, i64, i64, i64))
        requires
            iabs(x as int) <= 4 * LIMIT,
            iabs(y as int) <= 4 * LIMIT,
            iabs(w as int) <= 4 * LIMIT,
            iabs(h as int) <= 4 * LIMIT,
        ensures
            (r.0 as int, r.1 as int, r.2 as int, r.3 as int) == Self::spec_abs_rect(
                x as int,
                y as int,
                w as int,
                h as int,
            ),
            r.2 >= 0,
            r.3 >= 0,
    {
        let mut result_x = x;
        let mut result_y = y;
        let mut result_w = w;
        let mut result_h = h;
        if w < 0 {
            result_x = x + w;
            result_w = -w;
        }
        if h < 0 {
            result_y = y + h;
            result_h = -h;
        }
        (result_x, result_y, result_w, result_h)
    }
}

} // verus!
