use vstd::prelude::*;
use vstd::arithmetic::div_mod::{lemma_fundamental_div_mod, lemma_fundamental_div_mod_converse, lemma_mod_bound};
use crate::geometry::{
    center_distance4_sq, center_distance4_sq_exec, lemma_center_distance4_sq_nonneg, PixelRect, Point2, TilePoint, TileRect, TileSize,
    ToPixel, Vector2,
};
use crate::sprite::{on_screen_fits, screen_pos, to_screen, SpriteDraw};
use crate::units::TILE_PIXELS;

verus! {

/// The blast left where the ship was destroyed: three frames of animation,
/// each shown for one full frame of the game.
#[derive(Clone, Copy, Debug)]
pub struct Explosion {
    pos: Point2,
    frame: u8,
    frame_counter: u8,
}

impl Explosion {
    /// Top left corner of the blast, in pixels.
    pub closed spec fn pos_spec(&self) -> Point2 {
        self.pos
    }

    /// Frame of the animation shown (3 once it has played out).
    pub closed spec fn frame_spec(&self) -> u8 {
        self.frame
    }

    /// Subframes counted since the frame was last advanced.
    pub closed spec fn frame_counter_spec(&self) -> u8 {
        self.frame_counter
    }

    /// The blast just started for a ship at `obj_pos`.
    pub closed spec fn spawned(obj_pos: Point2) -> Explosion {
        Explosion {
            pos: Point2 { x: (obj_pos.x - TILE_PIXELS) as i32, y: (obj_pos.y - TILE_PIXELS) as i32 },
            frame: 0,
            frame_counter: 0,
        }
    }

    /// The blast after one call of `update` with `num_subframes`.
    pub closed spec fn after_update(self, num_subframes: u8) -> Explosion {
        let counter = self.frame_counter + 1;
        if counter == num_subframes && self.frame != 3 {
            Explosion { pos: self.pos, frame: (self.frame + 1) as u8, frame_counter: 0 }
        } else {
            Explosion { pos: self.pos, frame: self.frame, frame_counter: counter as u8 }
        }
    }

    /// What `spawned` and `after_update` give, field by field, and that a
    /// blast is fixed by its position, frame and counter.
    pub proof fn lemma_spec_fns(obj_pos: Point2, e: Explosion, num_subframes: u8)
        ensures
            Explosion::spawned(obj_pos).pos_spec()
                == (Point2 { x: (obj_pos.x - TILE_PIXELS) as i32, y: (obj_pos.y - TILE_PIXELS) as i32 }),
            Explosion::spawned(obj_pos).frame_spec() == 0,
            Explosion::spawned(obj_pos).frame_counter_spec() == 0,
            e.after_update(num_subframes).pos_spec() == e.pos_spec(),
            e.frame_counter_spec() + 1 == num_subframes && e.frame_spec() != 3 ==> {
                &&& e.after_update(num_subframes).frame_spec() == (e.frame_spec() + 1) as u8
                &&& e.after_update(num_subframes).frame_counter_spec() == 0
            },
            !(e.frame_counter_spec() + 1 == num_subframes && e.frame_spec() != 3) ==> {
                &&& e.after_update(num_subframes).frame_spec() == e.frame_spec()
                &&& e.after_update(num_subframes).frame_counter_spec() == (e.frame_counter_spec() + 1) as u8
            },
            forall|a: Explosion, b: Explosion|
                a.pos_spec() == b.pos_spec() && a.frame_spec() == b.frame_spec()
                    && #[trigger] a.frame_counter_spec() == #[trigger] b.frame_counter_spec() ==> a == b,
    {
    }

    /// A blast centred on a ship whose top left corner is at `obj_pos`: the
    /// blast is three tiles wide, so it starts a tile up and to the left.
    pub fn new(obj_pos: Point2) -> (r: Explosion)
        requires
            obj_pos.x - TILE_PIXELS >= i32::MIN,
            obj_pos.y - TILE_PIXELS >= i32::MIN,
        ensures
            r == Explosion::spawned(obj_pos),
            r.pos_spec() == (Point2 { x: (obj_pos.x - TILE_PIXELS) as i32, y: (obj_pos.y - TILE_PIXELS) as i32 }),
            r.frame_spec() == 0,
            r.frame_counter_spec() == 0,
    {
        Explosion {
            pos: Point2 { x: obj_pos.x - TILE_PIXELS, y: obj_pos.y - TILE_PIXELS },
            frame: 0,
            frame_counter: 0,
        }
    }

    /// Frame of the animation shown.
    pub fn frame(&self) -> (r: u8)
        ensures
            r == self.frame_spec(),
    {
        self.frame
    }

    /// Subframes counted since the frame last advanced.
    pub fn frame_counter(&self) -> (r: u8)
        ensures
            r == self.frame_counter_spec(),
    {
        self.frame_counter
    }

    /// Top left corner of the blast.
    pub fn pos(&self) -> (r: Point2)
        ensures
            r == self.pos_spec(),
    {
        self.pos
    }

    /// One subframe: counts it, and after `num_subframes` of them moves to the
    /// next frame unless the animation has played out. Returns whether it had
    /// played out before this call (the blast is then gone).
    pub fn update(&mut self, num_subframes: u8) -> (done: bool)
        requires
            old(self).frame_counter_spec() < 255,
            old(self).frame_spec() <= 3,
        ensures
            done == (old(self).frame_spec() == 3),
            *final(self) == old(self).after_update(num_subframes),
            final(self).pos_spec() == old(self).pos_spec(),
            final(self).frame_spec() <= 3,
            old(self).frame_counter_spec() + 1 == num_subframes && !done ==> {
                &&& final(self).frame_counter_spec() == 0
                &&& final(self).frame_spec() == old(self).frame_spec() + 1
            },
            !(old(self).frame_counter_spec() + 1 == num_subframes && !done) ==> {
                &&& final(self).frame_counter_spec() == old(self).frame_counter_spec() + 1
                &&& final(self).frame_spec() == old(self).frame_spec()
            },
    {
        self.frame_counter = self.frame_counter + 1;
        let done = self.frame == 3;
        if self.frame_counter == num_subframes && !done {
            self.frame_counter = 0;
            self.frame = self.frame + 1;
        }
        done
    }

    /// How to draw the blast seen from `camera`: frame `f` of the image is
    /// the three-tile square at column `3 f`.
    pub open spec fn sprite_spec(&self, camera: Point2) -> SpriteDraw {
        SpriteDraw {
            dest: screen_pos(self.pos_spec(), camera),
            atlas: TileRect {
                origin: TilePoint { x: (self.frame_spec() * 3) as u8, y: 0 },
                size: TileSize { width: 3, height: 3 },
            },
            z: 3,
        }
    }

    /// How to draw the blast seen from `camera`, as `sprite_spec` says.
    pub fn sprite(&self, camera: Point2) -> (r: SpriteDraw)
        requires
            on_screen_fits(self.pos_spec(), camera),
            self.frame_spec() <= 3,
        ensures
            r == self.sprite_spec(camera),
    {
        SpriteDraw {
            dest: to_screen(self.pos, camera),
            atlas: TileRect {
                origin: TilePoint { x: self.frame * 3, y: 0 },
                size: TileSize { width: 3, height: 3 },
            },
            z: 3,
        }
    }
}

/// The state of the portal's animation.
#[derive(Clone, Copy, PartialEq, Eq, Structural, Debug)]
pub enum PortalAnimation {
    /// Turning, frame 0 to 3.
    Idle { frame: u8 },
    /// Falling in once reached, frame 0 or 1.
    Collapsing { frame: u8 },
    /// Gone.
    DoneCollapsing,
}

/// The image that the portal is drawn from.
#[derive(Clone, Copy, PartialEq, Eq, Structural, Debug)]
pub enum PortalImage {
    Idle,
    Collapse,
}

/// The goal of a level: reaching it ends the level.
#[derive(Clone, Copy, Debug)]
pub struct Portal {
    center_pos: TilePoint,
    anim: PortalAnimation,
}

/// Whether two pixel rectangles have centres less than `limit` pixels apart.
pub open spec fn centers_within(a: PixelRect, b: PixelRect, limit: int) -> bool {
    center_distance4_sq(a, b) < 4 * limit * limit
}

impl Portal {
    /// Tile at the centre of the portal.
    pub closed spec fn center_spec(&self) -> TilePoint {
        self.center_pos
    }

    /// State of the animation.
    pub closed spec fn anim_spec(&self) -> PortalAnimation {
        self.anim
    }

    /// The frames stay in the ranges the animation goes through.
    pub open spec fn wf(&self) -> bool {
        match self.anim_spec() {
            PortalAnimation::Idle { frame } => frame <= 3,
            PortalAnimation::Collapsing { frame } => frame < 2,
            PortalAnimation::DoneCollapsing => true,
        }
    }

    /// Half the side of the portal, in tiles, not counting the centre tile.
    pub open spec fn half_side(&self) -> int {
        match self.anim_spec() {
            PortalAnimation::Idle { .. } => 1,
            _ => 2,
        }
    }

    /// The square of tiles the portal covers: three tiles wide while idle,
    /// five once it collapses.
    pub open spec fn rect_spec(&self) -> TileRect {
        let n = self.half_side();
        TileRect {
            origin: TilePoint { x: (self.center_spec().x - n) as u8, y: (self.center_spec().y - n) as u8 },
            size: TileSize { width: (2 * n + 1) as u8, height: (2 * n + 1) as u8 },
        }
    }

    /// Whether the portal's square starts inside the tile coordinate range.
    pub open spec fn rect_fits(&self) -> bool {
        self.center_spec().x >= self.half_side() && self.center_spec().y >= self.half_side()
    }

    /// An idle portal centred on `center`.
    pub closed spec fn idle_at(center: TilePoint) -> Portal {
        Portal { center_pos: center, anim: PortalAnimation::Idle { frame: 0 } }
    }

    /// The portal starting to collapse.
    pub closed spec fn collapsing(self) -> Portal {
        Portal { center_pos: self.center_pos, anim: PortalAnimation::Collapsing { frame: 0 } }
    }

    /// The portal after one call of `update` at subframe `sub`.
    pub closed spec fn after_update(self, sub: u8) -> Portal {
        if sub != 0 {
            self
        } else {
            Portal {
                center_pos: self.center_pos,
                anim: match self.anim {
                    PortalAnimation::Idle { frame } =>
                        PortalAnimation::Idle { frame: if frame == 3 { 0 } else { (frame + 1) as u8 } },
                    PortalAnimation::Collapsing { frame } =>
                        if frame + 1 == 2 {
                            PortalAnimation::DoneCollapsing
                        } else {
                            PortalAnimation::Collapsing { frame: (frame + 1) as u8 }
                        },
                    PortalAnimation::DoneCollapsing => PortalAnimation::DoneCollapsing,
                },
            }
        }
    }

    /// What `idle_at`, `collapsing` and `after_update` give, field by field,
    /// and that a portal is fixed by its centre and animation.
    pub proof fn lemma_spec_fns(center: TilePoint, p: Portal, sub: u8)
        ensures
            Portal::idle_at(center).center_spec() == center,
            Portal::idle_at(center).anim_spec() == (PortalAnimation::Idle { frame: 0 }),
            p.collapsing().center_spec() == p.center_spec(),
            p.collapsing().anim_spec() == (PortalAnimation::Collapsing { frame: 0 }),
            p.after_update(sub).center_spec() == p.center_spec(),
            sub != 0 ==> p.after_update(sub).anim_spec() == p.anim_spec(),
            sub == 0 ==> p.after_update(sub).anim_spec() == match p.anim_spec() {
                PortalAnimation::Idle { frame } =>
                    PortalAnimation::Idle { frame: if frame == 3 { 0 } else { (frame + 1) as u8 } },
                PortalAnimation::Collapsing { frame } =>
                    if frame + 1 == 2 {
                        PortalAnimation::DoneCollapsing
                    } else {
                        PortalAnimation::Collapsing { frame: (frame + 1) as u8 }
                    },
                PortalAnimation::DoneCollapsing => PortalAnimation::DoneCollapsing,
            },
            forall|a: Portal, b: Portal|
                #[trigger] a.center_spec() == #[trigger] b.center_spec() && a.anim_spec() == b.anim_spec() ==> a == b,
    {
    }

    /// An idle portal centred on `center_pos`.
    pub fn new(center_pos: TilePoint) -> (r: Portal)
        ensures
            r == Portal::idle_at(center_pos),
            r.center_spec() == center_pos,
            r.anim_spec() == (PortalAnimation::Idle { frame: 0 }),
            r.wf(),
    {
        Portal { center_pos, anim: PortalAnimation::Idle { frame: 0 } }
    }

    /// The state of the animation.
    pub fn anim(&self) -> (r: PortalAnimation)
        ensures
            r == self.anim_spec(),
    {
        self.anim
    }

    /// Whether the portal's square starts inside the tile coordinate range.
    pub fn rect_fits_exec(&self) -> (r: bool)
        ensures
            r == self.rect_fits(),
    {
        let n: u8 = match self.anim {
            PortalAnimation::Idle { .. } => 1,
            _ => 2,
        };
        self.center_pos.x >= n && self.center_pos.y >= n
    }

    /// Whether the frames are in the ranges the animation goes through.
    pub fn wf_exec(&self) -> (r: bool)
        ensures
            r == self.wf(),
    {
        match self.anim {
            PortalAnimation::Idle { frame } => frame <= 3,
            PortalAnimation::Collapsing { frame } => frame < 2,
            PortalAnimation::DoneCollapsing => true,
        }
    }

    /// The square of tiles the portal covers.
    pub fn rect(&self) -> (r: TileRect)
        requires
            self.rect_fits(),
        ensures
            r == self.rect_spec(),
    {
        let n: u8 = match self.anim {
            PortalAnimation::Idle { .. } => 1,
            _ => 2,
        };
        TileRect {
            origin: TilePoint { x: self.center_pos.x - n, y: self.center_pos.y - n },
            size: TileSize { width: 2 * n + 1, height: 2 * n + 1 },
        }
    }

    /// Whether an object's centre is less than two tiles from the portal's.
    pub fn collides_with(&self, obj_rect: PixelRect) -> (r: bool)
        requires
            self.rect_fits(),
        ensures
            r == centers_within(obj_rect, self.rect_spec().to_pixel_spec(), 2 * TILE_PIXELS),
    {
        let own = self.rect().to_pixel();
        center_distance4_sq_exec(obj_rect, own) < 4 * 16 * 16
    }

    /// Starts the collapse once the ship has reached the portal.
    pub fn set_collapsing(&mut self)
        ensures
            *final(self) == old(self).collapsing(),
            final(self).center_spec() == old(self).center_spec(),
            final(self).anim_spec() == (PortalAnimation::Collapsing { frame: 0 }),
            final(self).wf(),
    {
        self.anim = PortalAnimation::Collapsing { frame: 0 };
    }

    /// One subframe. At the first subframe of a full frame the animation
    /// advances: an idle portal turns (frame 3 back to 0), a collapsing one
    /// moves on and is done after its second frame. Returns whether the
    /// collapse had ended at that subframe.
    pub fn update(&mut self, subframe_counter: u8) -> (r: bool)
        requires
            old(self).wf(),
        ensures
            *final(self) == old(self).after_update(subframe_counter),
            final(self).wf(),
            final(self).center_spec() == old(self).center_spec(),
            r == (subframe_counter == 0 && old(self).anim_spec() == PortalAnimation::DoneCollapsing),
            subframe_counter != 0 ==> final(self).anim_spec() == old(self).anim_spec(),
            subframe_counter == 0 ==> final(self).anim_spec() == match old(self).anim_spec() {
                PortalAnimation::Idle { frame } =>
                    PortalAnimation::Idle { frame: if frame == 3 { 0 } else { (frame + 1) as u8 } },
                PortalAnimation::Collapsing { frame } =>
                    if frame + 1 == 2 {
                        PortalAnimation::DoneCollapsing
                    } else {
                        PortalAnimation::Collapsing { frame: (frame + 1) as u8 }
                    },
                PortalAnimation::DoneCollapsing => PortalAnimation::DoneCollapsing,
            },
    {
        if subframe_counter == 0 {
            match self.anim {
                PortalAnimation::Idle { frame } => {
                    self.anim = PortalAnimation::Idle { frame: if frame == 3 { 0 } else { frame + 1 } };
                },
                PortalAnimation::Collapsing { frame } => {
                    let next = frame + 1;
                    if next == 2 {
                        self.anim = PortalAnimation::DoneCollapsing;
                    } else {
                        self.anim = PortalAnimation::Collapsing { frame: next };
                    }
                },
                PortalAnimation::DoneCollapsing => {
                    return true;
                },
            }
        }
        false
    }

    /// How to draw the portal seen from `camera`: idle frame `f` is at column
    /// `3 f` of the idle image, collapse frame `f` at column `5 f` of the
    /// collapse image, and the collapsed portal at column 10 of it.
    pub open spec fn sprite_spec(&self, camera: Point2) -> (PortalImage, SpriteDraw) {
        (
            if self.anim_spec() is Idle { PortalImage::Idle } else { PortalImage::Collapse },
            SpriteDraw {
                dest: screen_pos(self.rect_spec().origin.to_pixel_spec(), camera),
                atlas: TileRect {
                    origin: TilePoint {
                        x: match self.anim_spec() {
                            PortalAnimation::Idle { frame } => (frame * 3) as u8,
                            PortalAnimation::Collapsing { frame } => (frame * 5) as u8,
                            PortalAnimation::DoneCollapsing => 10u8,
                        },
                        y: 0,
                    },
                    size: self.rect_spec().size,
                },
                z: 3,
            },
        )
    }

    /// How to draw the portal seen from `camera`, as `sprite_spec` says.
    pub fn sprite(&self, camera: Point2) -> (r: (PortalImage, SpriteDraw))
        requires
            self.wf(),
            self.rect_fits(),
            on_screen_fits(self.rect_spec().origin.to_pixel_spec(), camera),
        ensures
            r == self.sprite_spec(camera),
    {
        let (image, atlas_x): (PortalImage, u8) = match self.anim {
            PortalAnimation::Idle { frame } => (PortalImage::Idle, frame * 3),
            PortalAnimation::Collapsing { frame } => (PortalImage::Collapse, frame * 5),
            PortalAnimation::DoneCollapsing => (PortalImage::Collapse, 10),
        };
        let rect = self.rect();
        (image, SpriteDraw {
            dest: to_screen(rect.origin.to_pixel(), camera),
            atlas: TileRect { origin: TilePoint { x: atlas_x, y: 0 }, size: rect.size },
            z: 3,
        })
    }
}

/// A black hole: it pulls the ship towards itself and destroys it on contact.
#[derive(Clone, Copy, Debug)]
pub struct BlackHole {
    center_pos: TilePoint,
    frame: u8,
}

/// Whether `r` is the distance `sqrt(q) / 2` rounded to the nearest whole
/// number, halves away from zero.
pub open spec fn is_rounded_half_sqrt(q: int, r: int) -> bool {
    &&& r >= 0
    &&& (r == 0 || (2 * r - 1) * (2 * r - 1) <= q)
    &&& q < (2 * r + 1) * (2 * r + 1)
}

/// The distance `sqrt(q) / 2` rounded to the nearest whole number.
pub open spec fn rounded_half_sqrt(q: int) -> int {
    choose|r: int| #[trigger] is_rounded_half_sqrt(q, r)
}

/// Strength of the pull at a rounded distance `d` pixels: 6 within 12
/// pixels, one less for every further 12, none from 72 on.
pub open spec fn pull_strength(d: int) -> int {
    if d >= 72 { 0 } else { 6 - d / 12 }
}

/// Direction of the pull along one axis: towards the hole from the side on
/// which the object sticks out of it.
pub open spec fn pull_sign(obj_min: int, obj_max: int, own_min: int, own_max: int) -> int {
    (if obj_min < own_min { 1int } else { 0int }) + (if obj_max > own_max { -1int } else { 0int })
}

/// The rounded distance is unique.
pub proof fn lemma_rounded_half_sqrt_unique(q: int, a: int, b: int)
    requires
        is_rounded_half_sqrt(q, a),
        is_rounded_half_sqrt(q, b),
    ensures
        a == b,
{
    if a < b {
        assert((2 * a + 1) * (2 * a + 1) <= (2 * b - 1) * (2 * b - 1)) by (nonlinear_arith)
            requires 0 <= a, a + 1 <= b;
    } else if b < a {
        assert((2 * b + 1) * (2 * b + 1) <= (2 * a - 1) * (2 * a - 1)) by (nonlinear_arith)
            requires 0 <= b, b + 1 <= a;
    }
}

/// Every non-negative `q` has a rounded distance.
pub proof fn lemma_rounded_half_sqrt_exists(q: int)
    requires
        q >= 0,
    ensures
        exists|r: int| #[trigger] is_rounded_half_sqrt(q, r),
    decreases q,
{
    if q == 0 {
        assert(q < (2 * 0 + 1) * (2 * 0 + 1)) by (nonlinear_arith)
            requires q == 0;
        assert(is_rounded_half_sqrt(q, 0));
    } else {
        lemma_rounded_half_sqrt_exists(q - 1);
        let r = choose|r: int| #[trigger] is_rounded_half_sqrt(q - 1, r);
        if q < (2 * r + 1) * (2 * r + 1) {
            assert(is_rounded_half_sqrt(q, r));
        } else {
            assert((2 * r + 1) * (2 * r + 1) < (2 * r + 3) * (2 * r + 3)) by (nonlinear_arith)
                requires r >= 0;
            assert(is_rounded_half_sqrt(q, r + 1));
        }
    }
}

impl BlackHole {
    /// Tile at the centre of the hole.
    pub closed spec fn center_spec(&self) -> TilePoint {
        self.center_pos
    }

    /// Frame of the animation, 0 to 3.
    pub closed spec fn frame_spec(&self) -> u8 {
        self.frame
    }

    /// The three-tile square the hole covers.
    pub open spec fn rect_spec(&self) -> TileRect {
        TileRect {
            origin: TilePoint { x: (self.center_spec().x - 1) as u8, y: (self.center_spec().y - 1) as u8 },
            size: TileSize { width: 3, height: 3 },
        }
    }

    /// Whether the hole's square starts inside the tile coordinate range.
    pub open spec fn rect_fits(&self) -> bool {
        self.center_spec().x >= 1 && self.center_spec().y >= 1
    }

    /// The pull of the hole on an object.
    pub open spec fn influence_spec(&self, obj: PixelRect) -> Vector2 {
        let own = self.rect_spec().to_pixel_spec();
        let strength = pull_strength(rounded_half_sqrt(center_distance4_sq(obj, own)));
        Vector2 {
            x: (pull_sign(obj.min_x(), obj.max_x(), own.min_x(), own.max_x()) * strength) as i32,
            y: (pull_sign(obj.min_y(), obj.max_y(), own.min_y(), own.max_y()) * strength) as i32,
        }
    }

    /// A hole centred on `center`, at its first frame.
    pub closed spec fn spawned(center: TilePoint) -> BlackHole {
        BlackHole { center_pos: center, frame: 0 }
    }

    /// The hole after one call of `update` at subframe `sub`.
    pub closed spec fn after_update(self, sub: u8) -> BlackHole {
        if sub != 0 {
            self
        } else {
            BlackHole { center_pos: self.center_pos, frame: if self.frame == 3 { 0 } else { (self.frame + 1) as u8 } }
        }
    }

    /// What `spawned` and `after_update` give, field by field, and that a
    /// hole is fixed by its centre and frame.
    pub proof fn lemma_spec_fns(center: TilePoint, h: BlackHole, sub: u8)
        ensures
            BlackHole::spawned(center).center_spec() == center,
            BlackHole::spawned(center).frame_spec() == 0,
            h.after_update(sub).center_spec() == h.center_spec(),
            sub != 0 ==> h.after_update(sub).frame_spec() == h.frame_spec(),
            sub == 0 ==> h.after_update(sub).frame_spec() == if h.frame_spec() == 3 { 0 } else { (h.frame_spec() + 1) as u8 },
            forall|a: BlackHole, b: BlackHole|
                #[trigger] a.center_spec() == #[trigger] b.center_spec() && a.frame_spec() == b.frame_spec() ==> a == b,
    {
    }

    /// A hole centred on `center_pos`.
    pub fn new(center_pos: TilePoint) -> (r: BlackHole)
        ensures
            r == BlackHole::spawned(center_pos),
            r.center_spec() == center_pos,
            r.frame_spec() == 0,
    {
        BlackHole { center_pos, frame: 0 }
    }

    /// Whether the hole's square starts inside the tile coordinate range.
    pub fn rect_fits_exec(&self) -> (r: bool)
        ensures
            r == self.rect_fits(),
    {
        self.center_pos.x >= 1 && self.center_pos.y >= 1
    }

    /// Frame of the animation.
    pub fn frame(&self) -> (r: u8)
        ensures
            r == self.frame_spec(),
    {
        self.frame
    }

    /// The three-tile square the hole covers.
    pub fn rect(&self) -> (r: TileRect)
        requires
            self.rect_fits(),
        ensures
            r == self.rect_spec(),
    {
        TileRect {
            origin: TilePoint { x: self.center_pos.x - 1, y: self.center_pos.y - 1 },
            size: TileSize { width: 3, height: 3 },
        }
    }

    /// One subframe: at the first subframe of a full frame the animation
    /// turns, frame 3 back to 0.
    pub fn update(&mut self, subframe_counter: u8)
        requires
            old(self).frame_spec() <= 3,
        ensures
            *final(self) == old(self).after_update(subframe_counter),
            final(self).center_spec() == old(self).center_spec(),
            final(self).frame_spec() == (if subframe_counter != 0 {
                old(self).frame_spec()
            } else if old(self).frame_spec() == 3 {
                0
            } else {
                (old(self).frame_spec() + 1) as u8
            }),
    {
        if subframe_counter == 0 {
            self.frame = if self.frame == 3 { 0 } else { self.frame + 1 };
        }
    }

    /// Whether an object's centre is less than a tile and a half from the
    /// hole's.
    pub fn collides_with(&self, obj_rect: PixelRect) -> (r: bool)
        requires
            self.rect_fits(),
        ensures
            r == centers_within(obj_rect, self.rect_spec().to_pixel_spec(), 3 * TILE_PIXELS / 2),
    {
        let own = self.rect().to_pixel();
        center_distance4_sq_exec(obj_rect, own) < 576
    }

    /// The pull on an object: along each axis on which the object sticks out
    /// of the hole on one side only, towards the hole, with a strength that
    /// falls with the rounded distance between the centres.
    pub fn influence(&self, obj_rect: PixelRect) -> (r: Vector2)
        requires
            self.rect_fits(),
            i32::MIN <= obj_rect.max_x() <= i32::MAX,
            i32::MIN <= obj_rect.max_y() <= i32::MAX,
        ensures
            r == self.influence_spec(obj_rect),
            -6 <= r.x <= 6,
            -6 <= r.y <= 6,
    {
        let own = self.rect().to_pixel();
        let q = center_distance4_sq_exec(obj_rect, own);
        let ghost qi = q as int;
        let mut d: u128 = 0;
        let mut sq: u128 = 1;
        assert(sq == (2 * d + 1) * (2 * d + 1)) by (nonlinear_arith)
            requires d == 0, sq == 1;
        while d < 72 && q >= sq
            invariant
                d <= 72,
                qi == q,
                sq == (2 * d + 1) * (2 * d + 1),
                d == 0 || (2 * d - 1) * (2 * d - 1) <= qi,
                forall|e: int| 0 <= e < d ==> !#[trigger] is_rounded_half_sqrt(qi, e),
            decreases 72 - d,
        {
            assert(!is_rounded_half_sqrt(qi, d as int));
            assert((2 * d + 3) * (2 * d + 3) == (2 * d + 1) * (2 * d + 1) + 8 * d + 8) by (nonlinear_arith);
            assert((2 * d + 1) * (2 * d + 1) <= 145 * 145) by (nonlinear_arith)
                requires d < 72;
            sq = sq + 8 * d + 8;
            d += 1;
        }
        let found = d < 72;
        assert(found ==> is_rounded_half_sqrt(qi, d as int));
        let strength: i32 = if found { 6 - (d / 12) as i32 } else { 0 };
        proof {
            lemma_center_distance4_sq_nonneg(obj_rect, own);
            lemma_rounded_half_sqrt_exists(qi);
            let e = rounded_half_sqrt(qi);
            assert(is_rounded_half_sqrt(qi, e));
            assert forall|e: int| #[trigger] is_rounded_half_sqrt(qi, e) implies pull_strength(e) == strength by {
                if found {
                    lemma_rounded_half_sqrt_unique(qi, e, d as int);
                } else {
                    assert(e >= 72);
                }
            }
        }
        let sx: i32 = (if obj_rect.origin.x < own.origin.x { 1i32 } else { 0i32 })
            + (if obj_rect.origin.x + obj_rect.size.width > own.origin.x + own.size.width { -1i32 } else { 0i32 });
        let sy: i32 = (if obj_rect.origin.y < own.origin.y { 1i32 } else { 0i32 })
            + (if obj_rect.origin.y + obj_rect.size.height > own.origin.y + own.size.height { -1i32 } else { 0i32 });
        assert(0 <= strength <= 6);
        let x: i32 = if sx == 1 { strength } else if sx == -1 { -strength } else { 0 };
        let y: i32 = if sy == 1 { strength } else if sy == -1 { -strength } else { 0 };
        assert(x == sx * strength && y == sy * strength) by (nonlinear_arith)
            requires
                sx == 1 ==> x == strength,
                sx == -1 ==> x == -strength,
                sx == 0 ==> x == 0,
                sy == 1 ==> y == strength,
                sy == -1 ==> y == -strength,
                sy == 0 ==> y == 0,
                -1 <= sx <= 1,
                -1 <= sy <= 1;
        Vector2 { x, y }
    }

    /// How to draw the hole seen from `camera`: frame `f` is the three-tile
    /// square at column `3 f` of its image.
    pub open spec fn sprite_spec(&self, camera: Point2) -> SpriteDraw {
        SpriteDraw {
            dest: screen_pos(self.rect_spec().origin.to_pixel_spec(), camera),
            atlas: TileRect {
                origin: TilePoint { x: (self.frame_spec() * 3) as u8, y: 0 },
                size: TileSize { width: 3, height: 3 },
            },
            z: 3,
        }
    }

    /// How to draw the hole seen from `camera`, as `sprite_spec` says.
    pub fn sprite(&self, camera: Point2) -> (r: SpriteDraw)
        requires
            self.rect_fits(),
            self.frame_spec() <= 3,
            on_screen_fits(self.rect_spec().origin.to_pixel_spec(), camera),
        ensures
            r == self.sprite_spec(camera),
    {
        let rect = self.rect();
        SpriteDraw {
            dest: to_screen(rect.origin.to_pixel(), camera),
            atlas: TileRect { origin: TilePoint { x: self.frame * 3, y: 0 }, size: rect.size },
            z: 3,
        }
    }
}

} // verus!

verus! {

/// The blast after `k` calls of `update` with `num_subframes`.
pub open spec fn explosion_after(e: Explosion, num_subframes: u8, k: nat) -> Explosion
    decreases k,
{
    if k == 0 { e } else { explosion_after(e, num_subframes, (k - 1) as nat).after_update(num_subframes) }
}

/// The strength of a hole's pull lies between 0 and 6.
proof fn lemma_pull_strength_range(obj: PixelRect, own: PixelRect)
    ensures
        0 <= pull_strength(rounded_half_sqrt(center_distance4_sq(obj, own))) <= 6,
{
    let q = center_distance4_sq(obj, own);
    lemma_center_distance4_sq_nonneg(obj, own);
    lemma_rounded_half_sqrt_exists(q);
    let r = rounded_half_sqrt(q);
    assert(is_rounded_half_sqrt(q, r));
}

/// The signed pull along one axis, for a strength between 0 and 6.
proof fn lemma_signed_strength(obj_min: int, obj_max: int, own_min: int, own_max: int, st: int)
    requires
        0 <= st <= 6,
    ensures
        (pull_sign(obj_min, obj_max, own_min, own_max) * st) as i32 == if obj_min < own_min && obj_max <= own_max {
            st
        } else if obj_max > own_max && obj_min >= own_min {
            -st
        } else {
            0
        },
{
    let sg = pull_sign(obj_min, obj_max, own_min, own_max);
    if sg == 1 {
        assert(sg * st == st);
    } else if sg == -1 {
        assert(sg * st == -st);
    } else {
        assert(sg == 0);
        assert(sg * st == 0);
    }
}

/// A hole pulls an object towards itself, on each axis from the side on
/// which the object sticks out of the hole's square, with the strength
/// that the distance between their centres gives: an object sticking out
/// above only (or to the left only) is pulled down (right) by that
/// strength, one sticking out below only (right only) up (left), and one
/// sticking out on neither side or on both is not pulled along that axis.
pub proof fn law_pull_towards_the_hole(h: BlackHole, obj: PixelRect)
    ensures
        ({
            let own = h.rect_spec().to_pixel_spec();
            let strength = pull_strength(rounded_half_sqrt(center_distance4_sq(obj, own)));
            let v = h.influence_spec(obj);
            &&& v.y == if obj.min_y() < own.min_y() && obj.max_y() <= own.max_y() {
                strength
            } else if obj.max_y() > own.max_y() && obj.min_y() >= own.min_y() {
                -strength
            } else {
                0
            }
            &&& v.x == if obj.min_x() < own.min_x() && obj.max_x() <= own.max_x() {
                strength
            } else if obj.max_x() > own.max_x() && obj.min_x() >= own.min_x() {
                -strength
            } else {
                0
            }
        }),
{
    let own = h.rect_spec().to_pixel_spec();
    lemma_pull_strength_range(obj, own);
    let st = pull_strength(rounded_half_sqrt(center_distance4_sq(obj, own)));
    lemma_signed_strength(obj.min_x(), obj.max_x(), own.min_x(), own.max_x(), st);
    lemma_signed_strength(obj.min_y(), obj.max_y(), own.min_y(), own.max_y(), st);
}

/// The pull is symmetric about the hole's centre: mirroring an object
/// vertically through the centre negates the vertical pull and keeps the
/// horizontal one.
pub proof fn law_pull_mirrors_vertically(h: BlackHole, obj: PixelRect, m: PixelRect)
    requires
        m.origin.x == obj.origin.x,
        m.size == obj.size,
        m.max_y() == h.rect_spec().to_pixel_spec().min_y() + h.rect_spec().to_pixel_spec().max_y() - obj.min_y(),
    ensures
        h.influence_spec(m).y == -h.influence_spec(obj).y,
        h.influence_spec(m).x == h.influence_spec(obj).x,
{
    let own = h.rect_spec().to_pixel_spec();
    let d = obj.center2_y() - own.center2_y();
    assert(m.center2_y() - own.center2_y() == -d);
    assert((-d) * (-d) == d * d) by (nonlinear_arith);
    assert(center_distance4_sq(m, own) == center_distance4_sq(obj, own));
    lemma_pull_strength_range(obj, own);
    let st = pull_strength(rounded_half_sqrt(center_distance4_sq(obj, own)));
    lemma_signed_strength(obj.min_x(), obj.max_x(), own.min_x(), own.max_x(), st);
    lemma_signed_strength(obj.min_y(), obj.max_y(), own.min_y(), own.max_y(), st);
    lemma_signed_strength(m.min_x(), m.max_x(), own.min_x(), own.max_x(), st);
    lemma_signed_strength(m.min_y(), m.max_y(), own.min_y(), own.max_y(), st);
}

/// The pull is symmetric about the hole's centre: mirroring an object
/// horizontally through the centre negates the horizontal pull and keeps
/// the vertical one.
pub proof fn law_pull_mirrors_horizontally(h: BlackHole, obj: PixelRect, m: PixelRect)
    requires
        m.origin.y == obj.origin.y,
        m.size == obj.size,
        m.max_x() == h.rect_spec().to_pixel_spec().min_x() + h.rect_spec().to_pixel_spec().max_x() - obj.min_x(),
    ensures
        h.influence_spec(m).x == -h.influence_spec(obj).x,
        h.influence_spec(m).y == h.influence_spec(obj).y,
{
    let own = h.rect_spec().to_pixel_spec();
    let d = obj.center2_x() - own.center2_x();
    assert(m.center2_x() - own.center2_x() == -d);
    assert((-d) * (-d) == d * d) by (nonlinear_arith);
    assert(center_distance4_sq(m, own) == center_distance4_sq(obj, own));
    lemma_pull_strength_range(obj, own);
    let st = pull_strength(rounded_half_sqrt(center_distance4_sq(obj, own)));
    lemma_signed_strength(obj.min_x(), obj.max_x(), own.min_x(), own.max_x(), st);
    lemma_signed_strength(obj.min_y(), obj.max_y(), own.min_y(), own.max_y(), st);
    lemma_signed_strength(m.min_x(), m.max_x(), own.min_x(), own.max_x(), st);
    lemma_signed_strength(m.min_y(), m.max_y(), own.min_y(), own.max_y(), st);
}

/// A new blast shows each of its frames for one full frame: after `k`
/// subframes, up to three full frames, it is at frame `k / ns` with `k % ns`
/// subframes counted. So the update at which it is found played out (and
/// removed) is the one after exactly three full frames.
pub proof fn law_explosion_lasts_three_frames(obj_pos: Point2, ns: u8, k: nat)
    requires
        ns >= 1,
        k <= 3 * ns,
    ensures
        explosion_after(Explosion::spawned(obj_pos), ns, k).frame_spec() == (k as int) / (ns as int),
        explosion_after(Explosion::spawned(obj_pos), ns, k).frame_counter_spec() == (k as int) % (ns as int),
        explosion_after(Explosion::spawned(obj_pos), ns, k).frame_spec() == 3 <==> k == 3 * ns,
    decreases k,
{
    let n = ns as int;
    if k == 0 {
        lemma_fundamental_div_mod_converse(0, n, 0, 0);
    } else {
        law_explosion_lasts_three_frames(obj_pos, ns, (k - 1) as nat);
        let prev = explosion_after(Explosion::spawned(obj_pos), ns, (k - 1) as nat);
        let q = (k - 1) as int / n;
        let r = (k - 1) as int % n;
        lemma_fundamental_div_mod((k - 1) as int, n);
        lemma_mod_bound((k - 1) as int, n);
        assert(q <= 2) by (nonlinear_arith)
            requires n * q + r == k - 1, k - 1 < 3 * n, 0 <= r, n >= 1;
        if r + 1 == n {
            assert(k == (q + 1) * n + 0) by (nonlinear_arith)
                requires n * q + r == k - 1, r + 1 == n;
            lemma_fundamental_div_mod_converse(k as int, n, q + 1, 0);
        } else {
            assert(k == q * n + (r + 1)) by (nonlinear_arith)
                requires n * q + r == k - 1;
            lemma_fundamental_div_mod_converse(k as int, n, q, r + 1);
        }
        let ki = k as int;
        assert(ki / n == 3 <==> ki == 3 * n) by {
            lemma_fundamental_div_mod(k as int, n);
            lemma_mod_bound(k as int, n);
            if ki / n == 3 {
                assert(ki >= 3 * n) by (nonlinear_arith)
                    requires n * (ki / n) + ki % n == ki, ki / n == 3, ki % n >= 0;
            }
            if ki == 3 * n {
                lemma_fundamental_div_mod_converse(k as int, n, 3, 0);
            }
        }
    }
}

} // verus!

verus! {

/// Once reached, the portal shows its two collapse frames and is gone at
/// the start of the third full frame; subframes other than the first of a
/// full frame leave it as it is.
pub proof fn law_portal_collapse(p: Portal, sub: u8)
    ensures
        p.collapsing().after_update(0).anim_spec() == (PortalAnimation::Collapsing { frame: 1 }),
        p.collapsing().after_update(0).after_update(0).anim_spec() == PortalAnimation::DoneCollapsing,
        sub != 0 ==> p.after_update(sub) == p,
{
}

/// The idle portal and the holes turn through four frames: four full
/// frames bring them back to the frame they showed.
pub proof fn law_animations_cycle_in_four(p: Portal, h: BlackHole)
    requires
        p.anim_spec() is Idle,
        p.wf(),
        h.frame_spec() <= 3,
    ensures
        p.after_update(0).after_update(0).after_update(0).after_update(0) == p,
        h.after_update(0).after_update(0).after_update(0).after_update(0) == h,
{
}

} // verus!

verus! {

/// Once played out, the blast stays at its last frame and keeps counting.
proof fn lemma_explosion_after_done(obj_pos: Point2, ns: u8, m: nat)
    requires
        ns >= 1,
        m <= 254,
    ensures
        explosion_after(Explosion::spawned(obj_pos), ns, (3 * ns + m) as nat).frame_spec() == 3,
        explosion_after(Explosion::spawned(obj_pos), ns, (3 * ns + m) as nat).frame_counter_spec() == m,
    decreases m,
{
    let n = ns as int;
    if m == 0 {
        law_explosion_lasts_three_frames(obj_pos, ns, (3 * ns) as nat);
        lemma_fundamental_div_mod_converse(3 * n, n, 3, 0);
    } else {
        lemma_explosion_after_done(obj_pos, ns, (m - 1) as nat);
        assert((3 * ns + m) as nat - 1 == (3 * ns + (m - 1)) as nat);
    }
}

/// Over any number `n >= 1` of subframes per frame, the calls of `update` on
/// a new blast answer: calls 1 to `3 n` return `false` (it is still playing),
/// calls `3 n + 1` to `3 n + 255` return `true` (it has played out), and its
/// frame never exceeds 3. Each of these calls meets `update`'s requirement.
/// (The caller drops the blast at the first `true`.)
pub proof fn law_explosion_calls(obj_pos: Point2, ns: u8, j: nat)
    requires
        ns >= 1,
        1 <= j <= 3 * ns + 255,
    ensures
        ({
            let before = explosion_after(Explosion::spawned(obj_pos), ns, (j - 1) as nat);
            &&& before.frame_spec() <= 3
            &&& before.frame_counter_spec() < 255
            &&& (before.frame_spec() == 3 <==> j > 3 * ns)
        }),
{
    let k = (j - 1) as nat;
    if k <= 3 * ns {
        law_explosion_lasts_three_frames(obj_pos, ns, k);
        let n = ns as int;
        lemma_fundamental_div_mod(k as int, n);
        lemma_mod_bound(k as int, n);
        assert((k as int) / n <= 3) by (nonlinear_arith)
            requires n * ((k as int) / n) + (k as int) % n == k, (k as int) % n >= 0, k <= 3 * n, n >= 1;
    } else {
        lemma_explosion_after_done(obj_pos, ns, (k - 3 * ns) as nat);
        assert((3 * ns + (k - 3 * ns)) as nat == k);
    }
}

} // verus!

verus! {

/// The portal after calls of `update` at the subframes `subs`, in order.
pub open spec fn portal_after(p: Portal, subs: Seq<u8>) -> Portal
    decreases subs.len(),
{
    if subs.len() == 0 { p } else { portal_after(p, subs.drop_last()).after_update(subs.last()) }
}

/// How many of `subs` are first subframes of a full frame.
pub open spec fn first_subframes(subs: Seq<u8>) -> nat
    decreases subs.len(),
{
    if subs.len() == 0 {
        0
    } else {
        first_subframes(subs.drop_last()) + if subs.last() == 0 { 1nat } else { 0nat }
    }
}

/// What call `i` (from 0) of `update` returns, in a run of calls at the
/// subframes `subs` on `p`.
pub open spec fn portal_call_returns(p: Portal, subs: Seq<u8>, i: int) -> bool {
    subs[i] == 0 && portal_after(p, subs.take(i)).anim_spec() == PortalAnimation::DoneCollapsing
}

/// An idle portal stays idle, at a frame from 0 to 3, whatever calls of
/// `update` it gets: no call returns `true` before the collapse starts.
pub proof fn law_idle_portal_never_done(p: Portal, subs: Seq<u8>)
    requires
        p.anim_spec() is Idle,
        p.wf(),
    ensures
        portal_after(p, subs).anim_spec() is Idle,
        portal_after(p, subs).wf(),
        portal_after(p, subs).center_spec() == p.center_spec(),
        forall|i: int| 0 <= i < subs.len() ==> !#[trigger] portal_call_returns(p, subs, i),
    decreases subs.len(),
{
    if subs.len() > 0 {
        law_idle_portal_never_done(p, subs.drop_last());
        assert forall|i: int| 0 <= i < subs.len() implies !#[trigger] portal_call_returns(p, subs, i) by {
            law_idle_portal_never_done(p, subs.take(i));
        }
    }
}

/// After `set_collapsing`, the portal is at collapse frame 0 until a first
/// subframe, at frame 1 until the next, and done from the second on.
proof fn lemma_collapse_progress(p: Portal, subs: Seq<u8>)
    ensures
        portal_after(p.collapsing(), subs).anim_spec() == (if first_subframes(subs) == 0 {
            PortalAnimation::Collapsing { frame: 0 }
        } else if first_subframes(subs) == 1 {
            PortalAnimation::Collapsing { frame: 1 }
        } else {
            PortalAnimation::DoneCollapsing
        }),
    decreases subs.len(),
{
    if subs.len() > 0 {
        lemma_collapse_progress(p, subs.drop_last());
    }
}

/// After `set_collapsing`, in any run of calls of `update`, a call returns
/// `true` exactly when it is at a first subframe and at least two first
/// subframes came before it since the collapse started: first on the third
/// call at a first subframe, and on every later one.
pub proof fn law_collapse_ends_on_third_first_subframe(p: Portal, subs: Seq<u8>, i: int)
    requires
        0 <= i < subs.len(),
    ensures
        portal_call_returns(p.collapsing(), subs, i) <==> (subs[i] == 0 && first_subframes(subs.take(i)) >= 2),
{
    lemma_collapse_progress(p, subs.take(i));
}

} // verus!
