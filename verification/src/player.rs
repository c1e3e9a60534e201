use vstd::prelude::*;
use vstd::arithmetic::div_mod::{lemma_div_is_ordered_by_denominator, lemma_fundamental_div_mod, lemma_mod_bound};
use crate::animated::BlackHole;
use crate::direction::{dir8_from_signs, Dir4, Dir8};
use crate::geometry::{abs_spec, signum_spec, PixelRect, Point2, Size2, TilePoint, TileRect, TileSize, ToPixel, Vector2};
use crate::keys::{steering, steering_exec, Key};
use crate::level::{first_occurrences, CollisionType, LevelCollision};
use crate::sounds::{AllSounds, AudioCommand, Sfx, SoundState};
use crate::sprite::{on_screen_fits, screen_pos, to_screen, RotatedSpriteDraw, SpriteDraw};
use crate::rounding::{
    f32_numerator, f32_numerator_exec, frac_bits, lemma_floor_log2_below, lemma_two_to_add, lemma_two_to_mono, lemma_two_to_table,
    two_to, two_to_exec,
};
use crate::units::TILE_PIXELS;

verus! {

/// Speed gained per full frame while a direction is held, in pixels per frame.
pub const PLAYER_ACCELERATION: i32 = 2;

/// Speed lost per full frame along an axis on which no direction is held.
pub const PLAYER_DECELERATION: i32 = 1;

/// Quotient of `a` by `b`, rounded towards zero.
pub open spec fn tdiv(a: int, b: int) -> int {
    if a >= 0 { a / b } else { -((-a) / b) }
}

/// Remainder of `a` by `b` that goes with `tdiv`: it has the sign of `a`.
pub open spec fn trem(a: int, b: int) -> int {
    a - b * tdiv(a, b)
}

/// Facts on `tdiv` and `trem` for a positive divisor.
pub proof fn lemma_tdiv(a: int, b: int)
    requires
        b > 0,
    ensures
        a >= 0 ==> 0 <= trem(a, b) < b && 0 <= b * tdiv(a, b) <= a,
        a < 0 ==> -b < trem(a, b) <= 0 && a <= b * tdiv(a, b) <= 0,
{
    if a >= 0 {
        lemma_fundamental_div_mod(a, b);
        lemma_mod_bound(a, b);
    } else {
        lemma_fundamental_div_mod(-a, b);
        lemma_mod_bound(-a, b);
        assert(b * tdiv(a, b) == -(b * ((-a) / b))) by (nonlinear_arith)
            requires tdiv(a, b) == -((-a) / b);
    }
}

/// The subframe at which the `s`-th of `m` single-pixel steps falls: the
/// spacing `ns / m` and its product with `s` are each rounded to single
/// precision floating point, and the whole part of the product is taken.
pub open spec fn slot(s: int, ns: int, m: int) -> int {
    if s <= 0 || m <= 0 {
        0
    } else {
        let k = frac_bits((ns / m) as nat);
        let t = f32_numerator(ns as nat, m as nat) * (s as nat);
        let j = frac_bits(t / two_to(k));
        (f32_numerator(t, two_to(k)) / two_to(j)) as int
    }
}

/// Whether subframe `k` of `ns` takes one of `m` single-pixel steps: the
/// subframes `slot(s, ns, m)` for `s` from 0 below `ns` are marked, those
/// that lie inside the frame.
pub open spec fn subframe_marked(k: int, ns: int, m: int) -> bool {
    m != 0 && exists|s: int| 0 <= s < ns && #[trigger] slot(s, ns, m) == k
}

/// Position along one axis after one subframe: the whole part of the
/// velocity's share, plus one pixel in the velocity's direction at the
/// subframes that take a step of the remainder.
pub open spec fn advanced(pos: int, vel: int, sub: int, ns: int) -> int {
    let r = trem(vel, ns);
    pos + tdiv(vel, ns) + (if subframe_marked(sub, ns, abs_spec(r)) { signum_spec(r) } else { 0 })
}

/// Whether the steps of `advanced` stay in the pixel coordinate range.
pub open spec fn advance_fits(pos: int, vel: int, sub: int, ns: int) -> bool {
    &&& i32::MIN <= pos + tdiv(vel, ns) <= i32::MAX
    &&& i32::MIN <= advanced(pos, vel, sub, ns) <= i32::MAX
}

/// Velocity along one axis after a full frame of steering: `input` is -1, 0
/// or 1. With no input the speed falls by `PLAYER_DECELERATION` towards 0;
/// otherwise it grows by `PLAYER_ACCELERATION` in the input's direction.
pub open spec fn accelerated(vel: int, input: int) -> int {
    if input == 0 {
        if abs_spec(vel) < PLAYER_DECELERATION { 0 } else { vel - signum_spec(vel) * PLAYER_DECELERATION }
    } else {
        vel + input * PLAYER_ACCELERATION
    }
}

/// Whether `accelerated` stays in range (its absolute value is taken first).
pub open spec fn accel_fits(vel: int, input: int) -> bool {
    &&& (input == 0 ==> vel != i32::MIN)
    &&& i32::MIN <= accelerated(vel, input) <= i32::MAX
}

/// The direction of the first bumper in `s`, if there is one.
pub open spec fn first_bouncy(s: Seq<CollisionType>) -> Option<Dir4>
    decreases s.len(),
{
    if s.len() == 0 {
        None
    } else {
        match s[0] {
            CollisionType::Bouncy { normal_dir } => Some(normal_dir),
            _ => first_bouncy(s.drop_first()),
        }
    }
}

/// Velocity after hitting a bumper facing `normal`: the component along the
/// normal points away from the bumper, with its size kept.
pub open spec fn bounced_vel(vel: Vector2, normal: Dir4) -> (int, int) {
    match normal {
        Dir4::Up => (vel.x as int, -abs_spec(vel.y as int)),
        Dir4::Right => (abs_spec(vel.x as int), vel.y as int),
        Dir4::Down => (vel.x as int, abs_spec(vel.y as int)),
        Dir4::Left => (-abs_spec(vel.x as int), vel.y as int),
    }
}

/// Whether `bounced_vel` stays in range.
pub open spec fn bounce_fits(vel: Vector2, normal: Dir4) -> bool {
    match normal {
        Dir4::Up | Dir4::Down => vel.y != i32::MIN,
        Dir4::Right | Dir4::Left => vel.x != i32::MIN,
    }
}

/// Sum of the pulls of the holes on an object, hole after hole.
pub open spec fn total_pull(holes: Seq<BlackHole>, obj: PixelRect) -> (int, int)
    decreases holes.len(),
{
    if holes.len() == 0 {
        (0, 0)
    } else {
        let p = total_pull(holes.drop_last(), obj);
        let i = holes.last().influence_spec(obj);
        (p.0 + i.x, p.1 + i.y)
    }
}

/// Whether every hole's square lies in the tile range and every partial sum
/// of their pulls fits the pixel range.
pub open spec fn pull_fits(holes: Seq<BlackHole>, obj: PixelRect) -> bool {
    &&& forall|i: int| 0 <= i < holes.len() ==> (#[trigger] holes[i]).rect_fits()
    &&& forall|k: int| 0 <= k <= holes.len() ==> {
        let p = #[trigger] total_pull(holes.take(k), obj);
        &&& i32::MIN <= p.0 <= i32::MAX
        &&& i32::MIN <= p.1 <= i32::MAX
    }
}

/// Computes `slot(s, ns, m)`.
fn slot_exec(s: u8, ns: u8, m: u32) -> (r: u64)
    requires
        0 < m < ns,
    ensures
        r == slot(s as int, ns as int, m as int),
{
    if s == 0 {
        return 0;
    }
    proof {
        lemma_two_to_table();
        assert(ns as u64 / m as u64 <= 255);
        assert(ns as u64 / m as u64 >= 1) by (nonlinear_arith)
            requires 0 < m < ns;
    }
    let (d, k) = f32_numerator_exec(ns as u64, m as u64);
    proof {
        lemma_floor_log2_below((ns as u64 / m as u64) as nat, 8);
    }
    assert(d * (s as u64) < 0x1_0000_0000) by (nonlinear_arith)
        requires d <= 0x100_0000, s < 256;
    let t = d * (s as u64);
    let scale = two_to_exec(k);
    proof {
        lemma_two_to_mono(16, k as nat);
        lemma_div_is_ordered_by_denominator(t as int, 0x1_0000, scale as int);
        assert(t / 0x1_0000 <= 0x1_0000) by (nonlinear_arith)
            requires t < 0x1_0000_0000;
    }
    let (p, j) = f32_numerator_exec(t, scale);
    let unit = two_to_exec(j);
    proof { lemma_two_to_add(j as nat, 0); }
    p / unit
}

/// Computes whether subframe `k` takes a step, as `subframe_marked` says.
fn subframe_marked_exec(k: u8, ns: u8, m: u32) -> (r: bool)
    requires
        m < ns,
    ensures
        r == subframe_marked(k as int, ns as int, m as int),
{
    if m == 0 {
        return false;
    }
    let mut s: u8 = 0;
    while s < ns
        invariant
            0 < m < ns,
            s <= ns,
            forall|t: int| 0 <= t < s ==> #[trigger] slot(t, ns as int, m as int) != k,
        decreases ns - s,
    {
        if slot_exec(s, ns, m) == k as u64 {
            return true;
        }
        s += 1;
    }
    false
}

/// Computes whether the steps of the remainder of `vel` over `ns`
/// subframes all land, as `steps_all_land` says.
fn steps_all_land_exec(vel: i64, ns: u8) -> (r: bool)
    requires
        ns >= 1,
        i32::MIN <= vel <= i32::MAX,
    ensures
        r == steps_all_land(vel as int, ns as int),
{
    let n = ns as i64;
    let per = vel / n;
    assert(per == tdiv(vel as int, n as int));
    proof { lemma_tdiv(vel as int, n as int); }
    let rem = vel - n * per;
    assert(rem == trem(vel as int, n as int));
    let m: u32 = if rem < 0 { (-rem) as u32 } else { rem as u32 };
    let mut count: u32 = 0;
    let mut k: u8 = 0;
    while k < ns
        invariant
            m < ns,
            k <= ns,
            count == marked_count(k as int, ns as int, m as int),
            count <= k,
        decreases ns - k,
    {
        if subframe_marked_exec(k, ns, m) {
            count += 1;
        }
        k += 1;
    }
    count == m
}

/// Computes `advanced`.
fn advance_axis(pos: i32, vel: i32, sub: u8, ns: u8) -> (r: i32)
    requires
        ns >= 1,
        advance_fits(pos as int, vel as int, sub as int, ns as int),
    ensures
        r == advanced(pos as int, vel as int, sub as int, ns as int),
{
    let n = ns as i32;
    let per = vel / n;
    assert(per == tdiv(vel as int, n as int));
    proof { lemma_tdiv(vel as int, n as int); }
    let rem = vel - n * per;
    assert(rem == trem(vel as int, n as int));
    let m: u32 = if rem < 0 { (-rem) as u32 } else { rem as u32 };
    let base = pos + per;
    if subframe_marked_exec(sub, ns, m) {
        let step: i32 = if rem > 0 { 1 } else if rem < 0 { -1 } else { 0 };
        base + step
    } else {
        base
    }
}

/// Whether `advanced` stays in range, for a velocity given as a wider integer.
fn advance_fits_exec(pos: i32, vel: i64, sub: u8, ns: u8) -> (r: bool)
    requires
        ns >= 1,
        i32::MIN <= vel <= i32::MAX,
    ensures
        r == advance_fits(pos as int, vel as int, sub as int, ns as int),
{
    let n = ns as i64;
    let per = vel / n;
    assert(per == tdiv(vel as int, n as int));
    proof { lemma_tdiv(vel as int, n as int); }
    let rem = vel - n * per;
    assert(rem == trem(vel as int, n as int));
    let base = pos as i64 + per;
    if base < i32::MIN as i64 || base > i32::MAX as i64 {
        return false;
    }
    let m: u32 = if rem < 0 { (-rem) as u32 } else { rem as u32 };
    let step: i64 = if subframe_marked_exec(sub, ns, m) {
        if rem > 0 { 1 } else if rem < 0 { -1 } else { 0 }
    } else {
        0
    };
    let end = base + step;
    i32::MIN as i64 <= end && end <= i32::MAX as i64
}

/// Whether `accelerated` stays in range, and its value if it does.
fn accelerate_checked(vel: i64, input: i32) -> (r: Option<i64>)
    requires
        -1 <= input <= 1,
        i32::MIN <= vel <= i32::MAX,
    ensures
        r is Some <==> accel_fits(vel as int, input as int),
        r matches Some(a) ==> a == accelerated(vel as int, input as int),
{
    if input == 0 {
        if vel == i32::MIN as i64 {
            return None;
        }
        let a = if vel < 0 { -vel } else { vel };
        if a < PLAYER_DECELERATION as i64 {
            Some(0)
        } else {
            let sign: i64 = if vel > 0 { 1 } else if vel < 0 { -1 } else { 0 };
            Some(vel - sign * PLAYER_DECELERATION as i64)
        }
    } else {
        let step: i64 = if input > 0 { PLAYER_ACCELERATION as i64 } else { -(PLAYER_ACCELERATION as i64) };
        assert(step == input * PLAYER_ACCELERATION);
        let a = vel + step;
        if a < i32::MIN as i64 || a > i32::MAX as i64 { None } else { Some(a) }
    }
}

/// Whether every hole lies in the tile range and every partial sum of their
/// pulls fits, as `pull_fits` says.
fn pull_fits_exec(holes: &[BlackHole], obj: PixelRect) -> (r: bool)
    requires
        i32::MIN <= obj.max_x() <= i32::MAX,
        i32::MIN <= obj.max_y() <= i32::MAX,
    ensures
        r == pull_fits(holes@, obj),
{
    let n = holes.len();
    for i in 0..n
        invariant
            n == holes@.len(),
            forall|j: int| 0 <= j < i ==> (#[trigger] holes@[j]).rect_fits(),
    {
        if !holes[i].rect_fits_exec() {
            return false;
        }
    }
    let mut x: i64 = 0;
    let mut y: i64 = 0;
    assert(holes@.take(0) =~= Seq::<BlackHole>::empty());
    for i in 0..n
        invariant
            n == holes@.len(),
            i32::MIN <= obj.max_x() <= i32::MAX,
            i32::MIN <= obj.max_y() <= i32::MAX,
            forall|j: int| 0 <= j < n ==> (#[trigger] holes@[j]).rect_fits(),
            x == total_pull(holes@.take(i as int), obj).0,
            y == total_pull(holes@.take(i as int), obj).1,
            forall|k: int| 0 <= k <= i ==> {
                let p = #[trigger] total_pull(holes@.take(k), obj);
                &&& i32::MIN <= p.0 <= i32::MAX
                &&& i32::MIN <= p.1 <= i32::MAX
            },
    {
        assert(holes@[i as int].rect_fits());
        let pull = holes[i].influence(obj);
        assert(holes@.take(i + 1).drop_last() =~= holes@.take(i as int));
        assert(holes@.take(i + 1).last() == holes@[i as int]);
        x = x + pull.x as i64;
        y = y + pull.y as i64;
        if x < i32::MIN as i64 || x > i32::MAX as i64 || y < i32::MIN as i64 || y > i32::MAX as i64 {
            assert(!pull_fits(holes@, obj)) by {
                let p = total_pull(holes@.take(i + 1), obj);
                assert(!(i32::MIN <= p.0 <= i32::MAX && i32::MIN <= p.1 <= i32::MAX));
            }
            return false;
        }
    }
    true
}

/// Computes `accelerated`.
fn accelerate_axis(vel: i32, input: i32) -> (r: i32)
    requires
        -1 <= input <= 1,
        accel_fits(vel as int, input as int),
    ensures
        r == accelerated(vel as int, input as int),
{
    if input == 0 {
        let a = if vel < 0 { -vel } else { vel };
        if a < PLAYER_DECELERATION {
            0
        } else {
            let sign: i32 = if vel > 0 { 1 } else if vel < 0 { -1 } else { 0 };
            vel - sign * PLAYER_DECELERATION
        }
    } else {
        vel + input * PLAYER_ACCELERATION
    }
}

/// Computes `first_bouncy`.
fn first_bouncy_exec(tiles: &Vec<CollisionType>) -> (r: Option<Dir4>)
    ensures
        r == first_bouncy(tiles@),
{
    let n = tiles.len();
    let mut i: usize = 0;
    assert(tiles@.subrange(0, n as int) =~= tiles@);
    while i < n
        invariant
            i <= n == tiles@.len(),
            first_bouncy(tiles@) == first_bouncy(tiles@.subrange(i as int, n as int)),
        decreases n - i,
    {
        let ghost rest = tiles@.subrange(i as int, n as int);
        assert(rest[0] == tiles@[i as int]);
        match tiles[i] {
            CollisionType::Bouncy { normal_dir } => {
                return Some(normal_dir);
            },
            _ => {},
        }
        assert(rest.drop_first() =~= tiles@.subrange(i + 1, n as int));
        i += 1;
    }
    None
}

/// Computes `total_pull`.
fn total_pull_exec(holes: &[BlackHole], obj: PixelRect) -> (r: Vector2)
    requires
        pull_fits(holes@, obj),
        i32::MIN <= obj.max_x() <= i32::MAX,
        i32::MIN <= obj.max_y() <= i32::MAX,
    ensures
        r.x == total_pull(holes@, obj).0,
        r.y == total_pull(holes@, obj).1,
{
    let mut acc = Vector2 { x: 0, y: 0 };
    let n = holes.len();
    assert(holes@.take(0) =~= Seq::<BlackHole>::empty());
    for i in 0..n
        invariant
            n == holes@.len(),
            pull_fits(holes@, obj),
            i32::MIN <= obj.max_x() <= i32::MAX,
            i32::MIN <= obj.max_y() <= i32::MAX,
            acc.x == total_pull(holes@.take(i as int), obj).0,
            acc.y == total_pull(holes@.take(i as int), obj).1,
    {
        assert(holes@[i as int].rect_fits());
        let pull = holes[i].influence(obj);
        assert(holes@.take(i + 1).drop_last() =~= holes@.take(i as int));
        assert(holes@.take(i + 1).last() == holes@[i as int]);
        let ghost next = total_pull(holes@.take(i + 1), obj);
        assert(i32::MIN <= next.0 <= i32::MAX && i32::MIN <= next.1 <= i32::MAX);
        acc = Vector2 { x: acc.x + pull.x, y: acc.y + pull.y };
    }
    assert(holes@.take(n as int) =~= holes@);
    acc
}

} // verus!

verus! {

/// The ship.
#[derive(Clone, Copy, Debug)]
pub struct Player {
    pos: Point2,
    vel: Vector2,
    dir: Dir8,
    fire: bool,
}

/// What the ship is: where its top left corner is, its velocity in pixels
/// per full frame, the way it faces and whether its engine fires.
pub struct PlayerView {
    pub pos: Point2,
    pub vel: Vector2,
    pub dir: Dir8,
    pub fire: bool,
}

impl View for Player {
    type V = PlayerView;

    closed spec fn view(&self) -> PlayerView {
        PlayerView { pos: self.pos, vel: self.vel, dir: self.dir, fire: self.fire }
    }
}

/// The one-tile square of a ship whose top left corner is at `pos`.
pub open spec fn player_rect(pos: Point2) -> PixelRect {
    PixelRect { origin: pos, size: Size2 { width: TILE_PIXELS, height: TILE_PIXELS } }
}

/// The bumper the ship touches, if any: the first one met by the scan of
/// `LevelCollision::touching`.
pub open spec fn bounce_normal(p: PlayerView, collision: LevelCollision) -> Option<Dir4> {
    first_bouncy(first_occurrences(collision.touching_columns(player_rect(p.pos)).flatten()))
}

/// Velocity after the bounce, if any.
pub open spec fn vel_after_bounce(p: PlayerView, collision: LevelCollision) -> (int, int) {
    match bounce_normal(p, collision) {
        Some(n) => bounced_vel(p.vel, n),
        None => (p.vel.x as int, p.vel.y as int),
    }
}

/// Velocity after steering and the pull of the holes, which act at the first
/// subframe of each full frame only.
pub open spec fn vel_after_accel(
    p: PlayerView,
    collision: LevelCollision,
    keys: Seq<Key>,
    holes: Seq<BlackHole>,
    sub: int,
) -> (int, int) {
    let v = vel_after_bounce(p, collision);
    if sub == 0 {
        let (h, w) = steering(keys);
        let t = total_pull(holes, player_rect(p.pos));
        (accelerated(v.0, h) + t.0, accelerated(v.1, w) + t.1)
    } else {
        v
    }
}

/// Whether one subframe of the ship can be computed in the integer ranges,
/// with every tile it touches inside the map, and with the remainder steps
/// of its velocity all landing in the frame.
pub open spec fn update_fits(
    p: PlayerView,
    collision: LevelCollision,
    keys: Seq<Key>,
    holes: Seq<BlackHole>,
    sub: int,
    ns: int,
) -> bool {
    let v = vel_after_bounce(p, collision);
    let (h, w) = steering(keys);
    let t = total_pull(holes, player_rect(p.pos));
    let a = vel_after_accel(p, collision, keys, holes, sub);
    &&& 1 <= ns && 0 <= sub < ns
    &&& p.pos.x + TILE_PIXELS <= i32::MAX
    &&& p.pos.y + TILE_PIXELS <= i32::MAX
    &&& collision.covers(player_rect(p.pos))
    &&& (bounce_normal(p, collision) matches Some(n) ==> bounce_fits(p.vel, n))
    &&& (sub == 0 ==> {
        &&& accel_fits(v.0, h)
        &&& accel_fits(v.1, w)
        &&& pull_fits(holes, player_rect(p.pos))
        &&& i32::MIN <= a.0 <= i32::MAX
        &&& i32::MIN <= a.1 <= i32::MAX
    })
    &&& advance_fits(p.pos.x as int, a.0, sub, ns)
    &&& advance_fits(p.pos.y as int, a.1, sub, ns)
    &&& steps_all_land(a.0, ns)
    &&& steps_all_land(a.1, ns)
}

/// The ship after one subframe.
pub open spec fn updated(
    p: PlayerView,
    collision: LevelCollision,
    keys: Seq<Key>,
    holes: Seq<BlackHole>,
    sub: int,
    ns: int,
) -> PlayerView {
    let bounce = bounce_normal(p, collision);
    let (h, w) = steering(keys);
    let steer = dir8_from_signs(h, w);
    let a = vel_after_accel(p, collision, keys, holes, sub);
    PlayerView {
        pos: Point2 {
            x: advanced(p.pos.x as int, a.0, sub, ns) as i32,
            y: advanced(p.pos.y as int, a.1, sub, ns) as i32,
        },
        vel: Vector2 { x: a.0 as i32, y: a.1 as i32 },
        dir: match steer {
            Some(d) => d,
            None => match bounce {
                Some(n) => n.embed_spec(),
                None => p.dir,
            },
        },
        fire: steer is Some,
    }
}

/// The sounds after one subframe of the ship: a bounce sound when it hits a
/// bumper, then, at the first subframe of a full frame, the black hole
/// sound if the holes pull at all.
pub open spec fn sounds_after_update(
    s: SoundState,
    p: PlayerView,
    collision: LevelCollision,
    holes: Seq<BlackHole>,
    sub: int,
) -> SoundState {
    let s1 = if bounce_normal(p, collision) is Some {
        s.play(AudioCommand::PlaySfx { sfx: Sfx::Bounce })
    } else {
        s
    };
    let t = total_pull(holes, player_rect(p.pos));
    if sub == 0 && (t.0 != 0 || t.1 != 0) {
        s1.play(AudioCommand::BlackHolePull { pull: Vector2 { x: t.0 as i32, y: t.1 as i32 } })
    } else {
        s1
    }
}

/// The tile of the ship's image that shows it facing `d`: the eight tiles
/// around the centre of a three-by-three square, each in the direction it shows.
pub open spec fn ship_atlas_pos(d: Dir8) -> TilePoint {
    TilePoint { x: (d.dx() + 1) as u8, y: (d.dy() + 1) as u8 }
}

/// How the engine flame is drawn for a ship facing `d`: along an axis, the
/// one-by-two flame at tile (3, 0), turned with the ship about tile (0, 0);
/// on a diagonal, the two-by-two flame at tile (4, 0), turned about tile
/// (1, 0) by the quarter turns of the axis direction just before `d`.
pub open spec fn flame_layout(d: Dir8) -> (TileRect, TilePoint, int) {
    if d.dx() == 0 || d.dy() == 0 {
        (
            TileRect { origin: TilePoint { x: 3, y: 0 }, size: TileSize { width: 1, height: 2 } },
            TilePoint { x: 0, y: 0 },
            d.eighth_turns_spec() / 2,
        )
    } else {
        (
            TileRect { origin: TilePoint { x: 4, y: 0 }, size: TileSize { width: 2, height: 2 } },
            TilePoint { x: 1, y: 0 },
            (d.eighth_turns_spec() - 1) / 2,
        )
    }
}

/// How to draw the ship seen from `camera`: the tile of its direction, at depth 2.
pub open spec fn ship_sprite(p: PlayerView, camera: Point2) -> SpriteDraw {
    SpriteDraw {
        dest: screen_pos(p.pos, camera),
        atlas: TileRect { origin: ship_atlas_pos(p.dir), size: TileSize { width: 1, height: 1 } },
        z: 2,
    }
}

/// How to draw the engine flame seen from `camera`: none unless the engine
/// fires; else laid out as `flame_layout` says, turned about the centre of
/// its anchor tile, at depth 2.
pub open spec fn flame_sprite(p: PlayerView, camera: Point2) -> Option<RotatedSpriteDraw> {
    if !p.fire {
        None
    } else {
        let (atlas, anchor, turns) = flame_layout(p.dir);
        Some(RotatedSpriteDraw {
            sprite: SpriteDraw { dest: screen_pos(p.pos, camera), atlas, z: 2 },
            quarter_turns: turns as u8,
            anchor,
            pivot: Point2 {
                x: (anchor.x * TILE_PIXELS + TILE_PIXELS / 2) as i32,
                y: (anchor.y * TILE_PIXELS + TILE_PIXELS / 2) as i32,
            },
        })
    }
}

impl Player {
    /// How to draw the ship seen from `camera`.
    pub fn sprite(&self, camera: Point2) -> (r: SpriteDraw)
        requires
            on_screen_fits(self@.pos, camera),
        ensures
            r == ship_sprite(self@, camera),
    {
        let atlas_pos = match self.dir {
            Dir8::Up => TilePoint { x: 1, y: 0 },
            Dir8::UpRight => TilePoint { x: 2, y: 0 },
            Dir8::Right => TilePoint { x: 2, y: 1 },
            Dir8::DownRight => TilePoint { x: 2, y: 2 },
            Dir8::Down => TilePoint { x: 1, y: 2 },
            Dir8::DownLeft => TilePoint { x: 0, y: 2 },
            Dir8::Left => TilePoint { x: 0, y: 1 },
            Dir8::UpLeft => TilePoint { x: 0, y: 0 },
        };
        SpriteDraw {
            dest: to_screen(self.pos, camera),
            atlas: TileRect { origin: atlas_pos, size: TileSize { width: 1, height: 1 } },
            z: 2,
        }
    }

    /// How to draw the engine flame seen from `camera`, if the engine fires;
    /// the pivot is the centre of the anchor tile.
    pub fn flame_sprite(&self, camera: Point2) -> (r: Option<RotatedSpriteDraw>)
        requires
            on_screen_fits(self@.pos, camera),
        ensures
            r == flame_sprite(self@, camera),
    {
        if !self.fire {
            return None;
        }
        let (atlas, anchor, turns) = match self.dir.split() {
            Some(axis) => (
                TileRect { origin: TilePoint { x: 3, y: 0 }, size: TileSize { width: 1, height: 2 } },
                TilePoint { x: 0, y: 0 },
                axis.quarter_turns(),
            ),
            None => (
                TileRect { origin: TilePoint { x: 4, y: 0 }, size: TileSize { width: 2, height: 2 } },
                TilePoint { x: 1, y: 0 },
                (self.dir.eighth_turns() - 1) / 2,
            ),
        };
        let corner = anchor.to_pixel();
        Some(RotatedSpriteDraw {
            sprite: SpriteDraw { dest: to_screen(self.pos, camera), atlas, z: 2 },
            quarter_turns: turns,
            anchor,
            pivot: Point2 { x: corner.x + TILE_PIXELS / 2, y: corner.y + TILE_PIXELS / 2 },
        })
    }

    /// A ship at rest facing up, at the top left corner of tile `initial_pos`.
    pub fn new(initial_pos: TilePoint) -> (r: Player)
        ensures
            r@.pos == initial_pos.to_pixel_spec(),
            r@.vel == (Vector2 { x: 0, y: 0 }),
            r@.dir == Dir8::Up,
            !r@.fire,
    {
        Player { pos: initial_pos.to_pixel(), vel: Vector2 { x: 0, y: 0 }, dir: Dir8::Up, fire: false }
    }

    /// Whether `update` can run with these arguments, as `update_fits` says.
    pub fn update_fits_exec(
        &self,
        subframe_counter: u8,
        num_subframes: u8,
        keys: &[Key],
        level_collision: &LevelCollision,
        black_holes: &[BlackHole],
    ) -> (r: bool)
        ensures
            r == update_fits(
                self@,
                *level_collision,
                keys@,
                black_holes@,
                subframe_counter as int,
                num_subframes as int,
            ),
    {
        let ghost p = self@;
        let sub = subframe_counter;
        let ns = num_subframes;
        if ns < 1 || sub >= ns {
            return false;
        }
        if self.pos.x as i64 + TILE_PIXELS as i64 > i32::MAX as i64
            || self.pos.y as i64 + TILE_PIXELS as i64 > i32::MAX as i64 {
            return false;
        }
        let rect = self.rect();
        if !level_collision.covers_exec(rect) {
            return false;
        }
        let tiles = level_collision.touching(rect);
        let normal = first_bouncy_exec(&tiles);
        let (vx, vy): (i64, i64) = match normal {
            Some(n) => {
                let fits = match n {
                    Dir4::Up | Dir4::Down => self.vel.y != i32::MIN,
                    Dir4::Right | Dir4::Left => self.vel.x != i32::MIN,
                };
                if !fits {
                    return false;
                }
                let ax: i64 = if self.vel.x < 0 { -(self.vel.x as i64) } else { self.vel.x as i64 };
                let ay: i64 = if self.vel.y < 0 { -(self.vel.y as i64) } else { self.vel.y as i64 };
                match n {
                    Dir4::Up => (self.vel.x as i64, -ay),
                    Dir4::Right => (ax, self.vel.y as i64),
                    Dir4::Down => (self.vel.x as i64, ay),
                    Dir4::Left => (-ax, self.vel.y as i64),
                }
            },
            None => (self.vel.x as i64, self.vel.y as i64),
        };
        assert(vx == vel_after_bounce(p, *level_collision).0 && vy == vel_after_bounce(p, *level_collision).1);
        let (h, v) = steering_exec(keys);
        let (ax, ay): (i64, i64) = if sub == 0 {
            let cx = accelerate_checked(vx, h);
            let cy = accelerate_checked(vy, v);
            match (cx, cy) {
                (Some(gx), Some(gy)) => {
                    if !pull_fits_exec(black_holes, rect) {
                        return false;
                    }
                    let t = total_pull_exec(black_holes, rect);
                    let sx = gx + t.x as i64;
                    let sy = gy + t.y as i64;
                    if sx < i32::MIN as i64 || sx > i32::MAX as i64 || sy < i32::MIN as i64 || sy > i32::MAX as i64 {
                        return false;
                    }
                    (sx, sy)
                },
                _ => {
                    return false;
                },
            }
        } else {
            (vx, vy)
        };
        assert(ax == vel_after_accel(p, *level_collision, keys@, black_holes@, sub as int).0);
        assert(ay == vel_after_accel(p, *level_collision, keys@, black_holes@, sub as int).1);
        advance_fits_exec(self.pos.x, ax, sub, ns) && advance_fits_exec(self.pos.y, ay, sub, ns)
            && steps_all_land_exec(ax, ns) && steps_all_land_exec(ay, ns)
    }

    /// The ship after one subframe, as `update` would leave it, without
    /// playing any sound.
    pub fn peek_update(
        &self,
        subframe_counter: u8,
        num_subframes: u8,
        keys: &[Key],
        level_collision: &LevelCollision,
        black_holes: &[BlackHole],
    ) -> (r: Player)
        requires
            update_fits(self@, *level_collision, keys@, black_holes@, subframe_counter as int, num_subframes as int),
        ensures
            r@ == updated(self@, *level_collision, keys@, black_holes@, subframe_counter as int, num_subframes as int),
    {
        let mut next = *self;
        let mut scratch = AllSounds::new(true, true);
        next.update(&mut scratch, subframe_counter, num_subframes, keys, level_collision, black_holes);
        next
    }

    /// Top left corner, in pixels.
    pub fn pos(&self) -> (r: Point2)
        ensures
            r == self@.pos,
    {
        self.pos
    }

    /// The one-tile square the ship covers.
    pub fn rect(&self) -> (r: PixelRect)
        ensures
            r == player_rect(self@.pos),
    {
        PixelRect { origin: self.pos, size: Size2 { width: TILE_PIXELS, height: TILE_PIXELS } }
    }

    /// Velocity, in pixels per full frame.
    pub fn vel(&self) -> (r: Vector2)
        ensures
            r == self@.vel,
    {
        self.vel
    }

    /// The way the ship faces.
    pub fn dir(&self) -> (r: Dir8)
        ensures
            r == self@.dir,
    {
        self.dir
    }

    /// Whether the engine fires (a direction is held).
    pub fn fire(&self) -> (r: bool)
        ensures
            r == self@.fire,
    {
        self.fire
    }

    /// One subframe of the ship, subframe `subframe_counter` of
    /// `num_subframes`: it bounces off a bumper it touches, turns to the held
    /// direction, at the first subframe of a full frame speeds up or slows
    /// down and is pulled by the black holes, then moves by its share of the
    /// velocity.
    pub fn update(
        &mut self,
        sounds: &mut AllSounds,
        subframe_counter: u8,
        num_subframes: u8,
        keys: &[Key],
        level_collision: &LevelCollision,
        black_holes: &[BlackHole],
    )
        requires
            update_fits(
                old(self)@,
                *level_collision,
                keys@,
                black_holes@,
                subframe_counter as int,
                num_subframes as int,
            ),
        ensures
            final(self)@ == updated(
                old(self)@,
                *level_collision,
                keys@,
                black_holes@,
                subframe_counter as int,
                num_subframes as int,
            ),
            final(sounds)@ == sounds_after_update(
                old(sounds)@,
                old(self)@,
                *level_collision,
                black_holes@,
                subframe_counter as int,
            ),
    {
        let ghost p = self@;
        let rect = self.rect();
        let collisions = level_collision.touching(rect);
        let maybe_normal = first_bouncy_exec(&collisions);
        match maybe_normal {
            Some(normal_dir) => {
                sounds.play_bounce();
                self.dir = normal_dir.embed();
                match normal_dir {
                    Dir4::Up => { self.vel.y = -(if self.vel.y < 0 { -self.vel.y } else { self.vel.y }); },
                    Dir4::Right => { self.vel.x = if self.vel.x < 0 { -self.vel.x } else { self.vel.x }; },
                    Dir4::Down => { self.vel.y = if self.vel.y < 0 { -self.vel.y } else { self.vel.y }; },
                    Dir4::Left => { self.vel.x = -(if self.vel.x < 0 { -self.vel.x } else { self.vel.x }); },
                }
            },
            None => {},
        }
        assert(self.vel.x == vel_after_bounce(p, *level_collision).0);
        assert(self.vel.y == vel_after_bounce(p, *level_collision).1);

        let (h, v) = steering_exec(keys);
        let maybe_dir = Dir8::from_signs(h, v);
        self.fire = maybe_dir.is_some();
        match maybe_dir {
            Some(d) => { self.dir = d; },
            None => {},
        }

        if subframe_counter == 0 {
            self.vel.x = accelerate_axis(self.vel.x, h);
            self.vel.y = accelerate_axis(self.vel.y, v);
            let total = total_pull_exec(black_holes, rect);
            self.vel = Vector2 { x: self.vel.x + total.x, y: self.vel.y + total.y };
            if total.x != 0 || total.y != 0 {
                sounds.play_black_hole_pull(total);
            }
        }

        self.pos = Point2 {
            x: advance_axis(self.pos.x, self.vel.x, subframe_counter, num_subframes),
            y: advance_axis(self.pos.y, self.vel.y, subframe_counter, num_subframes),
        };
    }
}

} // verus!

verus! {

/// `a / b` rounded up, for `a >= 0` and `b > 0`.
pub open spec fn ceil_div(a: int, b: int) -> int {
    (a + b - 1) / b
}

/// The subframe at which the `s`-th of `m` steps would fall with exact
/// arithmetic: the whole part of `s * ns / m`.
pub open spec fn even_slot(s: int, ns: int, m: int) -> int {
    s * ns / m
}

/// Whether subframe `k` of `ns` would take one of `m` steps placed at the
/// exact slots.
pub open spec fn evenly_marked(k: int, ns: int, m: int) -> bool {
    m != 0 && exists|s: int| 0 <= s < ns && #[trigger] even_slot(s, ns, m) == k
}

/// Whether the slots of the steps `s`, `s + 1`, ..., `ns - 1` of `m` over
/// `ns` subframes are the exact ones.
spec fn slots_exact_from(ns: int, m: int, s: int) -> bool
    decreases ns - s,
{
    if s >= ns { true } else { slot(s, ns, m) == even_slot(s, ns, m) && slots_exact_from(ns, m, s + 1) }
}

/// Whether the slots are the exact ones for `m`, `m + 1`, ..., `ns - 1`
/// steps over `ns` subframes.
spec fn schedules_exact_from(ns: int, m: int) -> bool
    decreases ns - m,
{
    if m >= ns { true } else { slots_exact_from(ns, m, 0) && schedules_exact_from(ns, m + 1) }
}

/// Whether the slots are the exact ones for every split of a frame into 2
/// to `n` subframes and every step count below the split.
spec fn schedules_exact_up_to(n: int) -> bool
    decreases n,
{
    if n < 2 { true } else { schedules_exact_from(n, 1) && schedules_exact_up_to(n - 1) }
}

proof fn lemma_exact_up_to(n: int, ns: int)
    requires
        schedules_exact_up_to(n),
        2 <= ns <= n,
    ensures
        schedules_exact_from(ns, 1),
    decreases n,
{
    if ns < n {
        lemma_exact_up_to(n - 1, ns);
    }
}

proof fn lemma_exact_from_m(ns: int, m0: int, m: int)
    requires
        schedules_exact_from(ns, m0),
        m0 <= m < ns,
    ensures
        slots_exact_from(ns, m, 0),
    decreases m - m0,
{
    if m0 < m {
        lemma_exact_from_m(ns, m0 + 1, m);
    }
}

proof fn lemma_exact_from_s(ns: int, m: int, s0: int, s: int)
    requires
        slots_exact_from(ns, m, s0),
        s0 <= s < ns,
    ensures
        slot(s, ns, m) == even_slot(s, ns, m),
    decreases s - s0,
{
    if s0 < s {
        lemma_exact_from_s(ns, m, s0 + 1, s);
    }
}

/// With up to twelve subframes the rounding moves no step off its exact
/// slot (checked case by case).
proof fn lemma_slot_is_even(s: int, ns: int, m: int)
    requires
        0 < m < ns <= 12,
        0 <= s < ns,
    ensures
        slot(s, ns, m) == even_slot(s, ns, m),
{
    assert(schedules_exact_up_to(12)) by (bit_vector);
    lemma_exact_up_to(12, ns);
    lemma_exact_from_m(ns, 1, m);
    lemma_exact_from_s(ns, m, 0, s);
}

/// With up to twelve subframes a subframe takes a step exactly when it would
/// with exact slots.
proof fn lemma_marked_is_even(k: int, ns: int, m: int)
    requires
        0 < m < ns <= 12,
    ensures
        subframe_marked(k, ns, m) <==> evenly_marked(k, ns, m),
{
    if subframe_marked(k, ns, m) {
        let s = choose|s: int| 0 <= s < ns && #[trigger] slot(s, ns, m) == k;
        lemma_slot_is_even(s, ns, m);
        assert(even_slot(s, ns, m) == k);
    }
    if evenly_marked(k, ns, m) {
        let s = choose|s: int| 0 <= s < ns && #[trigger] even_slot(s, ns, m) == k;
        lemma_slot_is_even(s, ns, m);
        assert(slot(s, ns, m) == k);
    }
}

/// The number of subframes below `k` that take a step, when `m` steps are
/// spread over `ns` subframes.
pub open spec fn marked_count(k: int, ns: int, m: int) -> int
    decreases k,
{
    if k <= 0 {
        0
    } else {
        marked_count(k - 1, ns, m) + (if subframe_marked(k - 1, ns, m) { 1int } else { 0int })
    }
}

/// The pixels moved along one axis at subframe `k` of `ns` with velocity `vel`.
pub open spec fn subframe_step(vel: int, k: int, ns: int) -> int {
    advanced(0, vel, k, ns)
}

/// The pixels moved along one axis over the subframes below `k`.
pub open spec fn frame_travel(vel: int, k: int, ns: int) -> int
    decreases k,
{
    if k <= 0 { 0 } else { frame_travel(vel, k - 1, ns) + subframe_step(vel, k - 1, ns) }
}

/// Whether the subframes that take a single-pixel step of the remainder of
/// `vel` over `ns` subframes are exactly as many as the remainder's size:
/// with the rounded spacing they can be more or fewer.
pub open spec fn steps_all_land(vel: int, ns: int) -> bool {
    let m = abs_spec(trem(vel, ns));
    marked_count(ns, ns, m) == m
}

/// `ceil_div(a, b)` is the least `c` with `b * c >= a`.
proof fn lemma_ceil_div(a: int, b: int)
    requires
        a >= 0,
        b > 0,
    ensures
        b * ceil_div(a, b) >= a,
        b * (ceil_div(a, b) - 1) < a,
        ceil_div(a, b) >= 0,
{
    lemma_fundamental_div_mod(a + b - 1, b);
    lemma_mod_bound(a + b - 1, b);
    let c = ceil_div(a, b);
    assert(b * (c - 1) == b * c - b) by (nonlinear_arith);
    assert(c >= 0) by (nonlinear_arith)
        requires b * c + (a + b - 1) % b == a + b - 1, (a + b - 1) % b < b, a >= 0, b > 0;
}

/// A positive factor can be cancelled from a strict inequality.
proof fn lemma_mul_cancel_lt(n: int, a: int, b: int)
    requires
        n > 0,
        n * a < n * b,
    ensures
        a < b,
{
    if a >= b {
        assert(n * a >= n * b) by (nonlinear_arith)
            requires n > 0, a >= b;
    }
}

/// `even_even_slot(s, ns, m)` is the whole part of `s * ns / m`.
proof fn lemma_even_slot(s: int, ns: int, m: int)
    requires
        s >= 0,
        ns > 0,
        m > 0,
    ensures
        m * even_slot(s, ns, m) <= s * ns < m * even_slot(s, ns, m) + m,
{
    lemma_fundamental_div_mod(s * ns, m);
    lemma_mod_bound(s * ns, m);
}

/// With fewer steps than subframes, subframe `k` takes a step exactly when
/// the rounded-up share `ceil(k m / ns)` grows at `k`; it grows by at most one.
proof fn lemma_marked_iff_share_grows(k: int, ns: int, m: int)
    requires
        0 < m < ns,
        0 <= k < ns,
    ensures
        ceil_div(k * m, ns) <= ceil_div((k + 1) * m, ns) <= ceil_div(k * m, ns) + 1,
        evenly_marked(k, ns, m) <==> ceil_div(k * m, ns) < ceil_div((k + 1) * m, ns),
{
    let c0 = ceil_div(k * m, ns);
    let c1 = ceil_div((k + 1) * m, ns);
    assert(k * m >= 0 && (k + 1) * m >= 0) by (nonlinear_arith)
        requires k >= 0, m > 0;
    lemma_ceil_div(k * m, ns);
    lemma_ceil_div((k + 1) * m, ns);
    assert((k + 1) * m == k * m + m) by (nonlinear_arith);
    // c1 <= c0 + 1: c0 + 1 already covers (k + 1) m.
    assert(ns * (c0 + 1) == ns * c0 + ns) by (nonlinear_arith);
    assert(ns * (c1 - 1) < ns * (c0 + 1));
    lemma_mul_cancel_lt(ns, c1 - 1, c0 + 1);
    // c0 <= c1: c0 is the least multiple count covering k m.
    assert(c0 <= c1) by (nonlinear_arith)
        requires
            ns * (c0 - 1) < k * m,
            ns * c1 >= (k + 1) * m,
            (k + 1) * m >= k * m,
            ns > 0;
    if evenly_marked(k, ns, m) {
        let s = choose|s: int| 0 <= s < ns && #[trigger] even_slot(s, ns, m) == k;
        lemma_even_slot(s, ns, m);
        assert(c0 <= s) by (nonlinear_arith)
            requires
                ns * (c0 - 1) < k * m,
                m * k <= s * ns,
                ns > 0;
        assert(s < c1) by (nonlinear_arith)
            requires
                ns * c1 >= (k + 1) * m,
                s * ns < m * k + m,
                (k + 1) * m == k * m + m,
                ns > 0;
    }
    if c0 < c1 {
        assert(k * m <= k * ns) by (nonlinear_arith)
            requires m < ns, k >= 0;
        assert(ns * (c0 - 1) < ns * k) by (nonlinear_arith)
            requires ns * (c0 - 1) < k * m, k * m <= k * ns;
        lemma_mul_cancel_lt(ns, c0 - 1, k);
        lemma_even_slot(c0, ns, m);
        let q = even_slot(c0, ns, m);
        assert(c0 * ns < (k + 1) * m) by (nonlinear_arith)
            requires
                ns * (c1 - 1) < (k + 1) * m,
                c0 <= c1 - 1,
                ns > 0;
        assert(q == k) by (nonlinear_arith)
            requires
                m * q <= c0 * ns < m * q + m,
                ns * c0 >= k * m,
                c0 * ns < (k + 1) * m,
                (k + 1) * m == k * m + m,
                m > 0;
        assert(0 <= c0 < ns);
        assert(even_slot(c0, ns, m) == k);
    }
}

/// The steps taken before subframe `k` are the rounded-up share `ceil(k m / ns)`.
proof fn lemma_marked_count_is_share(k: int, ns: int, m: int)
    requires
        0 < m < ns <= 12,
        0 <= k <= ns,
    ensures
        marked_count(k, ns, m) == ceil_div(k * m, ns),
    decreases k,
{
    if k == 0 {
        assert(ceil_div(0, ns) == 0) by {
            lemma_fundamental_div_mod(ns - 1, ns);
            lemma_mod_bound(ns - 1, ns);
            assert(0 * m == 0);
            assert((ns - 1) / ns == 0) by (nonlinear_arith)
                requires ns * ((ns - 1) / ns) + (ns - 1) % ns == ns - 1, 0 <= (ns - 1) % ns < ns, ns > 0;
        }
        assert(0 * m == 0);
    } else {
        lemma_marked_count_is_share(k - 1, ns, m);
        lemma_marked_iff_share_grows(k - 1, ns, m);
        lemma_marked_is_even(k - 1, ns, m);
        assert((k - 1 + 1) == k);
    }
}

/// With up to twelve subframes, the subframes that take a single-pixel step
/// of the remainder are as many as the remainder's size.
pub proof fn law_steps_spread_exactly(ns: int, m: int)
    requires
        0 < m < ns <= 12,
    ensures
        marked_count(ns, ns, m) == m,
{
    lemma_marked_count_is_share(ns, ns, m);
    lemma_fundamental_div_mod(ns * m + ns - 1, ns);
    lemma_mod_bound(ns * m + ns - 1, ns);
    let q = ceil_div(ns * m, ns);
    assert(q == m) by (nonlinear_arith)
        requires
            ns * q + (ns * m + ns - 1) % ns == ns * m + ns - 1,
            0 <= (ns * m + ns - 1) % ns < ns,
            ns > 0;
}

/// The travel over the first `k` subframes: `k` whole shares plus the steps taken.
proof fn lemma_frame_travel(vel: int, k: int, ns: int)
    requires
        ns >= 1,
        0 <= k <= ns,
    ensures
        frame_travel(vel, k, ns) == k * tdiv(vel, ns) + signum_spec(trem(vel, ns))
            * marked_count(k, ns, abs_spec(trem(vel, ns))),
    decreases k,
{
    if k > 0 {
        lemma_frame_travel(vel, k - 1, ns);
        let c = marked_count(k - 1, ns, abs_spec(trem(vel, ns)));
        let sg = signum_spec(trem(vel, ns));
        assert(k * tdiv(vel, ns) == (k - 1) * tdiv(vel, ns) + tdiv(vel, ns)) by (nonlinear_arith);
        assert(sg * (c + 1) == sg * c + sg) by (nonlinear_arith);
        assert(sg * (c + 0) == sg * c) by (nonlinear_arith);
    } else {
        assert(0 * tdiv(vel, ns) == 0);
        assert(signum_spec(trem(vel, ns)) * 0 == 0);
    }
}

/// Over the `ns` subframes of a full frame at a steady velocity whose
/// remainder steps all land, the ship moves along each axis by exactly its
/// velocity.
pub proof fn law_full_frame_travel(vel: int, ns: int)
    requires
        ns >= 1,
        steps_all_land(vel, ns),
    ensures
        frame_travel(vel, ns, ns) == vel,
{
    lemma_frame_travel(vel, ns, ns);
    lemma_tdiv(vel, ns);
    let r = trem(vel, ns);
    let t = tdiv(vel, ns);
    let sg = signum_spec(r);
    let c = marked_count(ns, ns, abs_spec(r));
    assert(frame_travel(vel, ns, ns) == ns * t + sg * c);
    assert(vel == ns * t + r);
    if r == 0 {
        lemma_no_marks(ns, ns);
        assert(c == 0);
        assert(sg * c == 0) by (nonlinear_arith)
            requires c == 0;
    } else {
        assert(c == abs_spec(r));
        if r > 0 {
            assert(sg * c == r) by (nonlinear_arith)
                requires sg == 1, c == r;
        } else {
            assert(sg * c == r) by (nonlinear_arith)
                requires sg == -1, c == -r;
        }
    }
}

/// With no remainder, no subframe takes a step.
proof fn lemma_no_marks(k: int, ns: int)
    ensures
        marked_count(k, ns, 0) == 0,
    decreases k,
{
    if k > 0 {
        lemma_no_marks(k - 1, ns);
    }
}

/// With up to twelve subframes, the remainder steps of any velocity all
/// land, so `update_fits` never refuses a subframe on their account.
pub proof fn law_small_frames_always_land(vel: int, ns: int)
    requires
        1 <= ns <= 12,
    ensures
        steps_all_land(vel, ns),
{
    lemma_tdiv(vel, ns);
    let m = abs_spec(trem(vel, ns));
    if m == 0 {
        lemma_no_marks(ns, ns);
    } else {
        law_steps_spread_exactly(ns, m);
    }
}

} // verus!

verus! {

/// A ship touching a bumper with outward normal `n` is sent away from it:
/// after a subframe other than the first of a full frame (where steering and
/// holes do not act), its velocity along `n` points away from the bumper (or
/// is 0), both components keep their size, and the component across `n`
/// is unchanged.
pub proof fn law_bumper_sends_away(
    p: PlayerView,
    collision: LevelCollision,
    keys: Seq<Key>,
    holes: Seq<BlackHole>,
    sub: int,
    ns: int,
    n: Dir4,
)
    requires
        update_fits(p, collision, keys, holes, sub, ns),
        sub != 0,
        bounce_normal(p, collision) == Some(n),
    ensures
        ({
            let v = updated(p, collision, keys, holes, sub, ns).vel;
            &&& n.dx() * v.x >= 0
            &&& n.dy() * v.y >= 0
            &&& abs_spec(v.x as int) == abs_spec(p.vel.x as int)
            &&& abs_spec(v.y as int) == abs_spec(p.vel.y as int)
            &&& n.dx() == 0 ==> v.x == p.vel.x
            &&& n.dy() == 0 ==> v.y == p.vel.y
        }),
{
    let a = vel_after_accel(p, collision, keys, holes, sub);
    assert(a == bounced_vel(p.vel, n));
    assert(bounce_fits(p.vel, n));
    let v = updated(p, collision, keys, holes, sub, ns).vel;
    assert(v.x == a.0 as i32 && v.y == a.1 as i32);
    match n {
        Dir4::Up => { assert(v.y == -abs_spec(p.vel.y as int)); },
        Dir4::Down => { assert(v.y == abs_spec(p.vel.y as int)); },
        Dir4::Left => { assert(v.x == -abs_spec(p.vel.x as int)); },
        Dir4::Right => { assert(v.x == abs_spec(p.vel.x as int)); },
    }
}

/// The ship after `k` calls of `update` at subframes `0, 1, ..., k - 1` of
/// `ns`, call `j` with the keys `keys[j]` held.
pub open spec fn updates_from(
    p: PlayerView,
    collision: LevelCollision,
    keys: Seq<Seq<Key>>,
    holes: Seq<BlackHole>,
    ns: int,
    k: nat,
) -> PlayerView
    decreases k,
{
    if k == 0 {
        p
    } else {
        let q = updates_from(p, collision, keys, holes, ns, (k - 1) as nat);
        updated(q, collision, keys[k - 1], holes, k - 1, ns)
    }
}

/// Whether every call of a full frame of `update` calls can run and none
/// touches a bumper.
pub open spec fn frame_runs_clear(
    p: PlayerView,
    collision: LevelCollision,
    keys: Seq<Seq<Key>>,
    holes: Seq<BlackHole>,
    ns: int,
) -> bool {
    forall|k: int| 0 <= k < ns ==> {
        let q = #[trigger] updates_from(p, collision, keys, holes, ns, k as nat);
        &&& update_fits(q, collision, keys[k], holes, k, ns)
        &&& bounce_normal(q, collision) is None
    }
}

proof fn lemma_frame_of_updates(
    p: PlayerView,
    collision: LevelCollision,
    keys: Seq<Seq<Key>>,
    holes: Seq<BlackHole>,
    ns: int,
    k: nat,
)
    requires
        1 <= ns,
        keys.len() == ns,
        1 <= k <= ns,
        frame_runs_clear(p, collision, keys, holes, ns),
    ensures
        updates_from(p, collision, keys, holes, ns, k).vel == updates_from(p, collision, keys, holes, ns, 1).vel,
        updates_from(p, collision, keys, holes, ns, k).pos.x
            == p.pos.x + frame_travel(updates_from(p, collision, keys, holes, ns, 1).vel.x as int, k as int, ns),
        updates_from(p, collision, keys, holes, ns, k).pos.y
            == p.pos.y + frame_travel(updates_from(p, collision, keys, holes, ns, 1).vel.y as int, k as int, ns),
    decreases k,
{
    let q0 = updates_from(p, collision, keys, holes, ns, 0);
    assert(q0 == p);
    if k == 1 {
        assert(update_fits(q0, collision, keys[0], holes, 0, ns));
        assert(frame_travel(updates_from(p, collision, keys, holes, ns, 1).vel.x as int, 0, ns) == 0);
        assert(frame_travel(updates_from(p, collision, keys, holes, ns, 1).vel.y as int, 0, ns) == 0);
    } else {
        lemma_frame_of_updates(p, collision, keys, holes, ns, (k - 1) as nat);
        let q = updates_from(p, collision, keys, holes, ns, (k - 1) as nat);
        assert(update_fits(q, collision, keys[k - 1], holes, k - 1, ns));
        assert(bounce_normal(q, collision) is None);
    }
}

/// Over a full frame of `update` calls, one per subframe from the first on,
/// that touch no bumper: the velocity set at the first subframe stays for
/// the rest of the frame, and the ship ends the frame moved by exactly that
/// velocity.
pub proof fn law_frame_of_updates(
    p: PlayerView,
    collision: LevelCollision,
    keys: Seq<Seq<Key>>,
    holes: Seq<BlackHole>,
    ns: int,
)
    requires
        1 <= ns,
        keys.len() == ns,
        frame_runs_clear(p, collision, keys, holes, ns),
    ensures
        forall|k: nat| 1 <= k <= ns ==> (#[trigger] updates_from(p, collision, keys, holes, ns, k)).vel
            == updates_from(p, collision, keys, holes, ns, 1).vel,
        updates_from(p, collision, keys, holes, ns, ns as nat).pos.x
            == p.pos.x + updates_from(p, collision, keys, holes, ns, 1).vel.x,
        updates_from(p, collision, keys, holes, ns, ns as nat).pos.y
            == p.pos.y + updates_from(p, collision, keys, holes, ns, 1).vel.y,
{
    assert forall|k: nat| 1 <= k <= ns implies (#[trigger] updates_from(p, collision, keys, holes, ns, k)).vel
        == updates_from(p, collision, keys, holes, ns, 1).vel by {
        lemma_frame_of_updates(p, collision, keys, holes, ns, k);
    }
    lemma_frame_of_updates(p, collision, keys, holes, ns, ns as nat);
    let v = updates_from(p, collision, keys, holes, ns, 1).vel;
    let q0 = updates_from(p, collision, keys, holes, ns, 0);
    assert(update_fits(q0, collision, keys[0], holes, 0, ns));
    law_full_frame_travel(v.x as int, ns);
    law_full_frame_travel(v.y as int, ns);
}

} // verus!
