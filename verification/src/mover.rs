//! The mover: once per frame each bunny reflects its heading at the window
//! edges, advances by its velocity scaled with the elapsed time, and is
//! recycled to the origin if it has strayed far outside the view.

use vstd::prelude::*;

verus! {

use crate::geom::div_trunc;
use crate::spawner::Bunny;
use crate::BASE_SPEED;
use crate::BUNNY_HEIGHT;
use crate::BUNNY_WIDTH;
use crate::SCALE;
use crate::SPEED_FACTOR_MIN;
use crate::SPEED_FACTOR_MAX;

/// Largest frame delta a mover step accepts, in milliseconds; keeps every
/// intermediate product inside `i64`.
pub const DT_LIMIT: i64 = 10_000_000;

/// Largest window extent a mover step accepts, in milli-pixels.
pub const WINDOW_LIMIT: i64 = 100_000_000_000;

/// Largest position magnitude a mover step accepts, in milli-pixels; keeps
/// the displaced position inside `i64`.
pub const POS_LIMIT: i64 = 1_000_000_000_000_000;

/// Largest displacement one step can produce, in milli-pixels.
pub const DISP_LIMIT: i64 = 8_000_000_000;

/// Half of the area a sprite of extent `sprite` can roam in a window of
/// extent `win` without poking out, both in milli-pixels.
pub open spec fn half_extent(win: int, sprite: int) -> int {
    win / 2 - sprite / 2
}

/// A direction component after the edge check: flipped when the position
/// already sits at or beyond the roaming bound on either side.
pub open spec fn reflected(pos: int, half: int, d: int) -> int {
    if pos <= -half || pos >= half {
        -d
    } else {
        d
    }
}

/// Displacement of one frame along one axis, in milli-pixels: direction
/// times base speed times speed factor times elapsed time, brought back
/// from squared-scale units by a truncating division.
pub open spec fn displacement_spec(dir: int, speed_factor: int, dt: int) -> int {
    div_trunc(dir * BASE_SPEED * speed_factor * dt, SCALE * SCALE)
}

/// The x position after reflection and displacement, before recycling.
pub open spec fn stepped_x(b: Bunny, dt: int, win_w: int) -> int {
    b.pos.x + displacement_spec(
        reflected(b.pos.x as int, half_extent(win_w, BUNNY_WIDTH as int), b.dir.x as int),
        b.speed_factor as int,
        dt,
    )
}

/// The y position after reflection and displacement, before recycling.
pub open spec fn stepped_y(b: Bunny, dt: int, win_h: int) -> int {
    b.pos.y + displacement_spec(
        reflected(b.pos.y as int, half_extent(win_h, BUNNY_HEIGHT as int), b.dir.y as int),
        b.speed_factor as int,
        dt,
    )
}

/// A position more than twice the window extent away from the center on
/// either axis: such a bunny has tunnelled out and is recycled.
pub open spec fn out_of_view(x: int, y: int, win_w: int, win_h: int) -> bool {
    x < -2 * win_w || x > 2 * win_w || y < -2 * win_h || y > 2 * win_h
}

/// Magnitude of a direction component, in milli-units.
fn component_magnitude(dir: i64) -> (m: u64)
    requires
        -SCALE <= dir <= SCALE,
    ensures
        dir >= 0 ==> m == dir,
        dir < 0 ==> m == -dir,
{
    if dir >= 0 {
        dir as u64
    } else {
        (-dir) as u64
    }
}

/// One frame's displacement along one axis.
fn displacement(dir: i64, speed_factor: i64, dt_millis: i64) -> (d: i64)
    requires
        -SCALE <= dir <= SCALE,
        SPEED_FACTOR_MIN <= speed_factor < SPEED_FACTOR_MAX,
        0 <= dt_millis <= DT_LIMIT,
    ensures
        d == displacement_spec(dir as int, speed_factor as int, dt_millis as int),
        -DISP_LIMIT <= d <= DISP_LIMIT,
{
    let m: u64 = component_magnitude(dir);
    proof {
        assert(m * (BASE_SPEED as u64) * speed_factor <= 800_000_000) by (nonlinear_arith)
            requires
                0 <= m <= 1000,
                0 <= speed_factor < 4000,
        ;
        assert(m * (BASE_SPEED as u64) * speed_factor * dt_millis <= 8_000_000_000_000_000)
            by (nonlinear_arith)
            requires
                0 <= m * (BASE_SPEED as u64) * speed_factor <= 800_000_000,
                0 <= dt_millis <= 10_000_000,
        ;
    }
    let prod: u64 = m * (BASE_SPEED as u64) * (speed_factor as u64) * (dt_millis as u64);
    let q: u64 = prod / 1_000_000;
    proof {
        assert(q <= 8_000_000_000) by (nonlinear_arith)
            requires
                q == prod as int / 1_000_000,
                0 <= prod <= 8_000_000_000_000_000,
        ;
        if dir >= 0 {
            assert(dir * BASE_SPEED * speed_factor * dt_millis == prod) by (nonlinear_arith)
                requires
                    m == dir,
                    prod == m * BASE_SPEED * speed_factor * dt_millis,
            ;
        } else {
            assert(dir * BASE_SPEED * speed_factor * dt_millis == -(prod as int))
                by (nonlinear_arith)
                requires
                    m == -dir,
                    prod == m * BASE_SPEED * speed_factor * dt_millis,
            ;
            assert(prod as int >= 0);
        }
        assert(SCALE * SCALE == 1_000_000);
    }
    if dir >= 0 {
        q as i64
    } else {
        -(q as i64)
    }
}

/// One mover step for one bunny. The heading reflects where the old
/// position already sits at or beyond a roaming bound (in particular, an x
/// at or beyond the half-width flips the sign of `dir.x`); the position
/// then advances by the frame's displacement, and a position that left the
/// view by more than twice the window extent is recycled to the origin.
pub fn move_bunny(b: &mut Bunny, dt_millis: i64, win_w: i64, win_h: i64)
    requires
        old(b).wf(),
        0 <= dt_millis <= DT_LIMIT,
        0 <= win_w <= WINDOW_LIMIT,
        0 <= win_h <= WINDOW_LIMIT,
        -POS_LIMIT <= old(b).pos.x <= POS_LIMIT,
        -POS_LIMIT <= old(b).pos.y <= POS_LIMIT,
    ensures
        final(b).wf(),
        final(b).speed_factor == old(b).speed_factor,
        final(b).dir.x == reflected(
            old(b).pos.x as int,
            half_extent(win_w as int, BUNNY_WIDTH as int),
            old(b).dir.x as int,
        ),
        final(b).dir.y == reflected(
            old(b).pos.y as int,
            half_extent(win_h as int, BUNNY_HEIGHT as int),
            old(b).dir.y as int,
        ),
        old(b).pos.x >= half_extent(win_w as int, BUNNY_WIDTH as int)
            ==> final(b).dir.x == -old(b).dir.x,
        out_of_view(
            stepped_x(*old(b), dt_millis as int, win_w as int),
            stepped_y(*old(b), dt_millis as int, win_h as int),
            win_w as int,
            win_h as int,
        ) ==> final(b).pos.x == 0 && final(b).pos.y == 0,
        !out_of_view(
            stepped_x(*old(b), dt_millis as int, win_w as int),
            stepped_y(*old(b), dt_millis as int, win_h as int),
            win_w as int,
            win_h as int,
        ) ==> final(b).pos.x == stepped_x(*old(b), dt_millis as int, win_w as int)
            && final(b).pos.y == stepped_y(*old(b), dt_millis as int, win_h as int),
{
    let half_w: i64 = ((win_w as u64 / 2) as i64) - ((BUNNY_WIDTH as u64 / 2) as i64);
    let half_h: i64 = ((win_h as u64 / 2) as i64) - ((BUNNY_HEIGHT as u64 / 2) as i64);
    if b.pos.x <= -half_w || b.pos.x >= half_w {
        b.dir.x = -b.dir.x;
    }
    if b.pos.y <= -half_h || b.pos.y >= half_h {
        b.dir.y = -b.dir.y;
    }
    let dx = displacement(b.dir.x, b.speed_factor, dt_millis);
    let dy = displacement(b.dir.y, b.speed_factor, dt_millis);
    b.pos.x = b.pos.x + dx;
    b.pos.y = b.pos.y + dy;
    let lim_x: i64 = 2 * win_w;
    let lim_y: i64 = 2 * win_h;
    if b.pos.x < -lim_x || b.pos.x > lim_x || b.pos.y < -lim_y || b.pos.y > lim_y {
        b.pos.x = 0;
        b.pos.y = 0;
    }
}

} // verus!
