//! Camera state: current and target position, zoom, and an optional followed
//! entity. Positions are world units; zoom is in thousandths.
use vstd::prelude::*;

use crate::world::EntityRef;

verus! {

pub const MIN_ZOOM: i64 = 100;
pub const MAX_ZOOM: i64 = 5000;
/// Position catch-up rate, per second.
pub const MOVE_RATE: i64 = 5;
/// Zoom catch-up rate, per second.
pub const ZOOM_RATE: i64 = 8;

/// How a scroll amount is measured.
#[derive(Debug, Clone, Copy, PartialEq, Eq, Structural)]
pub enum ScrollUnit {
    Line,
    Pixel,
}

#[derive(Debug, Clone, Copy, PartialEq, Eq, Structural)]
pub struct CameraController {
    pub x: i64,
    pub y: i64,
    pub target_x: i64,
    pub target_y: i64,
    pub following_entity: Option<EntityRef>,
    pub zoom: i64,
    pub target_zoom: i64,
    /// One-shot: the next step snaps to the target instead of easing.
    pub instant_movement: bool,
}

pub open spec fn clamp_int(v: int, lo: int, hi: int) -> int {
    if v < lo {
        lo
    } else if v > hi {
        hi
    } else {
        v
    }
}

/// `v` saturated into the range of `i64`.
pub open spec fn sat(v: int) -> i64 {
    clamp_int(v, i64::MIN as int, i64::MAX as int) as i64
}

/// Fraction (in thousandths) of the remaining distance covered in `dt_ms`
/// milliseconds at `rate` per second, capped at the whole distance.
pub open spec fn blend_factor(rate: int, dt_ms: int) -> int {
    if rate * dt_ms > 1000 {
        1000
    } else {
        rate * dt_ms
    }
}

/// Moves from `c` toward `t` by `f` thousandths of the distance, rounding
/// toward `c`.
pub open spec fn approach(c: int, t: int, f: int) -> int {
    if t >= c {
        c + (t - c) * f / 1000
    } else {
        c - (c - t) * f / 1000
    }
}

pub open spec fn scroll_delta(unit: ScrollUnit, amount: int) -> int {
    match unit {
        ScrollUnit::Line => amount * 100,
        ScrollUnit::Pixel => amount * 10,
    }
}

/// Saturating sum of two `i64` values.
pub fn sat_add(a: i64, b: i64) -> (r: i64)
    ensures
        r == sat(a + b),
{
    let s: i128 = a as i128 + b as i128;
    if s > i64::MAX as i128 {
        i64::MAX
    } else if s < i64::MIN as i128 {
        i64::MIN
    } else {
        s as i64
    }
}

/// Saturating difference of two `i64` values.
pub fn sat_sub(a: i64, b: i64) -> (r: i64)
    ensures
        r == sat(a - b),
{
    let s: i128 = a as i128 - b as i128;
    if s > i64::MAX as i128 {
        i64::MAX
    } else if s < i64::MIN as i128 {
        i64::MIN
    } else {
        s as i64
    }
}

proof fn lemma_scaled_part(d: int, f: int)
    requires
        0 <= d,
        0 <= f <= 1000,
    ensures
        0 <= d * f / 1000 <= d,
{
    assert(0 <= d * f) by (nonlinear_arith)
        requires
            0 <= d,
            0 <= f,
    ;
    assert(d * f <= d * 1000) by (nonlinear_arith)
        requires
            0 <= d,
            f <= 1000,
    ;
    assert(d * f / 1000 <= d * 1000 / 1000) by (nonlinear_arith)
        requires
            d * f <= d * 1000,
            0 <= d * f,
    ;
}

/// One easing step from `c` toward `t`; the result lies between the two.
pub fn approach_step(c: i64, t: i64, f: i64) -> (r: i64)
    requires
        0 <= f <= 1000,
    ensures
        r == approach(c as int, t as int, f as int),
        c <= t ==> c <= r <= t,
        t <= c ==> t <= r <= c,
{
    if t >= c {
        let d: i128 = t as i128 - c as i128;
        proof {
            lemma_scaled_part(d as int, f as int);
            assert(d * f <= d * 1000) by (nonlinear_arith)
                requires
                    0 <= d,
                    f <= 1000,
            ;
        }
        let m: i128 = d * (f as i128) / 1000;
        (c as i128 + m) as i64
    } else {
        let d: i128 = c as i128 - t as i128;
        proof {
            lemma_scaled_part(d as int, f as int);
            assert(d * f <= d * 1000) by (nonlinear_arith)
                requires
                    0 <= d,
                    f <= 1000,
            ;
        }
        let m: i128 = d * (f as i128) / 1000;
        (c as i128 - m) as i64
    }
}

/// The easing fraction for `dt_ms` milliseconds at `rate` per second.
pub fn step_factor(rate: i64, dt_ms: u64) -> (f: i64)
    requires
        0 <= rate <= 1000,
    ensures
        f == blend_factor(rate as int, dt_ms as int),
        0 <= f <= 1000,
{
    if dt_ms > 1000 {
        proof {
            if rate > 0 {
                assert(rate * dt_ms > 1000) by (nonlinear_arith)
                    requires
                        rate >= 1,
                        dt_ms > 1000,
                ;
            } else {
                assert(rate * dt_ms == 0);
            }
        }
        if rate > 0 {
            1000
        } else {
            0
        }
    } else {
        proof {
            assert(0 <= rate * dt_ms <= 1000 * 1000) by (nonlinear_arith)
                requires
                    0 <= rate <= 1000,
                    0 <= dt_ms <= 1000,
            ;
        }
        let p: i64 = rate * (dt_ms as i64);
        if p > 1000 {
            1000
        } else {
            p
        }
    }
}

/// The camera at the origin, zoom 1, following nothing.
pub open spec fn initial_camera() -> CameraController {
    CameraController {
        x: 0,
        y: 0,
        target_x: 0,
        target_y: 0,
        following_entity: None,
        zoom: 1000,
        target_zoom: 1000,
        instant_movement: false,
    }
}

impl CameraController {
    /// The camera after `dt_ms` milliseconds: the position snaps to the
    /// target once if `instant_movement` is set (consuming the flag) and eases
    /// toward it otherwise; zoom always eases.
    pub open spec fn stepped(self, dt_ms: u64) -> CameraController {
        let f = blend_factor(MOVE_RATE as int, dt_ms as int);
        let z = blend_factor(ZOOM_RATE as int, dt_ms as int);
        if self.instant_movement {
            CameraController {
                x: self.target_x,
                y: self.target_y,
                instant_movement: false,
                zoom: approach(self.zoom as int, self.target_zoom as int, z) as i64,
                ..self
            }
        } else {
            CameraController {
                x: approach(self.x as int, self.target_x as int, f) as i64,
                y: approach(self.y as int, self.target_y as int, f) as i64,
                zoom: approach(self.zoom as int, self.target_zoom as int, z) as i64,
                ..self
            }
        }
    }

    /// At the origin, zoom 1, following nothing.
    pub fn new() -> (c: CameraController)
        ensures
            c == initial_camera(),
    {
        CameraController {
            x: 0,
            y: 0,
            target_x: 0,
            target_y: 0,
            following_entity: None,
            zoom: 1000,
            target_zoom: 1000,
            instant_movement: false,
        }
    }

    /// Advances the camera by `dt_ms` milliseconds.
    pub fn step(&mut self, dt_ms: u64)
        ensures
            *final(self) == old(self).stepped(dt_ms),
    {
        if self.instant_movement {
            self.x = self.target_x;
            self.y = self.target_y;
            self.instant_movement = false;
        } else {
            let f = step_factor(MOVE_RATE, dt_ms);
            self.x = approach_step(self.x, self.target_x, f);
            self.y = approach_step(self.y, self.target_y, f);
        }
        let z = step_factor(ZOOM_RATE, dt_ms);
        self.zoom = approach_step(self.zoom, self.target_zoom, z);
    }

    /// Pans the target by (dx, dy) with an immediate move, and stops following.
    pub fn pan(&mut self, dx: i64, dy: i64)
        ensures
            *final(self) == (CameraController {
                target_x: sat(old(self).target_x + dx),
                target_y: sat(old(self).target_y + dy),
                instant_movement: true,
                following_entity: None,
                ..*old(self)
            }),
    {
        self.target_x = sat_add(self.target_x, dx);
        self.target_y = sat_add(self.target_y, dy);
        self.instant_movement = true;
        self.following_entity = None;
    }

    /// Adds a scroll amount to the target zoom, clamped into
    /// `MIN_ZOOM..=MAX_ZOOM`.
    pub fn scroll(&mut self, unit: ScrollUnit, amount: i64)
        ensures
            *final(self) == (CameraController {
                target_zoom: clamp_int(
                    old(self).target_zoom + clamp_int(scroll_delta(unit, amount as int), -1_000_000, 1_000_000),
                    MIN_ZOOM as int,
                    MAX_ZOOM as int,
                ) as i64,
                ..*old(self)
            }),
    {
        let per: i64 = match unit {
            ScrollUnit::Line => 100,
            ScrollUnit::Pixel => 10,
        };
        let bounded: i64 = if amount > 1_000_000 {
            1_000_000
        } else if amount < -1_000_000 {
            -1_000_000
        } else {
            amount
        };
        let raw: i64 = bounded * per;
        let delta: i64 = if raw > 1_000_000 {
            1_000_000
        } else if raw < -1_000_000 {
            -1_000_000
        } else {
            raw
        };
        proof {
            let d = scroll_delta(unit, amount as int);
            assert(clamp_int(d, -1_000_000, 1_000_000) == delta) by (nonlinear_arith)
                requires
                    d == amount * per,
                    per == 100 || per == 10,
                    bounded == clamp_int(amount as int, -1_000_000, 1_000_000),
                    raw == bounded * per,
                    delta == clamp_int(raw as int, -1_000_000, 1_000_000),
            ;
        }
        let t: i64 = sat_add(self.target_zoom, delta);
        self.target_zoom = if t < MIN_ZOOM {
            MIN_ZOOM
        } else if t > MAX_ZOOM {
            MAX_ZOOM
        } else {
            t
        };
    }
}

} // verus!
