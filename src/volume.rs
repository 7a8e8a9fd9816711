//! Volume arithmetic on fixed-point values.
//!
//! A volume is held as an integer count of millionths: `VOLUME_UNIT` stands for
//! a linear gain of 1.0.
use vstd::prelude::*;

verus! {

/// The fixed-point value of a gain of 1.0.
pub const VOLUME_UNIT: u32 = 1_000_000;

/// The largest volume a node or device holds (a gain of 2.0).
pub const MAX_VOLUME: u32 = 2_000_000;

pub open spec fn unit() -> int {
    VOLUME_UNIT as int
}

pub open spec fn cube(x: int) -> int {
    x * x * x
}

/// `p` is the perceptual value of the linear value `raw`: the floor of the cube
/// root, in the same fixed-point unit.
pub open spec fn is_cube_root_of(p: int, raw: int) -> bool {
    0 <= p && cube(p) <= raw * unit() * unit() < cube(p + 1)
}

/// The perceptual value of the linear value `raw`.
pub open spec fn cubic_scaled(raw: int) -> int {
    choose|p: int| is_cube_root_of(p, raw)
}

proof fn lemma_cube_monotone(a: int, b: int)
    requires
        0 <= a <= b,
    ensures
        cube(a) <= cube(b),
{
    assert(a * a <= b * b) by (nonlinear_arith) requires 0 <= a <= b;
    assert(a * a * a <= b * b * b) by (nonlinear_arith) requires 0 <= a <= b, a * a <= b * b;
}

proof fn lemma_cube_root_unique(p: int, q: int, raw: int)
    requires
        is_cube_root_of(p, raw),
        is_cube_root_of(q, raw),
    ensures
        p == q,
{
    if p < q {
        lemma_cube_monotone(p + 1, q);
    } else if q < p {
        lemma_cube_monotone(q + 1, p);
    }
}

/// The linear value of a perceptual value `p`: `p` cubed, floored.
pub open spec fn inverse_cubic(p: int) -> int {
    if p <= 0 {
        0
    } else {
        cube(p) / (unit() * unit())
    }
}

#[derive(Debug, Clone, Copy, PartialEq, Eq, Structural)]
pub enum RouteDirection {
    Input,
    Output,
}

/// A parameter value as the server reports it, with gains in millionths.
#[derive(Debug, PartialEq, Eq)]
pub enum ParamValue {
    FloatArray(Vec<u32>),
    Float(u32),
    Bool(bool),
    Int(i32),
    Other,
}

/// A (volume, mute) pair that neither lowers the gain nor mutes: what a source
/// reports when it was never set.
pub open spec fn is_neutral(v: (u32, bool)) -> bool {
    v.0 == VOLUME_UNIT && !v.1
}

pub open spec fn spec_resolve_effective_volume(
    route_volume: Option<u32>,
    route_muted: Option<bool>,
    node_volume: u32,
    node_muted: bool,
    has_route_volume: bool,
) -> (u32, bool) {
    if has_route_volume && route_volume is Some && route_muted is Some && !is_neutral(
        (route_volume->0, route_muted->0),
    ) {
        (route_volume->0, route_muted->0)
    } else {
        (node_volume, node_muted)
    }
}

pub open spec fn spec_resolve_volume(
    route: Option<(u32, bool)>,
    device: Option<(u32, bool)>,
    node: (u32, bool),
    has_route_volume: bool,
) -> (u32, bool) {
    if has_route_volume && route is Some && !is_neutral(route->0) {
        route->0
    } else if device is Some && !is_neutral(device->0) {
        device->0
    } else {
        node
    }
}

pub struct VolumeResolver;

impl VolumeResolver {
    /// Route-level state wins when the device exposes route volume, both
    /// halves of it are known, and it is not the neutral (unset) value;
    /// otherwise the node's own state.
    pub fn resolve_effective_volume(
        route_volume: Option<u32>,
        route_muted: Option<bool>,
        node_volume: u32,
        node_muted: bool,
        has_route_volume: bool,
    ) -> (r: (u32, bool))
        ensures
            r == spec_resolve_effective_volume(
                route_volume,
                route_muted,
                node_volume,
                node_muted,
                has_route_volume,
            ),
    {
        if has_route_volume {
            match (route_volume, route_muted) {
                (Some(vol), Some(muted)) => {
                    if !(vol == VOLUME_UNIT && !muted) {
                        return (vol, muted);
                    }
                },
                _ => {},
            }
        }
        (node_volume, node_muted)
    }

    /// Picks the winning (volume, mute) pair: route level, then device
    /// property level, then node level, passing over a source that reports the
    /// neutral value.
    pub fn resolve_volume(
        route: Option<(u32, bool)>,
        device: Option<(u32, bool)>,
        node: (u32, bool),
        has_route_volume: bool,
    ) -> (r: (u32, bool))
        ensures
            r == spec_resolve_volume(route, device, node, has_route_volume),
    {
        if has_route_volume {
            if let Some(rv) = route {
                if !(rv.0 == VOLUME_UNIT && !rv.1) {
                    return rv;
                }
            }
        }
        if let Some(dv) = device {
            if !(dv.0 == VOLUME_UNIT && !dv.1) {
                return dv;
            }
        }
        node
    }

    /// Hardware linear volume to perceptual volume: the cube root, floored to
    /// the fixed-point unit; zero stays zero.
    pub fn apply_cubic_scaling(raw_volume: u32) -> (r: u32)
        ensures
            is_cube_root_of(r as int, raw_volume as int),
            r as int == cubic_scaled(raw_volume as int),
            raw_volume == 0 ==> r == 0,
    {
        let target: u128 = raw_volume as u128 * 1_000_000_000_000u128;
        proof {
            assert(raw_volume as int * unit() * unit() == target as int) by (nonlinear_arith)
                requires target == raw_volume as int * 1_000_000_000_000int;
        }
        // cube(lo) <= target < cube(hi)
        let mut lo: u128 = 0;
        let mut hi: u128 = 17_000_000;
        proof {
            assert(cube(hi as int) == 4_913_000_000_000_000_000_000int) by (nonlinear_arith)
                requires hi == 17_000_000;
            assert(raw_volume as int * 1_000_000_000_000int <= 4_294_967_295int * 1_000_000_000_000int)
                by (nonlinear_arith) requires raw_volume <= 4_294_967_295u32;
        }
        while lo + 1 < hi
            invariant
                lo < hi <= 17_000_000,
                cube(lo as int) <= target as int,
                (target as int) < cube(hi as int),
                target as int == raw_volume as int * unit() * unit(),
            decreases hi - lo,
        {
            let mid: u128 = lo + (hi - lo) / 2;
            proof {
                assert(mid * mid <= 289_000_000_000_000int) by (nonlinear_arith)
                    requires 0 <= mid <= 17_000_000;
                assert(mid * mid * mid <= 4_913_000_000_000_000_000_000int) by (nonlinear_arith)
                    requires 0 <= mid <= 17_000_000, mid * mid <= 289_000_000_000_000int;
            }
            let c: u128 = mid * mid * mid;
            if c <= target {
                lo = mid;
            } else {
                hi = mid;
            }
        }
        proof {
            assert(lo + 1 == hi);
            if raw_volume == 0 {
                assert(cube(lo as int) >= 0) by (nonlinear_arith) requires lo >= 0;
                assert(lo == 0) by (nonlinear_arith)
                    requires cube(lo as int) <= 0, lo >= 0;
            }
            assert(lo < 17_000_000);
            assert(is_cube_root_of(lo as int, raw_volume as int));
            let c = cubic_scaled(raw_volume as int);
            lemma_cube_root_unique(c, lo as int, raw_volume as int);
        }
        lo as u32
    }

    /// Perceptual volume to hardware linear volume: the cube, floored to the
    /// fixed-point unit; zero stays zero.
    pub fn apply_inverse_cubic_scaling(volume: u32) -> (r: u64)
        ensures
            r as int == inverse_cubic(volume as int),
    {
        if volume == 0 {
            0
        } else {
            let v: u128 = volume as u128;
            proof {
                assert(v * v <= 4_294_967_295int * 4_294_967_295int) by (nonlinear_arith)
                    requires v <= 4_294_967_295u128;
                assert(v * v * v <= 4_294_967_295int * 4_294_967_295int * 4_294_967_295int)
                    by (nonlinear_arith)
                    requires v <= 4_294_967_295u128, v * v <= 4_294_967_295int * 4_294_967_295int;
            }
            let c: u128 = v * v * v;
            let q: u128 = c / 1_000_000_000_000u128;
            proof {
                assert(q <= 79_228_162_514_264_337_593int) by (nonlinear_arith)
                    requires q as int == c as int / 1_000_000_000_000int,
                        c as int <= 4_294_967_295int * 4_294_967_295int * 4_294_967_295int;
                let u = unit();
                assert(u * u == 1_000_000_000_000int) by (nonlinear_arith) requires u == 1_000_000;
                assert(c as int == cube(volume as int));
            }
            q as u64
        }
    }

    /// The first channel of a multi-channel volume, or a scalar volume.
    pub fn extract_channel_volume(value: &ParamValue) -> (r: Option<u32>)
        ensures
            r == match value {
                ParamValue::FloatArray(v) => if v@.len() > 0 {
                    Some(v@[0])
                } else {
                    None::<u32>
                },
                ParamValue::Float(x) => Some(*x),
                _ => None,
            },
    {
        match value {
            ParamValue::FloatArray(v) => {
                if v.len() > 0 {
                    Some(v[0])
                } else {
                    None
                }
            },
            ParamValue::Float(x) => Some(*x),
            _ => None,
        }
    }
}

proof fn lemma_root_search(x: int, m: nat)
    requires
        0 <= x,
    ensures
        (exists|p: int| 0 <= p <= m && #[trigger] is_cube_root_of_value(p, x)) || cube(m + 1int) <= x,
    decreases m,
{
    assert(cube(0) == 0);
    assert(cube(1) == 1) by (nonlinear_arith);
    if m == 0 {
        if x < cube(1) {
            assert(is_cube_root_of_value(0, x));
        }
    } else {
        lemma_root_search(x, (m - 1) as nat);
        if !(exists|p: int| 0 <= p <= m - 1 && #[trigger] is_cube_root_of_value(p, x)) {
            if x < cube(m + 1int) {
                assert(is_cube_root_of_value(m as int, x));
            }
        }
    }
}

/// `p` is the floor of the cube root of the scaled value `x`.
pub open spec fn is_cube_root_of_value(p: int, x: int) -> bool {
    0 <= p && cube(p) <= x < cube(p + 1)
}

/// Every linear volume between silence and unity gain has a perceptual value.
proof fn lemma_cube_root_exists(r: int)
    requires
        0 <= r <= VOLUME_UNIT,
    ensures
        is_cube_root_of(cubic_scaled(r), r),
{
    let u = unit();
    let x = r * u * u;
    assert(0 <= x <= u * u * u) by (nonlinear_arith) requires 0 <= r <= u, u == 1_000_000, x == r * u * u;
    lemma_cube_monotone(u, u + 1);
    assert(cube(u) < cube(u + 1)) by (nonlinear_arith) requires u == 1_000_000;
    lemma_root_search(x, u as nat);
    let p = choose|p: int| 0 <= p <= u && #[trigger] is_cube_root_of_value(p, x);
    assert(is_cube_root_of(p, r));
}

/// Scaling a linear volume between silence and unity gain to its perceptual
/// value and back returns it, short by at most four millionths; silence stays
/// silence.
pub proof fn lemma_cubic_round_trip(r: u32)
    requires
        r <= VOLUME_UNIT,
    ensures
        inverse_cubic(cubic_scaled(r as int)) <= r,
        r - inverse_cubic(cubic_scaled(r as int)) <= 4,
        r == 0 ==> inverse_cubic(cubic_scaled(r as int)) == 0,
{
    lemma_cube_root_exists(r as int);
    let p = cubic_scaled(r as int);
    let back = inverse_cubic(p);
    let u = unit();
    let pi = p;
    let ri = r as int;
    assert(pi <= u) by (nonlinear_arith)
        requires cube(pi) <= ri * u * u, ri <= u, u == 1_000_000, pi >= 0;
    if pi == 0 {
        assert(back == 0);
        assert(cube(1) == 1) by (nonlinear_arith);
        assert(ri == 0) by (nonlinear_arith) requires ri * u * u < 1, ri >= 0, u == 1_000_000;
    } else {
        let q = cube(pi) / (u * u);
        assert(back == q);
        assert(q * (u * u) <= cube(pi) < (q + 1) * (u * u)) by (nonlinear_arith)
            requires q == cube(pi) / (u * u), u == 1_000_000;
        assert(q <= ri) by (nonlinear_arith)
            requires q * (u * u) <= cube(pi), cube(pi) <= ri * u * u, u == 1_000_000;
        assert(cube(pi + 1) == cube(pi) + 3 * pi * pi + 3 * pi + 1) by (nonlinear_arith);
        assert(3 * pi * pi + 3 * pi + 1 <= 3 * u * u + 3 * u + 1) by (nonlinear_arith)
            requires 0 <= pi <= u;
        assert(ri < q + 5) by (nonlinear_arith)
            requires ri * u * u < cube(pi + 1),
                cube(pi + 1) == cube(pi) + 3 * pi * pi + 3 * pi + 1,
                3 * pi * pi + 3 * pi + 1 <= 3 * u * u + 3 * u + 1,
                cube(pi) < (q + 1) * (u * u),
                u == 1_000_000;
        if ri == 0 {
            assert(ri * u * u == 0) by (nonlinear_arith) requires ri == 0;
            assert(cube(pi) <= 0);
            assert(cube(pi) > 0) by (nonlinear_arith) requires pi > 0;
        }
    }
}

} // verus!
