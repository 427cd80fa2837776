//! The raycaster: builds a per-column ray from the camera, marches it
//! through the tile map with a DDA traversal, and reports the first solid
//! tile hit together with the perpendicular (fish-eye-corrected) distance.

use vstd::prelude::*;
use crate::fx::{
    abs_i64, mul_scale, spec_abs, spec_mul_scale, DELTA_MAX, DELTA_MIN, MAX_SCREEN_DIM,
    RAY_ABS_MAX, SCALE, SENTINEL,
};
use crate::tilemap::TileMap;
use crate::camera::{lemma_component_in_norm_box, Camera};

verus! {

/// What one ray traversal produced, over the mathematical integers.
pub ghost struct HitModel {
    /// The material of the tile the ray stopped in; never zero.
    pub material: int,
    /// 0 when the final step crossed an x grid line, 1 for a y grid line.
    pub side: int,
    /// The camera-plane-corrected distance to the hit, in Q16.16.
    pub perp: int,
    /// The camera position plus the final accumulated per-axis distances.
    pub point_x: int,
    pub point_y: int,
}

/// The per-ray constants of a DDA traversal.
pub ghost struct RayModel {
    pub pos_x: int,
    pub pos_y: int,
    /// Per-axis tile increments: the sign of the ray component.
    pub step_x: int,
    pub step_y: int,
    /// Per-axis distance along the ray between successive grid lines.
    pub delta_x: int,
    pub delta_y: int,
}

/// A traversal cursor: the current tile and, per axis, the accumulated
/// distance to the next grid line of that axis.
pub ghost struct DdaState {
    pub map_x: int,
    pub map_y: int,
    pub sdx: int,
    pub sdy: int,
}

/// The sign of a ray component, which is its per-axis tile increment.
pub open spec fn spec_sign(r: int) -> int {
    if r > 0 {
        1
    } else if r < 0 {
        -1
    } else {
        0
    }
}

/// The distance along the ray between two grid lines of one axis,
/// `1 / |ray|` in Q16.16; the sentinel for a degenerate component.
pub open spec fn spec_delta(r: int) -> int {
    if r == 0 {
        SENTINEL as int
    } else {
        (DELTA_MAX as int) / spec_abs(r)
    }
}

/// The camera-space offset of column `x` out of `w`: `2 * x / w - 1` in
/// Q16.16, covering `[-1, 1)` across the screen.
pub open spec fn spec_xcam(x: int, w: int) -> int {
    (2 * (SCALE as int) * x) / w - (SCALE as int)
}

/// The x component of the ray through column `x`: facing direction plus
/// the view plane scaled by the camera-space offset.
pub open spec fn spec_ray_x(cam: Camera, x: int, w: int) -> int {
    cam.dir_x + spec_mul_scale(cam.plane_x as int, spec_xcam(x, w))
}

/// The y component of the ray through column `x`.
pub open spec fn spec_ray_y(cam: Camera, x: int, w: int) -> int {
    cam.dir_y + spec_mul_scale(cam.plane_y as int, spec_xcam(x, w))
}

/// The distance along the ray from the camera to the first grid line of
/// one axis: the fractional tile distance toward the next line in the
/// ray's direction, times `delta`, rounded up; the sentinel when the ray
/// never crosses lines of this axis.
pub open spec fn spec_init_sd(pos: int, r: int, delta: int) -> int {
    if r == 0 {
        SENTINEL as int
    } else {
        let cell = pos / (SCALE as int);
        let frac = if r > 0 {
            (cell + 1) * (SCALE as int) - pos
        } else {
            pos - cell * (SCALE as int)
        };
        (frac * delta + (SCALE as int) - 1) / (SCALE as int)
    }
}

/// The traversal constants for column `x` of a `w`-column screen.
pub open spec fn spec_ray_model(cam: Camera, x: int, w: int) -> RayModel {
    RayModel {
        pos_x: cam.pos_x as int,
        pos_y: cam.pos_y as int,
        step_x: spec_sign(spec_ray_x(cam, x, w)),
        step_y: spec_sign(spec_ray_y(cam, x, w)),
        delta_x: spec_delta(spec_ray_x(cam, x, w)),
        delta_y: spec_delta(spec_ray_y(cam, x, w)),
    }
}

/// The traversal start: the camera's tile, with the initial per-axis
/// distances to the first grid lines.
pub open spec fn spec_init_state(cam: Camera, x: int, w: int) -> DdaState {
    DdaState {
        map_x: cam.pos_x as int / (SCALE as int),
        map_y: cam.pos_y as int / (SCALE as int),
        sdx: spec_init_sd(cam.pos_x as int, spec_ray_x(cam, x, w), spec_delta(
            spec_ray_x(cam, x, w),
        )),
        sdy: spec_init_sd(cam.pos_y as int, spec_ray_y(cam, x, w), spec_delta(
            spec_ray_y(cam, x, w),
        )),
    }
}

/// Which axis the next step crosses: the one whose accumulated distance
/// is smaller, ties going to the y axis.
pub open spec fn spec_step_side(st: DdaState) -> int {
    if st.sdx < st.sdy {
        0
    } else {
        1
    }
}

/// One DDA step: advance one tile along the chosen axis and accumulate
/// that axis's per-line distance.
pub open spec fn spec_dda_step(r: RayModel, st: DdaState) -> DdaState {
    if st.sdx < st.sdy {
        DdaState { map_x: st.map_x + r.step_x, map_y: st.map_y, sdx: st.sdx + r.delta_x, sdy: st.sdy }
    } else {
        DdaState { map_x: st.map_x, map_y: st.map_y + r.step_y, sdx: st.sdx, sdy: st.sdy + r.delta_y }
    }
}

/// The DDA traversal: step until the entered tile is solid, then report
/// material, stepped side, perpendicular distance (the accumulated
/// distance of the stepped axis before its final increment), and hit
/// point. `None` on fuel exhaustion or when a step leaves the map, which
/// a well-formed map and camera never allow.
pub open spec fn spec_dda_run(map: TileMap, r: RayModel, st: DdaState, fuel: nat) -> Option<
    HitModel,
>
    decreases fuel,
{
    if fuel == 0 {
        None
    } else {
        let side = spec_step_side(st);
        let st2 = spec_dda_step(r, st);
        if 0 <= st2.map_x < map.width && 0 <= st2.map_y < map.height {
            if map.cell(st2.map_x, st2.map_y) != 0 {
                Some(
                    HitModel {
                        material: map.cell(st2.map_x, st2.map_y) as int,
                        side: side,
                        perp: if side == 0 {
                            st2.sdx - r.delta_x
                        } else {
                            st2.sdy - r.delta_y
                        },
                        point_x: r.pos_x + st2.sdx,
                        point_y: r.pos_y + st2.sdy,
                    },
                )
            } else {
                spec_dda_run(map, r, st2, (fuel - 1) as nat)
            }
        } else {
            None
        }
    }
}

/// The whole raycast for column `x`: `None` exactly for a fully
/// degenerate ray, otherwise the DDA traversal with `width + height`
/// fuel, which the solid border makes sufficient.
pub open spec fn spec_raycast(map: TileMap, cam: Camera, x: int, w: int) -> Option<HitModel> {
    if spec_ray_x(cam, x, w) == 0 && spec_ray_y(cam, x, w) == 0 {
        None
    } else {
        spec_dda_run(
            map,
            spec_ray_model(cam, x, w),
            spec_init_state(cam, x, w),
            (map.width + map.height) as nat,
        )
    }
}

/// What one ray traversal produced.
pub struct Hit {
    /// The material of the tile the ray stopped in; never zero.
    pub material: u8,
    /// 0 when the final step crossed an x grid line, 1 for a y grid line.
    pub side: u8,
    /// The camera-plane-corrected distance to the hit, in Q16.16.
    pub perp: u64,
    /// The camera position plus the final accumulated per-axis distances.
    pub point_x: u64,
    pub point_y: u64,
    /// How many DDA steps the traversal took.
    pub steps: usize,
}

impl Hit {
    /// The mathematical content of this hit.
    pub open spec fn as_model(self) -> HitModel {
        HitModel {
            material: self.material as int,
            side: self.side as int,
            perp: self.perp as int,
            point_x: self.point_x as int,
            point_y: self.point_y as int,
        }
    }
}

/// The per-axis step distance `1 / |ray|` in Q16.16. A degenerate
/// component gets the large sentinel instead of a division blow-up.
pub fn delta_dist(ray: i64) -> (d: u64)
    requires
        -RAY_ABS_MAX <= ray <= RAY_ABS_MAX,
    ensures
        d == spec_delta(ray as int),
        ray == 0 ==> d == SENTINEL,
        ray != 0 ==> DELTA_MIN <= d <= DELTA_MAX,
{
    if ray == 0 {
        SENTINEL
    } else {
        let a: u64 = abs_i64(ray);
        let d: u64 = DELTA_MAX / a;
        proof {
            assert(DELTA_MIN <= d <= DELTA_MAX) by (nonlinear_arith)
                requires
                    d == (DELTA_MAX as int) / (a as int),
                    1 <= a <= RAY_ABS_MAX,
                    RAY_ABS_MAX == 524288,
                    DELTA_MAX == 4294967296,
                    DELTA_MIN == 8192,
            ;
        }
        d
    }
}

/// The distance along the ray to the first grid line of one axis.
/// Rounded up, so it is positive whenever the fractional tile distance
/// is.
fn init_side_dist(pos: u64, ray: i64, delta: u64) -> (sd: u64)
    requires
        pos < 67108864,
        -RAY_ABS_MAX <= ray <= RAY_ABS_MAX,
        delta == spec_delta(ray as int),
        ray != 0 ==> DELTA_MIN <= delta <= DELTA_MAX,
    ensures
        sd == spec_init_sd(pos as int, ray as int, delta as int),
        ray == 0 ==> sd == SENTINEL,
        ray != 0 ==> sd <= delta,
        ray != 0 && (ray > 0 || pos % SCALE != 0) ==> sd >= 1,
{
    if ray == 0 {
        SENTINEL
    } else {
        let cell: u64 = pos / SCALE;
        proof {
            assert(cell * SCALE <= pos < (cell + 1) * SCALE) by (nonlinear_arith)
                requires
                    cell == (pos as int) / (SCALE as int),
                    pos >= 0,
                    SCALE == 65536,
            ;
        }
        let frac: u64 = if ray > 0 {
            (cell + 1) * SCALE - pos
        } else {
            pos - cell * SCALE
        };
        proof {
            if ray < 0 {
                assert(frac == pos % SCALE) by (nonlinear_arith)
                    requires
                        frac == pos - ((pos as int) / (SCALE as int)) * SCALE,
                        pos >= 0,
                        SCALE == 65536,
                ;
            }
            assert(frac * delta <= SCALE * delta && frac * delta >= frac) by (nonlinear_arith)
                requires
                    0 <= frac <= SCALE,
                    1 <= delta,
            ;
        }
        let num: u64 = frac * delta + (SCALE - 1);
        let sd: u64 = num / SCALE;
        proof {
            assert(sd <= delta && (frac >= 1 ==> sd >= 1)) by (nonlinear_arith)
                requires
                    sd == (num as int) / (SCALE as int),
                    num == frac * delta + SCALE - 1,
                    frac * delta <= SCALE * delta,
                    frac * delta >= frac,
                    0 <= frac,
                    1 <= delta,
                    SCALE == 65536,
            ;
        }
        sd
    }
}

/// A traversal that starts with both per-axis distances positive reports
/// a positive perpendicular distance: the reported distance is always one
/// of the accumulated per-axis distances before its final increment, and
/// increments never decrease them.
pub proof fn lemma_dda_perp_positive(map: TileMap, r: RayModel, st: DdaState, fuel: nat)
    requires
        st.sdx >= 1,
        st.sdy >= 1,
        r.delta_x >= 1,
        r.delta_y >= 1,
    ensures
        spec_dda_run(map, r, st, fuel) matches Some(hm) ==> hm.perp >= 1,
    decreases fuel,
{
    if fuel > 0 {
        let st2 = spec_dda_step(r, st);
        if 0 <= st2.map_x < map.width && 0 <= st2.map_y < map.height {
            if map.cell(st2.map_x, st2.map_y) == 0 {
                lemma_dda_perp_positive(map, r, st2, (fuel - 1) as nat);
            }
        }
    }
}

/// Casts the ray for screen column `x` of a `width`-column frame and
/// marches it through `map` to the first solid tile.
///
/// Returns `None` exactly when the column's ray degenerates to the zero
/// vector. Otherwise the hit is the one the mathematical traversal
/// `spec_raycast` describes, found within `map.width + map.height` DDA
/// steps: the solid border stops every ray at most one map diagonal away.
/// The perpendicular distance is positive whenever, on each axis, the ray
/// either points away from negative infinity or the camera does not sit
/// exactly on a grid line of that axis.
#[verifier::loop_isolation(false)]
pub fn raycast(map: &TileMap, cam: &Camera, x: usize, width: usize) -> (r: Option<Hit>)
    requires
        map.wf(),
        cam.wf(*map),
        x < width,
        width <= MAX_SCREEN_DIM,
    ensures
        r.is_none() <==> (spec_ray_x(*cam, x as int, width as int) == 0 && spec_ray_y(
            *cam,
            x as int,
            width as int,
        ) == 0),
        r matches Some(h) ==> Some(h.as_model()) == spec_raycast(
            *map,
            *cam,
            x as int,
            width as int,
        ) && h.steps <= map.width + map.height && h.material != 0,
        (match r {
            Some(h) => (spec_ray_x(*cam, x as int, width as int) >= 0 || cam.pos_x % SCALE != 0)
                && (spec_ray_y(*cam, x as int, width as int) >= 0 || cam.pos_y % SCALE != 0)
                ==> h.perp >= 1,
            None => true,
        }),
{
    let ghost xi = x as int;
    let ghost wi = width as int;
    proof {
        lemma_component_in_norm_box(cam.dir_x as int, cam.dir_y as int);
        lemma_component_in_norm_box(cam.plane_x as int, cam.plane_y as int);
    }
    // Camera-space offset of this column, in [-1, 1).
    let t: u64 = (2 * SCALE * (x as u64)) / (width as u64);
    proof {
        assert(t < 2 * SCALE) by (nonlinear_arith)
            requires
                t == (2 * (SCALE as int) * xi) / wi,
                0 <= xi < wi,
                SCALE == 65536,
        ;
    }
    let xcam: i64 = (t as i64) - (SCALE as i64);
    proof {
        assert(xcam == spec_xcam(xi, wi));
        assert(spec_abs((cam.plane_x as int) * (xcam as int)) <= 262144 * 65536)
            by (nonlinear_arith)
            requires
                spec_abs(cam.plane_x as int) <= 262144,
                spec_abs(xcam as int) <= 65536,
        ;
        assert(spec_abs((cam.plane_y as int) * (xcam as int)) <= 262144 * 65536)
            by (nonlinear_arith)
            requires
                spec_abs(cam.plane_y as int) <= 262144,
                spec_abs(xcam as int) <= 65536,
        ;
    }
    // Ray components for this column.
    let px: i64 = mul_scale(cam.plane_x, xcam);
    let py: i64 = mul_scale(cam.plane_y, xcam);
    let rx: i64 = cam.dir_x + px;
    let ry: i64 = cam.dir_y + py;
    proof {
        assert(rx == spec_ray_x(*cam, xi, wi));
        assert(ry == spec_ray_y(*cam, xi, wi));
    }
    if rx == 0 && ry == 0 {
        return None;
    }
    let step_x: i64 = if rx > 0 {
        1
    } else if rx < 0 {
        -1
    } else {
        0
    };
    let step_y: i64 = if ry > 0 {
        1
    } else if ry < 0 {
        -1
    } else {
        0
    };
    let delta_x: u64 = delta_dist(rx);
    let delta_y: u64 = delta_dist(ry);
    let sdx0: u64 = init_side_dist(cam.pos_x, rx, delta_x);
    let sdy0: u64 = init_side_dist(cam.pos_y, ry, delta_y);
    proof {
        assert(1 <= (cam.pos_x as int) / 65536 <= map.width - 2 && 1 <= (cam.pos_y as int) / 65536
            <= map.height - 2) by (nonlinear_arith)
            requires
                65536 <= cam.pos_x,
                cam.pos_x < (map.width - 1) * 65536,
                65536 <= cam.pos_y,
                cam.pos_y < (map.height - 1) * 65536,
                3 <= map.width,
                3 <= map.height,
        ;
    }
    let mut map_x: usize = (cam.pos_x / SCALE) as usize;
    let mut map_y: usize = (cam.pos_y / SCALE) as usize;
    let ghost rm = spec_ray_model(*cam, xi, wi);
    let ghost st0 = spec_init_state(*cam, xi, wi);
    let ghost fuel0 = (map.width + map.height) as int;
    let ghost map_x0 = map_x as int;
    let ghost map_y0 = map_y as int;
    proof {
        assert(rm.pos_x == cam.pos_x && rm.pos_y == cam.pos_y);
        assert(rm.step_x == step_x && rm.step_y == step_y);
        assert(rm.delta_x == delta_x && rm.delta_y == delta_y);
        assert(st0.map_x == map_x0 && st0.map_y == map_y0);
        assert(st0.sdx == sdx0 && st0.sdy == sdy0);
    }
    let mut sdx: u64 = sdx0;
    let mut sdy: u64 = sdy0;
    let mut side: u8 = 0;
    let mut mat: u8 = 0;
    let mut steps: usize = 0;
    let ghost mut kx: int = 0;
    let ghost mut ky: int = 0;
    while mat == 0
        invariant
            steps == kx + ky,
            kx >= 0,
            ky >= 0,
            step_x != 0 ==> sdx == st0.sdx + kx * rm.delta_x,
            step_y != 0 ==> sdy == st0.sdy + ky * rm.delta_y,
            step_x == 1 ==> map_x == map_x0 + kx,
            step_x == -1 ==> map_x == map_x0 - kx,
            step_x == 0 ==> kx == 0 && sdx == SENTINEL,
            step_y == 1 ==> map_y == map_y0 + ky,
            step_y == -1 ==> map_y == map_y0 - ky,
            step_y == 0 ==> ky == 0 && sdy == SENTINEL,
            0 <= map_x <= map.width - 1,
            0 <= map_y <= map.height - 1,
            mat == 0 ==> 1 <= map_x <= map.width - 2 && 1 <= map_y <= map.height - 2,
            mat == 0 ==> spec_dda_run(
                *map,
                rm,
                DdaState { map_x: map_x as int, map_y: map_y as int, sdx: sdx as int, sdy: sdy as int },
                (fuel0 - steps) as nat,
            ) == spec_dda_run(*map, rm, st0, fuel0 as nat),
            mat != 0 ==> 1 <= steps && (side == 0 || side == 1) && (side == 0 ==> step_x != 0
                && kx >= 1) && (side == 1 ==> step_y != 0 && ky >= 1) && spec_dda_run(
                *map,
                rm,
                st0,
                fuel0 as nat,
            ) == Some(
                HitModel {
                    material: mat as int,
                    side: side as int,
                    perp: if side == 0 {
                        sdx - rm.delta_x
                    } else {
                        sdy - rm.delta_y
                    },
                    point_x: rm.pos_x + sdx,
                    point_y: rm.pos_y + sdy,
                },
            ),
        decreases fuel0 - steps,
    {
        let ghost cur = DdaState {
            map_x: map_x as int,
            map_y: map_y as int,
            sdx: sdx as int,
            sdy: sdy as int,
        };
        if sdx < sdy {
            proof {
                if step_x == 0 {
                    assert(step_y != 0);
                    assert(ky <= 1022);
                    assert(ky * rm.delta_y <= 1022 * 4294967296) by (nonlinear_arith)
                        requires
                            0 <= ky <= 1022,
                            0 <= rm.delta_y <= 4294967296,
                    ;
                    assert(sdy < SENTINEL);
                    assert(false);
                }
                assert(kx <= 1021);
                assert(kx * rm.delta_x <= 1021 * 4294967296) by (nonlinear_arith)
                    requires
                        0 <= kx <= 1021,
                        0 <= rm.delta_x <= 4294967296,
                ;
            }
            sdx = sdx + delta_x;
            if step_x > 0 {
                map_x = map_x + 1;
            } else {
                map_x = map_x - 1;
            }
            side = 0;
            proof {
                kx = kx + 1;
                assert(kx * rm.delta_x == (kx - 1) * rm.delta_x + rm.delta_x) by (nonlinear_arith);
            }
        } else {
            proof {
                if step_y == 0 {
                    assert(step_x != 0);
                    assert(kx <= 1021);
                    assert(kx * rm.delta_x <= 1021 * 4294967296) by (nonlinear_arith)
                        requires
                            0 <= kx <= 1021,
                            0 <= rm.delta_x <= 4294967296,
                    ;
                    assert(sdx < SENTINEL);
                    assert(false);
                }
                assert(ky <= 1022);
                assert(ky * rm.delta_y <= 1022 * 4294967296) by (nonlinear_arith)
                    requires
                        0 <= ky <= 1022,
                        0 <= rm.delta_y <= 4294967296,
                ;
            }
            sdy = sdy + delta_y;
            if step_y > 0 {
                map_y = map_y + 1;
            } else {
                map_y = map_y - 1;
            }
            side = 1;
            proof {
                ky = ky + 1;
                assert(ky * rm.delta_y == (ky - 1) * rm.delta_y + rm.delta_y) by (nonlinear_arith);
            }
        }
        steps = steps + 1;
        mat = map.at(map_x, map_y);
        proof {
            assert(spec_step_side(cur) == side as int);
            assert(spec_dda_step(rm, cur) == (DdaState {
                map_x: map_x as int,
                map_y: map_y as int,
                sdx: sdx as int,
                sdy: sdy as int,
            }));
        }
        if mat == 0 {
            proof {
                map.lemma_empty_is_interior(map_x as int, map_y as int);
            }
        }
    }
    // Rebuild the hit that the traversal just found.
    proof {
        if step_x != 0 {
            assert(kx <= 1022);
            assert(kx * rm.delta_x <= 1022 * 4294967296) by (nonlinear_arith)
                requires
                    0 <= kx <= 1022,
                    0 <= rm.delta_x <= 4294967296,
            ;
        }
        if step_y != 0 {
            assert(ky <= 1023);
            assert(ky * rm.delta_y <= 1023 * 4294967296) by (nonlinear_arith)
                requires
                    0 <= ky <= 1023,
                    0 <= rm.delta_y <= 4294967296,
            ;
        }
        assert(side == 0 ==> sdx >= delta_x) by (nonlinear_arith)
            requires
                side == 0 ==> kx >= 1 && sdx == st0.sdx + kx * rm.delta_x && st0.sdx >= 0,
                rm.delta_x == delta_x,
                delta_x >= 0,
        ;
        assert(side == 1 ==> sdy >= delta_y) by (nonlinear_arith)
            requires
                side == 1 ==> ky >= 1 && sdy == st0.sdy + ky * rm.delta_y && st0.sdy >= 0,
                rm.delta_y == delta_y,
                delta_y >= 0,
        ;
    }
    let perp: u64 = if side == 0 {
        sdx - delta_x
    } else {
        sdy - delta_y
    };
    let point_x: u64 = cam.pos_x + sdx;
    let point_y: u64 = cam.pos_y + sdy;
    let h = Hit { material: mat, side, perp, point_x, point_y, steps };
    proof {
        assert(Some(h.as_model()) == spec_raycast(*map, *cam, xi, wi));
        if ((rx >= 0 || cam.pos_x % SCALE != 0) && (ry >= 0 || cam.pos_y % SCALE != 0)) {
            assert(st0.sdx >= 1 && st0.sdy >= 1);
            assert(rm.delta_x >= 1 && rm.delta_y >= 1);
            lemma_dda_perp_positive(*map, rm, st0, fuel0 as nat);
        }
    }
    Some(h)
}

} // verus!
