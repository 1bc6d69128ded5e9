//! Boundary geometry: line segments extracted from the terrain field by
//! iso-value contouring over a fixed triangulation, and the
//! nearest-vector-to-segment-set query used for push-out collision.
use vstd::prelude::*;

use crate::fx::abs_s;
use crate::fx::clamp_abs;
use crate::fx::clamp_abs_s;
use crate::fx::div_trunc_s;
use crate::fx::lemma_abs_mul;
use crate::fx::lemma_div_trunc_bound;
use crate::fx::lemma_div_trunc_props;
use crate::fx::lemma_mul_le;
use crate::vec2::add_s;
use crate::vec2::dot_s;
use crate::vec2::in_box_s;
use crate::vec2::len_sqr_s;
use crate::vec2::sat_s;
use crate::vec2::scale_milli_s;
use crate::vec2::sub_s;
use crate::vec2::Vec2Fx;
use crate::vec2::V2;
use crate::motion::POS_BOX;
use crate::terrain::channel_value_s;
use crate::terrain::height_s;
use crate::terrain::terrain_wf;
use crate::terrain::Terrain;
use crate::terrain::TerrainView;

verus! {

/// Results of the nearest-segment query stay inside this box.
pub const SEG_BOX: i64 = 100_000_000;

/// The projection parameter of the query is kept within this magnitude.
pub const T_BOX: i64 = 100_000_000_000;

/// A quarter turn: `(x, y)` becomes `(-y, x)`.
pub open spec fn rot90_s(a: V2) -> V2 {
    V2 { x: -a.y, y: a.x }
}

/// The vector from `pt` to the nearest point of the segment `p1 p2`:
/// an endpoint offset when the projection falls outside the segment (or
/// the segment has no extent), else the perpendicular onto the carrying
/// line.
pub open spec fn to_segment_s(p1: V2, p2: V2, pt: V2) -> V2 {
    if dot_s(sub_s(pt, p1), sub_s(p2, p1)) < 0 {
        sub_s(p1, pt)
    } else if dot_s(sub_s(pt, p2), sub_s(p1, p2)) < 0 {
        sub_s(p2, pt)
    } else {
        let n = rot90_s(sub_s(p2, p1));
        if len_sqr_s(n) == 0 {
            sub_s(p1, pt)
        } else {
            let t = clamp_abs_s(
                div_trunc_s(dot_s(sub_s(p1, pt), n) * 1000, len_sqr_s(n)),
                T_BOX as int,
            );
            sat_s(
                V2 { x: div_trunc_s(n.x * t, 1000), y: div_trunc_s(n.y * t, 1000) },
                SEG_BOX as int,
            )
        }
    }
}

/// The vector from `point` to the nearest point of the segment `p1 p2`.
pub fn to_segment(p1: Vec2Fx, p2: Vec2Fx, point: Vec2Fx) -> (r: Vec2Fx)
    requires
        in_box_s(p1@, POS_BOX as int),
        in_box_s(p2@, POS_BOX as int),
        in_box_s(point@, POS_BOX as int),
    ensures
        r@ == to_segment_s(p1@, p2@, point@),
        in_box_s(r@, SEG_BOX as int),
{
    let d01 = p2.sub(p1);
    if point.sub(p1).dot(d01) < 0 {
        return p1.sub(point);
    }
    let d10 = p1.sub(p2);
    if point.sub(p2).dot(d10) < 0 {
        return p2.sub(point);
    }
    let n = Vec2Fx { x: -d01.y, y: d01.x };
    let nn = n.len_sqr();
    if nn == 0 {
        return p1.sub(point);
    }
    let num = p1.sub(point).dot(n);
    proof {
        let a = sub_s(p1@, point@);
        let nv = rot90_s(sub_s(p2@, p1@));
        lemma_abs_mul(a.x, nv.x);
        lemma_abs_mul(a.y, nv.y);
        lemma_mul_le(abs_s(a.x), 2 * POS_BOX as int, abs_s(nv.x));
        lemma_mul_le(abs_s(nv.x), 2 * POS_BOX as int, 2 * POS_BOX as int);
        lemma_mul_le(abs_s(a.y), 2 * POS_BOX as int, abs_s(nv.y));
        lemma_mul_le(abs_s(nv.y), 2 * POS_BOX as int, 2 * POS_BOX as int);
        lemma_abs_mul(dot_s(sub_s(p1@, point@), rot90_s(sub_s(p2@, p1@))), 1000);
        lemma_mul_le(
            abs_s(dot_s(sub_s(p1@, point@), rot90_s(sub_s(p2@, p1@)))),
            8_000_000_000_000_000,
            1000,
        );
        lemma_div_trunc_props(
            dot_s(sub_s(p1@, point@), rot90_s(sub_s(p2@, p1@))) * 1000,
            len_sqr_s(rot90_s(sub_s(p2@, p1@))),
        );
        vstd::arithmetic::div_mod::lemma_div_nonincreasing(
            abs_s(dot_s(sub_s(p1@, point@), rot90_s(sub_s(p2@, p1@))) * 1000),
            len_sqr_s(rot90_s(sub_s(p2@, p1@))),
        );
    }
    let t = clamp_abs((num * 1000) / nn, T_BOX);
    proof {
        lemma_abs_mul(n@.x, t as int);
        lemma_abs_mul(n@.y, t as int);
        lemma_mul_le(abs_s(n@.x), 2 * POS_BOX as int, abs_s(t as int));
        lemma_mul_le(abs_s(t as int), T_BOX as int, 2 * POS_BOX as int);
        lemma_mul_le(abs_s(n@.y), 2 * POS_BOX as int, abs_s(t as int));
        lemma_div_trunc_props(n@.x * t as int, 1000);
        lemma_div_trunc_props(n@.y * t as int, 1000);
        vstd::arithmetic::div_mod::lemma_div_nonincreasing(abs_s(n@.x * t as int), 1000);
        vstd::arithmetic::div_mod::lemma_div_nonincreasing(abs_s(n@.y * t as int), 1000);
    }
    Vec2Fx { x: (n.x * t) / 1000, y: (n.y * t) / 1000 }.sat(SEG_BOX)
}

/// The view of a segment list.
pub open spec fn segs_view(s: Seq<(Vec2Fx, Vec2Fx)>) -> Seq<(V2, V2)> {
    s.map_values(|p: (Vec2Fx, Vec2Fx)| (p.0@, p.1@))
}

/// All segment endpoints within the world box.
pub open spec fn segs_in_box(s: Seq<(V2, V2)>, m: int) -> bool {
    forall|i: int|
        0 <= i < s.len() ==> in_box_s((#[trigger] s[i]).0, m) && in_box_s(s[i].1, m)
}

/// The nearest vector among the first `k` segments, earliest winner on
/// ties.
pub open spec fn vec_to_prefix_s(segs: Seq<(V2, V2)>, pt: V2, k: int) -> V2
    decreases k,
{
    if k <= 1 {
        to_segment_s(segs[0].0, segs[0].1, pt)
    } else {
        let prev = vec_to_prefix_s(segs, pt, k - 1);
        let cur = to_segment_s(segs[k - 1].0, segs[k - 1].1, pt);
        if len_sqr_s(cur) < len_sqr_s(prev) {
            cur
        } else {
            prev
        }
    }
}

/// The vector from `pt` to the nearest point of the nearest segment.
pub open spec fn vec_to_s(segs: Seq<(V2, V2)>, pt: V2) -> V2 {
    vec_to_prefix_s(segs, pt, segs.len() as int)
}

/// The nearest-vector query over a non-empty segment set.
pub fn vec_to(segments: &Vec<(Vec2Fx, Vec2Fx)>, point: Vec2Fx) -> (r: Vec2Fx)
    requires
        segments@.len() >= 1,
        segs_in_box(segs_view(segments@), POS_BOX as int),
        in_box_s(point@, POS_BOX as int),
    ensures
        r@ == vec_to_s(segs_view(segments@), point@),
        in_box_s(r@, SEG_BOX as int),
{
    let ghost gs = segs_view(segments@);
    proof {
        assert(forall|j: int|
            0 <= j < segments@.len() ==> #[trigger] gs[j] == (segments@[j].0@, segments@[j].1@));
        assert(in_box_s(gs[0].0, POS_BOX as int) && in_box_s(gs[0].1, POS_BOX as int));
    }
    let first = to_segment(segments[0].0, segments[0].1, point);
    let mut best = first;
    let mut best_sqr = first.len_sqr();
    let mut i: usize = 1;
    while i < segments.len()
        invariant
            1 <= i <= segments@.len(),
            gs == segs_view(segments@),
            gs.len() == segments@.len(),
            segs_in_box(gs, POS_BOX as int),
            in_box_s(point@, POS_BOX as int),
            best@ == vec_to_prefix_s(gs, point@, i as int),
            in_box_s(best@, SEG_BOX as int),
            best_sqr == len_sqr_s(best@),
        decreases segments@.len() - i,
    {
        proof {
            assert(gs[i as int] == (segments@[i as int].0@, segments@[i as int].1@));
            assert(in_box_s(gs[i as int].0, POS_BOX as int) && in_box_s(
                gs[i as int].1,
                POS_BOX as int,
            ));
        }
        let cand = to_segment(segments[i].0, segments[i].1, point);
        let cand_sqr = cand.len_sqr();
        if cand_sqr < best_sqr {
            best = cand;
            best_sqr = cand_sqr;
        }
        i = i + 1;
    }
    best
}

/// The nearest-vector query is a pure function of the static geometry:
/// asking twice with the same point yields the same vector.
pub proof fn lemma_vec_to_idempotent(segs: Seq<(V2, V2)>, pt: V2, r1: V2, r2: V2)
    requires
        r1 == vec_to_s(segs, pt),
        r2 == vec_to_s(segs, pt),
    ensures
        r1 == r2,
{
}

/// Grid steps per half world side in the triangulation.
pub const GRID_N: i64 = 128;

/// Triangles in the world triangulation: `128 * 128` cell centers with
/// four quadrants of two triangles each.
pub const TRI_COUNT: i64 = 131072;

/// One vertex of the world triangulation.
pub open spec fn grid_point_s(gx: int, gy: int) -> V2 {
    V2 {
        x: div_trunc_s(gx * crate::terrain::SIZE as int, GRID_N as int),
        y: div_trunc_s(gy * crate::terrain::SIZE as int, GRID_N as int),
    }
}

/// The quadrant offsets, in the order the triangulation walks them.
pub open spec fn quad_delta_s(q: int) -> (int, int) {
    if q == 0 {
        (-1, -1)
    } else if q == 1 {
        (1, -1)
    } else if q == 2 {
        (1, 1)
    } else {
        (-1, 1)
    }
}

/// The corners of triangle `k` of the triangulation.
pub open spec fn tri_at_s(k: int) -> (V2, V2, V2) {
    let xi = k / 1024;
    let yi = (k % 1024) / 8;
    let q = (k % 8) / 2;
    let ti = k % 2;
    let x = -127 + 2 * xi;
    let y = -127 + 2 * yi;
    let dx = quad_delta_s(q).0;
    let dy = quad_delta_s(q).1;
    if ti == 0 {
        (grid_point_s(x, y), grid_point_s(x + dx, y), grid_point_s(x + dx, y + dy))
    } else {
        (grid_point_s(x, y), grid_point_s(x + dx, y + dy), grid_point_s(x, y + dy))
    }
}

/// The field a contour is traced over: the terrain height, or one raw
/// channel.
pub open spec fn field_value_s(t: TerrainView, use_height: bool, ch: int, p: V2) -> int {
    if use_height {
        height_s(t, p)
    } else {
        channel_value_s(t, ch, p)
    }
}

/// Where the field crosses `iso` along the edge from the lower-valued end
/// to the higher: the linearly interpolated crossing point, if the edge
/// straddles the iso-value.
pub open spec fn cross_ordered_s(lo: V2, lov: int, hi: V2, hiv: int, iso: int) -> Option<V2> {
    if lov < iso && hiv >= iso {
        let tf = div_trunc_s((iso - lov) * 1000, hiv - lov);
        Some(add_s(lo, scale_milli_s(sub_s(hi, lo), tf)))
    } else {
        None
    }
}

/// The iso-crossing of the edge `a b`, ends ordered by field value.
pub open spec fn crossing_s(
    t: TerrainView,
    use_height: bool,
    ch: int,
    iso: int,
    a: V2,
    b: V2,
) -> Option<V2> {
    let av = field_value_s(t, use_height, ch, a);
    let bv = field_value_s(t, use_height, ch, b);
    if av > bv {
        cross_ordered_s(b, bv, a, av, iso)
    } else {
        cross_ordered_s(a, av, b, bv, iso)
    }
}

/// The boundary segment of triangle `k`: present exactly when two of its
/// three edges cross the iso-value, joining the two crossing points in
/// edge order.
pub open spec fn tri_segment_s(
    t: TerrainView,
    use_height: bool,
    ch: int,
    iso: int,
    k: int,
) -> Option<(V2, V2)> {
    let tri = tri_at_s(k);
    let o1 = crossing_s(t, use_height, ch, iso, tri.0, tri.1);
    let o2 = crossing_s(t, use_height, ch, iso, tri.1, tri.2);
    let o3 = crossing_s(t, use_height, ch, iso, tri.2, tri.0);
    if o1 is Some {
        if o2 is Some {
            if o3 is Some {
                None
            } else {
                Some((o1->Some_0, o2->Some_0))
            }
        } else {
            if o3 is Some {
                Some((o1->Some_0, o3->Some_0))
            } else {
                None
            }
        }
    } else {
        if o2 is Some && o3 is Some {
            Some((o2->Some_0, o3->Some_0))
        } else {
            None
        }
    }
}

/// The contour segments of the first `k` triangles, in triangle order.
pub open spec fn contour_prefix_s(
    t: TerrainView,
    use_height: bool,
    ch: int,
    iso: int,
    k: int,
) -> Seq<(V2, V2)>
    decreases k,
{
    if k <= 0 {
        Seq::empty()
    } else {
        let rest = contour_prefix_s(t, use_height, ch, iso, k - 1);
        match tri_segment_s(t, use_height, ch, iso, k - 1) {
            Some(seg) => rest.push(seg),
            None => rest,
        }
    }
}

/// All contour segments of the triangulation.
pub open spec fn contour_s(t: TerrainView, use_height: bool, ch: int, iso: int) -> Seq<(V2, V2)> {
    contour_prefix_s(t, use_height, ch, iso, TRI_COUNT as int)
}

fn field_at(t: &Terrain, use_height: bool, ch: usize, p: Vec2Fx) -> (r: i64)
    requires
        terrain_wf(t@),
        ch < 4,
        in_box_s(p@, POS_BOX as int),
    ensures
        r == field_value_s(t@, use_height, ch as int, p@),
        -1500 <= r <= 1000,
{
    if use_height {
        t.get_height(p)
    } else {
        t.get_channel_value(ch, p)
    }
}

fn cross_ordered(lo: Vec2Fx, lov: i64, hi: Vec2Fx, hiv: i64, iso: i64) -> (r: Option<Vec2Fx>)
    requires
        in_box_s(lo@, 2 * crate::terrain::SIZE as int),
        in_box_s(hi@, 2 * crate::terrain::SIZE as int),
        -2000 <= lov <= 2000,
        -2000 <= hiv <= 2000,
        -2000 <= iso <= 2000,
        lov <= hiv,
    ensures
        r matches Some(z) ==> cross_ordered_s(lo@, lov as int, hi@, hiv as int, iso as int)
            == Some(z@) && in_box_s(z@, 6 * crate::terrain::SIZE as int),
        r is None ==> cross_ordered_s(lo@, lov as int, hi@, hiv as int, iso as int) is None,
{
    if lov < iso && hiv >= iso {
        let tf = ((iso - lov) * 1000) / (hiv - lov);
        proof {
            vstd::arithmetic::div_mod::lemma_div_pos_is_pos((iso - lov) * 1000, hiv - lov);
            assert((iso - lov as int) * 1000 <= (hiv - lov as int) * 1000);
            vstd::arithmetic::div_mod::lemma_div_is_ordered(
                (iso - lov) as int * 1000,
                (hiv - lov) as int * 1000,
                (hiv - lov) as int,
            );
            assert(((hiv - lov) as int * 1000) / ((hiv - lov) as int) == 1000) by {
                vstd::arithmetic::div_mod::lemma_div_multiples_vanish(
                    1000,
                    (hiv - lov) as int,
                );
                assert((hiv - lov) as int * 1000 == ((hiv - lov) as int) * 1000);
            }
        }
        let d = hi.sub(lo);
        proof {
            lemma_mul_le(abs_s(tf as int), 1000, abs_s(d@.x));
            lemma_mul_le(abs_s(tf as int), 1000, abs_s(d@.y));
            assert(abs_s(d@.x) * abs_s(tf as int) == abs_s(tf as int) * abs_s(d@.x) && abs_s(
                d@.y,
            ) * abs_s(tf as int) == abs_s(tf as int) * abs_s(d@.y)) by (nonlinear_arith);
        }
        let step = d.scale_milli(tf);
        Some(lo.add(step))
    } else {
        None
    }
}

fn crossing(t: &Terrain, use_height: bool, ch: usize, iso: i64, a: Vec2Fx, b: Vec2Fx) -> (r:
    Option<Vec2Fx>)
    requires
        terrain_wf(t@),
        ch < 4,
        -2000 <= iso <= 2000,
        in_box_s(a@, 2 * crate::terrain::SIZE as int),
        in_box_s(b@, 2 * crate::terrain::SIZE as int),
    ensures
        r matches Some(z) ==> crossing_s(t@, use_height, ch as int, iso as int, a@, b@) == Some(
            z@,
        ) && in_box_s(z@, 6 * crate::terrain::SIZE as int),
        r is None ==> crossing_s(t@, use_height, ch as int, iso as int, a@, b@) is None,
{
    let av = field_at(t, use_height, ch, a);
    let bv = field_at(t, use_height, ch, b);
    if av > bv {
        cross_ordered(b, bv, a, av, iso)
    } else {
        cross_ordered(a, av, b, bv, iso)
    }
}

#[verifier::rlimit(100)]
fn tri_segment(t: &Terrain, use_height: bool, ch: usize, iso: i64, k: i64) -> (r: Option<
    (Vec2Fx, Vec2Fx),
>)
    requires
        terrain_wf(t@),
        ch < 4,
        -2000 <= iso <= 2000,
        0 <= k < TRI_COUNT,
    ensures
        r matches Some(seg) ==> tri_segment_s(t@, use_height, ch as int, iso as int, k as int)
            == Some((seg.0@, seg.1@)) && in_box_s(seg.0@, POS_BOX as int) && in_box_s(
            seg.1@,
            POS_BOX as int,
        ),
        r is None ==> tri_segment_s(t@, use_height, ch as int, iso as int, k as int) is None,
{
    let (va, vb, vc) = tri_corners(k);
    let o1 = crossing(t, use_height, ch, iso, va, vb);
    let o2 = crossing(t, use_height, ch, iso, vb, vc);
    let o3 = crossing(t, use_height, ch, iso, vc, va);
    match (o1, o2, o3) {
        (Some(z1), Some(z2), None) => Some((z1, z2)),
        (Some(z1), None, Some(z3)) => Some((z1, z3)),
        (None, Some(z2), Some(z3)) => Some((z2, z3)),
        _ => None,
    }
}

#[verifier::spinoff_prover]
fn tri_corners(k: i64) -> (r: (Vec2Fx, Vec2Fx, Vec2Fx))
    requires
        0 <= k < TRI_COUNT,
    ensures
        (r.0@, r.1@, r.2@) == tri_at_s(k as int),
        in_box_s(r.0@, crate::terrain::SIZE as int),
        in_box_s(r.1@, crate::terrain::SIZE as int),
        in_box_s(r.2@, crate::terrain::SIZE as int),
{
    let xi = k / 1024;
    let yi = (k % 1024) / 8;
    let q = (k % 8) / 2;
    let ti = k % 2;
    let x = -127 + 2 * xi;
    let y = -127 + 2 * yi;
    let dx: i64 = if q == 0 || q == 3 {
        -1
    } else {
        1
    };
    let dy: i64 = if q == 0 || q == 1 {
        -1
    } else {
        1
    };
    if ti == 0 {
        (grid_point(x, y), grid_point(x + dx, y), grid_point(x + dx, y + dy))
    } else {
        (grid_point(x, y), grid_point(x + dx, y + dy), grid_point(x, y + dy))
    }
}

fn grid_point(gx: i64, gy: i64) -> (r: Vec2Fx)
    requires
        -128 <= gx <= 128,
        -128 <= gy <= 128,
    ensures
        r@ == grid_point_s(gx as int, gy as int),
        in_box_s(r@, crate::terrain::SIZE as int),
{
    proof {
        lemma_div_trunc_props(gx as int * crate::terrain::SIZE as int, GRID_N as int);
        lemma_div_trunc_props(gy as int * crate::terrain::SIZE as int, GRID_N as int);
        lemma_div_trunc_bound(
            gx as int * crate::terrain::SIZE as int,
            GRID_N as int,
            crate::terrain::SIZE as int,
        );
        lemma_div_trunc_bound(
            gy as int * crate::terrain::SIZE as int,
            GRID_N as int,
            crate::terrain::SIZE as int,
        );
    }
    Vec2Fx { x: (gx * crate::terrain::SIZE) / GRID_N, y: (gy * crate::terrain::SIZE) / GRID_N }
}

/// Trace one iso-contour over the whole triangulation.
fn extract_contour(t: &Terrain, use_height: bool, ch: usize, iso: i64) -> (r: Vec<
    (Vec2Fx, Vec2Fx),
>)
    requires
        terrain_wf(t@),
        ch < 4,
        -2000 <= iso <= 2000,
    ensures
        segs_view(r@) == contour_s(t@, use_height, ch as int, iso as int),
        segs_in_box(segs_view(r@), POS_BOX as int),
{
    let mut out: Vec<(Vec2Fx, Vec2Fx)> = Vec::new();
    let mut k: i64 = 0;
    proof {
        assert(segs_view(out@) =~= contour_prefix_s(t@, use_height, ch as int, iso as int, 0));
    }
    while k < TRI_COUNT
        invariant
            0 <= k <= TRI_COUNT,
            terrain_wf(t@),
            ch < 4,
            -2000 <= iso <= 2000,
            segs_view(out@) == contour_prefix_s(t@, use_height, ch as int, iso as int, k as int),
            segs_in_box(segs_view(out@), POS_BOX as int),
        decreases TRI_COUNT - k,
    {
        let ghost prev = out@;
        match tri_segment(t, use_height, ch, iso, k) {
            Some(seg) => {
                out.push(seg);
                proof {
                    assert(segs_view(out@) =~= segs_view(prev).push((seg.0@, seg.1@)));
                    assert(forall|j: int|
                        0 <= j < segs_view(out@).len() ==> in_box_s(
                            (#[trigger] segs_view(out@)[j]).0,
                            POS_BOX as int,
                        ) && in_box_s(segs_view(out@)[j].1, POS_BOX as int));
                }
            },
            None => {},
        }
        k = k + 1;
    }
    out
}

/// The boundary geometry of a world: the world-edge, deep-water and
/// shoreline segment sets extracted from the terrain field.
pub struct MapGeometry {
    pub edge_segments: Vec<(Vec2Fx, Vec2Fx)>,
    pub deep_segments: Vec<(Vec2Fx, Vec2Fx)>,
    pub shore_segments: Vec<(Vec2Fx, Vec2Fx)>,
}

/// The deep-water line's height.
pub const DEEP_HEIGHT: i64 = -1250;

/// Extract the three boundary segment sets from the terrain: the world
/// edge where the open-water channel crosses one half, and the shoreline
/// and deep-water lines where the height crosses their iso-values.
pub fn create_map_geometry(terrain: &Terrain) -> (r: MapGeometry)
    requires
        terrain_wf(terrain@),
    ensures
        segs_view(r.edge_segments@) == contour_s(terrain@, false, 3, 500),
        segs_view(r.shore_segments@) == contour_s(
            terrain@,
            true,
            0,
            crate::terrain::SHORE_HEIGHT as int,
        ),
        segs_view(r.deep_segments@) == contour_s(terrain@, true, 0, DEEP_HEIGHT as int),
        segs_in_box(segs_view(r.edge_segments@), POS_BOX as int),
        segs_in_box(segs_view(r.shore_segments@), POS_BOX as int),
        segs_in_box(segs_view(r.deep_segments@), POS_BOX as int),
{
    MapGeometry {
        edge_segments: extract_contour(terrain, false, 3, 500),
        shore_segments: extract_contour(terrain, true, 0, crate::terrain::SHORE_HEIGHT),
        deep_segments: extract_contour(terrain, true, 0, DEEP_HEIGHT),
    }
}

} // verus!
