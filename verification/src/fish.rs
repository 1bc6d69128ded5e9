//! Creatures and their behavior engine: flocking forces, the zone force
//! that keeps a species near its home region, and the per-species
//! wandering currents.
use vstd::prelude::*;

use crate::assets::FishBehavior;
use crate::assets::FishConfig;
use crate::assets::FishConfigs;
use crate::assets::SpawnCircle;
use crate::fx::abs_s;
use crate::fx::div_trunc_s;
use crate::fx::fx_cos;
use crate::fx::fx_sin;
use crate::fx::lemma_abs_mul;
use crate::fx::lemma_div_trunc_bound;
use crate::fx::lemma_div_trunc_props;
use crate::fx::lemma_mul_le;
use crate::fx::cos_milli_s;
use crate::fx::norm_angle_s;
use crate::fx::sin_milli_s;
use crate::fishing::FishingState;
use crate::model::Event;
use crate::player::Player;
use crate::vec2::arg_s;
use crate::vec2::rotate_s;
use crate::vec2::clamp_len_s;
use crate::model::FishType;
use crate::model::Id;
use crate::model::Model;
use crate::motion::position_wf;
use crate::motion::Position;
use crate::motion::PositionView;
use crate::motion::POS_BOX;
use crate::motion::VEL_BOX;
use crate::terrain::height_s;
use crate::terrain::Terrain;
use crate::terrain::TerrainView;
use crate::vec2::add_s;
use crate::vec2::div_int_s;
use crate::vec2::dot_s;
use crate::vec2::in_box_s;
use crate::vec2::len_s;
use crate::vec2::len_sqr_s;
use crate::vec2::normalize_s;
use crate::vec2::sat_s;
use crate::vec2::scale_milli_s;
use crate::vec2::sub_s;
use crate::vec2::zero_s;
use crate::vec2::Vec2Fx;
use crate::vec2::V2;

verus! {

/// The most creatures one world holds.
pub const MAX_FISH: usize = 1000;

/// One creature.
#[derive(Clone, Copy, PartialEq, Eq, Structural, Debug)]
pub struct Fish {
    pub id: Id,
    pub index: FishType,
    pub pos: Position,
    pub target_pos: Vec2Fx,
    pub scared: bool,
}

/// A usable creature record.
pub open spec fn fish_wf(f: Fish) -> bool {
    &&& position_wf(f.pos@)
    &&& in_box_s(f.target_pos@, POS_BOX as int)
}

impl Fish {
    /// A calm creature of species `index` at rest at `pos`.
    pub fn new(id: Id, index: FishType, pos: Vec2Fx) -> (r: Fish)
        requires
            in_box_s(pos@, POS_BOX as int),
        ensures
            r.id == id,
            r.index == index,
            r.pos == (Position { pos, vel: Vec2Fx { x: 0i64, y: 0i64 }, rot: 0i64, w: 0i64 }),
            r.target_pos == pos,
            r.scared == false,
            fish_wf(r),
    {
        Fish {
            id,
            index,
            pos: Position { pos, vel: Vec2Fx::zero(), rot: 0, w: 0 },
            target_pos: pos,
            scared: false,
        }
    }
}

/// The sum of the neighbors' positions.
pub open spec fn sum_pos_s(nearby: Seq<Fish>) -> V2
    decreases nearby.len(),
{
    if nearby.len() == 0 {
        zero_s()
    } else {
        add_s(sum_pos_s(nearby.drop_last()), nearby.last().pos@.pos)
    }
}

/// The sum of the neighbors' velocities.
pub open spec fn sum_vel_s(nearby: Seq<Fish>) -> V2
    decreases nearby.len(),
{
    if nearby.len() == 0 {
        zero_s()
    } else {
        add_s(sum_vel_s(nearby.drop_last()), nearby.last().pos@.vel)
    }
}

/// All neighbors inside the world boxes.
pub open spec fn nearby_wf(nearby: Seq<Fish>) -> bool {
    &&& nearby.len() <= MAX_FISH as int
    &&& forall|i: int| 0 <= i < nearby.len() ==> fish_wf(#[trigger] nearby[i])
}

/// The cohesion force: steering from the creature toward the mean
/// position of its neighbors, damped over twenty seconds and scaled by
/// the tick.
pub open spec fn flock_s(fish: Fish, dt: int, nearby: Seq<Fish>) -> V2 {
    if nearby.len() == 0 {
        zero_s()
    } else {
        let mean = div_int_s(sum_pos_s(nearby), nearby.len() as int);
        scale_milli_s(div_int_s(sub_s(mean, fish.pos@.pos), 20), dt)
    }
}

/// The velocity-matching force: steering toward the mean velocity of the
/// neighbors, damped over eight seconds.
pub open spec fn match_velocity_s(fish: Fish, dt: int, nearby: Seq<Fish>) -> V2 {
    if nearby.len() == 0 {
        zero_s()
    } else {
        let mean = div_int_s(sum_vel_s(nearby), nearby.len() as int);
        scale_milli_s(div_int_s(sub_s(mean, fish.pos@.vel), 8), dt)
    }
}

/// The separation terms: for each neighbor closer than the species size,
/// the offset away from it, summed.
pub open spec fn avoid_sum_s(fish: Fish, size: int, nearby: Seq<Fish>) -> V2
    decreases nearby.len(),
{
    if nearby.len() == 0 {
        zero_s()
    } else {
        let rest = avoid_sum_s(fish, size, nearby.drop_last());
        let other = nearby.last();
        let away = sub_s(other.pos@.pos, fish.pos@.pos);
        if len_s(away) < size {
            sub_s(rest, away)
        } else {
            rest
        }
    }
}

/// The separation force: the summed repulsions scaled by the tick and the
/// species size.
pub open spec fn avoid_s(fish: Fish, dt: int, size: int, nearby: Seq<Fish>) -> V2 {
    scale_milli_s(scale_milli_s(avoid_sum_s(fish, size, nearby), dt), size)
}

proof fn lemma_sum_pos_bound(nearby: Seq<Fish>)
    requires
        nearby_wf(nearby),
    ensures
        in_box_s(sum_pos_s(nearby), nearby.len() * POS_BOX as int),
        in_box_s(sum_vel_s(nearby), nearby.len() * VEL_BOX as int),
    decreases nearby.len(),
{
    if nearby.len() > 0 {
        assert(nearby_wf(nearby.drop_last()));
        lemma_sum_pos_bound(nearby.drop_last());
        assert(fish_wf(nearby.last()));
        assert((nearby.len() - 1) * POS_BOX as int + POS_BOX as int == nearby.len()
            * POS_BOX as int) by (nonlinear_arith);
        assert((nearby.len() - 1) * VEL_BOX as int + VEL_BOX as int == nearby.len()
            * VEL_BOX as int) by (nonlinear_arith);
    }
}

/// The cohesion force.
pub fn flock(fish: &Fish, delta_time: i64, nearby_fish: &Vec<Fish>) -> (r: Vec2Fx)
    requires
        fish_wf(*fish),
        nearby_wf(nearby_fish@),
        0 <= delta_time <= 10_000,
    ensures
        r@ == flock_s(*fish, delta_time as int, nearby_fish@),
{
    if nearby_fish.len() == 0 {
        return Vec2Fx { x: 0, y: 0 };
    }
    let mut sx: i64 = 0;
    let mut sy: i64 = 0;
    let mut i: usize = 0;
    proof {
        lemma_sum_pos_bound(nearby_fish@);
    }
    while i < nearby_fish.len()
        invariant
            0 <= i <= nearby_fish@.len(),
            nearby_wf(nearby_fish@),
            (V2 { x: sx as int, y: sy as int }) == sum_pos_s(nearby_fish@.take(i as int)),
            abs_s(sx as int) <= i * POS_BOX as int,
            abs_s(sy as int) <= i * POS_BOX as int,
        decreases nearby_fish@.len() - i,
    {
        proof {
            assert(fish_wf(nearby_fish@[i as int]));
            assert(nearby_fish@.take(i as int + 1).drop_last() =~= nearby_fish@.take(i as int));
            assert(nearby_fish@.take(i as int + 1).last() == nearby_fish@[i as int]);
            assert(i * POS_BOX as int + POS_BOX as int == (i + 1) * POS_BOX as int)
                by (nonlinear_arith);
            lemma_mul_le(i as int, MAX_FISH as int, POS_BOX as int);
        }
        sx = sx + nearby_fish[i].pos.pos.x;
        sy = sy + nearby_fish[i].pos.pos.y;
        i = i + 1;
    }
    proof {
        assert(nearby_fish@.take(nearby_fish@.len() as int) =~= nearby_fish@);
        lemma_mul_le(nearby_fish@.len() as int, MAX_FISH as int, POS_BOX as int);
    }
    let mean = if nearby_fish.len() > 0 {
        let n = nearby_fish.len() as i64;
        proof {
            lemma_div_trunc_props(sx as int, n as int);
            lemma_div_trunc_props(sy as int, n as int);
            vstd::arithmetic::div_mod::lemma_div_nonincreasing(abs_s(sx as int), n as int);
            vstd::arithmetic::div_mod::lemma_div_nonincreasing(abs_s(sy as int), n as int);
        }
        Vec2Fx { x: sx / n, y: sy / n }
    } else {
        Vec2Fx { x: 0, y: 0 }
    };
    proof {
        if nearby_fish@.len() > 0 {
            lemma_mean_in_box(sum_pos_s(nearby_fish@), nearby_fish@.len() as int, POS_BOX as int);
        }
    }
    let toward = mean.sub(fish.pos.pos).div_int(20);
    proof {
        lemma_mul_le(abs_s(toward@.x), 2 * POS_BOX as int, abs_s(delta_time as int));
        lemma_mul_le(abs_s(toward@.y), 2 * POS_BOX as int, abs_s(delta_time as int));
        lemma_mul_le(abs_s(delta_time as int), 10_000, 2 * POS_BOX as int);
    }
    toward.scale_milli(delta_time)
}

/// A mean of values within a box is within the box.
proof fn lemma_mean_in_box(sum: V2, n: int, m: int)
    requires
        n >= 1,
        0 <= m,
        in_box_s(sum, n * m),
    ensures
        in_box_s(div_int_s(sum, n), m),
{
    lemma_div_trunc_bound(sum.x, n, m);
    lemma_div_trunc_bound(sum.y, n, m);
    assert(n * m == m * n) by (nonlinear_arith);
}

/// The velocity-matching force.
pub fn match_velocity(fish: &Fish, delta_time: i64, nearby_fish: &Vec<Fish>) -> (r: Vec2Fx)
    requires
        fish_wf(*fish),
        nearby_wf(nearby_fish@),
        0 <= delta_time <= 10_000,
    ensures
        r@ == match_velocity_s(*fish, delta_time as int, nearby_fish@),
{
    if nearby_fish.len() == 0 {
        return Vec2Fx { x: 0, y: 0 };
    }
    let mut sx: i64 = 0;
    let mut sy: i64 = 0;
    let mut i: usize = 0;
    proof {
        lemma_sum_pos_bound(nearby_fish@);
    }
    while i < nearby_fish.len()
        invariant
            0 <= i <= nearby_fish@.len(),
            nearby_wf(nearby_fish@),
            (V2 { x: sx as int, y: sy as int }) == sum_vel_s(nearby_fish@.take(i as int)),
            abs_s(sx as int) <= i * VEL_BOX as int,
            abs_s(sy as int) <= i * VEL_BOX as int,
        decreases nearby_fish@.len() - i,
    {
        proof {
            assert(fish_wf(nearby_fish@[i as int]));
            assert(nearby_fish@.take(i as int + 1).drop_last() =~= nearby_fish@.take(i as int));
            assert(nearby_fish@.take(i as int + 1).last() == nearby_fish@[i as int]);
            assert(i * VEL_BOX as int + VEL_BOX as int == (i + 1) * VEL_BOX as int)
                by (nonlinear_arith);
            lemma_mul_le(i as int, MAX_FISH as int, VEL_BOX as int);
        }
        sx = sx + nearby_fish[i].pos.vel.x;
        sy = sy + nearby_fish[i].pos.vel.y;
        i = i + 1;
    }
    proof {
        assert(nearby_fish@.take(nearby_fish@.len() as int) =~= nearby_fish@);
        lemma_mul_le(nearby_fish@.len() as int, MAX_FISH as int, VEL_BOX as int);
    }
    let mean = if nearby_fish.len() > 0 {
        let n = nearby_fish.len() as i64;
        proof {
            lemma_div_trunc_props(sx as int, n as int);
            lemma_div_trunc_props(sy as int, n as int);
            vstd::arithmetic::div_mod::lemma_div_nonincreasing(abs_s(sx as int), n as int);
            vstd::arithmetic::div_mod::lemma_div_nonincreasing(abs_s(sy as int), n as int);
        }
        Vec2Fx { x: sx / n, y: sy / n }
    } else {
        Vec2Fx { x: 0, y: 0 }
    };
    proof {
        if nearby_fish@.len() > 0 {
            lemma_mean_in_box(sum_vel_s(nearby_fish@), nearby_fish@.len() as int, VEL_BOX as int);
        }
    }
    let toward = mean.sub(fish.pos.vel).div_int(8);
    proof {
        lemma_mul_le(abs_s(toward@.x), 2 * VEL_BOX as int, abs_s(delta_time as int));
        lemma_mul_le(abs_s(toward@.y), 2 * VEL_BOX as int, abs_s(delta_time as int));
        lemma_mul_le(abs_s(delta_time as int), 10_000, 2 * VEL_BOX as int);
    }
    toward.scale_milli(delta_time)
}

/// The separation force.
pub fn avoid(fish: &Fish, delta_time: i64, size: i64, nearby_fish: &Vec<Fish>) -> (r: Vec2Fx)
    requires
        fish_wf(*fish),
        nearby_wf(nearby_fish@),
        0 <= delta_time <= 10_000,
        0 <= size <= 1_000_000,
    ensures
        r@ == avoid_s(*fish, delta_time as int, size as int, nearby_fish@),
{
    let mut acc = Vec2Fx { x: 0, y: 0 };
    let mut i: usize = 0;
    while i < nearby_fish.len()
        invariant
            0 <= i <= nearby_fish@.len(),
            nearby_wf(nearby_fish@),
            fish_wf(*fish),
            0 <= size <= 1_000_000,
            acc@ == avoid_sum_s(*fish, size as int, nearby_fish@.take(i as int)),
            in_box_s(acc@, i * 1_000_000),
        decreases nearby_fish@.len() - i,
    {
        proof {
            assert(fish_wf(nearby_fish@[i as int]));
            assert(nearby_fish@.take(i as int + 1).drop_last() =~= nearby_fish@.take(i as int));
            assert(nearby_fish@.take(i as int + 1).last() == nearby_fish@[i as int]);
            assert(i * 1_000_000 + 1_000_000 == (i + 1) * 1_000_000) by (nonlinear_arith);
            lemma_mul_le(i as int, MAX_FISH as int, 1_000_000);
        }
        let away = nearby_fish[i].pos.pos.sub(fish.pos.pos);
        if away.len() < size {
            acc = Vec2Fx { x: acc.x - away.x, y: acc.y - away.y };
        }
        i = i + 1;
    }
    proof {
        assert(nearby_fish@.take(nearby_fish@.len() as int) =~= nearby_fish@);
        lemma_mul_le(nearby_fish@.len() as int, MAX_FISH as int, 1_000_000);
        lemma_mul_le(abs_s(acc@.x), 1_000_000_000, abs_s(delta_time as int));
        lemma_mul_le(abs_s(acc@.y), 1_000_000_000, abs_s(delta_time as int));
        lemma_mul_le(abs_s(delta_time as int), 10_000, 1_000_000_000);
    }
    let scaled = acc.scale_milli(delta_time);
    proof {
        lemma_mul_le(abs_s(scaled@.x), 10_000_000_000, abs_s(size as int));
        lemma_mul_le(abs_s(scaled@.y), 10_000_000_000, abs_s(size as int));
        lemma_mul_le(abs_s(size as int), 1_000_000, 10_000_000_000);
    }
    scaled.scale_milli(size)
}

/// The zone force: on land (or shallower than the flee threshold), flee
/// downhill along the height gradient; under water, a restoring pull
/// proportional to how far the creature sits outside its home circle, or
/// a push outward when it sits inside the inner exclusion radius.
pub open spec fn congregate_s(p: V2, circle: SpawnCircle, t: TerrainView, dt: int) -> V2 {
    let h = height_s(t, p);
    if h > -300 {
        let hx = height_s(t, add_s(p, V2 { x: 100, y: 0 }));
        let hy = height_s(t, add_s(p, V2 { x: 0, y: 100 }));
        let gradient = V2 { x: h - hx, y: h - hy };
        scale_milli_s(normalize_s(gradient), 10_000)
    } else {
        let dist = sub_s(circle.center@, p);
        let l = len_s(dist);
        if l < circle.radius as int && (circle.inner_radius matches Some(ir) && l < ir as int) {
            let outward = normalize_s(V2 { x: -dist.x, y: -dist.y });
            scale_milli_s(
                scale_milli_s(outward, circle.inner_radius->Some_0 as int - l),
                dt,
            )
        } else if l > circle.radius as int {
            scale_milli_s(scale_milli_s(normalize_s(dist), l - circle.radius as int), dt)
        } else {
            zero_s()
        }
    }
}

/// The zone force for one creature.
pub fn congregate(fish: &Fish, circle: &SpawnCircle, terrain: &Terrain, delta_time: i64) -> (r:
    Vec2Fx)
    requires
        fish_wf(*fish),
        crate::assets::spawn_circle_wf(*circle),
        crate::terrain::terrain_wf(terrain@),
        0 <= delta_time <= 10_000,
    ensures
        r@ == congregate_s(fish.pos@.pos, *circle, terrain@, delta_time as int),
{
    let p = fish.pos.pos;
    let h = terrain.get_height(p);
    if h > -300 {
        let hx = terrain.get_height(p.add(Vec2Fx { x: 100, y: 0 }));
        let hy = terrain.get_height(p.add(Vec2Fx { x: 0, y: 100 }));
        let gradient = Vec2Fx { x: h - hx, y: h - hy };
        let n = gradient.normalize_or_zero();
        proof {
            lemma_mul_le(abs_s(n@.x), 1000, 10_000);
            lemma_mul_le(abs_s(n@.y), 1000, 10_000);
        }
        n.scale_milli(10_000)
    } else {
        let dist = circle.center.sub(p);
        let l = dist.len();
        let inner_hit = if l < circle.radius {
            match circle.inner_radius {
                Some(ir) => l < ir,
                None => false,
            }
        } else {
            false
        };
        if inner_hit {
            let ir = match circle.inner_radius {
                Some(ir) => ir,
                None => 0,
            };
            let outward = Vec2Fx { x: -dist.x, y: -dist.y }.normalize_or_zero();
            proof {
                lemma_mul_le(abs_s(outward@.x), 1000, abs_s(ir as int - l as int));
                lemma_mul_le(abs_s(outward@.y), 1000, abs_s(ir as int - l as int));
                lemma_mul_le(abs_s(ir as int - l as int), 1_000_000, 1000);
            }
            let pulled = outward.scale_milli(ir - l);
            proof {
                lemma_mul_le(abs_s(pulled@.x), 1_000_000, abs_s(delta_time as int));
                lemma_mul_le(abs_s(pulled@.y), 1_000_000, abs_s(delta_time as int));
                lemma_mul_le(abs_s(delta_time as int), 10_000, 1_000_000);
            }
            pulled.scale_milli(delta_time)
        } else if l > circle.radius {
            let inward = dist.normalize_or_zero();
            proof {
                lemma_mul_le(abs_s(inward@.x), 1000, abs_s(l as int - circle.radius as int));
                lemma_mul_le(abs_s(inward@.y), 1000, abs_s(l as int - circle.radius as int));
                lemma_mul_le(abs_s(l as int - circle.radius as int), 4_000_000_000, 1000);
            }
            let pulled = inward.scale_milli(l - circle.radius);
            proof {
                lemma_mul_le(abs_s(pulled@.x), 4_000_000_000, abs_s(delta_time as int));
                lemma_mul_le(abs_s(pulled@.y), 4_000_000_000, abs_s(delta_time as int));
                lemma_mul_le(abs_s(delta_time as int), 10_000, 4_000_000_000);
            }
            pulled.scale_milli(delta_time)
        } else {
            Vec2Fx { x: 0, y: 0 }
        }
    }
}

/// The per-species wandering current.
pub open spec fn currents_s(fish: Fish, circle: SpawnCircle, dt: int, time: int) -> V2 {
    let dist = sub_s(circle.center@, fish.pos@.pos);
    match circle.behavior {
        FishBehavior::Idle => zero_s(),
        FishBehavior::Kuviseal => dist,
        FishBehavior::Space => V2 { x: cos_milli_s(time), y: sin_milli_s(time) },
        FishBehavior::Land => {
            let t = time + (fish.id.0 as int % 6284) * 123;
            V2 { x: cos_milli_s(t), y: 0 }
        },
        FishBehavior::Orbit => {
            if circle.reversed == Some(true) {
                V2 {
                    x: div_trunc_s(-dist.y * 500, circle.radius as int),
                    y: div_trunc_s(dist.x * 500, circle.radius as int),
                }
            } else {
                V2 {
                    x: div_trunc_s(dist.y * 500, circle.radius as int),
                    y: div_trunc_s(-dist.x * 500, circle.radius as int),
                }
            }
        },
        FishBehavior::Chaos => {
            let sp = add_s(
                div_int_s(fish.pos@.pos, 5),
                V2 { x: fish.index as int * 1000, y: (fish.index as int % 2) * 1000 },
            );
            scale_milli_s(
                V2 {
                    x: cos_milli_s(sp.x) + cos_milli_s(sp.y),
                    y: sin_milli_s(sp.x) + sin_milli_s(sp.y),
                },
                dt,
            )
        },
    }
}

/// The per-species wandering current for one creature.
pub fn currents(fish: &Fish, circle: &SpawnCircle, delta_time: i64, time: i64) -> (r: Vec2Fx)
    requires
        fish_wf(*fish),
        crate::assets::spawn_circle_wf(*circle),
        0 <= delta_time <= 10_000,
        0 <= time <= 100_000_000_000,
        fish.index < 1000,
    ensures
        r@ == currents_s(*fish, *circle, delta_time as int, time as int),
{
    let dist = circle.center.sub(fish.pos.pos);
    match circle.behavior {
        FishBehavior::Idle => Vec2Fx { x: 0, y: 0 },
        FishBehavior::Kuviseal => dist,
        FishBehavior::Space => Vec2Fx { x: fx_cos(time), y: fx_sin(time) },
        FishBehavior::Land => {
            let t = time + ((fish.id.0 % 6284) as i64) * 123;
            Vec2Fx { x: fx_cos(t), y: 0 }
        },
        FishBehavior::Orbit => {
            proof {
                lemma_div_trunc_props(dist@.y * 500, circle.radius as int);
                lemma_div_trunc_props(-dist@.y * 500, circle.radius as int);
                lemma_div_trunc_props(dist@.x * 500, circle.radius as int);
                lemma_div_trunc_props(-dist@.x * 500, circle.radius as int);
            }
            let rev = match circle.reversed {
                Some(b) => b,
                None => false,
            };
            if rev {
                Vec2Fx {
                    x: (-dist.y * 500) / circle.radius,
                    y: (dist.x * 500) / circle.radius,
                }
            } else {
                Vec2Fx {
                    x: (dist.y * 500) / circle.radius,
                    y: (-dist.x * 500) / circle.radius,
                }
            }
        },
        FishBehavior::Chaos => {
            let sp = fish.pos.pos.div_int(5).add(
                Vec2Fx { x: (fish.index as i64) * 1000, y: ((fish.index % 2) as i64) * 1000 },
            );
            let v = Vec2Fx { x: fx_cos(sp.x) + fx_cos(sp.y), y: fx_sin(sp.x) + fx_sin(sp.y) };
            proof {
                lemma_mul_le(abs_s(v@.x), 2000, abs_s(delta_time as int));
                lemma_mul_le(abs_s(v@.y), 2000, abs_s(delta_time as int));
                lemma_mul_le(abs_s(delta_time as int), 10_000, 2000);
            }
            v.scale_milli(delta_time)
        },
    }
}

/// The zone force is restoring: for a creature in open water outside its
/// home radius, the force never points away from the zone center.
pub proof fn lemma_congregate_restoring(p: V2, circle: SpawnCircle, t: TerrainView, dt: int)
    requires
        crate::assets::spawn_circle_wf(circle),
        in_box_s(p, POS_BOX as int),
        height_s(t, p) <= -300,
        len_s(sub_s(circle.center@, p)) > circle.radius as int,
        0 <= dt,
    ensures
        dot_s(congregate_s(p, circle, t, dt), sub_s(circle.center@, p)) >= 0,
{
    let dist = sub_s(circle.center@, p);
    let l = len_s(dist);
    let n = normalize_s(dist);
    let f1 = scale_milli_s(n, l - circle.radius as int);
    let f = scale_milli_s(f1, dt);
    assert(l >= 0) by {
        crate::fx::lemma_isqrt_s_is_isqrt(len_sqr_s(dist));
        crate::fx::lemma_sqr_bounds(dist.x, 2 * POS_BOX as int);
        crate::fx::lemma_sqr_bounds(dist.y, 2 * POS_BOX as int);
    }
    lemma_sign_kept(dist.x, l, circle.radius as int, dt);
    lemma_sign_kept(dist.y, l, circle.radius as int, dt);
    assert(f.x * dist.x >= 0 && f.y * dist.y >= 0) by (nonlinear_arith)
        requires
            (dist.x >= 0 ==> f.x >= 0) && (dist.x < 0 ==> f.x <= 0) && (dist.y >= 0 ==> f.y >= 0)
                && (dist.y < 0 ==> f.y <= 0),
    ;
}

/// The chain of truncating scalings from a component of the offset keeps
/// its sign.
proof fn lemma_sign_kept(c: int, l: int, radius: int, dt: int)
    requires
        0 <= l,
        radius < l,
        0 <= radius,
        0 <= dt,
    ensures
        ({
            let n = div_trunc_s(c * 1000, l);
            let f1 = div_trunc_s(n * (l - radius), 1000);
            let f = div_trunc_s(f1 * dt, 1000);
            (c >= 0 ==> f >= 0) && (c < 0 ==> f <= 0)
        }),
{
    let n = div_trunc_s(c * 1000, l);
    let f1 = div_trunc_s(n * (l - radius), 1000);
    let f = div_trunc_s(f1 * dt, 1000);
    if c >= 0 {
        assert(c * 1000 >= 0) by (nonlinear_arith)
            requires
                c >= 0,
        ;
        lemma_div_trunc_props(c * 1000, l);
        assert(n * (l - radius) >= 0) by (nonlinear_arith)
            requires
                n >= 0 && l - radius >= 0,
        ;
        lemma_div_trunc_props(n * (l - radius), 1000);
        assert(f1 * dt >= 0) by (nonlinear_arith)
            requires
                f1 >= 0 && dt >= 0,
        ;
        lemma_div_trunc_props(f1 * dt, 1000);
    } else {
        assert(c * 1000 <= 0 && c * 1000 < 0 ==> true) by (nonlinear_arith)
            requires
                c < 0,
        ;
        assert(c * 1000 < 0) by (nonlinear_arith)
            requires
                c < 0,
        ;
        lemma_div_trunc_props(c * 1000, l);
        assert(n * (l - radius) <= 0) by (nonlinear_arith)
            requires
                n <= 0 && l - radius >= 0,
        ;
        lemma_div_trunc_props2(n * (l - radius), 1000);
        assert(f1 * dt <= 0) by (nonlinear_arith)
            requires
                f1 <= 0 && dt >= 0,
        ;
        lemma_div_trunc_props2(f1 * dt, 1000);
    }
}

/// Truncating division of a non-positive number by a positive one is
/// non-positive.
proof fn lemma_div_trunc_props2(a: int, b: int)
    requires
        b > 0,
        a <= 0,
    ensures
        div_trunc_s(a, b) <= 0,
{
    if a < 0 {
        lemma_div_trunc_props(a, b);
    }
}

/// The neighbors of one creature: same species, other identity, within
/// three units, in catalog order.
pub open spec fn nearby_of_s(fish: Fish, fishes: Seq<Fish>) -> Seq<Fish>
    decreases fishes.len(),
{
    if fishes.len() == 0 {
        Seq::empty()
    } else {
        let rest = nearby_of_s(fish, fishes.drop_last());
        let f = fishes.last();
        if len_s(sub_s(f.pos@.pos, fish.pos@.pos)) < 3000 && f.id != fish.id && f.index
            == fish.index {
            rest.push(f)
        } else {
            rest
        }
    }
}

proof fn lemma_nearby_wf(fish: Fish, fishes: Seq<Fish>)
    requires
        fishes.len() <= MAX_FISH as int,
        forall|i: int| 0 <= i < fishes.len() ==> fish_wf(#[trigger] fishes[i]),
    ensures
        nearby_wf(nearby_of_s(fish, fishes)),
    decreases fishes.len(),
{
    if fishes.len() > 0 {
        assert(forall|i: int|
            0 <= i < fishes.drop_last().len() ==> #[trigger] fishes.drop_last()[i] == fishes[i]);
        lemma_nearby_wf(fish, fishes.drop_last());
        let rest = nearby_of_s(fish, fishes.drop_last());
        assert(rest.len() <= fishes.drop_last().len()) by {
            lemma_nearby_len(fish, fishes.drop_last());
        }
    }
}

proof fn lemma_nearby_len(fish: Fish, fishes: Seq<Fish>)
    ensures
        nearby_of_s(fish, fishes).len() <= fishes.len(),
    decreases fishes.len(),
{
    if fishes.len() > 0 {
        lemma_nearby_len(fish, fishes.drop_last());
    }
}

/// Collect one creature's neighbors from the tick-start snapshot.
fn nearby_of(fish: &Fish, fishes: &Vec<Fish>) -> (r: Vec<Fish>)
    requires
        fish_wf(*fish),
        fishes@.len() <= MAX_FISH,
        forall|i: int| 0 <= i < fishes@.len() ==> fish_wf(#[trigger] fishes@[i]),
    ensures
        r@ == nearby_of_s(*fish, fishes@),
        nearby_wf(r@),
{
    let mut out: Vec<Fish> = Vec::new();
    let mut i: usize = 0;
    proof {
        assert(out@ =~= nearby_of_s(*fish, fishes@.take(0)));
    }
    while i < fishes.len()
        invariant
            0 <= i <= fishes@.len(),
            fish_wf(*fish),
            fishes@.len() <= MAX_FISH,
            forall|j: int| 0 <= j < fishes@.len() ==> fish_wf(#[trigger] fishes@[j]),
            out@ == nearby_of_s(*fish, fishes@.take(i as int)),
        decreases fishes@.len() - i,
    {
        proof {
            assert(fish_wf(fishes@[i as int]));
            assert(fishes@.take(i as int + 1).drop_last() =~= fishes@.take(i as int));
            assert(fishes@.take(i as int + 1).last() == fishes@[i as int]);
        }
        let f = fishes[i];
        let d = f.pos.pos.sub(fish.pos.pos);
        if d.len() < 3000 && f.id.0 != fish.id.0 && f.index == fish.index {
            out.push(f);
        }
        i = i + 1;
    }
    proof {
        assert(fishes@.take(fishes@.len() as int) =~= fishes@);
        lemma_nearby_wf(*fish, fishes@);
    }
    out
}

/// The desired-velocity contribution of one creature for this tick: its
/// wandering current and, unless its species wanders open terrain or sky,
/// the flocking and zone forces, the total kept inside the force box.
pub open spec fn fish_force_s(
    fish: Fish,
    fishes: Seq<Fish>,
    config: FishConfig,
    t: TerrainView,
    dt: int,
    time: int,
) -> V2 {
    let v0 = currents_s(fish, config.spawn_circle, dt, time);
    let total = if config.spawn_circle.behavior.suppresses_flocking() {
        v0
    } else {
        let nearby = nearby_of_s(fish, fishes);
        let v1 = flock_s(fish, dt, nearby);
        let v2 = avoid_s(fish, dt, config.size as int, nearby);
        let v3 = match_velocity_s(fish, dt, nearby);
        let v4 = congregate_s(fish.pos@.pos, config.spawn_circle, t, dt);
        add_s(add_s(add_s(add_s(v0, v1), v2), v3), v4)
    };
    sat_s(total, 1_000_000_000)
}

/// Compute one creature's force from the tick-start snapshot.
pub fn fish_force(
    fish: &Fish,
    fishes: &Vec<Fish>,
    config: &FishConfig,
    terrain: &Terrain,
    delta_time: i64,
    time: i64,
) -> (r: Vec2Fx)
    requires
        fish_wf(*fish),
        fishes@.len() <= MAX_FISH,
        forall|i: int| 0 <= i < fishes@.len() ==> fish_wf(#[trigger] fishes@[i]),
        crate::assets::fish_config_wf(*config),
        crate::terrain::terrain_wf(terrain@),
        0 <= delta_time <= 10_000,
        0 <= time <= 100_000_000_000,
        fish.index < 1000,
    ensures
        r@ == fish_force_s(*fish, fishes@, *config, terrain@, delta_time as int, time as int),
        in_box_s(r@, 1_000_000_000),
{
    let v0 = currents(fish, &config.spawn_circle, delta_time, time);
    let suppress = match config.spawn_circle.behavior {
        FishBehavior::Space => true,
        FishBehavior::Land => true,
        FishBehavior::Kuviseal => true,
        _ => false,
    };
    if suppress {
        v0.sat(1_000_000_000)
    } else {
        let nearby = nearby_of(fish, fishes);
        let v1 = flock(fish, delta_time, &nearby);
        let v2 = avoid(fish, delta_time, config.size, &nearby);
        let v3 = match_velocity(fish, delta_time, &nearby);
        let v4 = congregate(fish, &config.spawn_circle, terrain, delta_time);
        proof {
            lemma_force_bounds(
                *fish,
                nearby@,
                config.size as int,
                config.spawn_circle,
                terrain@,
                delta_time as int,
                time as int,
            );
        }
        let total = Vec2Fx {
            x: v0.x + v1.x + v2.x + v3.x + v4.x,
            y: v0.y + v1.y + v2.y + v3.y + v4.y,
        };
        total.sat(1_000_000_000)
    }
}

/// A truncating milli-scale of a boxed vector lands in a box.
proof fn lemma_scale_box_s(v: V2, k: int, bv: int, bk: int, out: int)
    requires
        in_box_s(v, bv),
        abs_s(k) <= bk,
        0 <= bv,
        0 <= bk,
        0 <= out,
        bv * bk <= 1000 * out,
    ensures
        in_box_s(scale_milli_s(v, k), out),
{
    lemma_abs_mul(v.x, k);
    lemma_abs_mul(v.y, k);
    lemma_mul_le(abs_s(v.x), bv, abs_s(k));
    lemma_mul_le(abs_s(v.y), bv, abs_s(k));
    lemma_mul_le(abs_s(k), bk, bv);
    assert(bv * abs_s(k) == abs_s(k) * bv && bv * bk == bk * bv) by (nonlinear_arith);
    lemma_div_trunc_bound(v.x * k, 1000, out);
    lemma_div_trunc_bound(v.y * k, 1000, out);
}

/// Dividing a boxed vector by a positive count keeps it in the box.
proof fn lemma_div_int_box_s(v: V2, n: int, b: int)
    requires
        in_box_s(v, b),
        n >= 1,
    ensures
        in_box_s(div_int_s(v, n), b),
{
    lemma_div_trunc_props(v.x, n);
    lemma_div_trunc_props(v.y, n);
    vstd::arithmetic::div_mod::lemma_div_nonincreasing(abs_s(v.x), n);
    vstd::arithmetic::div_mod::lemma_div_nonincreasing(abs_s(v.y), n);
}

/// A normalized vector sits in the unit box.
proof fn lemma_norm_box_s(v: V2)
    ensures
        in_box_s(normalize_s(v), 1000),
{
    if !(v.x == 0 && v.y == 0) {
        let sq = len_sqr_s(v);
        assert(sq >= 1) by (nonlinear_arith)
            requires
                sq == v.x * v.x + v.y * v.y && !(v.x == 0 && v.y == 0),
        ;
        crate::fx::lemma_isqrt_s_is_isqrt(sq);
        let l = crate::fx::isqrt_s(sq);
        crate::fx::lemma_component_le_len(v.x, v.y, l);
        assert(l >= 1) by (nonlinear_arith)
            requires
                0 <= l && sq < (l + 1) * (l + 1) && sq >= 1,
        ;
        lemma_abs_mul(v.x, 1000);
        lemma_abs_mul(v.y, 1000);
        lemma_mul_le(abs_s(v.x), l, 1000);
        lemma_div_trunc_bound(v.x * 1000, l, 1000);
        lemma_mul_le(abs_s(v.y), l, 1000);
        lemma_div_trunc_bound(v.y * 1000, l, 1000);
        assert(l * 1000 == 1000 * l) by (nonlinear_arith);
        lemma_mul_le(1000, 1000, l);
    }
}

/// The integer length of a boxed vector is at most twice the box.
proof fn lemma_len_box_s(v: V2, b: int)
    requires
        in_box_s(v, b),
        0 <= b,
    ensures
        0 <= len_s(v) <= 2 * b,
{
    crate::fx::lemma_sqr_bounds(v.x, b);
    crate::fx::lemma_sqr_bounds(v.y, b);
    crate::fx::lemma_isqrt_s_is_isqrt(len_sqr_s(v));
    crate::fx::lemma_len_root_bound(v.x, v.y, crate::fx::isqrt_s(len_sqr_s(v)), b);
}

/// The wandering current is boxed.
proof fn lemma_currents_box(fish: Fish, circle: SpawnCircle, dt: int, time: int)
    requires
        fish_wf(fish),
        crate::assets::spawn_circle_wf(circle),
        0 <= dt <= 10_000,
        0 <= time <= 100_000_000_000,
        fish.index < 1000,
    ensures
        in_box_s(currents_s(fish, circle, dt, time), 100_000_000),
{
    let dist = sub_s(circle.center@, fish.pos@.pos);
    match circle.behavior {
        FishBehavior::Idle => {},
        FishBehavior::Kuviseal => {},
        FishBehavior::Space => {
            crate::fx::lemma_sin_cos_bounds(time);
        },
        FishBehavior::Land => {
            crate::fx::lemma_sin_cos_bounds(time + (fish.id.0 as int % 6284) * 123);
        },
        FishBehavior::Orbit => {
            lemma_orbit_comp(dist.x, circle.radius as int);
            lemma_orbit_comp(dist.y, circle.radius as int);
            lemma_orbit_comp(-dist.x, circle.radius as int);
            lemma_orbit_comp(-dist.y, circle.radius as int);
        },
        FishBehavior::Chaos => {
            let sp = add_s(
                div_int_s(fish.pos@.pos, 5),
                V2 { x: fish.index as int * 1000, y: (fish.index as int % 2) * 1000 },
            );
            crate::fx::lemma_sin_cos_bounds(sp.x);
            crate::fx::lemma_sin_cos_bounds(sp.y);
            let v = V2 {
                x: cos_milli_s(sp.x) + cos_milli_s(sp.y),
                y: sin_milli_s(sp.x) + sin_milli_s(sp.y),
            };
            lemma_scale_box_s(v, dt, 2000, 10_000, 100_000_000);
        },
    }
}

proof fn lemma_orbit_comp(c: int, radius: int)
    requires
        -20_000_000 <= c <= 20_000_000,
        1000 <= radius <= 1_000_000,
    ensures
        abs_s(div_trunc_s(c * 500, radius)) <= 100_000_000,
{
    lemma_abs_mul(c, 500);
    lemma_mul_le(abs_s(c), 20_000_000, 500);
    lemma_mul_le(1000, radius, 100_000_000);
    assert(radius * 100_000_000 == 100_000_000 * radius) by (nonlinear_arith);
    lemma_div_trunc_bound(c * 500, radius, 100_000_000);
}

/// The cohesion and velocity-matching forces are boxed.
proof fn lemma_flock_box(fish: Fish, nearby: Seq<Fish>, dt: int)
    requires
        fish_wf(fish),
        nearby_wf(nearby),
        0 <= dt <= 10_000,
    ensures
        in_box_s(flock_s(fish, dt, nearby), 1_000_000_000),
        in_box_s(match_velocity_s(fish, dt, nearby), 1_000_000_000),
{
    lemma_sum_pos_bound(nearby);
    let meanp = if nearby.len() > 0 {
        div_int_s(sum_pos_s(nearby), nearby.len() as int)
    } else {
        zero_s()
    };
    let meanv = if nearby.len() > 0 {
        div_int_s(sum_vel_s(nearby), nearby.len() as int)
    } else {
        zero_s()
    };
    if nearby.len() > 0 {
        lemma_mean_in_box(sum_pos_s(nearby), nearby.len() as int, POS_BOX as int);
        lemma_mean_in_box(sum_vel_s(nearby), nearby.len() as int, VEL_BOX as int);
    }
    lemma_div_int_box_s(sub_s(meanp, fish.pos@.pos), 20, 2 * POS_BOX as int);
    lemma_div_int_box_s(sub_s(meanv, fish.pos@.vel), 8, 2 * VEL_BOX as int);
    lemma_scale_box_s(
        div_int_s(sub_s(meanp, fish.pos@.pos), 20),
        dt,
        2 * POS_BOX as int,
        10_000,
        1_000_000_000,
    );
    lemma_scale_box_s(
        div_int_s(sub_s(meanv, fish.pos@.vel), 8),
        dt,
        2 * VEL_BOX as int,
        10_000,
        1_000_000_000,
    );
}

proof fn lemma_avoid_sum_box(fish: Fish, size: int, nearby: Seq<Fish>)
    requires
        0 <= size <= 1_000_000,
    ensures
        in_box_s(avoid_sum_s(fish, size, nearby), nearby.len() as int * 1_000_000),
    decreases nearby.len(),
{
    if nearby.len() > 0 {
        lemma_avoid_sum_box(fish, size, nearby.drop_last());
        let away = sub_s(nearby.last().pos@.pos, fish.pos@.pos);
        if len_s(away) < size {
            crate::fx::lemma_sqr_bounds(away.x, abs_s(away.x));
            crate::fx::lemma_sqr_bounds(away.y, abs_s(away.y));
            crate::fx::lemma_isqrt_s_is_isqrt(len_sqr_s(away));
            crate::fx::lemma_component_le_len(away.x, away.y, len_s(away));
        }
        assert((nearby.len() - 1) * 1_000_000 + 1_000_000 == nearby.len() as int * 1_000_000)
            by (nonlinear_arith);
    }
}

/// The separation force is boxed.
proof fn lemma_avoid_box(fish: Fish, nearby: Seq<Fish>, size: int, dt: int)
    requires
        nearby_wf(nearby),
        0 <= size <= 1_000_000,
        0 <= dt <= 10_000,
    ensures
        in_box_s(avoid_s(fish, dt, size, nearby), 100_000_000_000_000),
{
    lemma_avoid_sum_box(fish, size, nearby);
    lemma_mul_le(nearby.len() as int, MAX_FISH as int, 1_000_000);
    lemma_scale_box_s(
        avoid_sum_s(fish, size, nearby),
        dt,
        1_000_000_000,
        10_000,
        10_000_000_000,
    );
    lemma_scale_box_s(
        scale_milli_s(avoid_sum_s(fish, size, nearby), dt),
        size,
        10_000_000_000,
        1_000_000,
        100_000_000_000_000,
    );
}

/// The zone force is boxed.
proof fn lemma_congregate_box(p: V2, circle: SpawnCircle, t: TerrainView, dt: int)
    requires
        in_box_s(p, POS_BOX as int),
        crate::assets::spawn_circle_wf(circle),
        0 <= dt <= 10_000,
    ensures
        in_box_s(congregate_s(p, circle, t, dt), 10_000_000_000),
{
    let h = height_s(t, p);
    if h > -300 {
        let hx = height_s(t, add_s(p, V2 { x: 100, y: 0 }));
        let hy = height_s(t, add_s(p, V2 { x: 0, y: 100 }));
        let gradient = V2 { x: h - hx, y: h - hy };
        lemma_norm_box_s(gradient);
        lemma_scale_box_s(normalize_s(gradient), 10_000, 1000, 10_000, 10_000);
    } else {
        let dist = sub_s(circle.center@, p);
        let l = len_s(dist);
        lemma_len_box_s(dist, 2 * POS_BOX as int);
        if l < circle.radius as int && (circle.inner_radius matches Some(ir) && l < ir as int) {
            let outward = normalize_s(V2 { x: -dist.x, y: -dist.y });
            lemma_norm_box_s(V2 { x: -dist.x, y: -dist.y });
            lemma_scale_box_s(
                outward,
                circle.inner_radius->Some_0 as int - l,
                1000,
                1_000_000,
                1_000_000,
            );
            lemma_scale_box_s(
                scale_milli_s(outward, circle.inner_radius->Some_0 as int - l),
                dt,
                1_000_000,
                10_000,
                10_000_000,
            );
        } else if l > circle.radius as int {
            lemma_norm_box_s(dist);
            lemma_scale_box_s(
                normalize_s(dist),
                l - circle.radius as int,
                1000,
                4 * POS_BOX as int,
                40_000_000,
            );
            lemma_scale_box_s(
                scale_milli_s(normalize_s(dist), l - circle.radius as int),
                dt,
                40_000_000,
                10_000,
                400_000_000,
            );
        }
    }
}

/// The steering limits of a fleeing creature.
pub open spec fn scared_props_s(ms: int) -> crate::motion::PropsView {
    crate::motion::PropsView {
        max_speed: if 3000 < ms {
            3000
        } else {
            ms
        },
        max_rotation_speed: 5000,
        angular_acceleration: 10_000,
        acceleration: 3000,
        water: true,
    }
}

/// The steering limits of a creature eyeing a lure.
pub open spec fn attract_props_s(ms: int) -> crate::motion::PropsView {
    crate::motion::PropsView {
        max_speed: if 2000 < ms {
            2000
        } else {
            ms
        },
        max_rotation_speed: 2000,
        angular_acceleration: 1000,
        acceleration: 1000,
        water: true,
    }
}

/// A kinematic state from its mathematical view.
pub open spec fn position_of_view_s(v: PositionView) -> Position {
    Position {
        pos: Vec2Fx { x: v.pos.x as i64, y: v.pos.y as i64 },
        vel: Vec2Fx { x: v.vel.x as i64, y: v.vel.y as i64 },
        rot: v.rot as i64,
        w: v.w as i64,
    }
}

/// Where a frightened creature retreats to: past the frightening player,
/// five units beyond, kept inside the world box.
pub open spec fn scare_target_s(fish_pos: V2, ppos: V2) -> Vec2Fx {
    let v = sat_s(
        add_s(ppos, scale_milli_s(normalize_s(sub_s(fish_pos, ppos)), 5000)),
        POS_BOX as int,
    );
    Vec2Fx { x: v.x as i64, y: v.y as i64 }
}

/// The outcome of the scare pass over the first `k` players: the last
/// fast-moving player within four units sets the retreat point.
pub open spec fn scare_fold_s(
    fish_pos: V2,
    t0: Vec2Fx,
    s0: bool,
    players: Seq<Player>,
    k: int,
) -> (Vec2Fx, bool)
    decreases k,
{
    if k <= 0 {
        (t0, s0)
    } else {
        let prev = scare_fold_s(fish_pos, t0, s0, players, k - 1);
        let p = players[k - 1];
        if len_s(p.pos@.vel) >= 1000 && len_s(sub_s(fish_pos, p.pos@.pos)) < 4000 {
            (scare_target_s(fish_pos, p.pos@.pos), true)
        } else {
            prev
        }
    }
}

/// Whether the `k`-th lure check of this tick hooks the creature: about
/// one chance in two hundred, drawn from the tick's entropy roll.
pub open spec fn bite_at_s(roll: u64, k: int) -> bool {
    (roll as int + k) % 200 == 0
}

/// The retreat bearing after a bite, from the same roll.
pub open spec fn bite_angle_s(roll: u64, k: int) -> int {
    ((roll as int + k) / 200) % 6284
}

/// Where a hooked creature flees to: five units from the lure along the
/// rolled bearing.
pub open spec fn bite_target_s(b: Vec2Fx, roll: u64, k: int) -> Vec2Fx {
    let v = sat_s(
        add_s(b@, rotate_s(V2 { x: 5000, y: 0 }, bite_angle_s(roll, k))),
        POS_BOX as int,
    );
    Vec2Fx { x: v.x as i64, y: v.y as i64 }
}

/// The outcome of the lure pass over the first `k` players.
pub struct AttractOut {
    pub fish: Fish,
    pub players: Seq<Player>,
    pub events: Seq<Event>,
    pub attracted: bool,
}

/// The lure pass: each waiting lure within reach makes the creature face
/// it and hold still; with a small per-tick chance the creature is hooked —
/// teleported onto the lure, flagged to flee, the owner moved to
/// `PreReeling`, and the bite announced.
pub open spec fn attract_fold_s(
    f0: Fish,
    players0: Seq<Player>,
    events0: Seq<Event>,
    roll: u64,
    k: int,
) -> AttractOut
    decreases k,
{
    if k <= 0 {
        AttractOut { fish: f0, players: players0, events: events0, attracted: false }
    } else {
        let prev = attract_fold_s(f0, players0, events0, roll, k - 1);
        let p = prev.players[k - 1];
        match p.fishing_state {
            FishingState::Waiting(b) => {
                if len_s(sub_s(b@, prev.fish.pos@.pos)) < 2200 {
                    let faced = Fish {
                        target_pos: prev.fish.pos.pos,
                        pos: Position {
                            rot: norm_angle_s(arg_s(sub_s(b@, prev.fish.pos@.pos))) as i64,
                            w: 0i64,
                            ..prev.fish.pos
                        },
                        ..prev.fish
                    };
                    if bite_at_s(roll, k - 1) {
                        let hooked = Fish {
                            pos: Position { pos: b, ..faced.pos },
                            target_pos: bite_target_s(b, roll, k - 1),
                            scared: true,
                            ..faced
                        };
                        AttractOut {
                            fish: hooked,
                            players: prev.players.update(
                                k - 1,
                                Player {
                                    fishing_state: FishingState::PreReeling {
                                        fish: f0.id,
                                        bobber_pos: b,
                                    },
                                    ..p
                                },
                            ),
                            events: prev.events.push(
                                Event::Reel { player: p.id, fish: f0.id },
                            ).push(
                                Event::Sound {
                                    player: Id(0xffff_ffff_ffff_ffffu64),
                                    sound_type: crate::assets::SoundType::Splash,
                                    pos: b,
                                },
                            ),
                            attracted: true,
                        }
                    } else {
                        AttractOut { fish: faced, players: prev.players, events: prev.events, attracted: true }
                    }
                } else {
                    prev
                }
            },
            _ => prev,
        }
    }
}

/// Componentwise bounds of the individual forces, enough to add them in
/// machine integers.
proof fn lemma_force_bounds(
    fish: Fish,
    nearby: Seq<Fish>,
    size: int,
    circle: SpawnCircle,
    t: TerrainView,
    dt: int,
    time: int,
)
    requires
        fish_wf(fish),
        nearby_wf(nearby),
        0 <= size <= 1_000_000,
        crate::assets::spawn_circle_wf(circle),
        0 <= dt <= 10_000,
        0 <= time <= 100_000_000_000,
        fish.index < 1000,
    ensures
        in_box_s(currents_s(fish, circle, dt, time), 100_000_000),
        in_box_s(flock_s(fish, dt, nearby), 1_000_000_000),
        in_box_s(avoid_s(fish, dt, size, nearby), 100_000_000_000_000),
        in_box_s(match_velocity_s(fish, dt, nearby), 1_000_000_000),
        in_box_s(congregate_s(fish.pos@.pos, circle, t, dt), 10_000_000_000),
{
    lemma_currents_box(fish, circle, dt, time);
    lemma_flock_box(fish, nearby, dt);
    lemma_avoid_box(fish, nearby, size, dt);
    lemma_congregate_box(fish.pos@.pos, circle, t, dt);
}


/// What one creature's tick step yields.
pub struct FishStep {
    pub fish: Fish,
    pub players: Seq<Player>,
    pub events: Seq<Event>,
}

/// One creature's tick step: land species drift under their force alone;
/// everyone else may be frightened by fast players, is frozen while being
/// reeled in, flees when frightened, eyes a waiting lure (and may be
/// hooked), and otherwise swims its summed behavior force under the
/// per-terrain speed ceiling.
pub open spec fn step_fish_s(
    fish: Fish,
    upd: Vec2Fx,
    players: Seq<Player>,
    events: Seq<Event>,
    reeling: bool,
    behavior: FishBehavior,
    t: TerrainView,
    dt: int,
    roll: u64,
) -> FishStep {
    if behavior == FishBehavior::Land {
        let vel1 = clamp_len_s(add_s(fish.pos@.vel, upd@), 500);
        let pos1 = sat_s(add_s(fish.pos@.pos, scale_milli_s(vel1, dt)), POS_BOX as int);
        let f1 = Fish {
            pos: Position {
                pos: Vec2Fx { x: pos1.x as i64, y: pos1.y as i64 },
                vel: Vec2Fx { x: vel1.x as i64, y: vel1.y as i64 },
                ..fish.pos
            },
            ..fish
        };
        FishStep { fish: f1, players, events }
    } else {
        let scare = scare_fold_s(fish.pos@.pos, fish.target_pos, fish.scared, players, players.len() as int);
        let f1 = Fish { target_pos: scare.0, scared: scare.1, ..fish };
        if reeling {
            let f2 = Fish {
                pos: Position { vel: Vec2Fx { x: 0i64, y: 0i64 }, w: 0i64, ..f1.pos },
                ..f1
            };
            FishStep { fish: f2, players, events }
        } else {
            let ms: int = if height_s(t, f1.pos@.pos) < 0 {
                500
            } else {
                1_000_000
            };
            if f1.scared {
                let moved = crate::motion::update_movement_s(
                    f1.pos@,
                    f1.target_pos@,
                    scared_props_s(ms),
                    dt,
                );
                let still = len_s(sub_s(moved.pos, f1.target_pos@)) < 1000;
                let f2 = Fish {
                    pos: position_of_view_s(moved),
                    scared: !still,
                    ..f1
                };
                FishStep { fish: f2, players, events }
            } else {
                let att = attract_fold_s(f1, players, events, roll, players.len() as int);
                if att.attracted {
                    let moved = crate::motion::update_movement_s(
                        att.fish.pos@,
                        att.fish.pos@.pos,
                        attract_props_s(ms),
                        dt,
                    );
                    let f2 = Fish { pos: position_of_view_s(moved), ..att.fish };
                    FishStep { fish: f2, players: att.players, events: att.events }
                } else {
                    let cap: int = if ms < 1700 {
                        ms
                    } else {
                        1700
                    };
                    let vel1 = clamp_len_s(add_s(f1.pos@.vel, upd@), cap);
                    let new_rot = arg_s(vel1);
                    let vlen = len_s(vel1);
                    let w1 = crate::fx::clamp_abs_s(
                        norm_angle_s(new_rot - f1.pos@.rot),
                        vlen,
                    );
                    let w2: int = if vlen < 200 {
                        0
                    } else {
                        w1
                    };
                    let rot1 = norm_angle_s(f1.pos@.rot + w2);
                    let pos1 = sat_s(add_s(f1.pos@.pos, scale_milli_s(vel1, dt)), POS_BOX as int);
                    let f2 = Fish {
                        pos: Position {
                            pos: Vec2Fx { x: pos1.x as i64, y: pos1.y as i64 },
                            vel: Vec2Fx { x: vel1.x as i64, y: vel1.y as i64 },
                            rot: rot1 as i64,
                            w: w2 as i64,
                        },
                        ..f1
                    };
                    FishStep { fish: f2, players, events }
                }
            }
        }
    }
}

/// Run the scare pass for one creature.
fn scare_pass(fish: &Fish, players: &Vec<Player>) -> (r: (Vec2Fx, bool))
    requires
        fish_wf(*fish),
        players@.len() <= 100,
        forall|i: int| 0 <= i < players@.len() ==> crate::player::player_wf(#[trigger] players@[i]),
    ensures
        (r.0, r.1) == scare_fold_s(
            fish.pos@.pos,
            fish.target_pos,
            fish.scared,
            players@,
            players@.len() as int,
        ),
        in_box_s(r.0@, POS_BOX as int),
{
    let mut target = fish.target_pos;
    let mut scared = fish.scared;
    let mut j: usize = 0;
    while j < players.len()
        invariant
            0 <= j <= players@.len(),
            fish_wf(*fish),
            forall|i: int|
                0 <= i < players@.len() ==> crate::player::player_wf(#[trigger] players@[i]),
            (target, scared) == scare_fold_s(
                fish.pos@.pos,
                fish.target_pos,
                fish.scared,
                players@,
                j as int,
            ),
            in_box_s(target@, POS_BOX as int),
        decreases players@.len() - j,
    {
        proof {
            assert(crate::player::player_wf(players@[j as int]));
        }
        let p = &players[j];
        let fast = p.pos.vel.len() >= 1000;
        if fast {
            let away = fish.pos.pos.sub(p.pos.pos);
            if away.len() < 4000 {
                let n = away.normalize_or_zero();
                proof {
                    lemma_mul_le(abs_s(n@.x), 1000, 5000);
                    lemma_mul_le(abs_s(n@.y), 1000, 5000);
                }
                target = p.pos.pos.add(n.scale_milli(5000)).sat(POS_BOX);
                scared = true;
            }
        }
        j = j + 1;
    }
    (target, scared)
}

/// Whether the `j`-th lure check of this tick hooks the creature.
fn bite_at(roll: u64, j: usize) -> (r: bool)
    requires
        j <= 1000,
    ensures
        r == bite_at_s(roll, j as int),
{
    let r = ((roll as u128 + j as u128) % 200) as u64 == 0;
    proof {
        assert((roll as int + j as int) % 200 == ((roll as u128 + j as u128) as int) % 200);
    }
    r
}

/// The flee point of a hooked creature.
fn compute_bite_target(b: Vec2Fx, roll: u64, j: usize) -> (r: Vec2Fx)
    requires
        j <= 1000,
        in_box_s(b@, POS_BOX as int),
    ensures
        r == bite_target_s(b, roll, j as int),
        in_box_s(r@, POS_BOX as int),
{
    let ang128: u128 = ((roll as u128 + j as u128) / 200) % 6284;
    let ang: i64 = ang128 as i64;
    proof {
        assert(ang as int == bite_angle_s(roll, j as int)) by {
            assert((roll as u128 + j as u128) as int == roll as int + j as int);
        }
    }
    let off = Vec2Fx::new(5000, 0).rotate(ang);
    b.add(off).sat(crate::motion::POS_BOX)
}

/// Run the lure pass for one creature, updating any bitten lure's owner
/// and announcing the bite.
#[verifier::rlimit(100)]
fn attract_pass(
    fish: Fish,
    players: &mut Vec<Player>,
    events: &mut Vec<Event>,
    roll: u64,
) -> (r: (Fish, bool))
    requires
        fish_wf(fish),
        old(players)@.len() <= 100,
        forall|i: int|
            0 <= i < old(players)@.len() ==> crate::player::player_wf(
                #[trigger] old(players)@[i],
            ),
    ensures
        ({
            let att = attract_fold_s(
                fish,
                old(players)@,
                old(events)@,
                roll,
                old(players)@.len() as int,
            );
            r.0 == att.fish && final(players)@ == att.players && final(events)@ == att.events
                && r.1 == att.attracted
        }),
        final(players)@.len() == old(players)@.len(),
        fish_wf(r.0),
        forall|i: int|
            0 <= i < final(players)@.len() ==> crate::player::player_wf(
                #[trigger] final(players)@[i],
            ),
        forall|i: int|
            0 <= i < final(players)@.len() ==> (#[trigger] final(players)@[i]).id == old(
                players,
            )@[i].id,
        r.0.id == fish.id,
        r.0.index == fish.index,
    {
    let mut f = fish;
    let mut attracted = false;
    let mut j: usize = 0;
    while j < players.len()
        invariant
            0 <= j <= players@.len(),
            players@.len() == old(players)@.len(),
            players@.len() <= 100,
            fish_wf(fish),
            fish_wf(f),
            ({
                let att = attract_fold_s(fish, old(players)@, old(events)@, roll, j as int);
                f == att.fish && players@ == att.players && events@ == att.events && attracted
                    == att.attracted
            }),
            forall|i: int|
                0 <= i < players@.len() ==> crate::player::player_wf(#[trigger] players@[i]),
            forall|i: int|
                0 <= i < players@.len() ==> (#[trigger] players@[i]).id == old(players)@[i].id,
            f.id == fish.id,
            f.index == fish.index,
        decreases players@.len() - j,
    {
        let waiting_b: Option<Vec2Fx> = match &players[j].fishing_state {
            FishingState::Waiting(b) => Some(*b),
            _ => None,
        };
        match waiting_b {
            Some(b) => {
                let d = b.sub(f.pos.pos);
                if d.len() < 2200 {
                    let facing = crate::fx::normalize_angle(d.arg());
                    proof {
                        crate::fx::lemma_norm_angle_range(arg_s(sub_s(b@, f.pos@.pos)));
                    }
                    f = Fish {
                        target_pos: f.pos.pos,
                        pos: Position { rot: facing, w: 0, ..f.pos },
                        ..f
                    };
                    let bite = bite_at(roll, j);
                    if bite {
                        let hook_target = compute_bite_target(b, roll, j);
                        f = Fish {
                            pos: Position { pos: b, ..f.pos },
                            target_pos: hook_target,
                            scared: true,
                            ..f
                        };
                        let pid = players[j].id;
                        players[j].fishing_state = FishingState::PreReeling {
                            fish: fish.id,
                            bobber_pos: b,
                        };
                        events.push(Event::Reel { player: pid, fish: fish.id });
                        events.push(
                            Event::Sound {
                                player: Id(0xffff_ffff_ffff_ffffu64),
                                sound_type: crate::assets::SoundType::Splash,
                                pos: b,
                            },
                        );
                        attracted = true;
                    } else {
                        attracted = true;
                    }
                }
            },
            None => {},
        }
        j = j + 1;
    }
    (f, attracted)
}


/// Whether any player is currently reeling this creature in.
pub open spec fn is_reeling_s(players: Seq<Player>, fid: Id) -> bool
    decreases players.len(),
{
    if players.len() == 0 {
        false
    } else {
        let hooked = match players.last().fishing_state {
            FishingState::PreReeling { fish, .. } => fish == fid,
            FishingState::Reeling { fish, .. } => fish == fid,
            _ => false,
        };
        hooked || is_reeling_s(players.drop_last(), fid)
    }
}

fn is_reeling(players: &Vec<Player>, fid: Id) -> (r: bool)
    ensures
        r == is_reeling_s(players@, fid),
{
    let mut j: usize = 0;
    let mut found = false;
    while j < players.len()
        invariant
            0 <= j <= players@.len(),
            found == is_reeling_s(players@.take(j as int), fid),
        decreases players@.len() - j,
    {
        proof {
            assert(players@.take(j as int + 1).drop_last() =~= players@.take(j as int));
            assert(players@.take(j as int + 1).last() == players@[j as int]);
        }
        let hooked = match &players[j].fishing_state {
            FishingState::PreReeling { fish, .. } => fish.0 == fid.0,
            FishingState::Reeling { fish, .. } => fish.0 == fid.0,
            _ => false,
        };
        found = hooked || found;
        j = j + 1;
    }
    proof {
        assert(players@.take(players@.len() as int) =~= players@);
    }
    found
}

/// A lure pass that attracted nothing changed nothing.
proof fn lemma_attract_noop(
    f0: Fish,
    players0: Seq<Player>,
    events0: Seq<Event>,
    roll: u64,
    k: int,
)
    ensures
        !attract_fold_s(f0, players0, events0, roll, k).attracted ==> attract_fold_s(
            f0,
            players0,
            events0,
            roll,
            k,
        ) == (AttractOut { fish: f0, players: players0, events: events0, attracted: false }),
    decreases k,
{
    if k > 0 {
        lemma_attract_noop(f0, players0, events0, roll, k - 1);
    }
}

/// Advance one creature by one tick.
#[verifier::rlimit(100)]
#[verifier::spinoff_prover]
fn step_fish(
    fish: Fish,
    upd: Vec2Fx,
    players: &mut Vec<Player>,
    events: &mut Vec<Event>,
    reeling: bool,
    behavior: FishBehavior,
    terrain: &Terrain,
    delta_time: i64,
    roll: u64,
) -> (r: Fish)
    requires
        fish_wf(fish),
        in_box_s(upd@, 1_000_000_000),
        old(players)@.len() <= 100,
        forall|i: int|
            0 <= i < old(players)@.len() ==> crate::player::player_wf(
                #[trigger] old(players)@[i],
            ),
        crate::terrain::terrain_wf(terrain@),
        0 <= delta_time <= 10_000,
    ensures
        ({
            let st = step_fish_s(
                fish,
                upd,
                old(players)@,
                old(events)@,
                reeling,
                behavior,
                terrain@,
                delta_time as int,
                roll,
            );
            r == st.fish && final(players)@ == st.players && final(events)@ == st.events
        }),
        fish_wf(r),
        r.id == fish.id,
        r.index == fish.index,
        final(players)@.len() == old(players)@.len(),
        forall|i: int|
            0 <= i < final(players)@.len() ==> crate::player::player_wf(
                #[trigger] final(players)@[i],
            ),
        forall|i: int|
            0 <= i < final(players)@.len() ==> (#[trigger] final(players)@[i]).id == old(
                players,
            )@[i].id,
{
    if match behavior {
        FishBehavior::Land => true,
        _ => false,
    } {
        let summed = fish.pos.vel.add(upd);
        let vel1 = summed.clamp_len(500);
        proof {
            crate::fx::lemma_sqr_bounds(500, 500);
            if len_sqr_s(summed@) <= 500 * 500 {
                crate::vec2::lemma_box_from_sqr(summed@, 500);
            }
            lemma_mul_le(abs_s(vel1@.x), 500, abs_s(delta_time as int));
            lemma_mul_le(abs_s(vel1@.y), 500, abs_s(delta_time as int));
            lemma_mul_le(abs_s(delta_time as int), 10_000, 500);
        }
        let pos1 = fish.pos.pos.add(vel1.scale_milli(delta_time)).sat(crate::motion::POS_BOX);
        return Fish { pos: Position { pos: pos1, vel: vel1, ..fish.pos }, ..fish };
    }
    let (target1, scared1) = scare_pass(&fish, players);
    let f1 = Fish { target_pos: target1, scared: scared1, ..fish };
    if reeling {
        return Fish { pos: Position { vel: Vec2Fx { x: 0, y: 0 }, w: 0, ..f1.pos }, ..f1 };
    }
    let h = terrain.get_height(f1.pos.pos);
    let ms: i64 = if h < 0 {
        500
    } else {
        1_000_000
    };
    if f1.scared {
        let props = crate::motion::MovementProps {
            max_speed: if 3000 < ms {
                3000
            } else {
                ms
            },
            max_rotation_speed: 5000,
            angular_acceleration: 10_000,
            acceleration: 3000,
            water: true,
        };
        let mut p = f1.pos;
        crate::motion::update_movement(&mut p, f1.target_pos, props, delta_time);
        let still = p.pos.sub(f1.target_pos).len() < 1000;
        proof {
            let moved = crate::motion::update_movement_s(
                f1.pos@,
                f1.target_pos@,
                scared_props_s(ms as int),
                delta_time as int,
            );
            assert(p == position_of_view_s(moved));
        }
        return Fish { pos: p, scared: !still, ..f1 };
    }
    let (f2, attracted) = attract_pass(f1, players, events, roll);
    if attracted {
        let props = crate::motion::MovementProps {
            max_speed: if 2000 < ms {
                2000
            } else {
                ms
            },
            max_rotation_speed: 2000,
            angular_acceleration: 1000,
            acceleration: 1000,
            water: true,
        };
        let mut p = f2.pos;
        let tgt = f2.pos.pos;
        crate::motion::update_movement(&mut p, tgt, props, delta_time);
        proof {
            let moved = crate::motion::update_movement_s(
                f2.pos@,
                f2.pos@.pos,
                attract_props_s(ms as int),
                delta_time as int,
            );
            assert(p == position_of_view_s(moved));
        }
        return Fish { pos: p, ..f2 };
    }
    proof {
        lemma_attract_noop(f1, old(players)@, old(events)@, roll, old(players)@.len() as int);
    }
    let cap: i64 = if ms < 1700 {
        ms
    } else {
        1700
    };
    let summed = f1.pos.vel.add(upd);
    let vel1 = summed.clamp_len(cap);
    proof {
        crate::fx::lemma_sqr_bounds(cap as int, 1700);
        if len_sqr_s(summed@) <= cap as int * cap as int {
            crate::vec2::lemma_box_from_sqr(summed@, cap as int);
        }
    }
    let new_rot = vel1.arg();
    let vlen = vel1.len();
    let w1 = crate::fx::clamp_abs(crate::fx::normalize_angle(new_rot - f1.pos.rot), vlen);
    let w2: i64 = if vlen < 200 {
        0
    } else {
        w1
    };
    let rot1 = crate::fx::normalize_angle(f1.pos.rot + w2);
    proof {
        crate::fx::lemma_norm_angle_range(new_rot as int - f1.pos@.rot);
        crate::fx::lemma_norm_angle_range(f1.pos@.rot + w2 as int);
        lemma_mul_le(abs_s(vel1@.x), 1700, abs_s(delta_time as int));
        lemma_mul_le(abs_s(vel1@.y), 1700, abs_s(delta_time as int));
        lemma_mul_le(abs_s(delta_time as int), 10_000, 1700);
    }
    let pos1 = f1.pos.pos.add(vel1.scale_milli(delta_time)).sat(crate::motion::POS_BOX);
    Fish { pos: Position { pos: pos1, vel: vel1, rot: rot1, w: w2 }, ..f2 }
}


/// The whole per-tick creature pass over the first `k` creatures:
/// each steps under its precomputed force and entropy roll, threading the
/// players and the event stream through in creature order.
pub open spec fn tick_fold_s(
    fishes0: Seq<Fish>,
    fishes: Seq<Fish>,
    players: Seq<Player>,
    events: Seq<Event>,
    forces: Seq<Vec2Fx>,
    reelings: Seq<bool>,
    rolls: Seq<u64>,
    configs: FishConfigs,
    t: TerrainView,
    dt: int,
    k: int,
) -> (Seq<Fish>, Seq<Player>, Seq<Event>)
    decreases k,
{
    if k <= 0 {
        (fishes, players, events)
    } else {
        let (fs, ps, es) = tick_fold_s(
            fishes0,
            fishes,
            players,
            events,
            forces,
            reelings,
            rolls,
            configs,
            t,
            dt,
            k - 1,
        );
        let f = fishes0[k - 1];
        let st = step_fish_s(
            f,
            forces[k - 1],
            ps,
            es,
            reelings[k - 1],
            configs.configs@[f.index as int].spawn_circle.behavior,
            t,
            dt,
            rolls[k - 1],
        );
        (fs.update(k - 1, st.fish), st.players, st.events)
    }
}

impl Model {
    /// Advance every creature one tick under the given entropy rolls:
    /// forces are computed from the tick-start snapshot, then each creature
    /// steps in order, possibly hooking a waiting player's lure.
    pub fn update_fishes_with(
        &mut self,
        configs: &FishConfigs,
        terrain: &Terrain,
        delta_time: i64,
        events: &mut Vec<Event>,
        rolls: &Vec<u64>,
    )
        requires
            crate::model::model_wf(*old(self), configs.configs@.len() as int),
            crate::assets::fish_configs_wf(*configs),
            crate::terrain::terrain_wf(terrain@),
            0 <= delta_time <= 10_000,
            rolls@.len() == old(self).fishes@.len(),
        ensures
            crate::model::model_wf(*final(self), configs.configs@.len() as int),
            final(self).time == old(self).time,
            final(self).id_gen == old(self).id_gen,
            final(self).fishes@.len() == old(self).fishes@.len(),
            final(self).players@.len() == old(self).players@.len(),
            exists|forces: Seq<Vec2Fx>, reelings: Seq<bool>|
                #[trigger] tick_fold_s(
                    old(self).fishes@,
                    old(self).fishes@,
                    old(self).players@,
                    old(events)@,
                    forces,
                    reelings,
                    rolls@,
                    *configs,
                    terrain@,
                    delta_time as int,
                    old(self).fishes@.len() as int,
                ) == (final(self).fishes@, final(self).players@, final(events)@) && forces.len()
                    == old(self).fishes@.len() && reelings.len() == old(self).fishes@.len() && (
                forall|i: int|
                    0 <= i < old(self).fishes@.len() ==> #[trigger] forces[i]@ == fish_force_s(
                        old(self).fishes@[i],
                        old(self).fishes@,
                        configs.configs@[old(self).fishes@[i].index as int],
                        terrain@,
                        delta_time as int,
                        old(self).time as int,
                    )) && (forall|i: int|
                    0 <= i < old(self).fishes@.len() ==> #[trigger] reelings[i] == is_reeling_s(
                        old(self).players@,
                        old(self).fishes@[i].id,
                    )),
    {
        let n = self.fishes.len();
        let ghost fishes0 = self.fishes@;
        let ghost players0 = self.players@;
        let ghost events0 = events@;
        let mut forces: Vec<Vec2Fx> = Vec::new();
        let mut reelings: Vec<bool> = Vec::new();
        let mut i: usize = 0;
        while i < n
            invariant
                0 <= i <= n,
                n == self.fishes@.len(),
                *self == *old(self),
                crate::model::model_wf(*self, configs.configs@.len() as int),
                crate::assets::fish_configs_wf(*configs),
                crate::terrain::terrain_wf(terrain@),
                0 <= delta_time <= 10_000,
                forces@.len() == i,
                reelings@.len() == i,
                forall|j: int|
                    0 <= j < i ==> #[trigger] forces@[j]@ == fish_force_s(
                        self.fishes@[j],
                        self.fishes@,
                        configs.configs@[self.fishes@[j].index as int],
                        terrain@,
                        delta_time as int,
                        self.time as int,
                    ) && in_box_s(forces@[j]@, 1_000_000_000),
                forall|j: int|
                    0 <= j < i ==> #[trigger] reelings@[j] == is_reeling_s(
                        self.players@,
                        self.fishes@[j].id,
                    ),
            decreases n - i,
        {
            proof {
                assert(fish_wf(self.fishes@[i as int]));
                assert(crate::assets::fish_config_wf(
                    configs.configs@[self.fishes@[i as int].index as int],
                ));
            }
            let fi = self.fishes[i];
            let force = fish_force(
                &fi,
                &self.fishes,
                &configs.configs[fi.index],
                terrain,
                delta_time,
                self.time,
            );
            forces.push(force);
            reelings.push(is_reeling(&self.players, fi.id));
            i = i + 1;
        }
        let mut k: usize = 0;
        while k < n
            invariant
                0 <= k <= n,
                n == self.fishes@.len(),
                n == fishes0.len(),
                n == forces@.len(),
                n == reelings@.len(),
                n == rolls@.len(),
                n <= MAX_FISH,
                self.players@.len() == players0.len(),
                self.players@.len() <= 100,
                self.time == old(self).time,
                self.id_gen == old(self).id_gen,
                crate::assets::fish_configs_wf(*configs),
                crate::terrain::terrain_wf(terrain@),
                0 <= delta_time <= 10_000,
                forall|j: int| k <= j < n ==> #[trigger] self.fishes@[j] == fishes0[j],
                forall|j: int|
                    0 <= j < n ==> fish_wf(#[trigger] fishes0[j]) && fishes0[j].index
                        < configs.configs@.len() && fishes0[j].id.0 < self.id_gen.next_s(),
                forall|j: int|
                    0 <= j < n ==> fish_wf(#[trigger] self.fishes@[j]) && self.fishes@[j].index
                        < configs.configs@.len() && self.fishes@[j].id.0 < self.id_gen.next_s()
                        && self.fishes@[j].id == fishes0[j].id,
                forall|a: int, b: int|
                    0 <= a < b < n ==> (#[trigger] fishes0[a]).id != (#[trigger] fishes0[b]).id,
                forall|j: int|
                    0 <= j < self.players@.len() ==> crate::player::player_wf(
                        #[trigger] self.players@[j],
                    ) && self.players@[j].id == players0[j].id && self.players@[j].id.0
                        < self.id_gen.next_s(),
                forall|a: int, b: int|
                    0 <= a < b < players0.len() ==> (#[trigger] players0[a]).id != (
                    #[trigger] players0[b]).id,
                forall|j: int|
                    0 <= j < i ==> #[trigger] forces@[j]@ == fish_force_s(
                        fishes0[j],
                        fishes0,
                        configs.configs@[fishes0[j].index as int],
                        terrain@,
                        delta_time as int,
                        self.time as int,
                    ),
                forall|j: int| 0 <= j < n ==> in_box_s((#[trigger] forces@[j])@, 1_000_000_000),
                tick_fold_s(
                    fishes0,
                    fishes0,
                    players0,
                    events0,
                    forces@,
                    reelings@,
                    rolls@,
                    *configs,
                    terrain@,
                    delta_time as int,
                    k as int,
                ) == (self.fishes@, self.players@, events@),
            decreases n - k,
        {
            let f = self.fishes[k];
            let nf = step_fish(
                f,
                forces[k],
                &mut self.players,
                events,
                reelings[k],
                configs.configs[f.index].spawn_circle.behavior,
                terrain,
                delta_time,
                rolls[k],
            );
            self.fishes[k] = nf;
            k = k + 1;
        }
        proof {
            let om = *old(self);
            let nm = *self;
            let n_sp = configs.configs@.len() as int;
            assert forall|a: int, b: int| 0 <= a < b < nm.fishes@.len() implies (
            #[trigger] nm.fishes@[a]).id != (#[trigger] nm.fishes@[b]).id by {
                assert(nm.fishes@[a].id == fishes0[a].id && nm.fishes@[b].id == fishes0[b].id);
            }
            assert forall|a: int, b: int| 0 <= a < b < nm.players@.len() implies (
            #[trigger] nm.players@[a]).id != (#[trigger] nm.players@[b]).id by {
                assert(nm.players@[a].id == players0[a].id && nm.players@[b].id == players0[b].id);
            }
        }
    }

    /// Advance every creature one tick, drawing fresh entropy.
    pub fn update_fishes(
        &mut self,
        configs: &FishConfigs,
        terrain: &Terrain,
        delta_time: i64,
        events: &mut Vec<Event>,
    )
        requires
            crate::model::model_wf(*old(self), configs.configs@.len() as int),
            crate::assets::fish_configs_wf(*configs),
            crate::terrain::terrain_wf(terrain@),
            0 <= delta_time <= 10_000,
        ensures
            crate::model::model_wf(*final(self), configs.configs@.len() as int),
            final(self).time == old(self).time,
            final(self).id_gen == old(self).id_gen,
            final(self).fishes@.len() == old(self).fishes@.len(),
            final(self).players@.len() == old(self).players@.len(),
            exists|rolls: Seq<u64>, forces: Seq<Vec2Fx>, reelings: Seq<bool>|
                #[trigger] tick_fold_s(
                    old(self).fishes@,
                    old(self).fishes@,
                    old(self).players@,
                    old(events)@,
                    forces,
                    reelings,
                    rolls,
                    *configs,
                    terrain@,
                    delta_time as int,
                    old(self).fishes@.len() as int,
                ) == (final(self).fishes@, final(self).players@, final(events)@) && rolls.len()
                    == old(self).fishes@.len() && forces.len() == old(self).fishes@.len()
                    && reelings.len() == old(self).fishes@.len() && (forall|i: int|
                    0 <= i < old(self).fishes@.len() ==> #[trigger] forces[i]@ == fish_force_s(
                        old(self).fishes@[i],
                        old(self).fishes@,
                        configs.configs@[old(self).fishes@[i].index as int],
                        terrain@,
                        delta_time as int,
                        old(self).time as int,
                    )) && (forall|i: int|
                    0 <= i < old(self).fishes@.len() ==> #[trigger] reelings[i] == is_reeling_s(
                        old(self).players@,
                        old(self).fishes@[i].id,
                    )),
    {
        let mut rolls: Vec<u64> = Vec::new();
        let n = self.fishes.len();
        let mut i: usize = 0;
        while i < n
            invariant
                rolls@.len() == i,
                0 <= i <= n,
            decreases n - i,
        {
            rolls.push(crate::model::random_roll());
            i = i + 1;
        }
        self.update_fishes_with(configs, terrain, delta_time, events, &rolls);
    }

    /// One authoritative tick: the clock advances (wrapping at its cap)
    /// and every creature steps, exactly as one creature pass under some
    /// entropy rolls, with the forces taken from the tick-start snapshot
    /// at the new clock and the reeling flags from the tick-start players.
    pub fn tick(&mut self, configs: &FishConfigs, terrain: &Terrain, events: &mut Vec<Event>)
        requires
            crate::model::model_wf(*old(self), configs.configs@.len() as int),
            crate::assets::fish_configs_wf(*configs),
            crate::terrain::terrain_wf(terrain@),
        ensures
            crate::model::model_wf(*final(self), configs.configs@.len() as int),
            final(self).time == (old(self).time + crate::TICK_MS as int) % (crate::model::TIME_WRAP_MS as int),
            final(self).id_gen == old(self).id_gen,
            final(self).fishes@.len() == old(self).fishes@.len(),
            final(self).players@.len() == old(self).players@.len(),
            exists|rolls: Seq<u64>, forces: Seq<Vec2Fx>, reelings: Seq<bool>|
                #[trigger] tick_fold_s(
                    old(self).fishes@,
                    old(self).fishes@,
                    old(self).players@,
                    old(events)@,
                    forces,
                    reelings,
                    rolls,
                    *configs,
                    terrain@,
                    crate::TICK_MS as int,
                    old(self).fishes@.len() as int,
                ) == (final(self).fishes@, final(self).players@, final(events)@) && rolls.len()
                    == old(self).fishes@.len() && forces.len() == old(self).fishes@.len()
                    && reelings.len() == old(self).fishes@.len() && (forall|i: int|
                    0 <= i < old(self).fishes@.len() ==> #[trigger] forces[i]@ == fish_force_s(
                        old(self).fishes@[i],
                        old(self).fishes@,
                        configs.configs@[old(self).fishes@[i].index as int],
                        terrain@,
                        crate::TICK_MS as int,
                        final(self).time as int,
                    )) && (forall|i: int|
                    0 <= i < old(self).fishes@.len() ==> #[trigger] reelings[i] == is_reeling_s(
                        old(self).players@,
                        old(self).fishes@[i].id,
                    )),
    {
        self.time = (self.time + crate::TICK_MS) % crate::model::TIME_WRAP_MS;
        self.update_fishes(configs, terrain, crate::TICK_MS, events);
    }
}

} // verus!
