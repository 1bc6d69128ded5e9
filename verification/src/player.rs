//! Players: their record, their movement control, and the per-frame update
//! of the locally controlled player — steering, tethers, and push-out
//! collision against other players, the boundary geometry and the shops.
use vstd::prelude::*;

use crate::assets::Config;
use crate::assets::SoundType;
use crate::fishing::FishingState;
use crate::fx::abs_s;
use crate::fx::div_trunc_s;
use crate::fx::lemma_div_trunc_props;
use crate::fx::lemma_mul_le;
use crate::fish::Fish;
use crate::geometry::segs_in_box;
use crate::terrain::height_s;
use crate::terrain::Terrain;
use crate::terrain::TerrainView;
use crate::geometry::segs_view;
use crate::geometry::vec_to;
use crate::geometry::vec_to_s;
use crate::model::FishType;
use crate::model::Id;
use crate::motion::position_wf;
use crate::motion::update_movement;
use crate::motion::update_movement_s;
use crate::motion::MovementProps;
use crate::motion::Position;
use crate::motion::PositionView;
use crate::motion::POS_BOX;
use crate::motion::VEL_BOX;
use crate::vec2::add_s;
use crate::vec2::dot_s;
use crate::vec2::in_box_s;
use crate::vec2::len_s;
use crate::vec2::normalize_s;
use crate::vec2::sat_s;
use crate::vec2::scale_milli_s;
use crate::vec2::sub_s;
use crate::vec2::Vec2Fx;
use crate::vec2::V2;

verus! {

/// The longest a fishing line stretches before it snaps back to idle.
pub const MAX_LINE_LEN: i64 = 7000;

/// Attached players are pulled together beyond this line length.
pub const MIN_LINE_LEN: i64 = 4000;

/// How close to a fish shop a catch can be sold.
pub const SHOPPING_DISTANCE: i64 = 2000;

/// The exclusion radius around a shop.
pub const SHOP_R: i64 = 1200;

/// A seat on another player's vehicle: a non-owning cross-reference,
/// resolved by lookup every tick.
#[derive(Clone, Copy, PartialEq, Eq, Structural, Debug)]
pub struct Seated {
    pub player: Id,
    pub seat: usize,
}

/// One connected player.
#[derive(Clone, PartialEq, Eq, Debug)]
pub struct Player {
    pub id: Id,
    pub name: String,
    pub pos: Position,
    pub fishing_state: FishingState,
    pub fish_in_hands: Option<FishType>,
    pub boat_level: u8,
    pub seated: Option<Seated>,
    pub inventory: Vec<FishType>,
}

/// The lure a fishing state carries lies within the world box.
pub open spec fn fishing_state_wf(s: FishingState) -> bool {
    match s {
        FishingState::Casting(b) => in_box_s(b@, POS_BOX as int),
        FishingState::Waiting(b) => in_box_s(b@, POS_BOX as int),
        FishingState::PreReeling { bobber_pos, .. } => in_box_s(bobber_pos@, POS_BOX as int),
        FishingState::Reeling { bobber_pos, .. } => in_box_s(bobber_pos@, POS_BOX as int),
        _ => true,
    }
}

/// A usable player record.
pub open spec fn player_wf(p: Player) -> bool {
    &&& position_wf(p.pos@)
    &&& fishing_state_wf(p.fishing_state)
    &&& p.boat_level <= 10
    &&& p.inventory@.len() <= 1000
}

impl Player {
    /// A fresh player at `pos`, idle and empty-handed, with a heading
    /// taken from the entropy `roll`.
    pub fn new(id: Id, pos: Vec2Fx, roll: u64) -> (r: Player)
        requires
            in_box_s(pos@, POS_BOX as int),
        ensures
            r.id == id,
            r.name@ == Seq::<char>::empty(),
            r.pos.pos == pos,
            r.pos@.vel == crate::vec2::zero_s(),
            r.pos@.rot == roll as int % 6284 - 3142,
            r.pos@.w == 0,
            r.fishing_state == FishingState::Idle,
            r.fish_in_hands is None,
            r.boat_level == 0,
            r.seated is None,
            r.inventory@ == Seq::<FishType>::empty(),
            player_wf(r),
    {
        let rot = (roll % 6284) as i64 - 3142;
        Player {
            id,
            name: String::new(),
            pos: Position { pos, vel: Vec2Fx::zero(), rot, w: 0 },
            fishing_state: FishingState::Idle,
            fish_in_hands: None,
            boat_level: 0,
            seated: None,
            inventory: Vec::new(),
        }
    }
}

/// How a player asks to move: toward a point, or along a held direction.
#[derive(Clone, Copy, PartialEq, Eq, Structural, Debug)]
pub enum PlayerMovementControl {
    GoTo(Vec2Fx),
    GoDirection(Vec2Fx),
}

/// The steering limits of a player on foot.
pub open spec fn land_props_s() -> crate::motion::PropsView {
    crate::motion::PropsView {
        max_speed: 2000,
        max_rotation_speed: 2000,
        angular_acceleration: 1000,
        acceleration: 10000,
        water: false,
    }
}

/// The steering limits of a player afloat.
pub open spec fn water_props_s() -> crate::motion::PropsView {
    crate::motion::PropsView {
        max_speed: 2000,
        max_rotation_speed: 2000,
        angular_acceleration: 1000,
        acceleration: 1000,
        water: true,
    }
}

/// The movement parameters for a player, by where they stand.
pub fn movement_props(in_water: bool) -> (r: MovementProps)
    ensures
        r@ == if in_water {
            water_props_s()
        } else {
            land_props_s()
        },
        crate::motion::props_wf(r@),
{
    if in_water {
        MovementProps {
            max_speed: 2000,
            max_rotation_speed: 2000,
            angular_acceleration: 1000,
            acceleration: 1000,
            water: true,
        }
    } else {
        MovementProps {
            max_speed: 2000,
            max_rotation_speed: 2000,
            angular_acceleration: 1000,
            acceleration: 10000,
            water: false,
        }
    }
}

/// The point a control steers toward: the point itself, or the player's
/// position pushed along the held direction by the top speed.
pub open spec fn control_target_s(p: PositionView, c: PlayerMovementControl, max_speed: int) -> V2 {
    match c {
        PlayerMovementControl::GoTo(pos) => pos@,
        PlayerMovementControl::GoDirection(dir) => sat_s(
            add_s(p.pos, scale_milli_s(dir@, max_speed)),
            POS_BOX as int,
        ),
    }
}

/// The point a control steers toward.
pub fn control_target(p: &Position, c: &PlayerMovementControl, max_speed: i64) -> (r: Vec2Fx)
    requires
        position_wf(p@),
        0 <= max_speed <= 1_000_000,
        c matches PlayerMovementControl::GoDirection(d) ==> in_box_s(d@, 1_000_000),
        c matches PlayerMovementControl::GoTo(t) ==> in_box_s(t@, POS_BOX as int),
    ensures
        r@ == control_target_s(p@, *c, max_speed as int),
        in_box_s(r@, POS_BOX as int),
{
    match c {
        PlayerMovementControl::GoTo(pos) => *pos,
        PlayerMovementControl::GoDirection(dir) => {
            proof {
                lemma_mul_le(abs_s(dir@.x), 1_000_000, abs_s(max_speed as int));
                lemma_mul_le(abs_s(dir@.y), 1_000_000, abs_s(max_speed as int));
                lemma_mul_le(abs_s(max_speed as int), 1_000_000, 1_000_000);
            }
            p.pos.add(dir.scale_milli(max_speed)).sat(POS_BOX)
        },
    }
}

/// One push-out resolution: `delta` points from the obstacle toward the
/// player; within `radius`, the player is displaced along the contact
/// normal by the penetration depth and any inbound velocity along the
/// normal is removed.
pub open spec fn push_out_s(p: PositionView, delta: V2, radius: int) -> PositionView {
    let l = len_s(delta);
    if l < radius {
        let n = normalize_s(delta);
        let pen = radius - l;
        let pos1 = sat_s(add_s(p.pos, scale_milli_s(n, pen)), POS_BOX as int);
        let d = div_trunc_s(dot_s(n, p.vel), 1000);
        let vel1 = if d < 0 {
            sat_s(sub_s(p.vel, scale_milli_s(n, d)), VEL_BOX as int)
        } else {
            p.vel
        };
        PositionView { pos: pos1, vel: vel1, rot: p.rot, w: p.w }
    } else {
        p
    }
}

/// Resolve one push-out collision.
pub fn push_out(pos: &mut Position, delta: Vec2Fx, radius: i64)
    requires
        position_wf(old(pos)@),
        in_box_s(delta@, crate::geometry::SEG_BOX as int),
        0 <= radius <= 2_000_000,
    ensures
        final(pos)@ == push_out_s(old(pos)@, delta@, radius as int),
        position_wf(final(pos)@),
{
    let l = delta.len();
    if l < radius {
        let n = delta.normalize_or_zero();
        let pen = radius - l;
        proof {
            lemma_mul_le(abs_s(n@.x), 1000, abs_s(pen as int));
            lemma_mul_le(abs_s(n@.y), 1000, abs_s(pen as int));
            lemma_mul_le(abs_s(pen as int), 2_000_000, 1000);
        }
        let step = n.scale_milli(pen);
        let new_pos = pos.pos.add(step).sat(POS_BOX);
        let dp = n.dot(pos.vel);
        proof {
            let vv = old(pos)@.vel;
            let nv = normalize_s(delta@);
            crate::fx::lemma_abs_mul(nv.x, vv.x);
            crate::fx::lemma_abs_mul(nv.y, vv.y);
            lemma_mul_le(abs_s(nv.x), 1000, abs_s(vv.x));
            lemma_mul_le(abs_s(vv.x), VEL_BOX as int, 1000);
            lemma_mul_le(abs_s(nv.y), 1000, abs_s(vv.y));
            lemma_mul_le(abs_s(vv.y), VEL_BOX as int, 1000);
            lemma_div_trunc_props(dot_s(nv, vv), 1000);
            vstd::arithmetic::div_mod::lemma_div_nonincreasing(abs_s(dot_s(nv, vv)), 1000);
        }
        let d = dp / 1000;
        if d < 0 {
            proof {
                lemma_mul_le(abs_s(n@.x), 1000, abs_s(d as int));
                lemma_mul_le(abs_s(n@.y), 1000, abs_s(d as int));
            }
            let kick = n.scale_milli(d);
            pos.vel = pos.vel.sub(kick).sat(VEL_BOX);
        }
        pos.pos = new_pos;
    }
}


/// The collision radius of a player: their vehicle's scale when afloat in
/// a boat, else one unit.
pub open spec fn boat_radius_s(p: Player, in_water: bool, config: Config) -> int {
    if p.boat_level > 0 && in_water && p.boat_level - 1 < config.boat_types@.len() {
        config.boat_types@[p.boat_level as int - 1].scale as int
    } else {
        1000
    }
}

/// Following a seat: the rider snaps to the captain's position, dismounts
/// when the captain reaches land, and is dropped at the origin when the
/// captain is gone.
pub open spec fn seated_step_s(p: Player, others: Seq<Player>, t: TerrainView) -> Player {
    match p.seated {
        None => p,
        Some(st) => match crate::model::find_player_s(others, st.player) {
            Some(i) => {
                let cap = others[i];
                let p1 = Player { pos: Position { pos: cap.pos.pos, ..p.pos }, ..p };
                if height_s(t, cap.pos@.pos) > crate::terrain::SHORE_HEIGHT as int {
                    Player { seated: None, ..p1 }
                } else {
                    p1
                }
            },
            None => Player {
                seated: None,
                pos: Position {
                    pos: Vec2Fx { x: 0i64, y: 0i64 },
                    vel: Vec2Fx { x: 0i64, y: 0i64 },
                    ..p.pos
                },
                ..p
            },
        },
    }
}

/// Push-out against the first `k` other players: those afloat, unseated
/// and distinct from us push our circle away.
pub open spec fn collide_players_fold_s(
    pos: PositionView,
    my_id: Id,
    others: Seq<Player>,
    r2: int,
    t: TerrainView,
    k: int,
) -> PositionView
    decreases k,
{
    if k <= 0 {
        pos
    } else {
        let acc = collide_players_fold_s(pos, my_id, others, r2, t, k - 1);
        let o = others[k - 1];
        if o.id != my_id && o.seated is None && !(height_s(t, o.pos@.pos)
            > crate::terrain::SHORE_HEIGHT as int) {
            push_out_s(acc, sub_s(acc.pos, o.pos@.pos), r2)
        } else {
            acc
        }
    }
}

/// Push-out against a boundary segment set (skipped when it is empty).
pub open spec fn boundary_push_s(pos: PositionView, segs: Seq<(V2, V2)>, radius: int) -> PositionView {
    if segs.len() >= 1 {
        let to_b = vec_to_s(segs, pos.pos);
        push_out_s(pos, V2 { x: -to_b.x, y: -to_b.y }, radius)
    } else {
        pos
    }
}

/// Push-out against the first `k` shop disks.
pub open spec fn shops_fold_s(pos: PositionView, shops: Seq<Vec2Fx>, k: int) -> PositionView
    decreases k,
{
    if k <= 0 {
        pos
    } else {
        let acc = shops_fold_s(pos, shops, k - 1);
        push_out_s(acc, sub_s(acc.pos, shops[k - 1]@), SHOP_R as int)
    }
}

/// Push-out against every shop of the first `k` vehicle tiers.
pub open spec fn boat_shops_fold_s(pos: PositionView, boats: Seq<crate::assets::BoatConfig>, k: int) -> PositionView
    decreases k,
{
    if k <= 0 {
        pos
    } else {
        let acc = boat_shops_fold_s(pos, boats, k - 1);
        shops_fold_s(acc, boats[k - 1].shops@, boats[k - 1].shops@.len() as int)
    }
}

/// The creatures within one unit of a grounded lure, in world order.
pub open spec fn catch_fold_s(fishes: Seq<Fish>, b: Vec2Fx, k: int) -> Seq<Id>
    decreases k,
{
    if k <= 0 {
        Seq::empty()
    } else {
        let rest = catch_fold_s(fishes, b, k - 1);
        if len_s(sub_s(fishes[k - 1].pos@.pos, b@)) < 1000 {
            rest.push(fishes[k - 1].id)
        } else {
            rest
        }
    }
}

/// Whose personal hitbox the landed lure overlaps, among the first `k`
/// unseated other players: the last one wins.
pub open spec fn overlap_fold_s(
    b: Vec2Fx,
    others: Seq<Player>,
    radius: int,
    k: int,
) -> Option<Id>
    decreases k,
{
    if k <= 0 {
        None
    } else {
        let rest = overlap_fold_s(b, others, radius, k - 1);
        let o = others[k - 1];
        if o.seated is None && len_s(sub_s(o.pos@.pos, b@)) < radius {
            Some(o.id)
        } else {
            rest
        }
    }
}

/// A player record whose lure obeys the world box.
pub open spec fn all_players_wf(others: Seq<Player>) -> bool {
    &&& others.len() <= 100
    &&& forall|i: int| 0 <= i < others.len() ==> player_wf(#[trigger] others[i])
}

/// A usable world configuration: sane list lengths, shops within the
/// world, and vehicle scales that can serve as radii.
pub open spec fn config_wf(c: Config) -> bool {
    &&& c.fish_shops@.len() <= 100
    &&& c.boat_types@.len() <= 10
    &&& forall|i: int|
        0 <= i < c.fish_shops@.len() ==> in_box_s((#[trigger] c.fish_shops@[i])@, POS_BOX as int)
    &&& forall|i: int|
        0 <= i < c.boat_types@.len() ==> 1 <= (#[trigger] c.boat_types@[i]).scale <= 1_000_000
            && c.boat_types@[i].shops@.len() <= 100 && (forall|j: int|
            0 <= j < c.boat_types@[i].shops@.len() ==> in_box_s(
                (#[trigger] c.boat_types@[i].shops@[j])@,
                POS_BOX as int,
            ))
}


/// The chime positions of a grounded-lure catch, parallel to the catches.
pub open spec fn ding_fold_s(fishes: Seq<Fish>, b: Vec2Fx, k: int) -> Seq<(SoundType, Vec2Fx)>
    decreases k,
{
    if k <= 0 {
        Seq::empty()
    } else {
        let rest = ding_fold_s(fishes, b, k - 1);
        if len_s(sub_s(fishes[k - 1].pos@.pos, b@)) < 1000 {
            rest.push((SoundType::Ding, fishes[k - 1].pos.pos))
        } else {
            rest
        }
    }
}

/// Boundary geometry whose segments all lie within the world box.
pub open spec fn map_geometry_wf(g: crate::geometry::MapGeometry) -> bool {
    &&& segs_in_box(segs_view(g.edge_segments@), POS_BOX as int)
    &&& segs_in_box(segs_view(g.shore_segments@), POS_BOX as int)
    &&& segs_in_box(segs_view(g.deep_segments@), POS_BOX as int)
}

/// What one local-player update yields besides the new record: the sounds
/// to play, the catches to submit, and whether the held control resets.
pub struct LocalStep {
    pub player: Player,
    pub timer: int,
    pub sounds: Seq<(SoundType, Vec2Fx)>,
    pub catches: Seq<Id>,
    pub reset_control: bool,
}

/// The movement half of the local update: steering, the tow tether,
/// push-out against players, the lure tether, the three boundary lines and
/// the shop disks — skipped entirely while seated.
pub open spec fn movement_block_s(
    p1: Player,
    in_water: bool,
    radius: int,
    control: PlayerMovementControl,
    others: Seq<Player>,
    t: TerrainView,
    g: crate::geometry::MapGeometry,
    config: Config,
    dt: int,
) -> (Player, Seq<(SoundType, Vec2Fx)>) {
    let props = if in_water {
        water_props_s()
    } else {
        land_props_s()
    };
    let target = control_target_s(p1.pos@, control, props.max_speed);
    let m1 = update_movement_s(p1.pos@, target, props, dt);
    let pulled = match p1.fishing_state {
        FishingState::Attached(id) => match crate::model::find_player_s(others, id) {
            Some(i) => {
                let other = others[i];
                let dlen = len_s(sub_s(m1.pos, other.pos@.pos));
                let m2 = if dlen > MIN_LINE_LEN as int {
                    update_movement_s(
                        m1,
                        other.pos@.pos,
                        crate::motion::PropsView { acceleration: 2 * props.acceleration, ..props },
                        dt,
                    )
                } else {
                    m1
                };
                if dlen > MAX_LINE_LEN as int {
                    (
                        m2,
                        FishingState::Idle,
                        seq![
                            (
                                SoundType::StopFishing,
                                Vec2Fx { x: m2.pos.x as i64, y: m2.pos.y as i64 },
                            ),
                        ],
                    )
                } else {
                    (m2, p1.fishing_state, Seq::empty())
                }
            },
            None => (
                m1,
                FishingState::Idle,
                seq![(SoundType::StopFishing, Vec2Fx { x: m1.pos.x as i64, y: m1.pos.y as i64 })],
            ),
        },
        _ => (m1, p1.fishing_state, Seq::empty()),
    };
    let m3 = if in_water {
        collide_players_fold_s(pulled.0, p1.id, others, 2 * radius, t, others.len() as int)
    } else {
        pulled.0
    };
    let tether = match pulled.1.bobber_pos_s() {
        Some(b) => if len_s(sub_s(b@, m3.pos)) > MAX_LINE_LEN as int {
            (
                FishingState::Idle,
                seq![(SoundType::StopFishing, Vec2Fx { x: m3.pos.x as i64, y: m3.pos.y as i64 })],
            )
        } else {
            (pulled.1, Seq::empty())
        },
        None => (pulled.1, Seq::empty()),
    };
    let m4 = if p1.boat_level < 3 {
        boundary_push_s(m3, segs_view(g.edge_segments@), radius)
    } else {
        m3
    };
    let radius2: int = if in_water {
        radius
    } else {
        300
    };
    let m5 = boundary_push_s(m4, segs_view(g.shore_segments@), radius2);
    let m6 = if p1.boat_level < 2 {
        boundary_push_s(m5, segs_view(g.deep_segments@), radius2)
    } else {
        m5
    };
    let m7 = shops_fold_s(m6, config.fish_shops@, config.fish_shops@.len() as int);
    let m8 = boat_shops_fold_s(m7, config.boat_types@, config.boat_types@.len() as int);
    (
        Player {
            pos: crate::fish::position_of_view_s(m8),
            fishing_state: tether.0,
            ..p1
        },
        pulled.2 + tether.1,
    )
}

/// The whole local-player update: the seat is followed first, then (when
/// unseated) the movement half runs, and last the fishing timer advances —
/// a landed cast splashes in water or makes an instant catch on ground,
/// and a lure landing on a player attaches or cancels.
pub open spec fn update_my_player_s(
    p0: Player,
    timer0: int,
    control: PlayerMovementControl,
    others: Seq<Player>,
    fishes: Seq<Fish>,
    t: TerrainView,
    g: crate::geometry::MapGeometry,
    config: Config,
    dt: int,
) -> LocalStep {
    let in_water = height_s(t, p0.pos@.pos) < crate::terrain::SHORE_HEIGHT as int;
    let radius = boat_radius_s(p0, in_water, config);
    let p1 = seated_step_s(p0, others, t);
    let moved = if p1.seated is None {
        movement_block_s(p1, in_water, radius, control, others, t, g, config, dt)
    } else {
        (p1, Seq::empty())
    };
    let p2 = moved.0;
    let water_at = match p2.fishing_state {
        FishingState::Casting(b) => height_s(t, b@) < crate::terrain::SHORE_HEIGHT as int
            && crate::terrain::channel_value_s(t, 3, b@) > 500,
        _ => false,
    };
    let fs = crate::fishing::advance_fishing_s(p2.fishing_state, timer0, dt, water_at);
    let landed_part = match fs.landed {
        Some(landing) => {
            let b = landing.0;
            if landing.1 {
                (seq![(SoundType::Splash, b)], Seq::<Id>::empty())
            } else {
                (
                    ding_fold_s(fishes, b, fishes.len() as int),
                    catch_fold_s(fishes, b, fishes.len() as int),
                )
            }
        },
        None => (Seq::empty(), Seq::<Id>::empty()),
    };
    let overlapped = match fs.landed {
        Some(landing) => {
            let b = landing.0;
            match overlap_fold_s(b, others, radius, others.len() as int) {
                Some(oid) => (FishingState::Attached(oid), true),
                None => (fs.state, false),
            }
        },
        None => (fs.state, false),
    };
    let hit_self = match fs.landed {
        Some(landing) => len_s(sub_s(p2.pos@.pos, landing.0@)) < radius,
        None => false,
    };
    let st4 = if hit_self {
        FishingState::Idle
    } else {
        overlapped.0
    };
    let snd4: Seq<(SoundType, Vec2Fx)> = if hit_self {
        seq![(SoundType::StopFishing, p2.pos.pos)]
    } else {
        Seq::empty()
    };
    LocalStep {
        player: Player { fishing_state: st4, ..p2 },
        timer: fs.timer,
        sounds: moved.1 + landed_part.0 + snd4,
        catches: landed_part.1,
        reset_control: !hit_self && overlapped.1,
    }
}


/// Push-out against every other afloat, unseated player.
fn collide_players(
    pos: &mut Position,
    my_id: Id,
    others: &Vec<Player>,
    r2: i64,
    terrain: &Terrain,
)
    requires
        position_wf(old(pos)@),
        all_players_wf(others@),
        0 <= r2 <= 2_000_000,
        crate::terrain::terrain_wf(terrain@),
    ensures
        final(pos)@ == collide_players_fold_s(
            old(pos)@,
            my_id,
            others@,
            r2 as int,
            terrain@,
            others@.len() as int,
        ),
        position_wf(final(pos)@),
{
    let mut j: usize = 0;
    while j < others.len()
        invariant
            0 <= j <= others@.len(),
            all_players_wf(others@),
            0 <= r2 <= 2_000_000,
            crate::terrain::terrain_wf(terrain@),
            pos@ == collide_players_fold_s(
                old(pos)@,
                my_id,
                others@,
                r2 as int,
                terrain@,
                j as int,
            ),
            position_wf(pos@),
        decreases others@.len() - j,
    {
        proof {
            assert(player_wf(others@[j as int]));
        }
        let o = &others[j];
        let on_land = terrain.get_height(o.pos.pos) > crate::terrain::SHORE_HEIGHT;
        if o.id.0 != my_id.0 && o.seated.is_none() && !on_land {
            let delta = pos.pos.sub(o.pos.pos);
            push_out(pos, delta, r2);
        }
        j = j + 1;
    }
}

/// Push-out against one boundary segment set.
fn boundary_push(pos: &mut Position, segs: &Vec<(Vec2Fx, Vec2Fx)>, radius: i64)
    requires
        position_wf(old(pos)@),
        segs_in_box(segs_view(segs@), POS_BOX as int),
        0 <= radius <= 2_000_000,
    ensures
        final(pos)@ == boundary_push_s(old(pos)@, segs_view(segs@), radius as int),
        position_wf(final(pos)@),
{
    if segs.len() >= 1 {
        let to_b = vec_to(segs, pos.pos);
        let delta = Vec2Fx { x: -to_b.x, y: -to_b.y };
        push_out(pos, delta, radius);
    }
}

/// Push-out against one list of shop disks.
fn shops_pass(pos: &mut Position, shops: &Vec<Vec2Fx>)
    requires
        position_wf(old(pos)@),
        shops@.len() <= 100,
        forall|i: int| 0 <= i < shops@.len() ==> in_box_s((#[trigger] shops@[i])@, POS_BOX as int),
    ensures
        final(pos)@ == shops_fold_s(old(pos)@, shops@, shops@.len() as int),
        position_wf(final(pos)@),
{
    let mut j: usize = 0;
    while j < shops.len()
        invariant
            0 <= j <= shops@.len(),
            forall|i: int|
                0 <= i < shops@.len() ==> in_box_s((#[trigger] shops@[i])@, POS_BOX as int),
            pos@ == shops_fold_s(old(pos)@, shops@, j as int),
            position_wf(pos@),
        decreases shops@.len() - j,
    {
        let delta = pos.pos.sub(shops[j]);
        push_out(pos, delta, SHOP_R);
        j = j + 1;
    }
}

/// Push-out against every vehicle tier's shops.
fn boat_shops_pass(pos: &mut Position, config: &Config)
    requires
        position_wf(old(pos)@),
        config_wf(*config),
    ensures
        final(pos)@ == boat_shops_fold_s(
            old(pos)@,
            config.boat_types@,
            config.boat_types@.len() as int,
        ),
        position_wf(final(pos)@),
{
    let mut j: usize = 0;
    while j < config.boat_types.len()
        invariant
            0 <= j <= config.boat_types@.len(),
            config_wf(*config),
            pos@ == boat_shops_fold_s(old(pos)@, config.boat_types@, j as int),
            position_wf(pos@),
        decreases config.boat_types@.len() - j,
    {
        shops_pass(pos, &config.boat_types[j].shops);
        j = j + 1;
    }
}

/// The instant catch of a grounded lure: the ids caught and the chimes to
/// play.
fn catch_pass(fishes: &Vec<Fish>, b: Vec2Fx) -> (r: (Vec<Id>, Vec<(SoundType, Vec2Fx)>))
    requires
        fishes@.len() <= crate::fish::MAX_FISH,
        forall|i: int| 0 <= i < fishes@.len() ==> crate::fish::fish_wf(#[trigger] fishes@[i]),
        in_box_s(b@, POS_BOX as int),
    ensures
        r.0@ == catch_fold_s(fishes@, b, fishes@.len() as int),
        r.1@ == ding_fold_s(fishes@, b, fishes@.len() as int),
{
    let mut ids: Vec<Id> = Vec::new();
    let mut dings: Vec<(SoundType, Vec2Fx)> = Vec::new();
    let mut j: usize = 0;
    proof {
        assert(ids@ =~= catch_fold_s(fishes@, b, 0));
        assert(dings@ =~= ding_fold_s(fishes@, b, 0));
    }
    while j < fishes.len()
        invariant
            0 <= j <= fishes@.len(),
            forall|i: int| 0 <= i < fishes@.len() ==> crate::fish::fish_wf(#[trigger] fishes@[i]),
            in_box_s(b@, POS_BOX as int),
            ids@ == catch_fold_s(fishes@, b, j as int),
            dings@ == ding_fold_s(fishes@, b, j as int),
        decreases fishes@.len() - j,
    {
        proof {
            assert(crate::fish::fish_wf(fishes@[j as int]));
        }
        let f = &fishes[j];
        if f.pos.pos.sub(b).len() < 1000 {
            ids.push(f.id);
            dings.push((SoundType::Ding, f.pos.pos));
        }
        j = j + 1;
    }
    (ids, dings)
}

/// Whose hitbox a landed lure overlaps, among the other players.
fn overlap_pass(b: Vec2Fx, others: &Vec<Player>, radius: i64) -> (r: Option<Id>)
    requires
        all_players_wf(others@),
        in_box_s(b@, POS_BOX as int),
        0 <= radius <= 1_000_000,
    ensures
        r == overlap_fold_s(b, others@, radius as int, others@.len() as int),
{
    let mut found: Option<Id> = None;
    let mut j: usize = 0;
    while j < others.len()
        invariant
            0 <= j <= others@.len(),
            all_players_wf(others@),
            in_box_s(b@, POS_BOX as int),
            found == overlap_fold_s(b, others@, radius as int, j as int),
        decreases others@.len() - j,
    {
        proof {
            assert(player_wf(others@[j as int]));
        }
        let o = &others[j];
        if o.seated.is_none() && o.pos.pos.sub(b).len() < radius {
            found = Some(o.id);
        }
        j = j + 1;
    }
    found
}



/// The movement half of the local update, for an unseated player.
#[verifier::rlimit(100)]
#[verifier::spinoff_prover]
fn movement_block(
    player: &mut Player,
    sounds: &mut Vec<(SoundType, Vec2Fx)>,
    in_water: bool,
    radius: i64,
    control: &PlayerMovementControl,
    others: &Vec<Player>,
    terrain: &Terrain,
    geometry: &crate::geometry::MapGeometry,
    config: &Config,
    delta_time: i64,
)
    requires
        player_wf(*old(player)),
        old(player).seated is None,
        all_players_wf(others@),
        crate::terrain::terrain_wf(terrain@),
        map_geometry_wf(*geometry),
        config_wf(*config),
        1 <= radius <= 1_000_000,
        0 <= delta_time <= 10_000,
        old(sounds)@.len() == 0,
        control matches PlayerMovementControl::GoTo(t) ==> in_box_s(t@, POS_BOX as int),
        control matches PlayerMovementControl::GoDirection(d) ==> in_box_s(d@, 1_000_000),
    ensures
        ({
            let mv = movement_block_s(
                *old(player),
                in_water,
                radius as int,
                *control,
                others@,
                terrain@,
                *geometry,
                *config,
                delta_time as int,
            );
            *final(player) == mv.0 && final(sounds)@ == mv.1
        }),
        player_wf(*final(player)),
{
    let props = movement_props(in_water);
    let target = control_target(&player.pos, control, props.max_speed);
    update_movement(&mut player.pos, target, props, delta_time);
    let attached_id: Option<Id> = match &player.fishing_state {
        FishingState::Attached(id) => Some(*id),
        _ => None,
    };
    match attached_id {
        Some(id) => {
            match crate::model::find_player(others, id) {
                Some(i) => {
                    proof {
                        assert(player_wf(others@[i as int]));
                    }
                    let other_pos = others[i].pos.pos;
                    let dlen = player.pos.pos.sub(other_pos).len();
                    if dlen > MIN_LINE_LEN {
                        let props2 = MovementProps {
                            acceleration: 2 * props.acceleration,
                            ..props
                        };
                        update_movement(&mut player.pos, other_pos, props2, delta_time);
                    }
                    if dlen > MAX_LINE_LEN {
                        player.fishing_state = FishingState::Idle;
                        sounds.push((SoundType::StopFishing, player.pos.pos));
                    }
                },
                None => {
                    player.fishing_state = FishingState::Idle;
                    sounds.push((SoundType::StopFishing, player.pos.pos));
                },
            }
        },
        None => {},
    }
    let my_id = player.id;
    if in_water {
        collide_players(&mut player.pos, my_id, others, 2 * radius, terrain);
    }
    let bobber: Option<Vec2Fx> = player.fishing_state.bobber_pos();
    match bobber {
        Some(b) => {
            if b.sub(player.pos.pos).len() > MAX_LINE_LEN {
                player.fishing_state = FishingState::Idle;
                sounds.push((SoundType::StopFishing, player.pos.pos));
            }
        },
        None => {},
    }
    if player.boat_level < 3 {
        boundary_push(&mut player.pos, &geometry.edge_segments, radius);
    }
    let radius2: i64 = if in_water {
        radius
    } else {
        300
    };
    boundary_push(&mut player.pos, &geometry.shore_segments, radius2);
    if player.boat_level < 2 {
        boundary_push(&mut player.pos, &geometry.deep_segments, radius2);
    }
    shops_pass(&mut player.pos, &config.fish_shops);
    boat_shops_pass(&mut player.pos, config);
}

/// Advance the locally controlled player by one frame: follow the seat,
/// steer and resolve collisions, and run the fishing timer. Returns the
/// sounds to play, the creature catches to submit, and whether the held
/// movement control resets.
#[verifier::rlimit(100)]
#[verifier::spinoff_prover]
pub fn update_my_player(
    player: &mut Player,
    timer: &mut i64,
    control: &PlayerMovementControl,
    others: &Vec<Player>,
    fishes: &Vec<Fish>,
    terrain: &Terrain,
    geometry: &crate::geometry::MapGeometry,
    config: &Config,
    delta_time: i64,
) -> (r: (Vec<(SoundType, Vec2Fx)>, Vec<Id>, bool))
    requires
        player_wf(*old(player)),
        all_players_wf(others@),
        fishes@.len() <= crate::fish::MAX_FISH,
        forall|i: int| 0 <= i < fishes@.len() ==> crate::fish::fish_wf(#[trigger] fishes@[i]),
        crate::terrain::terrain_wf(terrain@),
        map_geometry_wf(*geometry),
        config_wf(*config),
        0 <= *old(timer) <= crate::fishing::TIMER_CAP_MS,
        0 <= delta_time <= 10_000,
        control matches PlayerMovementControl::GoTo(t) ==> in_box_s(t@, POS_BOX as int),
        control matches PlayerMovementControl::GoDirection(d) ==> in_box_s(d@, 1_000_000),
    ensures
        ({
            let st = update_my_player_s(
                *old(player),
                *old(timer) as int,
                *control,
                others@,
                fishes@,
                terrain@,
                *geometry,
                *config,
                delta_time as int,
            );
            *final(player) == st.player && *final(timer) as int == st.timer && r.0@ == st.sounds
                && r.1@ == st.catches && r.2 == st.reset_control
        }),
        player_wf(*final(player)),
        0 <= *final(timer) <= crate::fishing::TIMER_CAP_MS,
{
    let mut sounds: Vec<(SoundType, Vec2Fx)> = Vec::new();
    let in_water = terrain.get_height(player.pos.pos) < crate::terrain::SHORE_HEIGHT;
    let radius: i64 = if player.boat_level > 0 && in_water && ((player.boat_level - 1) as usize)
        < config.boat_types.len() {
        config.boat_types[(player.boat_level - 1) as usize].scale
    } else {
        1000
    };
    match player.seated {
        Some(st) => {
            match crate::model::find_player(others, st.player) {
                Some(i) => {
                    proof {
                        assert(player_wf(others@[i as int]));
                    }
                    player.pos.pos = others[i].pos.pos;
                    if terrain.get_height(others[i].pos.pos) > crate::terrain::SHORE_HEIGHT {
                        player.seated = None;
                    }
                },
                None => {
                    player.seated = None;
                    player.pos.pos = Vec2Fx { x: 0, y: 0 };
                    player.pos.vel = Vec2Fx { x: 0, y: 0 };
                },
            }
        },
        None => {},
    }
    proof {
        assert(*player == seated_step_s(*old(player), others@, terrain@));
    }
    if player.seated.is_none() {
        movement_block(
            player,
            &mut sounds,
            in_water,
            radius,
            control,
            others,
            terrain,
            geometry,
            config,
            delta_time,
        );
    }
    let water_at: bool = match &player.fishing_state {
        FishingState::Casting(b) => terrain.get_height(*b) < crate::terrain::SHORE_HEIGHT
            && terrain.get_channel_value(3, *b) > 500,
        _ => false,
    };
    let stepped = crate::fishing::advance_fishing(
        player.fishing_state,
        *timer,
        delta_time,
        water_at,
    );
    player.fishing_state = stepped.0;
    *timer = stepped.1;
    let mut catches: Vec<Id> = Vec::new();
    let mut reset = false;
    match stepped.2 {
        Some((b, landed_in_water)) => {
            if landed_in_water {
                sounds.push((SoundType::Splash, b));
            } else {
                let caught = catch_pass(fishes, b);
                catches = caught.0;
                let mut dings = caught.1;
                sounds.append(&mut dings);
            }
            let hit_self = player.pos.pos.sub(b).len() < radius;
            if hit_self {
                player.fishing_state = FishingState::Idle;
                sounds.push((SoundType::StopFishing, player.pos.pos));
            } else {
                match overlap_pass(b, others, radius) {
                    Some(oid) => {
                        player.fishing_state = FishingState::Attached(oid);
                        reset = true;
                    },
                    None => {},
                }
            }
        },
        None => {},
    }
    (sounds, catches, reset)
}


/// Whether any of the first `k` fish shops lies within selling distance.
pub open spec fn near_shop_s(pos: V2, shops: Seq<Vec2Fx>, k: int) -> bool
    decreases k,
{
    if k <= 0 {
        false
    } else {
        near_shop_s(pos, shops, k - 1) || len_s(sub_s(shops[k - 1]@, pos)) < SHOPPING_DISTANCE as int
    }
}

/// Whether the player stands close enough to a fish shop to sell a catch.
pub fn can_sell_fish(pos: Vec2Fx, config: &Config) -> (r: bool)
    requires
        in_box_s(pos@, POS_BOX as int),
        config_wf(*config),
    ensures
        r == near_shop_s(pos@, config.fish_shops@, config.fish_shops@.len() as int),
{
    let mut j: usize = 0;
    let mut near = false;
    while j < config.fish_shops.len()
        invariant
            0 <= j <= config.fish_shops@.len(),
            in_box_s(pos@, POS_BOX as int),
            config_wf(*config),
            near == near_shop_s(pos@, config.fish_shops@, j as int),
        decreases config.fish_shops@.len() - j,
    {
        if config.fish_shops[j].sub(pos).len() < SHOPPING_DISTANCE {
            near = true;
        }
        j = j + 1;
    }
    near
}

} // verus!
