//! The species catalog and world configuration: load-once, read-only data
//! that the behavior engine and the player logic consult every tick.
use vstd::prelude::*;

use crate::motion::POS_BOX;
use crate::vec2::in_box_s;
use crate::vec2::Vec2Fx;

verus! {

/// The sound cues the simulation can ask a client to play.
#[derive(Clone, Copy, PartialEq, Eq, Structural, Debug)]
pub enum SoundType {
    Casting,
    Ding,
    DropFishLand,
    DropFishWater,
    EnterBoat,
    ExitBoat,
    SellFish,
    ShowFish,
    Splash,
    StopFishing,
    UpgradeBoat,
    Whip,
}

/// The per-species wandering behavior tag: orbiting the zone, chaotic
/// wandering, idling, the open-sky and open-terrain drifts, and the
/// zone-oriented pull straight toward the home center.
#[derive(Clone, Copy, PartialEq, Eq, Structural, Debug)]
pub enum FishBehavior {
    Orbit,
    Chaos,
    Idle,
    Space,
    Land,
    Kuviseal,
}

impl FishBehavior {
    /// Species with these tags wander open terrain or sky, or chase their
    /// zone outright, and take no part in flocking.
    pub open spec fn suppresses_flocking(self) -> bool {
        self == FishBehavior::Space || self == FishBehavior::Land || self
            == FishBehavior::Kuviseal
    }
}

/// A species' home region: a circle (optionally an annulus) its creatures
/// are kept near, and how they wander inside it.
#[derive(Clone, Copy, PartialEq, Eq, Structural, Debug)]
pub struct SpawnCircle {
    pub center: Vec2Fx,
    pub radius: i64,
    pub inner_radius: Option<i64>,
    pub behavior: FishBehavior,
    pub reversed: Option<bool>,
}

/// A usable zone: within the world, positive extent, and any inner radius
/// strictly inside the outer one.
pub open spec fn spawn_circle_wf(c: SpawnCircle) -> bool {
    &&& in_box_s(c.center@, POS_BOX as int)
    &&& 1000 <= c.radius <= 1_000_000
    &&& (c.inner_radius matches Some(i) ==> 0 <= i < c.radius)
}

/// One species of the catalog.
#[derive(Clone, PartialEq, Eq, Debug)]
pub struct FishConfig {
    pub name: String,
    pub cost: u32,
    pub spawn_circle: SpawnCircle,
    pub count: u32,
    pub size: i64,
}

/// A usable species record.
pub open spec fn fish_config_wf(c: FishConfig) -> bool {
    &&& spawn_circle_wf(c.spawn_circle)
    &&& 0 <= c.size <= 1_000_000
    &&& c.count <= 1000
}

/// The species catalog, loaded once at startup.
#[derive(Clone, PartialEq, Eq, Debug)]
pub struct FishConfigs {
    pub configs: Vec<FishConfig>,
}

/// A usable catalog: every record usable, and few enough creatures that
/// the world population cap holds.
pub open spec fn fish_configs_wf(c: FishConfigs) -> bool {
    &&& c.configs@.len() <= 100
    &&& forall|i: int| 0 <= i < c.configs@.len() ==> fish_config_wf(#[trigger] c.configs@[i])
}

impl FishConfigs {
    /// Wrap a list of species records, refusing an unusable one.
    pub fn from_list(configs: Vec<FishConfig>) -> (r: Option<FishConfigs>)
        ensures
            r matches Some(c) ==> fish_configs_wf(c) && c.configs@ == configs@,
            r is None ==> !(configs@.len() <= 100 && forall|i: int|
                0 <= i < configs@.len() ==> fish_config_wf(#[trigger] configs@[i])),
    {
        if configs.len() > 100 {
            return None;
        }
        let mut i: usize = 0;
        while i < configs.len()
            invariant
                0 <= i <= configs@.len(),
                configs@.len() <= 100,
                forall|j: int| 0 <= j < i ==> fish_config_wf(#[trigger] configs@[j]),
            decreases configs@.len() - i,
        {
            let c = &configs[i];
            let circle_ok = in_box(c.spawn_circle.center, POS_BOX) && 1000 <= c.spawn_circle.radius
                && c.spawn_circle.radius <= 1_000_000 && (match c.spawn_circle.inner_radius {
                Some(r) => 0 <= r && r < c.spawn_circle.radius,
                None => true,
            });
            if !(circle_ok && 0 <= c.size && c.size <= 1_000_000 && c.count <= 1000) {
                return None;
            }
            i = i + 1;
        }
        Some(FishConfigs { configs })
    }
}

/// Componentwise box test on a fixed-point vector.
fn in_box(v: Vec2Fx, m: i64) -> (r: bool)
    requires
        0 <= m,
    ensures
        r == in_box_s(v@, m as int),
{
    -m <= v.x && v.x <= m && -m <= v.y && v.y <= m
}

/// One purchasable vehicle tier.
#[derive(Clone, PartialEq, Eq, Debug)]
pub struct BoatConfig {
    pub name: String,
    pub cost: u32,
    pub scale: i64,
    pub shops: Vec<Vec2Fx>,
}

/// The world configuration: inventory cap, shop locations and vehicle
/// tiers.
#[derive(Clone, PartialEq, Eq, Debug)]
pub struct Config {
    pub inventory_size: usize,
    pub fish_shops: Vec<Vec2Fx>,
    pub boat_types: Vec<BoatConfig>,
}

} // verus!
