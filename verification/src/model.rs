//! The authoritative world model: identities, the world snapshot, the wire
//! messages, and the fixed-rate tick entry points.
use vstd::prelude::*;

use crate::assets::fish_configs_wf;
use crate::assets::FishConfigs;
use crate::assets::SoundType;
use crate::assets::SpawnCircle;
use crate::fish::Fish;
use crate::fx::abs_s;
use crate::fx::cos_milli_s;
use crate::fx::div_trunc_s;
use crate::fx::lemma_div_trunc_bound;
use crate::fx::lemma_div_trunc_props;
use crate::fx::lemma_mul_le;
use crate::fx::sin_milli_s;
use crate::motion::POS_BOX;
use crate::player::player_wf;
use crate::player::Player;
use crate::vec2::sat_s;
use crate::vec2::Vec2Fx;
use crate::vec2::V2;

verus! {

/// A world entity's identity.
#[derive(Clone, Copy, PartialEq, Eq, Hash, Structural, Debug)]
pub struct Id(pub u64);

/// The monotonic identity generator of one world.
#[derive(Clone, Copy, PartialEq, Eq, Structural, Debug)]
pub struct IdGen {
    next_id: u64,
}

/// A species index into the catalog.
pub type FishType = usize;

impl IdGen {
    /// The value the next generated identity will take.
    pub closed spec fn next_s(self) -> int {
        self.next_id as int
    }

    /// A fresh generator, starting at zero.
    pub fn new() -> (r: IdGen)
        ensures
            r.next_s() == 0,
    {
        IdGen { next_id: 0 }
    }

    /// Hand out the next identity.
    pub fn gen(&mut self) -> (r: Id)
        requires
            old(self).next_s() < 0xffff_ffff_ffff_ffff,
        ensures
            r == Id(old(self).next_s() as u64),
            final(self).next_s() == old(self).next_s() + 1,
    {
        let id = Id(self.next_id);
        self.next_id = self.next_id + 1;
        id
    }
}

impl Default for IdGen {
    /// The default generator starts at zero.
    fn default() -> (r: IdGen)
        ensures
            r.next_s() == 0,
    {
        IdGen::new()
    }
}

/// Relies on `rand::random::<u64>`: a fresh draw from the thread's
/// generator; nothing is assumed of its value.
#[verifier::external_body]
pub fn random_roll() -> u64 {
    rand::random::<u64>()
}

/// The most players one world holds.
pub const MAX_PLAYERS: usize = 100;

/// The world wraps its clock after this many milliseconds.
pub const TIME_WRAP_MS: i64 = 100_000_000_000;

/// A message a client sends to the authoritative simulation.
#[derive(Clone, PartialEq, Eq, Debug)]
pub enum Message {
    Ping,
    Update(Player),
    Catch(Id),
    SpawnFish { index: usize, pos: Vec2Fx },
    Broadcast(Event),
    RespawnFish { index: usize },
}

/// An event the simulation sends back to clients.
#[derive(Clone, Copy, PartialEq, Eq, Structural, Debug)]
pub enum Event {
    Pong,
    Reel { player: Id, fish: Id },
    CaughtFish { player: Id, fish: Id, fish_type: FishType, position: Vec2Fx },
    Sound { player: Id, sound_type: SoundType, pos: Vec2Fx },
}

/// The authoritative world snapshot.
#[derive(Clone, PartialEq, Eq, Debug)]
pub struct Model {
    pub id_gen: IdGen,
    pub players: Vec<Player>,
    pub fishes: Vec<Fish>,
    pub time: i64,
}

/// A usable world against a catalog of `n_species` species: population
/// caps hold, every record is usable, identities are below the generator's
/// next value (hence unique among themselves once generated), and no two
/// entries share one.
pub open spec fn model_wf(m: Model, n_species: int) -> bool {
    &&& m.players@.len() <= MAX_PLAYERS as int
    &&& m.fishes@.len() <= crate::fish::MAX_FISH as int
    &&& 0 <= m.time <= TIME_WRAP_MS as int
    &&& forall|i: int|
        0 <= i < m.players@.len() ==> player_wf(#[trigger] m.players@[i]) && m.players@[i].id.0
            < m.id_gen.next_s()
    &&& forall|i: int|
        0 <= i < m.fishes@.len() ==> crate::fish::fish_wf(#[trigger] m.fishes@[i])
            && m.fishes@[i].id.0 < m.id_gen.next_s() && m.fishes@[i].index < n_species
    &&& forall|i: int, j: int|
        0 <= i < j < m.players@.len() ==> (#[trigger] m.players@[i]).id != (
        #[trigger] m.players@[j]).id
    &&& forall|i: int, j: int|
        0 <= i < j < m.fishes@.len() ==> (#[trigger] m.fishes@[i]).id != (
        #[trigger] m.fishes@[j]).id
}

/// The index of the player with identity `id`, if any: the first match.
pub open spec fn find_player_s(players: Seq<Player>, id: Id) -> Option<int>
    decreases players.len(),
{
    if players.len() == 0 {
        None
    } else if players[0].id == id {
        Some(0)
    } else {
        match find_player_s(players.drop_first(), id) {
            Some(i) => Some(i + 1),
            None => None,
        }
    }
}

/// The index of the fish with identity `id`, if any: the first match.
pub open spec fn find_fish_s(fishes: Seq<Fish>, id: Id) -> Option<int>
    decreases fishes.len(),
{
    if fishes.len() == 0 {
        None
    } else if fishes[0].id == id {
        Some(0)
    } else {
        match find_fish_s(fishes.drop_first(), id) {
            Some(i) => Some(i + 1),
            None => None,
        }
    }
}

proof fn lemma_find_player_props(players: Seq<Player>, id: Id)
    ensures
        find_player_s(players, id) matches Some(i) ==> 0 <= i < players.len() && players[i].id
            == id,
        find_player_s(players, id) is None ==> forall|i: int|
            0 <= i < players.len() ==> (#[trigger] players[i]).id != id,
    decreases players.len(),
{
    if players.len() > 0 {
        lemma_find_player_props(players.drop_first(), id);
        assert(forall|i: int|
            1 <= i < players.len() ==> #[trigger] players[i] == players.drop_first()[i - 1]);
    }
}

proof fn lemma_find_fish_props(fishes: Seq<Fish>, id: Id)
    ensures
        find_fish_s(fishes, id) matches Some(i) ==> 0 <= i < fishes.len() && fishes[i].id == id,
        find_fish_s(fishes, id) is None ==> forall|i: int|
            0 <= i < fishes.len() ==> (#[trigger] fishes[i]).id != id,
    decreases fishes.len(),
{
    if fishes.len() > 0 {
        lemma_find_fish_props(fishes.drop_first(), id);
        assert(forall|i: int|
            1 <= i < fishes.len() ==> #[trigger] fishes[i] == fishes.drop_first()[i - 1]);
    }
}

/// Find a player's index by identity.
pub(crate) fn find_player(players: &Vec<Player>, id: Id) -> (r: Option<usize>)
    ensures
        (match r {
            Some(i) => find_player_s(players@, id) == Some(i as int),
            None => find_player_s(players@, id) is None,
        }),
        r matches Some(i) ==> i < players@.len() && players@[i as int].id == id,
{
    let mut i: usize = 0;
    while i < players.len()
        invariant
            0 <= i <= players@.len(),
            find_player_s(players@.take(i as int), id) is None,
        decreases players@.len() - i,
    {
        if players[i].id == id {
            proof {
                lemma_find_prefix_player(players@, id, i as int);
            }
            return Some(i);
        }
        proof {
            lemma_find_take_step_player(players@, id, i as int);
        }
        i = i + 1;
    }
    proof {
        assert(players@.take(players@.len() as int) =~= players@);
    }
    None
}

/// Where a spawn roll places a creature: polar coordinates in the home
/// annulus, the radius and angle both taken from the roll.
pub open spec fn spawn_pos_s(circle: SpawnCircle, roll: u64) -> V2 {
    let inner = match circle.inner_radius {
        Some(i) => i as int,
        None => 0,
    };
    let span = circle.radius as int - inner;
    let r = inner + (roll as int % span);
    let ang = (roll as int / 0x1_0000_0000) % 6284;
    sat_s(
        V2 {
            x: circle.center@.x + div_trunc_s(r * cos_milli_s(ang), 1000),
            y: circle.center@.y + div_trunc_s(r * sin_milli_s(ang), 1000),
        },
        POS_BOX as int,
    )
}

/// The creature one spawn adds: a fresh identity, at rest at the rolled
/// spot in the species' home zone.
pub open spec fn spawned_fish_s(next_id: int, circle: SpawnCircle, i: int, roll: u64) -> Fish {
    let p = spawn_pos_s(circle, roll);
    let pos = Vec2Fx { x: p.x as i64, y: p.y as i64 };
    Fish {
        id: Id(next_id as u64),
        index: i as usize,
        pos: crate::motion::Position { pos, vel: Vec2Fx { x: 0i64, y: 0i64 }, rot: 0i64, w: 0i64 },
        target_pos: pos,
        scared: false,
    }
}

/// Spawn one creature of species `i` at a rolled spot in its home zone.
pub fn model_spawn_fish(m: &mut Model, configs: &FishConfigs, i: usize, roll: u64)
    requires
        model_wf(*old(m), configs.configs@.len() as int),
        fish_configs_wf(*configs),
        i < configs.configs@.len(),
        old(m).fishes@.len() < crate::fish::MAX_FISH,
        old(m).id_gen.next_s() < 0xffff_ffff_ffff_ffff,
    ensures
        final(m).fishes@ == old(m).fishes@.push(
            spawned_fish_s(
                old(m).id_gen.next_s(),
                configs.configs@[i as int].spawn_circle,
                i as int,
                roll,
            ),
        ),
        final(m).players@ == old(m).players@,
        final(m).time == old(m).time,
        final(m).id_gen.next_s() == old(m).id_gen.next_s() + 1,
        model_wf(*final(m), configs.configs@.len() as int),
{
    let circle = &configs.configs[i].spawn_circle;
    let inner: i64 = match circle.inner_radius {
        Some(r) => r,
        None => 0,
    };
    let span: i64 = circle.radius - inner;
    let r: i64 = inner + (roll % (span as u64)) as i64;
    let ang: i64 = ((roll / 0x1_0000_0000) % 6284) as i64;
    let c = crate::fx::fx_cos(ang);
    let s = crate::fx::fx_sin(ang);
    proof {
        crate::fx::lemma_abs_mul(r as int, c as int);
        crate::fx::lemma_abs_mul(r as int, s as int);
        lemma_mul_le(abs_s(r as int), 1_000_000, abs_s(c as int));
        lemma_mul_le(abs_s(c as int), 1000, 1_000_000);
        lemma_mul_le(abs_s(r as int), 1_000_000, abs_s(s as int));
        lemma_mul_le(abs_s(s as int), 1000, 1_000_000);
        lemma_div_trunc_props(r as int * c as int, 1000);
        lemma_div_trunc_bound(r as int * c as int, 1000, 1_000_000);
        lemma_div_trunc_props(r as int * s as int, 1000);
        lemma_div_trunc_bound(r as int * s as int, 1000, 1_000_000);
    }
    let pos = Vec2Fx {
        x: circle.center.x + (r * c) / 1000,
        y: circle.center.y + (r * s) / 1000,
    }.sat(crate::motion::POS_BOX);
    let id = m.id_gen.gen();
    let f = Fish::new(id, i, pos);
    m.fishes.push(f);
    proof {
        let nm = *m;
        let om = *old(m);
        let n = configs.configs@.len() as int;
        assert forall|a: int| 0 <= a < nm.fishes@.len() implies crate::fish::fish_wf(
            #[trigger] nm.fishes@[a],
        ) && nm.fishes@[a].id.0 < nm.id_gen.next_s() && nm.fishes@[a].index < n by {
            if a < om.fishes@.len() {
                assert(nm.fishes@[a] == om.fishes@[a]);
            }
        }
        assert forall|a: int, b: int| 0 <= a < b < nm.fishes@.len() implies (
        #[trigger] nm.fishes@[a]).id != (#[trigger] nm.fishes@[b]).id by {
            if b < om.fishes@.len() {
                assert(nm.fishes@[a] == om.fishes@[a] && nm.fishes@[b] == om.fishes@[b]);
            } else {
                assert(nm.fishes@[a].id.0 < om.id_gen.next_s());
                assert(nm.fishes@[b].id.0 == om.id_gen.next_s());
            }
        }
    }
}


/// How many creatures of species `i` a world holds.
pub open spec fn count_species_s(fishes: Seq<Fish>, i: int) -> int
    decreases fishes.len(),
{
    if fishes.len() == 0 {
        0
    } else {
        count_species_s(fishes.drop_last(), i) + if fishes.last().index == i {
            1int
        } else {
            0int
        }
    }
}

/// The world population after the first `k` species groups were offered:
/// a group joins only while the whole group still fits under the cap.
pub open spec fn populate_len_s(configs: FishConfigs, k: int) -> int
    decreases k,
{
    if k <= 0 {
        0
    } else {
        let prev = populate_len_s(configs, k - 1);
        if prev + configs.configs@[k - 1].count <= crate::fish::MAX_FISH as int {
            prev + configs.configs@[k - 1].count
        } else {
            prev
        }
    }
}

/// How many creatures of species `i` the first `k` groups contribute:
/// the species' own count when its group fit, nothing otherwise.
pub open spec fn populate_count_s(configs: FishConfigs, i: int, k: int) -> int
    decreases k,
{
    if k <= 0 {
        0
    } else {
        let prev = populate_count_s(configs, i, k - 1);
        if populate_len_s(configs, k - 1) + configs.configs@[k - 1].count
            <= crate::fish::MAX_FISH as int && k - 1 == i {
            prev + configs.configs@[k - 1].count
        } else {
            prev
        }
    }
}

/// Appending creatures of one species shifts only that species' count.
proof fn lemma_count_extend(s1: Seq<Fish>, s2: Seq<Fish>, g: int, i: int)
    requires
        s1.len() <= s2.len(),
        forall|k: int| 0 <= k < s1.len() ==> #[trigger] s2[k] == s1[k],
        forall|k: int| s1.len() <= k < s2.len() ==> (#[trigger] s2[k]).index == g,
    ensures
        count_species_s(s2, i) == count_species_s(s1, i) + if i == g {
            s2.len() - s1.len()
        } else {
            0int
        },
    decreases s2.len(),
{
    if s2.len() == s1.len() {
        assert(s1 =~= s2);
    } else {
        lemma_count_extend(s1, s2.drop_last(), g, i);
    }
}


/// The world's creatures and next identity after respawning the first `k`
/// entries of a dropped player's inventory: one creature per entry that
/// names a real species, while the world has room.
pub open spec fn respawn_fold_s(
    fishes: Seq<Fish>,
    next: int,
    configs: FishConfigs,
    inv: Seq<FishType>,
    rolls: Seq<u64>,
    k: int,
) -> (Seq<Fish>, int)
    decreases k,
{
    if k <= 0 {
        (fishes, next)
    } else {
        let prev = respawn_fold_s(fishes, next, configs, inv, rolls, k - 1);
        let item = inv[k - 1];
        if item < configs.configs@.len() && prev.0.len() < crate::fish::MAX_FISH as int {
            (
                prev.0.push(
                    spawned_fish_s(
                        prev.1,
                        configs.configs@[item as int].spawn_circle,
                        item as int,
                        rolls[k - 1],
                    ),
                ),
                prev.1 + 1,
            )
        } else {
            prev
        }
    }
}


/// The respawn fold over the first `k` entries reads only the first `k`
/// rolls.
proof fn lemma_respawn_fold_extend(
    fishes: Seq<Fish>,
    next: int,
    configs: FishConfigs,
    inv: Seq<FishType>,
    rolls1: Seq<u64>,
    rolls2: Seq<u64>,
    k: int,
)
    requires
        0 <= k <= rolls1.len(),
        rolls1.len() <= rolls2.len(),
        forall|j: int| 0 <= j < rolls1.len() ==> #[trigger] rolls2[j] == rolls1[j],
    ensures
        respawn_fold_s(fishes, next, configs, inv, rolls2, k) == respawn_fold_s(
            fishes,
            next,
            configs,
            inv,
            rolls1,
            k,
        ),
    decreases k,
{
    if k > 0 {
        lemma_respawn_fold_extend(fishes, next, configs, inv, rolls1, rolls2, k - 1);
    }
}

/// A player record a client may submit: usable, and every inventory entry
/// a real species.
pub open spec fn player_valid_s(p: Player, n_species: int) -> bool {
    &&& player_wf(p)
    &&& forall|i: int| 0 <= i < p.inventory@.len() ==> #[trigger] p.inventory@[i] < n_species
}

/// Check a submitted player record.
fn player_valid(p: &Player, n_species: usize) -> (r: bool)
    ensures
        r == player_valid_s(*p, n_species as int),
{
    let pos_ok = check_box(p.pos.pos, POS_BOX) && check_box(p.pos.vel, crate::motion::VEL_BOX)
        && -crate::motion::ROT_BOX <= p.pos.rot && p.pos.rot <= crate::motion::ROT_BOX
        && -crate::motion::W_BOX <= p.pos.w && p.pos.w <= crate::motion::W_BOX;
    let state_ok = match &p.fishing_state {
        crate::fishing::FishingState::Casting(b) => check_box(*b, POS_BOX),
        crate::fishing::FishingState::Waiting(b) => check_box(*b, POS_BOX),
        crate::fishing::FishingState::PreReeling { bobber_pos, .. } => check_box(
            *bobber_pos,
            POS_BOX,
        ),
        crate::fishing::FishingState::Reeling { bobber_pos, .. } => check_box(*bobber_pos, POS_BOX),
        _ => true,
    };
    if !(pos_ok && state_ok && p.boat_level <= 10 && p.inventory.len() <= 1000) {
        return false;
    }
    let mut i: usize = 0;
    while i < p.inventory.len()
        invariant
            0 <= i <= p.inventory@.len(),
            forall|j: int| 0 <= j < i ==> #[trigger] p.inventory@[j] < n_species,
        decreases p.inventory@.len() - i,
    {
        if p.inventory[i] >= n_species {
            return false;
        }
        i = i + 1;
    }
    true
}

fn check_box(v: Vec2Fx, m: i64) -> (r: bool)
    requires
        0 <= m,
    ensures
        r == crate::vec2::in_box_s(v@, m as int),
{
    -m <= v.x && v.x <= m && -m <= v.y && v.y <= m
}

/// The creature a network spawn request adds at an explicit position.
pub open spec fn placed_fish_s(next_id: int, index: int, pos: Vec2Fx) -> Fish {
    Fish {
        id: Id(next_id as u64),
        index: index as usize,
        pos: crate::motion::Position { pos, vel: Vec2Fx { x: 0i64, y: 0i64 }, rot: 0i64, w: 0i64 },
        target_pos: pos,
        scared: false,
    }
}

impl Model {
    /// An empty world: no players, no creatures, the clock at zero.
    pub fn init() -> (r: Model)
        ensures
            r.players@ == Seq::<Player>::empty(),
            r.fishes@ == Seq::<Fish>::empty(),
            r.id_gen.next_s() == 0,
            r.time == 0,
            forall|n: int| #[trigger] model_wf(r, n),
    {
        Model { id_gen: IdGen::new(), players: Vec::new(), fishes: Vec::new(), time: 0 }
    }

    /// Spawn one creature of species `i`; the entry point the server calls,
    /// drawing its own entropy.
    pub fn spawn_fish(&mut self, configs: &FishConfigs, i: usize)
        requires
            model_wf(*old(self), configs.configs@.len() as int),
            fish_configs_wf(*configs),
            i < configs.configs@.len(),
            old(self).fishes@.len() < crate::fish::MAX_FISH,
            old(self).id_gen.next_s() < 0xffff_ffff_ffff_ffff,
        ensures
            exists|roll: u64|
                final(self).fishes@ == old(self).fishes@.push(
                    #[trigger] spawned_fish_s(
                        old(self).id_gen.next_s(),
                        configs.configs@[i as int].spawn_circle,
                        i as int,
                        roll,
                    ),
                ),
            final(self).players@ == old(self).players@,
            final(self).time == old(self).time,
            final(self).id_gen.next_s() == old(self).id_gen.next_s() + 1,
            model_wf(*final(self), configs.configs@.len() as int),
    {
        let roll = random_roll();
        model_spawn_fish(self, configs, i, roll);
    }

    /// Spawn a whole species group, one creature per entropy roll.
    pub fn spawn_fish_group(&mut self, configs: &FishConfigs, i: usize)
        requires
            model_wf(*old(self), configs.configs@.len() as int),
            fish_configs_wf(*configs),
            i < configs.configs@.len(),
            old(self).fishes@.len() + configs.configs@[i as int].count
                <= crate::fish::MAX_FISH as int,
            old(self).id_gen.next_s() + configs.configs@[i as int].count
                < 0xffff_ffff_ffff_ffff,
        ensures
            final(self).fishes@.len() == old(self).fishes@.len()
                + configs.configs@[i as int].count,
            final(self).players@ == old(self).players@,
            final(self).time == old(self).time,
            final(self).id_gen.next_s() == old(self).id_gen.next_s()
                + configs.configs@[i as int].count,
            model_wf(*final(self), configs.configs@.len() as int),
            forall|k: int|
                old(self).fishes@.len() <= k < final(self).fishes@.len() ==> (
                #[trigger] final(self).fishes@[k]).index == i,
            forall|k: int|
                0 <= k < old(self).fishes@.len() ==> #[trigger] final(self).fishes@[k]
                    == old(self).fishes@[k],
            exists|rolls: Seq<u64>|
                rolls.len() == configs.configs@[i as int].count && (forall|k: int|
                    0 <= k < rolls.len() ==> #[trigger] final(self).fishes@[old(self).fishes@.len()
                        + k] == spawned_fish_s(
                        old(self).id_gen.next_s() + k,
                        configs.configs@[i as int].spawn_circle,
                        i as int,
                        rolls[k],
                    )),
    {
        let count = configs.configs[i].count;
        let ghost mut rolls: Seq<u64> = Seq::empty();
        let mut j: u32 = 0;
        while j < count
            invariant
                0 <= j <= count,
                count == configs.configs@[i as int].count,
                i < configs.configs@.len(),
                fish_configs_wf(*configs),
                model_wf(*self, configs.configs@.len() as int),
                self.fishes@.len() == old(self).fishes@.len() + j,
                self.players@ == old(self).players@,
                self.time == old(self).time,
                self.id_gen.next_s() == old(self).id_gen.next_s() + j,
                old(self).fishes@.len() + count <= crate::fish::MAX_FISH as int,
                old(self).id_gen.next_s() + count < 0xffff_ffff_ffff_ffff,
                rolls.len() == j,
                forall|k: int|
                    0 <= k < rolls.len() ==> #[trigger] self.fishes@[old(self).fishes@.len() + k]
                        == spawned_fish_s(
                        old(self).id_gen.next_s() + k,
                        configs.configs@[i as int].spawn_circle,
                        i as int,
                        rolls[k],
                    ),
                forall|k: int|
                    old(self).fishes@.len() <= k < self.fishes@.len() ==> (
                    #[trigger] self.fishes@[k]).index == i,
                forall|k: int|
                    0 <= k < old(self).fishes@.len() ==> #[trigger] self.fishes@[k]
                        == old(self).fishes@[k],
            decreases count - j,
        {
            let ghost prev = self.fishes@;
            let ghost prev_next = self.id_gen.next_s();
            self.spawn_fish(configs, i);
            proof {
                let r = choose|roll: u64|
                    self.fishes@ == prev.push(
                        #[trigger] spawned_fish_s(
                            prev_next,
                            configs.configs@[i as int].spawn_circle,
                            i as int,
                            roll,
                        ),
                    );
                rolls = rolls.push(r);
            }
            j = j + 1;
        }
    }

    /// Populate an empty world: one group per species of the catalog, each
    /// group of its configured population count, taken in catalog order
    /// while whole groups still fit under the world cap.
    pub fn populate(&mut self, configs: &FishConfigs)
        requires
            model_wf(*old(self), configs.configs@.len() as int),
            fish_configs_wf(*configs),
            old(self).fishes@.len() == 0,
            old(self).id_gen.next_s() < 0xffff_ffff_0000_0000,
        ensures
            model_wf(*final(self), configs.configs@.len() as int),
            final(self).players@ == old(self).players@,
            final(self).time == old(self).time,
            final(self).fishes@.len() == populate_len_s(*configs, configs.configs@.len() as int),
            forall|i: int|
                0 <= i < configs.configs@.len() ==> #[trigger] count_species_s(
                    final(self).fishes@,
                    i,
                ) == populate_count_s(*configs, i, configs.configs@.len() as int),
    {
        let n = configs.configs.len();
        let mut i: usize = 0;
        proof {
            assert(self.fishes@ =~= Seq::<Fish>::empty());
        }
        while i < n
            invariant
                0 <= i <= n,
                n == configs.configs@.len(),
                fish_configs_wf(*configs),
                model_wf(*self, configs.configs@.len() as int),
                self.players@ == old(self).players@,
                self.time == old(self).time,
                self.fishes@.len() == populate_len_s(*configs, i as int),
                self.fishes@.len() <= i * 1000,
                self.id_gen.next_s() <= old(self).id_gen.next_s() + i * 1000,
                old(self).id_gen.next_s() < 0xffff_ffff_0000_0000,
                forall|w: int|
                    0 <= w < n ==> #[trigger] count_species_s(self.fishes@, w)
                        == populate_count_s(*configs, w, i as int),
            decreases n - i,
        {
            proof {
                assert(fish_configs_wf(*configs));
                assert(crate::assets::fish_config_wf(configs.configs@[i as int]));
                assert(i * 1000 + 1000 == (i + 1) * 1000) by (nonlinear_arith);
                lemma_mul_le(i as int, 100, 1000);
                lemma_mul_le(i as int + 1, 100, 1000);
            }
            let ghost prev = self.fishes@;
            if self.fishes.len() + (configs.configs[i].count as usize) <= crate::fish::MAX_FISH {
                self.spawn_fish_group(configs, i);
            }
            proof {
                assert forall|w: int| 0 <= w < n implies #[trigger] count_species_s(
                    self.fishes@,
                    w,
                ) == populate_count_s(*configs, w, i as int + 1) by {
                    lemma_count_extend(prev, self.fishes@, i as int, w);
                }
            }
            i = i + 1;
        }
    }

    /// Connect a new player at the origin, with a rolled heading.
    pub fn new_player(&mut self, events: &mut Vec<Event>, roll: u64) -> (r: Id)
        requires
            old(self).players@.len() < MAX_PLAYERS,
            old(self).id_gen.next_s() < 0xffff_ffff_ffff_ffff,
        ensures
            r == Id(old(self).id_gen.next_s() as u64),
            final(self).players@.len() == old(self).players@.len() + 1,
            final(self).players@.subrange(0, old(self).players@.len() as int)
                == old(self).players@,
            final(self).players@.last().id == r,
            final(self).players@.last().pos.pos == (Vec2Fx { x: 0i64, y: 0i64 }),
            final(self).players@.last().fishing_state == crate::fishing::FishingState::Idle,
            final(self).players@.last().seated is None,
            final(self).players@.last().inventory@ == Seq::<FishType>::empty(),
            player_wf(final(self).players@.last()),
            final(self).fishes@ == old(self).fishes@,
            final(self).time == old(self).time,
            final(self).id_gen.next_s() == old(self).id_gen.next_s() + 1,
            final(events)@ == old(events)@,
            forall|n: int|
                model_wf(*old(self), n) ==> model_wf(*final(self), n),
    {
        let id = self.id_gen.gen();
        let p = Player::new(id, Vec2Fx { x: 0, y: 0 }, roll);
        self.players.push(p);
        proof {
            let om = *old(self);
            let nm = *self;
            assert(nm.players@.subrange(0, om.players@.len() as int) =~= om.players@);
            assert forall|n: int| model_wf(om, n) implies model_wf(nm, n) by {
                assert forall|a: int| 0 <= a < nm.players@.len() implies player_wf(
                    #[trigger] nm.players@[a],
                ) && nm.players@[a].id.0 < nm.id_gen.next_s() by {
                    if a < om.players@.len() {
                        assert(nm.players@[a] == om.players@[a]);
                    }
                }
                assert forall|a: int, b: int| 0 <= a < b < nm.players@.len() implies (
                #[trigger] nm.players@[a]).id != (#[trigger] nm.players@[b]).id by {
                    if b < om.players@.len() {
                        assert(nm.players@[a] == om.players@[a] && nm.players@[b]
                            == om.players@[b]);
                    } else {
                        assert(nm.players@[a].id.0 < om.id_gen.next_s());
                    }
                }
            }
        }
        id
    }

    /// Disconnect a player: the catch they carried is returned to the
    /// world as new creatures (while there is room), and the record is
    /// removed. An unknown identity is a no-op.
    pub fn drop_player(&mut self, configs: &FishConfigs, events: &mut Vec<Event>, player_id: &Id)
        requires
            model_wf(*old(self), configs.configs@.len() as int),
            fish_configs_wf(*configs),
            old(self).id_gen.next_s() < 0xffff_ffff_0000_0000,
        ensures
            model_wf(*final(self), configs.configs@.len() as int),
            final(events)@ == old(events)@,
            final(self).time == old(self).time,
            (find_player_s(old(self).players@, *player_id) matches Some(i) ==> final(self).players@
                == old(self).players@.remove(i) && exists|rolls: Seq<u64>|
                rolls.len() == old(self).players@[i].inventory@.len()
                    && #[trigger] respawn_fold_s(
                    old(self).fishes@,
                    old(self).id_gen.next_s(),
                    *configs,
                    old(self).players@[i].inventory@,
                    rolls,
                    old(self).players@[i].inventory@.len() as int,
                ) == (final(self).fishes@, final(self).id_gen.next_s())),
            (find_player_s(old(self).players@, *player_id) is None ==> *final(self) == *old(self)),
    {
        let found = find_player(&self.players, *player_id);
        match found {
            Some(pi) => {
                proof {
                    lemma_find_player_props(self.players@, *player_id);
                }
                let ghost inv0 = self.players@[pi as int].inventory@;
                let ghost mut rolls: Seq<u64> = Seq::empty();
                let inv_len = self.players[pi].inventory.len();
                let mut k: usize = 0;
                while k < inv_len
                    invariant
                        0 <= k <= inv_len,
                        pi < self.players@.len(),
                        inv0 == self.players@[pi as int].inventory@,
                        inv_len == self.players@[pi as int].inventory@.len(),
                        inv_len <= 1000,
                        fish_configs_wf(*configs),
                        model_wf(*self, configs.configs@.len() as int),
                        self.players@ == old(self).players@,
                        self.time == old(self).time,
                        self.id_gen.next_s() <= old(self).id_gen.next_s() + k,
                        old(self).id_gen.next_s() < 0xffff_ffff_0000_0000,
                        rolls.len() == k,
                        respawn_fold_s(
                            old(self).fishes@,
                            old(self).id_gen.next_s(),
                            *configs,
                            inv0,
                            rolls,
                            k as int,
                        ) == (self.fishes@, self.id_gen.next_s()),
                    decreases inv_len - k,
                {
                    let item = self.players[pi].inventory[k];
                    let ghost rolls_before = rolls;
                    if item < self.catalog_len(configs) && self.fishes.len()
                        < crate::fish::MAX_FISH {
                        let roll = random_roll();
                        model_spawn_fish(self, configs, item, roll);
                        proof {
                            rolls = rolls.push(roll);
                        }
                    } else {
                        proof {
                            rolls = rolls.push(0u64);
                        }
                    }
                    proof {
                        lemma_respawn_fold_extend(
                            old(self).fishes@,
                            old(self).id_gen.next_s(),
                            *configs,
                            inv0,
                            rolls_before,
                            rolls,
                            k as int,
                        );
                    }
                    k = k + 1;
                }
                self.players.remove(pi);
                proof {
                    let om = *old(self);
                    let nm = *self;
                    let n = configs.configs@.len() as int;
                    assert(nm.players@ =~= om.players@.remove(pi as int));
                    assert forall|a: int| 0 <= a < nm.players@.len() implies player_wf(
                        #[trigger] nm.players@[a],
                    ) && nm.players@[a].id.0 < nm.id_gen.next_s() by {
                        if a < pi as int {
                            assert(nm.players@[a] == om.players@[a]);
                        } else {
                            assert(nm.players@[a] == om.players@[a + 1]);
                        }
                    }
                    assert forall|a: int, b: int| 0 <= a < b < nm.players@.len() implies (
                    #[trigger] nm.players@[a]).id != (#[trigger] nm.players@[b]).id by {
                        let oa = if a < pi as int {
                            a
                        } else {
                            a + 1
                        };
                        let ob = if b < pi as int {
                            b
                        } else {
                            b + 1
                        };
                        assert(nm.players@[a] == om.players@[oa] && nm.players@[b]
                            == om.players@[ob]);
                    }
                }
            },
            None => {},
        }
    }

    /// The number of species in the catalog.
    fn catalog_len(&self, configs: &FishConfigs) -> (r: usize)
        ensures
            r == configs.configs@.len(),
    {
        configs.configs.len()
    }

    /// Handle one client message. `Ping` answers with a direct `Pong`;
    /// `Update` replaces the sender's record if the record is their own
    /// and usable; `Catch` removes the named creature (a soft no-op when
    /// it is already gone) and announces the catch; `SpawnFish` and
    /// `RespawnFish` put a creature back into the world; `Broadcast`
    /// relays an opaque event. Malformed or stale requests are dropped.
    pub fn handle_message(
        &mut self,
        configs: &FishConfigs,
        events: &mut Vec<Event>,
        player_id: &Id,
        message: Message,
        roll: u64,
    ) -> (r: Vec<Event>)
        requires
            model_wf(*old(self), configs.configs@.len() as int),
            fish_configs_wf(*configs),
            old(self).id_gen.next_s() < 0xffff_ffff_0000_0000,
        ensures
            model_wf(*final(self), configs.configs@.len() as int),
            final(self).time == old(self).time,
            (message matches Message::Ping ==> *final(self) == *old(self) && *final(events)
                == *old(events) && r@ =~= seq![Event::Pong]),
            (message matches Message::Update(data) ==> r@.len() == 0 && *final(events) == *old(
                events,
            ) && final(self).fishes@ == old(self).fishes@ && final(self).id_gen == old(
                self,
            ).id_gen && (if data.id == *player_id && player_valid_s(
                data,
                configs.configs@.len() as int,
            ) && find_player_s(old(self).players@, *player_id) is Some {
                final(self).players@ == old(self).players@.update(
                    find_player_s(old(self).players@, *player_id)->Some_0,
                    data,
                )
            } else {
                final(self).players@ == old(self).players@
            })),
            (message matches Message::Catch(id) ==> r@.len() == 0 && final(self).players@ == old(
                self,
            ).players@ && final(self).id_gen == old(self).id_gen && (
            match find_fish_s(old(self).fishes@, id) {
                Some(fi) => final(self).fishes@ == old(self).fishes@.remove(fi) && final(events)@
                    =~= old(events)@.push(
                    Event::CaughtFish {
                        player: *player_id,
                        fish: id,
                        fish_type: old(self).fishes@[fi].index,
                        position: old(self).fishes@[fi].pos.pos,
                    },
                ),
                None => final(self).fishes@ == old(self).fishes@ && *final(events) == *old(
                    events,
                ),
            })),
            (message matches Message::SpawnFish { index, pos } ==> r@.len() == 0 && *final(events)
                == *old(events) && final(self).players@ == old(self).players@ && (if index
                < configs.configs@.len() && old(self).fishes@.len() < crate::fish::MAX_FISH
                && crate::vec2::in_box_s(pos@, POS_BOX as int) {
                final(self).fishes@ == old(self).fishes@.push(
                    placed_fish_s(old(self).id_gen.next_s(), index as int, pos),
                ) && final(self).id_gen.next_s() == old(self).id_gen.next_s() + 1
            } else {
                *final(self) == *old(self)
            })),
            (message matches Message::Broadcast(event) ==> r@.len() == 0 && *final(self) == *old(
                self,
            ) && final(events)@ =~= old(events)@.push(event)),
            (message matches Message::RespawnFish { index } ==> r@.len() == 0 && *final(events)
                == *old(events) && final(self).players@ == old(self).players@ && (if index
                < configs.configs@.len() && old(self).fishes@.len() < crate::fish::MAX_FISH {
                final(self).fishes@ == old(self).fishes@.push(
                    spawned_fish_s(
                        old(self).id_gen.next_s(),
                        configs.configs@[index as int].spawn_circle,
                        index as int,
                        roll,
                    ),
                ) && final(self).id_gen.next_s() == old(self).id_gen.next_s() + 1
            } else {
                *final(self) == *old(self)
            })),
    {
        match message {
            Message::Ping => {
                let mut r: Vec<Event> = Vec::new();
                r.push(Event::Pong);
                return r;
            },
            Message::Update(data) => {
                if data.id.0 == player_id.0 && player_valid(&data, self.catalog_len(configs)) {
                    let found = find_player(&self.players, *player_id);
                    match found {
                        Some(i) => {
                            proof {
                                lemma_find_player_props(self.players@, *player_id);
                            }
                            let ghost om = *self;
                            self.players[i] = data;
                            proof {
                                lemma_wf_update(om, *self, i as int, configs.configs@.len() as int);
                            }
                        },
                        None => {},
                    }
                }
                proof {
                    assert(message->Update_0.id == *player_id <==> message->Update_0.id.0
                        == player_id.0);
                }
            },
            Message::Catch(id) => {
                let found = find_fish(&self.fishes, id);
                match found {
                    Some(fi) => {
                        proof {
                            lemma_find_fish_props(self.fishes@, id);
                        }
                        let fish = self.fishes.remove(fi);
                        events.push(
                            Event::CaughtFish {
                                fish: id,
                                fish_type: fish.index,
                                player: *player_id,
                                position: fish.pos.pos,
                            },
                        );
                        proof {
                            let om = *old(self);
                            let nm = *self;
                            let n = configs.configs@.len() as int;
                            assert forall|a: int, b: int|
                                0 <= a < b < nm.fishes@.len() implies (
                            #[trigger] nm.fishes@[a]).id != (#[trigger] nm.fishes@[b]).id by {
                                let oa = if a < fi as int {
                                    a
                                } else {
                                    a + 1
                                };
                                let ob = if b < fi as int {
                                    b
                                } else {
                                    b + 1
                                };
                                assert(nm.fishes@[a] == om.fishes@[oa] && nm.fishes@[b]
                                    == om.fishes@[ob]);
                            }
                            assert forall|a: int| 0 <= a < nm.fishes@.len() implies
                                crate::fish::fish_wf(#[trigger] nm.fishes@[a]) && nm.fishes@[a].id.0
                                < nm.id_gen.next_s() && nm.fishes@[a].index < n by {
                                let oa = if a < fi as int {
                                    a
                                } else {
                                    a + 1
                                };
                                assert(nm.fishes@[a] == om.fishes@[oa]);
                            }
                        }
                    },
                    None => {},
                }
            },
            Message::SpawnFish { index, pos } => {
                if index < self.catalog_len(configs) && self.fishes.len() < crate::fish::MAX_FISH
                    && check_box(pos, POS_BOX) {
                    let id = self.id_gen.gen();
                    let f = Fish::new(id, index, pos);
                    self.fishes.push(f);
                    proof {
                        let om = *old(self);
                        let nm = *self;
                        let n = configs.configs@.len() as int;
                        assert(nm.fishes@.last() == placed_fish_s(om.id_gen.next_s(), index as int, pos));
                        assert forall|a: int| 0 <= a < nm.fishes@.len() implies
                            crate::fish::fish_wf(#[trigger] nm.fishes@[a]) && nm.fishes@[a].id.0
                            < nm.id_gen.next_s() && nm.fishes@[a].index < n by {
                            if a < om.fishes@.len() {
                                assert(nm.fishes@[a] == om.fishes@[a]);
                            }
                        }
                        assert forall|a: int, b: int| 0 <= a < b < nm.fishes@.len() implies (
                        #[trigger] nm.fishes@[a]).id != (#[trigger] nm.fishes@[b]).id by {
                            if b < om.fishes@.len() {
                                assert(nm.fishes@[a] == om.fishes@[a] && nm.fishes@[b]
                                    == om.fishes@[b]);
                            } else {
                                assert(nm.fishes@[a].id.0 < om.id_gen.next_s());
                            }
                        }
                    }
                }
            },
            Message::Broadcast(event) => {
                events.push(event);
            },
            Message::RespawnFish { index } => {
                if index < self.catalog_len(configs) && self.fishes.len()
                    < crate::fish::MAX_FISH {
                    model_spawn_fish(self, configs, index, roll);
                }
            },
        }
        Vec::new()
    }
}

proof fn lemma_wf_update(om: Model, nm: Model, i: int, n: int)
    requires
        model_wf(om, n),
        0 <= i < om.players@.len(),
        nm.players@ == om.players@.update(i, nm.players@[i]),
        player_valid_s(nm.players@[i], n),
        nm.players@[i].id == om.players@[i].id,
        nm.fishes@ == om.fishes@,
        nm.id_gen == om.id_gen,
        nm.time == om.time,
    ensures
        model_wf(nm, n),
{
    assert forall|a: int| 0 <= a < nm.players@.len() implies player_wf(#[trigger] nm.players@[a])
        && nm.players@[a].id.0 < nm.id_gen.next_s() by {
        if a != i {
            assert(nm.players@[a] == om.players@[a]);
        } else {
            assert(nm.players@[a].id == om.players@[a].id);
        }
    }
    assert forall|a: int, b: int| 0 <= a < b < nm.players@.len() implies (
    #[trigger] nm.players@[a]).id != (#[trigger] nm.players@[b]).id by {
        assert(nm.players@[a].id == om.players@[a].id && nm.players@[b].id == om.players@[b].id);
    }
}

/// Find a fish's index by identity.
pub(crate) fn find_fish(fishes: &Vec<Fish>, id: Id) -> (r: Option<usize>)
    ensures
        (match r {
            Some(i) => find_fish_s(fishes@, id) == Some(i as int),
            None => find_fish_s(fishes@, id) is None,
        }),
        r matches Some(i) ==> i < fishes@.len() && fishes@[i as int].id == id,
{
    let mut i: usize = 0;
    while i < fishes.len()
        invariant
            0 <= i <= fishes@.len(),
            find_fish_s(fishes@.take(i as int), id) is None,
        decreases fishes@.len() - i,
    {
        if fishes[i].id == id {
            proof {
                lemma_find_prefix_fish(fishes@, id, i as int);
            }
            return Some(i);
        }
        proof {
            lemma_find_take_step_fish(fishes@, id, i as int);
        }
        i = i + 1;
    }
    proof {
        assert(fishes@.take(fishes@.len() as int) =~= fishes@);
    }
    None
}

proof fn lemma_find_take_step_fish(fishes: Seq<Fish>, id: Id, i: int)
    requires
        0 <= i < fishes.len(),
        find_fish_s(fishes.take(i), id) is None,
        fishes[i].id != id,
    ensures
        find_fish_s(fishes.take(i + 1), id) is None,
    decreases i,
{
    let s = fishes.take(i + 1);
    if i == 0 {
        assert(s[0] == fishes[0]);
        assert(s.drop_first() =~= Seq::<Fish>::empty());
        assert(find_fish_s(s.drop_first(), id) is None);
    } else {
        assert(s[0] == fishes[0]);
        if fishes[0].id != id {
            assert(s.drop_first() =~= fishes.drop_first().take(i));
            assert(fishes.take(i).drop_first() =~= fishes.drop_first().take(i - 1));
            lemma_find_take_step_fish(fishes.drop_first(), id, i - 1);
            assert(fishes.drop_first()[i - 1] == fishes[i]);
        }
    }
}

proof fn lemma_find_prefix_fish(fishes: Seq<Fish>, id: Id, i: int)
    requires
        0 <= i < fishes.len(),
        find_fish_s(fishes.take(i), id) is None,
        fishes[i].id == id,
    ensures
        find_fish_s(fishes, id) == Some(i),
    decreases i,
{
    if i == 0 {
        assert(fishes[0].id == id);
    } else {
        assert(fishes.take(i)[0] == fishes[0]);
        assert(fishes[0].id != id);
        assert(fishes.take(i).drop_first() =~= fishes.drop_first().take(i - 1));
        lemma_find_prefix_fish(fishes.drop_first(), id, i - 1);
        assert(fishes.drop_first()[i - 1] == fishes[i]);
    }
}

proof fn lemma_find_take_step_player(players: Seq<Player>, id: Id, i: int)
    requires
        0 <= i < players.len(),
        find_player_s(players.take(i), id) is None,
        players[i].id != id,
    ensures
        find_player_s(players.take(i + 1), id) is None,
    decreases i,
{
    let s = players.take(i + 1);
    if i == 0 {
        assert(s[0] == players[0]);
        assert(s.drop_first() =~= Seq::<Player>::empty());
        assert(find_player_s(s.drop_first(), id) is None);
    } else {
        assert(s[0] == players[0]);
        if players[0].id != id {
            assert(s.drop_first() =~= players.drop_first().take(i));
            assert(players.take(i).drop_first() =~= players.drop_first().take(i - 1));
            lemma_find_take_step_player(players.drop_first(), id, i - 1);
            assert(players.drop_first()[i - 1] == players[i]);
        }
    }
}

proof fn lemma_find_prefix_player(players: Seq<Player>, id: Id, i: int)
    requires
        0 <= i < players.len(),
        find_player_s(players.take(i), id) is None,
        players[i].id == id,
    ensures
        find_player_s(players, id) == Some(i),
    decreases i,
{
    if i == 0 {
        assert(players[0].id == id);
    } else {
        assert(players.take(i)[0] == players[0]);
        assert(players[0].id != id);
        assert(players.take(i).drop_first() =~= players.drop_first().take(i - 1));
        lemma_find_prefix_player(players.drop_first(), id, i - 1);
        assert(players.drop_first()[i - 1] == players[i]);
    }
}

} // verus!
