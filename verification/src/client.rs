//! Client-side snapshot reconciliation: one interpolated view per remote
//! entity, kept in step with each authoritative snapshot diff and advanced
//! every render frame.
use vstd::prelude::*;

use crate::fish::Fish;
use crate::interpolation::interp_pos_wf;
use crate::interpolation::InterpolatedPosition;
use crate::model::Id;
use crate::motion::position_wf;
use crate::motion::Position;
use crate::player::Player;

verus! {

/// The interpolated views of all remote entities, one per identity.
pub struct ClientViews {
    entries: Vec<(Id, InterpolatedPosition)>,
}

impl View for ClientViews {
    type V = Seq<(Id, InterpolatedPosition)>;

    closed spec fn view(&self) -> Seq<(Id, InterpolatedPosition)> {
        self.entries@
    }
}

/// Every view well-formed.
pub open spec fn views_wf(s: Seq<(Id, InterpolatedPosition)>) -> bool {
    forall|i: int| 0 <= i < s.len() ==> interp_pos_wf((#[trigger] s[i]).1)
}

/// The first entry for an identity, if any.
pub open spec fn find_view_s(s: Seq<(Id, InterpolatedPosition)>, id: Id) -> Option<int>
    decreases s.len(),
{
    if s.len() == 0 {
        None
    } else if s[0].0 == id {
        Some(0)
    } else {
        match find_view_s(s.drop_first(), id) {
            Some(i) => Some(i + 1),
            None => None,
        }
    }
}

/// The view an entity gets after one snapshot: its old curve fed the new
/// sample, or a fresh curve at the sample if it had none.
pub open spec fn reconciled_view_s(
    s: Seq<(Id, InterpolatedPosition)>,
    id: Id,
    pos: Position,
) -> InterpolatedPosition {
    match find_view_s(s, id) {
        Some(i) => crate::interpolation::server_updated_s(s[i].1, pos),
        None => crate::interpolation::fresh_view_s(pos),
    }
}

/// The reconciled view list over the first `k` players followed by the
/// fishes: exactly the entities of the snapshot, in snapshot order.
pub open spec fn reconcile_players_s(
    s: Seq<(Id, InterpolatedPosition)>,
    players: Seq<Player>,
    k: int,
) -> Seq<(Id, InterpolatedPosition)>
    decreases k,
{
    if k <= 0 {
        Seq::empty()
    } else {
        reconcile_players_s(s, players, k - 1).push(
            (players[k - 1].id, reconciled_view_s(s, players[k - 1].id, players[k - 1].pos)),
        )
    }
}

/// The reconciled view list continued over the first `k` fishes.
pub open spec fn reconcile_fishes_s(
    s: Seq<(Id, InterpolatedPosition)>,
    acc: Seq<(Id, InterpolatedPosition)>,
    fishes: Seq<Fish>,
    k: int,
) -> Seq<(Id, InterpolatedPosition)>
    decreases k,
{
    if k <= 0 {
        acc
    } else {
        reconcile_fishes_s(s, acc, fishes, k - 1).push(
            (fishes[k - 1].id, reconciled_view_s(s, fishes[k - 1].id, fishes[k - 1].pos)),
        )
    }
}

fn find_view(entries: &Vec<(Id, InterpolatedPosition)>, id: Id) -> (r: Option<usize>)
    ensures
        (match r {
            Some(i) => find_view_s(entries@, id) == Some(i as int) && i < entries@.len()
                && entries@[i as int].0 == id,
            None => find_view_s(entries@, id) is None,
        }),
{
    let mut i: usize = 0;
    while i < entries.len()
        invariant
            0 <= i <= entries@.len(),
            find_view_s(entries@.take(i as int), id) is None,
        decreases entries@.len() - i,
    {
        if entries[i].0.0 == id.0 {
            proof {
                lemma_find_view_prefix(entries@, id, i as int);
            }
            return Some(i);
        }
        proof {
            lemma_find_view_step(entries@, id, i as int);
        }
        i = i + 1;
    }
    proof {
        assert(entries@.take(entries@.len() as int) =~= entries@);
    }
    None
}

proof fn lemma_find_view_step(s: Seq<(Id, InterpolatedPosition)>, id: Id, i: int)
    requires
        0 <= i < s.len(),
        find_view_s(s.take(i), id) is None,
        s[i].0 != id,
    ensures
        find_view_s(s.take(i + 1), id) is None,
    decreases i,
{
    let t = s.take(i + 1);
    if i == 0 {
        assert(t[0] == s[0]);
        assert(t.drop_first() =~= Seq::<(Id, InterpolatedPosition)>::empty());
        assert(find_view_s(t.drop_first(), id) is None);
    } else {
        assert(t[0] == s[0]);
        if s[0].0 != id {
            assert(t.drop_first() =~= s.drop_first().take(i));
            assert(s.take(i).drop_first() =~= s.drop_first().take(i - 1));
            lemma_find_view_step(s.drop_first(), id, i - 1);
            assert(s.drop_first()[i - 1] == s[i]);
        }
    }
}

proof fn lemma_find_view_prefix(s: Seq<(Id, InterpolatedPosition)>, id: Id, i: int)
    requires
        0 <= i < s.len(),
        find_view_s(s.take(i), id) is None,
        s[i].0 == id,
    ensures
        find_view_s(s, id) == Some(i),
    decreases i,
{
    if i == 0 {
    } else {
        assert(s.take(i)[0] == s[0]);
        assert(s[0].0 != id);
        assert(s.take(i).drop_first() =~= s.drop_first().take(i - 1));
        lemma_find_view_prefix(s.drop_first(), id, i - 1);
        assert(s.drop_first()[i - 1] == s[i]);
    }
}

impl ClientViews {
    /// No views yet.
    pub fn new() -> (r: ClientViews)
        ensures
            r@ == Seq::<(Id, InterpolatedPosition)>::empty(),
            views_wf(r@),
    {
        ClientViews { entries: Vec::new() }
    }

    /// The rendered pose of one entity, if it is known.
    pub fn get(&self, id: Id) -> (r: Option<Position>)
        requires
            views_wf(self@),
        ensures
            (match find_view_s(self@, id) {
                Some(i) => r matches Some(p) && p@.pos.x == crate::interpolation::eval_s(
                    self@[i].1.pos_x,
                ) && p@.pos.y == crate::interpolation::eval_s(self@[i].1.pos_y),
                None => r is None,
            }),
    {
        match find_view(&self.entries, id) {
            Some(i) => {
                proof {
                    assert(interp_pos_wf(self@[i as int].1));
                }
                Some(self.entries[i].1.get())
            },
            None => None,
        }
    }

    /// Advance every view by one render frame.
    pub fn advance(&mut self, delta_time: i64)
        requires
            views_wf(old(self)@),
            -1_000_000 <= delta_time <= 1_000_000,
        ensures
            views_wf(final(self)@),
            final(self)@.len() == old(self)@.len(),
            forall|i: int|
                0 <= i < final(self)@.len() ==> (#[trigger] final(self)@[i]).0 == old(self)@[i].0
                    && final(self)@[i].1 == crate::interpolation::advanced_s(
                    old(self)@[i].1,
                    delta_time as int,
                ),
    {
        let mut i: usize = 0;
        while i < self.entries.len()
            invariant
                0 <= i <= self.entries@.len(),
                self.entries@.len() == old(self)@.len(),
                -1_000_000 <= delta_time <= 1_000_000,
                views_wf(old(self)@),
                forall|j: int|
                    i <= j < self.entries@.len() ==> #[trigger] self.entries@[j] == old(self)@[j],
                forall|j: int|
                    0 <= j < i ==> (#[trigger] self.entries@[j]).0 == old(self)@[j].0
                        && self.entries@[j].1 == crate::interpolation::advanced_s(
                        old(self)@[j].1,
                        delta_time as int,
                    ) && interp_pos_wf(self.entries@[j].1),
            decreases self.entries@.len() - i,
        {
            proof {
                assert(interp_pos_wf(old(self)@[i as int].1));
            }
            self.entries[i].1.update(delta_time);
            i = i + 1;
        }
    }

    /// Reconcile the views with a fresh authoritative snapshot: every
    /// player and creature of the snapshot keeps (or gets) a view fed with
    /// its new sample, and views of departed entities are dropped.
    pub fn reconcile(&mut self, players: &Vec<Player>, fishes: &Vec<Fish>)
        requires
            views_wf(old(self)@),
            forall|i: int| 0 <= i < players@.len() ==> position_wf((#[trigger] players@[i]).pos@),
            forall|i: int| 0 <= i < fishes@.len() ==> position_wf((#[trigger] fishes@[i]).pos@),
        ensures
            views_wf(final(self)@),
            final(self)@ == reconcile_fishes_s(
                old(self)@,
                reconcile_players_s(old(self)@, players@, players@.len() as int),
                fishes@,
                fishes@.len() as int,
            ),
    {
        let ghost s0 = self.entries@;
        let mut fresh: Vec<(Id, InterpolatedPosition)> = Vec::new();
        let mut i: usize = 0;
        proof {
            assert(fresh@ =~= reconcile_players_s(s0, players@, 0));
        }
        while i < players.len()
            invariant
                0 <= i <= players@.len(),
                self.entries@ == s0,
                views_wf(s0),
                forall|j: int|
                    0 <= j < players@.len() ==> position_wf((#[trigger] players@[j]).pos@),
                fresh@ == reconcile_players_s(s0, players@, i as int),
                views_wf(fresh@),
            decreases players@.len() - i,
        {
            proof {
                assert(position_wf(players@[i as int].pos@));
            }
            let id = players[i].id;
            let view = self.updated_view(id, &players[i].pos);
            fresh.push((id, view));
            i = i + 1;
        }
        let mut k: usize = 0;
        while k < fishes.len()
            invariant
                0 <= k <= fishes@.len(),
                self.entries@ == s0,
                views_wf(s0),
                forall|j: int| 0 <= j < fishes@.len() ==> position_wf((#[trigger] fishes@[j]).pos@),
                fresh@ == reconcile_fishes_s(
                    s0,
                    reconcile_players_s(s0, players@, players@.len() as int),
                    fishes@,
                    k as int,
                ),
                views_wf(fresh@),
            decreases fishes@.len() - k,
        {
            proof {
                assert(position_wf(fishes@[k as int].pos@));
            }
            let id = fishes[k].id;
            let view = self.updated_view(id, &fishes[k].pos);
            fresh.push((id, view));
            k = k + 1;
        }
        self.entries = fresh;
    }

    /// One entity's view after this snapshot.
    fn updated_view(&self, id: Id, pos: &Position) -> (r: InterpolatedPosition)
        requires
            views_wf(self@),
            position_wf(pos@),
        ensures
            r == reconciled_view_s(self@, id, *pos),
            interp_pos_wf(r),
    {
        match find_view(&self.entries, id) {
            Some(i) => {
                proof {
                    assert(interp_pos_wf(self@[i as int].1));
                }
                let mut v = self.entries[i].1;
                v.server_update(pos);
                v
            },
            None => InterpolatedPosition::new(pos),
        }
    }
}


/// A catch in flight toward its catcher: shown for one second, then (for
/// the local player) banked into the inventory.
#[derive(Clone, Copy, PartialEq, Eq, Structural, Debug)]
pub struct CaughtFish {
    pub id: Id,
    pub index: crate::model::FishType,
    pub player: Id,
    pub lifetime: i64,
    pub caught_at: crate::vec2::Vec2Fx,
}

/// The species banked from the first `k` catches after `dt` more
/// milliseconds: those of the local player whose flight just completed.
pub open spec fn banked_fold_s(caught: Seq<CaughtFish>, my_id: Id, dt: int, k: int) -> Seq<
    crate::model::FishType,
>
    decreases k,
{
    if k <= 0 {
        Seq::empty()
    } else {
        let rest = banked_fold_s(caught, my_id, dt, k - 1);
        let c = caught[k - 1];
        if c.lifetime + dt >= 1000 && c.player == my_id {
            rest.push(c.index)
        } else {
            rest
        }
    }
}

/// The catches still in flight after `dt` more milliseconds, aged.
pub open spec fn flying_fold_s(caught: Seq<CaughtFish>, dt: int, k: int) -> Seq<CaughtFish>
    decreases k,
{
    if k <= 0 {
        Seq::empty()
    } else {
        let rest = flying_fold_s(caught, dt, k - 1);
        let c = caught[k - 1];
        if c.lifetime + dt < 1000 {
            rest.push(CaughtFish { lifetime: (c.lifetime + dt) as i64, ..c })
        } else {
            rest
        }
    }
}

/// Age every catch in flight by one frame: completed flights of the local
/// player land in the inventory, completed flights of others just vanish.
pub fn advance_caught(
    caught: &mut Vec<CaughtFish>,
    my_id: Id,
    delta_time: i64,
    inventory: &mut Vec<crate::model::FishType>,
)
    requires
        0 <= delta_time <= 1_000_000,
        forall|i: int| 0 <= i < old(caught)@.len() ==> 0 <= (#[trigger] old(caught)@[i]).lifetime
            <= 1000,
    ensures
        final(caught)@ == flying_fold_s(old(caught)@, delta_time as int, old(caught)@.len() as int),
        final(inventory)@ == old(inventory)@ + banked_fold_s(
            old(caught)@,
            my_id,
            delta_time as int,
            old(caught)@.len() as int,
        ),
        forall|i: int| 0 <= i < final(caught)@.len() ==> 0 <= (#[trigger] final(caught)@[i]).lifetime
            <= 1000,
{
    let mut kept: Vec<CaughtFish> = Vec::new();
    let mut i: usize = 0;
    proof {
        assert(kept@ =~= flying_fold_s(old(caught)@, delta_time as int, 0));
        assert(inventory@ =~= old(inventory)@ + banked_fold_s(old(caught)@, my_id, delta_time as int, 0));
    }
    while i < caught.len()
        invariant
            0 <= i <= caught@.len(),
            caught@ == old(caught)@,
            0 <= delta_time <= 1_000_000,
            forall|j: int| 0 <= j < caught@.len() ==> 0 <= (#[trigger] caught@[j]).lifetime <= 1000,
            kept@ == flying_fold_s(old(caught)@, delta_time as int, i as int),
            inventory@ == old(inventory)@ + banked_fold_s(
                old(caught)@,
                my_id,
                delta_time as int,
                i as int,
            ),
            forall|j: int| 0 <= j < kept@.len() ==> 0 <= (#[trigger] kept@[j]).lifetime <= 1000,
        decreases caught@.len() - i,
    {
        let c = caught[i];
        let aged = c.lifetime + delta_time;
        if aged >= 1000 {
            if c.player.0 == my_id.0 {
                inventory.push(c.index);
            }
        } else {
            kept.push(CaughtFish { lifetime: aged, ..c });
        }
        i = i + 1;
    }
    *caught = kept;
}

/// When the inventory has grown past its cap, the oldest catch is let go:
/// the caller returns it to the world as a new creature.
pub fn overflow_release(
    inventory: &mut Vec<crate::model::FishType>,
    cap: usize,
) -> (r: Option<crate::model::FishType>)
    ensures
        old(inventory)@.len() > cap ==> r == Some(old(inventory)@[0]) && final(inventory)@ == old(
            inventory,
        )@.drop_first(),
        old(inventory)@.len() <= cap ==> r is None && final(inventory)@ == old(inventory)@,
{
    if inventory.len() > cap {
        let first = inventory.remove(0);
        proof {
            assert(inventory@ =~= old(inventory)@.drop_first());
        }
        Some(first)
    } else {
        None
    }
}


/// The client's reaction to a reel announcement: when it names the local
/// player while their lure waits, the wait becomes a bite at the same
/// lure point; any other event leaves the state alone.
pub open spec fn apply_reel_s(
    state: crate::fishing::FishingState,
    my_id: Id,
    player: Id,
    fish: Id,
) -> crate::fishing::FishingState {
    match state {
        crate::fishing::FishingState::Waiting(b) => if player == my_id {
            crate::fishing::FishingState::PreReeling { fish, bobber_pos: b }
        } else {
            state
        },
        _ => state,
    }
}

/// React to a reel announcement from the server.
pub fn apply_reel_event(
    state: crate::fishing::FishingState,
    my_id: Id,
    player: Id,
    fish: Id,
) -> (r: crate::fishing::FishingState)
    ensures
        r == apply_reel_s(state, my_id, player, fish),
{
    match state {
        crate::fishing::FishingState::Waiting(b) => {
            if player.0 == my_id.0 {
                crate::fishing::FishingState::PreReeling { fish, bobber_pos: b }
            } else {
                state
            }
        },
        _ => state,
    }
}

/// One step of the ping cadence: the elapsed time accumulates (capped),
/// and once a tick has passed since the last exchange — and the previous
/// answer arrived — a ping goes out and the clock and flag reset.
pub open spec fn ping_step_s(elapsed: int, dt: int, answered: bool) -> (int, bool, bool) {
    let t2 = if elapsed + dt > 1_000_000 {
        1_000_000int
    } else {
        elapsed + dt
    };
    if t2 > crate::TICK_MS as int && answered {
        (0, false, true)
    } else {
        (t2, answered, false)
    }
}

/// Advance the ping cadence by one render frame: the result is the new
/// elapsed time, the new awaiting-answer flag, and whether to send a ping
/// now.
pub fn ping_step(elapsed: i64, delta_time: i64, answered: bool) -> (r: (i64, bool, bool))
    requires
        0 <= elapsed <= 1_000_000,
        0 <= delta_time <= 1_000_000,
    ensures
        (r.0 as int, r.1, r.2) == ping_step_s(elapsed as int, delta_time as int, answered),
        0 <= r.0 <= 1_000_000,
{
    let t2 = if elapsed + delta_time > 1_000_000 {
        1_000_000
    } else {
        elapsed + delta_time
    };
    if t2 > crate::TICK_MS && answered {
        (0, false, true)
    } else {
        (t2, answered, false)
    }
}

} // verus!
