//! Taking the damage that was dealt, and removing who died of it.

use crate::components::{CombatStats, Components, Entity, SufferDamage};
use crate::world::{components_fit, World};
use vstd::prelude::*;

verus! {

/// The sum of the amounts.
pub open spec fn total_damage(amounts: Seq<i64>) -> int
    decreases amounts.len(),
{
    if amounts.len() == 0 {
        0
    } else {
        total_damage(amounts.drop_last()) + amounts.last()
    }
}

/// Health after losing `total`, kept within what the health field can hold.
pub open spec fn health_after(curr_hp: int, total: int) -> int {
    if curr_hp - total < i32::MIN {
        i32::MIN as int
    } else if curr_hp - total > i32::MAX {
        i32::MAX as int
    } else {
        curr_hp - total
    }
}

impl Components {
    /// The damage waiting to be taken, oldest blow first; empty when the
    /// entity carries no damage record.
    pub open spec fn pending_damage(&self) -> Seq<i64> {
        match self.suffer_damage {
            Some(record) => record.amount@,
            None => Seq::empty(),
        }
    }

    /// The components after the pending damage was taken: health falls by
    /// its sum if the entity has combat stats, and the damage record is
    /// gone.
    pub open spec fn after_damage(&self) -> Components {
        Components {
            combat_stats: match self.combat_stats {
                Some(stats) => if self.suffer_damage is Some {
                    Some(
                        CombatStats {
                            curr_hp: health_after(
                                stats.curr_hp as int,
                                total_damage(self.pending_damage()),
                            ) as i32,
                            ..stats
                        },
                    )
                } else {
                    Some(stats)
                },
                None => None,
            },
            suffer_damage: None,
            ..*self
        }
    }

    /// The entity has fallen: it has combat stats and no health left.
    pub open spec fn is_fallen(&self) -> bool {
        self.combat_stats matches Some(stats) && stats.curr_hp <= 0
    }

    /// The death sweep removes the entity: it has fallen and is not the
    /// player.
    pub open spec fn is_swept(&self) -> bool {
        self.is_fallen() && self.player is None
    }
}

impl SufferDamage {
    /// Records `amount` as one more blow against `victim`, after the
    /// blows already recorded against it. All else stays as it is.
    pub fn new_damage(world: &mut World, victim: Entity, amount: i64)
        requires
            old(world).wf(),
            old(world).alive(victim),
        ensures
            final(world).wf(),
            final(world).entities@.len() == old(world).entities@.len(),
            forall|j: int|
                0 <= j < old(world).entities@.len() && j != victim.id ==> final(world).entities@[j]
                    == old(world).entities@[j],
            final(world).alive(victim),
            final(world).at(victim.id as int).suffer_damage is Some,
            final(world).at(victim.id as int).pending_damage() == old(world).at(
                victim.id as int,
            ).pending_damage().push(amount),
            final(world).at(victim.id as int) == (Components {
                suffer_damage: final(world).at(victim.id as int).suffer_damage,
                ..old(world).at(victim.id as int)
            }),
            final(world).map == old(world).map,
            final(world).runstate == old(world).runstate,
            final(world).player_entity == old(world).player_entity,
            final(world).player_pos == old(world).player_pos,
            final(world).gamelog == old(world).gamelog,
    {
        match &mut world.entities[victim.id] {
            Some(c) => {
                if c.suffer_damage.is_none() {
                    let mut amounts: Vec<i64> = Vec::new();
                    amounts.push(amount);
                    c.suffer_damage = Some(SufferDamage { amount: amounts });
                } else {
                    match &mut c.suffer_damage {
                        Some(record) => {
                            record.amount.push(amount);
                        },
                        None => {},
                    }
                }
            },
            None => {},
        }
        proof {
            assert forall|i: int| #[trigger] world.alive_at(i) implies components_fit(
                &world.map,
                &world.at(i),
            ) by {
                assert(old(world).alive_at(i));
            }
        }
    }
}

fn sum_damage(amounts: &Vec<i64>) -> (sum: i128)
    ensures
        sum == total_damage(amounts@),
        -0x7fff_ffff_ffff_ffff_8000_0000_0000_0000 <= sum <= 0x7fff_ffff_ffff_ffff_8000_0000_0000_0000,
{
    let mut sum: i128 = 0;
    let mut k: usize = 0;
    while k < amounts.len()
        invariant
            k <= amounts.len(),
            sum == total_damage(amounts@.take(k as int)),
            -(k as int) * 0x8000_0000_0000_0000 <= sum <= (k as int) * 0x8000_0000_0000_0000,
        decreases amounts.len() - k,
    {
        assert(amounts@.take(k + 1).drop_last() =~= amounts@.take(k as int));
        assert((k as int) * 0x8000_0000_0000_0000 + 0x8000_0000_0000_0000 <= 0xffff_ffff_ffff_ffff
            * 0x8000_0000_0000_0000) by (nonlinear_arith)
            requires
                k < 0xffff_ffff_ffff_ffff,
        ;
        assert((k + 1) * 0x8000_0000_0000_0000 == (k as int) * 0x8000_0000_0000_0000
            + 0x8000_0000_0000_0000) by (nonlinear_arith);
        sum = sum + amounts[k] as i128;
        k += 1;
    }
    assert(amounts@.take(k as int) =~= amounts@);
    assert((k as int) * 0x8000_0000_0000_0000 <= 0x7fff_ffff_ffff_ffff_8000_0000_0000_0000)
        by (nonlinear_arith)
        requires
            k <= 0xffff_ffff_ffff_ffff,
    ;
    sum
}

fn lower_health(curr_hp: i32, total: i128) -> (hp: i32)
    requires
        -0x7fff_ffff_ffff_ffff_8000_0000_0000_0000 <= total <= 0x7fff_ffff_ffff_ffff_8000_0000_0000_0000,
    ensures
        hp == health_after(curr_hp as int, total as int),
{
    let rest: i128 = curr_hp as i128 - total;
    if rest < i32::MIN as i128 {
        i32::MIN
    } else if rest > i32::MAX as i128 {
        i32::MAX
    } else {
        rest as i32
    }
}

/// Applies the damage that the combat of this turn dealt.
pub struct DamageSystem {}

impl DamageSystem {
    /// `after` is `before` once every entity has taken its pending
    /// damage; nothing else has changed.
    pub open spec fn ran(before: &World, after: &World) -> bool {
        &&& after.entities@.len() == before.entities@.len()
        &&& forall|i: int|
            0 <= i < before.entities@.len() ==> #[trigger] after.entities@[i] == (
            match before.entities@[i] {
                Some(c) => Some(c.after_damage()),
                None => None,
            })
        &&& after.map == before.map
        &&& after.runstate == before.runstate
        &&& after.player_entity == before.player_entity
        &&& after.player_pos == before.player_pos
        &&& after.gamelog == before.gamelog
    }

    /// Every entity takes its pending damage: an entity with combat stats
    /// and a damage record loses the sum of the recorded amounts, and
    /// every damage record is removed.
    pub fn run(&mut self, world: &mut World)
        requires
            old(world).wf(),
        ensures
            final(world).wf(),
            Self::ran(old(world), final(world)),
    {
        let n: usize = world.entities.len();
        let mut i: usize = 0;
        while i < n
            invariant
                i <= n,
                n == old(world).entities@.len(),
                world.entities@.len() == n,
                forall|j: int|
                    0 <= j < i ==> #[trigger] world.entities@[j] == (match old(world).entities@[j] {
                        Some(c) => Some(c.after_damage()),
                        None => None,
                    }),
                forall|j: int| i <= j < n ==> #[trigger] world.entities@[j] == old(world).entities@[j],
                world.map == old(world).map,
                world.runstate == old(world).runstate,
                world.player_entity == old(world).player_entity,
                world.player_pos == old(world).player_pos,
                world.gamelog == old(world).gamelog,
            decreases n - i,
        {
            match &mut world.entities[i] {
                Some(c) => {
                    let mut total: Option<i128> = None;
                    match &c.suffer_damage {
                        Some(record) => {
                            total = Some(sum_damage(&record.amount));
                        },
                        None => {},
                    }
                    match total {
                        Some(total) => {
                            match &mut c.combat_stats {
                                Some(stats) => {
                                    stats.curr_hp = lower_health(stats.curr_hp, total);
                                },
                                None => {},
                            }
                        },
                        None => {},
                    }
                    c.suffer_damage = None;
                },
                None => {},
            }
            i += 1;
        }
        proof {
            assert forall|k: int| #[trigger] world.alive_at(k) implies components_fit(
                &world.map,
                &world.at(k),
            ) by {
                assert(old(world).alive_at(k));
            }
        }
    }
}

/// `after` is `before` once the death sweep has run: every entity that
/// had fallen is gone, except the player; nothing else has changed.
pub open spec fn swept(before: &World, after: &World) -> bool {
    &&& after.entities@.len() == before.entities@.len()
    &&& forall|i: int|
        0 <= i < before.entities@.len() ==> #[trigger] after.entities@[i] == (if before.alive_at(i)
            && before.at(i).is_swept() {
            None
        } else {
            before.entities@[i]
        })
    &&& after.map == before.map
    &&& after.runstate == before.runstate
    &&& after.player_entity == before.player_entity
    &&& after.player_pos == before.player_pos
    &&& after.gamelog == before.gamelog
}

/// The death sweep: removes every entity that has combat stats with no
/// health left, except the player, and leaves every other entity as it is.
pub fn delete_the_dead(world: &mut World)
    requires
        old(world).wf(),
    ensures
        final(world).wf(),
        swept(old(world), final(world)),
{
    let n: usize = world.entities.len();
    let mut i: usize = 0;
    while i < n
        invariant
            i <= n,
            n == old(world).entities@.len(),
            world.entities@.len() == n,
            forall|j: int|
                0 <= j < i ==> #[trigger] world.entities@[j] == (if old(world).alive_at(j) && old(
                    world,
                ).at(j).is_swept() {
                    None
                } else {
                    old(world).entities@[j]
                }),
            forall|j: int| i <= j < n ==> #[trigger] world.entities@[j] == old(world).entities@[j],
            world.map == old(world).map,
            world.runstate == old(world).runstate,
            world.player_entity == old(world).player_entity,
            world.player_pos == old(world).player_pos,
            world.gamelog == old(world).gamelog,
        decreases n - i,
    {
        let mut dead = false;
        match &world.entities[i] {
            Some(c) => {
                match &c.combat_stats {
                    Some(stats) => {
                        if stats.curr_hp < 1 && c.player.is_none() {
                            dead = true;
                        }
                    },
                    None => {},
                }
            },
            None => {},
        }
        if dead {
            world.entities[i] = None;
        }
        i += 1;
    }
}

/// The death sweep removes exactly the fallen that are not the player:
/// after it, an entity lives if and only if it lived before and either
/// had health left, or no combat stats, or is the player; and every
/// entity that still lives is as it was.
pub proof fn lemma_sweep_spares_the_player(before: World, after: World)
    requires
        swept(&before, &after),
    ensures
        forall|i: int|
            after.alive_at(i) <==> before.alive_at(i) && (!before.at(i).is_fallen() || before.at(
                i,
            ).player is Some),
        forall|i: int| #[trigger] after.alive_at(i) ==> after.at(i) == before.at(i),
{
}

/// An entity whose health the damage of a turn brings to zero or below is
/// gone after the sweep that follows, unless it is the player, who stays:
/// `damaged` is `before` once the damage was taken, and `after` is
/// `damaged` once the dead were swept away.
pub proof fn lemma_damage_then_sweep(before: World, damaged: World, after: World, i: int)
    requires
        before.alive_at(i),
        before.at(i).combat_stats is Some,
        DamageSystem::ran(&before, &damaged),
        swept(&damaged, &after),
    ensures
        before.at(i).player is Some ==> after.alive_at(i),
        before.at(i).player is None ==> (after.alive_at(i) <==> before.at(
            i,
        ).after_damage().combat_stats->0.curr_hp > 0),
        before.at(i).suffer_damage is Some ==> before.at(i).after_damage().combat_stats->0.curr_hp
            == health_after(
            before.at(i).combat_stats->0.curr_hp as int,
            total_damage(before.at(i).pending_damage()),
        ),
        before.at(i).suffer_damage is None ==> before.at(i).after_damage().combat_stats->0.curr_hp
            == before.at(i).combat_stats->0.curr_hp,
{
}

} // verus!
