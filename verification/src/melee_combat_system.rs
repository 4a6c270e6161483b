//! Melee combat: turning the wish to strike into damage and log entries.

use crate::components::{Components, Entity, SufferDamage};
use crate::text::{hit_message, hit_text, miss_message, miss_text};
use crate::world::{components_fit, World};
use vstd::prelude::*;

verus! {

/// The damage of a blow: the attacker's power less the target's armor,
/// and never below zero.
pub open spec fn melee_damage(power: int, armor: int) -> int {
    if power - armor > 0 {
        power - armor
    } else {
        0
    }
}

/// A blow never does negative damage, and it does none exactly when the
/// attacker's power does not exceed the target's armor.
pub proof fn lemma_melee_damage_floor(power: int, armor: int)
    ensures
        melee_damage(power, armor) >= 0,
        melee_damage(power, armor) >= power - armor,
        melee_damage(power, armor) == 0 || melee_damage(power, armor) == power - armor,
        power <= armor <==> melee_damage(power, armor) == 0,
{
}

/// Computes the damage of a blow.
pub fn blow_damage(power: i32, armor: i32) -> (damage: i64)
    ensures
        damage == melee_damage(power as int, armor as int),
{
    let difference: i64 = power as i64 - armor as i64;
    if difference > 0 {
        difference
    } else {
        0
    }
}

impl World {
    /// The entity at place `i` can take part in a fight: it lives, has a
    /// name, and has combat stats with health left.
    pub open spec fn can_fight(&self, i: int) -> bool {
        &&& self.alive_at(i)
        &&& self.at(i).name is Some
        &&& self.at(i).combat_stats is Some
        &&& self.at(i).combat_stats->0.curr_hp > 0
    }

    /// The place of the entity that the entity at place `i` wants to strike.
    pub open spec fn target_of(&self, i: int) -> int {
        self.at(i).wants_to_melee->0.target.id as int
    }

    /// The entity at place `i` strikes this turn: it can fight, wants to
    /// strike, and its target can fight.
    pub open spec fn strikes(&self, i: int) -> bool {
        &&& self.can_fight(i)
        &&& self.at(i).wants_to_melee is Some
        &&& self.can_fight(self.target_of(i))
    }

    /// The damage of the blow that the entity at place `i` strikes.
    pub open spec fn blow(&self, i: int) -> int {
        melee_damage(
            self.at(i).combat_stats->0.power as int,
            self.at(self.target_of(i)).combat_stats->0.armor as int,
        )
    }

    /// The log entry for the blow that the entity at place `i` strikes.
    pub open spec fn blow_text(&self, i: int) -> Seq<char> {
        if self.blow(i) == 0 {
            miss_text(self.at(i).name->0.name@, self.at(self.target_of(i)).name->0.name@)
        } else {
            hit_text(
                self.at(i).name->0.name@,
                self.at(self.target_of(i)).name->0.name@,
                self.blow(i),
            )
        }
    }

    /// The damage that the blows of the first `n` entities deal to the
    /// entity at place `victim`, in the order of the attackers' handles.
    /// A blow without damage is not among them.
    pub open spec fn blows_on(&self, victim: int, n: int) -> Seq<i64>
        decreases n,
    {
        if n <= 0 {
            Seq::empty()
        } else if self.strikes(n - 1) && self.target_of(n - 1) == victim && self.blow(n - 1) > 0 {
            self.blows_on(victim, n - 1).push(self.blow(n - 1) as i64)
        } else {
            self.blows_on(victim, n - 1)
        }
    }

    /// The log entries for the blows of the first `n` entities, one for
    /// each blow, in the order of the attackers' handles.
    pub open spec fn blow_texts(&self, n: int) -> Seq<Seq<char>>
        decreases n,
    {
        if n <= 0 {
            Seq::empty()
        } else if self.strikes(n - 1) {
            self.blow_texts(n - 1).push(self.blow_text(n - 1))
        } else {
            self.blow_texts(n - 1)
        }
    }
}

/// Where the attacker's power does not exceed the target's armor, the blow
/// is logged as a miss and adds nothing to the target's pending damage.
pub proof fn lemma_weak_blow_misses(world: World, i: int)
    requires
        world.strikes(i),
        world.at(i).combat_stats->0.power <= world.at(world.target_of(i)).combat_stats->0.armor,
    ensures
        world.blow(i) == 0,
        world.blow_text(i) == miss_text(
            world.at(i).name->0.name@,
            world.at(world.target_of(i)).name->0.name@,
        ),
        forall|victim: int| world.blows_on(victim, i + 1) == world.blows_on(victim, i),
{
}

/// Where the attacker's power exceeds the target's armor, the blow is
/// logged as a hit and adds the difference to the target's pending damage.
pub proof fn lemma_strong_blow_hits(world: World, i: int)
    requires
        world.strikes(i),
        world.at(i).combat_stats->0.power > world.at(world.target_of(i)).combat_stats->0.armor,
    ensures
        world.blow(i) == world.at(i).combat_stats->0.power - world.at(
            world.target_of(i),
        ).combat_stats->0.armor,
        world.blow_text(i) == hit_text(
            world.at(i).name->0.name@,
            world.at(world.target_of(i)).name->0.name@,
            world.blow(i),
        ),
        world.blows_on(world.target_of(i), i + 1) == world.blows_on(world.target_of(i), i).push(
            world.blow(i) as i64,
        ),
{
}

/// Resolves the blows of this turn.
pub struct MeleeCombatSystem {}

impl MeleeCombatSystem {
    /// `after` is `before` once the blows of the turn are resolved: no
    /// entity wants to strike any more; each entity's pending damage has
    /// grown by the blows that hit it, and an entity has a damage record
    /// if it had one or was hit; the log has grown by one entry for each
    /// blow; nothing else has changed.
    pub open spec fn ran(before: &World, after: &World) -> bool {
        &&& after.entities@.len() == before.entities@.len()
        &&& forall|i: int| after.alive_at(i) == before.alive_at(i)
        &&& forall|i: int| #[trigger]
            before.alive_at(i) ==> after.at(i) == (Components {
                wants_to_melee: None,
                suffer_damage: after.at(i).suffer_damage,
                ..before.at(i)
            })
        &&& forall|i: int| #[trigger]
            before.alive_at(i) ==> after.at(i).pending_damage() == before.at(i).pending_damage()
                + before.blows_on(i, before.capacity())
        &&& forall|i: int| #[trigger]
            before.alive_at(i) ==> (after.at(i).suffer_damage is Some <==> before.at(
                i,
            ).suffer_damage is Some || before.blows_on(i, before.capacity()).len() > 0)
        &&& after.gamelog.texts() == before.gamelog.texts() + before.blow_texts(before.capacity())
        &&& after.map == before.map
        &&& after.runstate == before.runstate
        &&& after.player_entity == before.player_entity
        &&& after.player_pos == before.player_pos
    }

    /// Every entity that strikes deals its blow, in the order of the
    /// handles: a blow with damage is added to the target's pending damage
    /// and logged as a hit, a blow without damage is logged as a miss.
    /// Power, armor and health are read as they were before the first
    /// blow. Afterwards no entity wants to strike any more.
    pub fn run(&mut self, world: &mut World)
        requires
            old(world).wf(),
        ensures
            final(world).wf(),
            Self::ran(old(world), final(world)),
    {
        let n: usize = world.entities.len();
        let mut i: usize = 0;
        while i < n
            invariant
                i <= n,
                n == old(world).entities@.len(),
                world.entities@.len() == n,
                world.wf(),
                forall|j: int| world.alive_at(j) == old(world).alive_at(j),
                forall|j: int| #[trigger]
                    old(world).alive_at(j) ==> world.at(j) == (Components {
                        suffer_damage: world.at(j).suffer_damage,
                        ..old(world).at(j)
                    }),
                forall|j: int| #[trigger]
                    old(world).alive_at(j) ==> world.at(j).pending_damage() == old(world).at(
                        j,
                    ).pending_damage() + old(world).blows_on(j, i as int),
                forall|j: int| #[trigger]
                    old(world).alive_at(j) ==> (world.at(j).suffer_damage is Some <==> old(
                        world,
                    ).at(j).suffer_damage is Some || old(world).blows_on(j, i as int).len() > 0),
                world.gamelog.texts() == old(world).gamelog.texts() + old(world).blow_texts(
                    i as int,
                ),
                world.map == old(world).map,
                world.runstate == old(world).runstate,
                world.player_entity == old(world).player_entity,
                world.player_pos == old(world).player_pos,
            decreases n - i,
        {
            let ghost before = *world;
            let mut outcome: Option<(usize, i64, String)> = None;
            match &world.entities[i] {
                Some(c) => {
                    match (&c.wants_to_melee, &c.name, &c.combat_stats) {
                        (Some(intent), Some(name), Some(stats)) => {
                            let t: usize = intent.target.id;
                            if stats.curr_hp > 0 && t < world.entities.len() {
                                match &world.entities[t] {
                                    Some(tc) => {
                                        assert(old(world).alive_at(t as int));
                                        match (&tc.name, &tc.combat_stats) {
                                            (Some(target_name), Some(target_stats)) => {
                                                if target_stats.curr_hp > 0 {
                                                    let damage = blow_damage(
                                                        stats.power,
                                                        target_stats.armor,
                                                    );
                                                    let message = if damage == 0 {
                                                        miss_message(
                                                            name.name.as_str(),
                                                            target_name.name.as_str(),
                                                        )
                                                    } else {
                                                        hit_message(
                                                            name.name.as_str(),
                                                            target_name.name.as_str(),
                                                            damage,
                                                        )
                                                    };
                                                    outcome = Some((t, damage, message));
                                                }
                                            },
                                            _ => {},
                                        }
                                    },
                                    None => {},
                                }
                            }
                        },
                        _ => {},
                    }
                },
                None => {},
            }
            match outcome {
                Some((t, damage, message)) => {
                    world.gamelog.push(message);
                    proof {
                        world.lemma_wf_carries_over(&before);
                    }
                    if damage > 0 {
                        SufferDamage::new_damage(world, Entity { id: t }, damage);
                    }
                },
                None => {},
            }
            proof {
                assert forall|j: int| #[trigger] old(world).alive_at(j) implies world.at(
                    j,
                ).pending_damage() == old(world).at(j).pending_damage() + old(world).blows_on(
                    j,
                    i + 1,
                ) by {}
            }
            i += 1;
        }
        let mut k: usize = 0;
        while k < n
            invariant
                k <= n,
                n == old(world).entities@.len(),
                world.entities@.len() == n,
                forall|j: int| world.alive_at(j) == old(world).alive_at(j),
                forall|j: int|
                    0 <= j < k && #[trigger] old(world).alive_at(j) ==> world.at(j) == (Components {
                        wants_to_melee: None,
                        suffer_damage: world.at(j).suffer_damage,
                        ..old(world).at(j)
                    }),
                forall|j: int|
                    k <= j && #[trigger] old(world).alive_at(j) ==> world.at(j) == (Components {
                        suffer_damage: world.at(j).suffer_damage,
                        ..old(world).at(j)
                    }),
                forall|j: int| #[trigger]
                    old(world).alive_at(j) ==> world.at(j).pending_damage() == old(world).at(
                        j,
                    ).pending_damage() + old(world).blows_on(j, n as int),
                forall|j: int| #[trigger]
                    old(world).alive_at(j) ==> (world.at(j).suffer_damage is Some <==> old(
                        world,
                    ).at(j).suffer_damage is Some || old(world).blows_on(j, n as int).len() > 0),
                world.gamelog.texts() == old(world).gamelog.texts() + old(world).blow_texts(
                    n as int,
                ),
                world.map == old(world).map,
                world.runstate == old(world).runstate,
                world.player_entity == old(world).player_entity,
                world.player_pos == old(world).player_pos,
            decreases n - k,
        {
            match &mut world.entities[k] {
                Some(c) => {
                    c.wants_to_melee = None;
                },
                None => {},
            }
            k += 1;
        }
    }
}

} // verus!
