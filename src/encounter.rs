use vstd::prelude::*;

use crate::model::{
    entity_named, has_name, names_distinct, DamageStats, Encounter, EncounterDamageStats, Entity,
    EntityType, SkillStats,
};

verus! {

/// Relies on chrono's `Utc::now` and `DateTime::timestamp_millis`: the
/// current time in milliseconds; nothing is promised of its value.
#[verifier::external_body]
pub(crate) fn now_millis() -> (r: i64) {
    chrono::Utc::now().timestamp_millis()
}

/// `e` carries over who `o` is (name, id, class, type, gear score, hit
/// points and death) and nothing of what it did.
pub open spec fn keeps_identity(e: Entity, o: Entity) -> bool {
    &&& e.name@ == o.name@
    &&& e.id@ == o.id@
    &&& e.npc_id == o.npc_id
    &&& e.class@ == o.class@
    &&& e.class_id == o.class_id
    &&& e.entity_type == o.entity_type
    &&& e.gear_score == o.gear_score
    &&& e.max_hp == o.max_hp
    &&& e.current_hp == o.current_hp
    &&& e.is_dead == o.is_dead
    &&& e.is_blank()
}

/// The statistics of `e` start over while what does not belong to one
/// fight stays as in `o`.
pub open spec fn restarted(e: Encounter, o: Encounter) -> bool {
    &&& e.fight_start == 0
    &&& e.encounter_damage_stats.is_zero()
    &&& !e.reset
    &&& e.local_player@ == o.local_player@
    &&& e.last_combat_packet == o.last_combat_packet
    &&& e.duration == o.duration
    &&& e.wf()
}

/// `e` is `o` after a reset: only a fresh record of the local player, if
/// `o` knew one, stays.
pub open spec fn is_reset_of(e: Encounter, o: Encounter) -> bool {
    &&& restarted(e, o)
    &&& e.current_boss_name@.len() == 0
    &&& if o.local_player@.len() > 0 && has_name(o.entities@, o.local_player@) {
        let p = entity_named(o.entities@, o.local_player@);
        &&& e.entities@.len() == 1
        &&& e.entities@[0].name@ == p.name@
        &&& e.entities@[0].id@ == p.id@
        &&& e.entities@[0].class@ == p.class@
        &&& e.entities@[0].class_id == p.class_id
        &&& e.entities@[0].gear_score == p.gear_score
        &&& e.entities@[0].entity_type == EntityType::PLAYER
        &&& e.entities@[0].npc_id == 0
        &&& e.entities@[0].current_hp == 0
        &&& e.entities@[0].max_hp == 0
        &&& !e.entities@[0].is_dead
        &&& e.entities@[0].is_blank()
    } else {
        e.entities@.len() == 0
    }
}

/// `e` is `o` after a soft reset: every entity stays with its identity and
/// without its statistics, and the tracked boss stays.
pub open spec fn is_soft_reset_of(e: Encounter, o: Encounter) -> bool {
    &&& restarted(e, o)
    &&& e.current_boss_name@ == o.current_boss_name@
    &&& e.entities@.len() == o.entities@.len()
    &&& forall|i: int| 0 <= i < e.entities@.len() ==> keeps_identity(#[trigger] e.entities@[i], o.entities@[i])
}

fn restarted_copy(o: &Encounter, entities: Vec<Entity>, boss: String) -> (r: Encounter)
    requires
        names_distinct(entities@),
        boss@.len() > 0 ==> has_name(entities@, boss@),
    ensures
        restarted(r, *o),
        r.entities == entities,
        r.current_boss_name == boss,
{
    Encounter {
        last_combat_packet: o.last_combat_packet,
        fight_start: 0,
        local_player: o.local_player.clone(),
        entities,
        current_boss_name: boss,
        encounter_damage_stats: EncounterDamageStats::zero(),
        duration: o.duration,
        reset: false,
    }
}

/// The encounter that a reset of `o` leaves.
pub fn reset_of(o: &Encounter) -> (r: Encounter)
    requires
        o.wf(),
    ensures
        is_reset_of(r, *o),
{
    let mut entities: Vec<Entity> = Vec::new();
    if !o.local_player.as_str().is_empty() {
        match crate::model::find_entity(&o.entities, &o.local_player) {
            Some(i) => {
                proof {
                    crate::model::lemma_index_of(o.entities@, i as int);
                }
                let p = &o.entities[i];
                let mut fresh = Entity::new(p.id.clone(), p.name.clone());
                fresh.class = p.class.clone();
                fresh.class_id = p.class_id;
                fresh.entity_type = EntityType::PLAYER;
                fresh.gear_score = p.gear_score;
                fresh.last_update = now_millis();
                entities.push(fresh);
            },
            None => {},
        }
    }
    restarted_copy(o, entities, String::new())
}

fn identity_of(o: &Entity) -> (r: Entity)
    ensures
        keeps_identity(r, *o),
{
    Entity {
        last_update: now_millis(),
        id: o.id.clone(),
        npc_id: o.npc_id,
        name: o.name.clone(),
        entity_type: o.entity_type,
        class_id: o.class_id,
        class: o.class.clone(),
        gear_score: o.gear_score,
        current_hp: o.current_hp,
        max_hp: o.max_hp,
        is_dead: o.is_dead,
        skills: Vec::new(),
        damage_stats: DamageStats::zero(),
        skill_stats: SkillStats::zero(),
    }
}

/// The encounter that a soft reset of `o` leaves.
pub fn soft_reset_of(o: &Encounter) -> (r: Encounter)
    requires
        o.wf(),
    ensures
        is_soft_reset_of(r, *o),
{
    let mut entities: Vec<Entity> = Vec::new();
    for i in 0..o.entities.len()
        invariant
            o.wf(),
            entities@.len() == i,
            forall|k: int| 0 <= k < i ==> keeps_identity(#[trigger] entities@[k], o.entities@[k]),
    {
        let e = identity_of(&o.entities[i]);
        entities.push(e);
    }
    assert(names_distinct(entities@)) by {
        assert forall|a: int, b: int|
            0 <= a < entities@.len() && 0 <= b < entities@.len() && a != b implies
            #[trigger] entities@[a].name@ != #[trigger] entities@[b].name@ by {
            assert(keeps_identity(entities@[a], o.entities@[a]));
            assert(keeps_identity(entities@[b], o.entities@[b]));
        }
    }
    let boss = o.current_boss_name.clone();
    proof {
        if boss@.len() > 0 {
            let i = choose|i: int| 0 <= i < o.entities@.len() && #[trigger] o.entities@[i].name@ == boss@;
            assert(keeps_identity(entities@[i], o.entities@[i]));
            assert(entities@[i].name@ == boss@);
        }
    }
    restarted_copy(o, entities, boss)
}

/// Starts the encounter over, keeping only the local player.
pub fn reset(encounter: &mut Encounter)
    requires
        old(encounter).wf(),
    ensures
        is_reset_of(*final(encounter), *old(encounter)),
{
    let next = reset_of(encounter);
    *encounter = next;
}

/// Starts the encounter's statistics over, keeping every entity's identity.
pub fn soft_reset(encounter: &mut Encounter)
    requires
        old(encounter).wf(),
    ensures
        is_soft_reset_of(*final(encounter), *old(encounter)),
{
    let next = soft_reset_of(encounter);
    *encounter = next;
}

/// Whether an encounter holds a fight worth keeping.
pub open spec fn worth_keeping(e: Encounter) -> bool {
    e.fight_start != 0 && (e.encounter_damage_stats.total_damage_dealt != 0
        || e.encounter_damage_stats.total_damage_taken != 0)
}

/// Ends the current encounter: keeps it in `encounters` when it holds a
/// fight, then resets it (softly or fully) to begin the next one.
pub fn split_encounter(encounters: &mut Option<Vec<Encounter>>, encounter: &mut Encounter, is_soft_reset: bool)
    requires
        old(encounter).wf(),
    ensures
        (*final(encounters)) is Some <==> (*old(encounters)) is Some,
        (*old(encounters)) is Some ==> (*final(encounters))->0@ == if worth_keeping(*old(encounter)) {
            (*old(encounters))->0@.push(*old(encounter))
        } else {
            (*old(encounters))->0@
        },
        is_soft_reset ==> is_soft_reset_of(*final(encounter), *old(encounter)),
        !is_soft_reset ==> is_reset_of(*final(encounter), *old(encounter)),
{
    let mut next = if is_soft_reset {
        soft_reset_of(encounter)
    } else {
        reset_of(encounter)
    };
    let keep = encounter.fight_start != 0 && (encounter.encounter_damage_stats.total_damage_dealt != 0
        || encounter.encounter_damage_stats.total_damage_taken != 0);
    std::mem::swap(encounter, &mut next);
    if keep {
        match encounters {
            Some(list) => list.push(next),
            None => {},
        }
    }
}

} // verus!
