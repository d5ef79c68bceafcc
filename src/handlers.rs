use vstd::prelude::*;

use crate::model::{
    entity_named, find_entity, has_name, index_of, kept, lemma_index_of, lemma_kept,
    lemma_push_new_name, lemma_take_put, lemma_update_same_name, names_distinct, put_entity,
    retain_marked, take_entity, Encounter, Entity, EntityType,
};
use crate::reference::{get_skill_name_and_icon, npc_boss_tier, npc_tier, skill_name_icon, ReferenceData};
use crate::damage::{chosen_skill, find_skill, skill_display_name};
use crate::text::{
    field_gear_score, field_i32, field_i64, gear_score_field, i32_field, i64_field, owned,
};

verus! {

/// The value nearest to `x` that fits in 64 bits.
pub open spec fn sat(x: int) -> i64 {
    if x > i64::MAX {
        i64::MAX
    } else if x < i64::MIN {
        i64::MIN
    } else {
        x as i64
    }
}

/// Adds, staying at the bounds of 64 bits instead of overflowing.
pub fn add_sat(a: i64, b: i64) -> (r: i64)
    ensures
        r == sat(a + b),
{
    match a.checked_add(b) {
        Some(v) => v,
        None => if b > 0 {
            i64::MAX
        } else {
            i64::MIN
        },
    }
}

/// The name a record gives when its name field is empty.
pub open spec fn display_name(s: Seq<char>) -> Seq<char> {
    if s.len() == 0 {
        "Unknown Entity"@
    } else {
        s
    }
}

pub fn name_field(s: &String) -> (r: String)
    ensures
        r@ == display_name(s@),
{
    if s.as_str().is_empty() {
        owned("Unknown Entity")
    } else {
        s.clone()
    }
}

/// The parts of an encounter besides its entity table are equal.
pub open spec fn same_frame(a: Encounter, b: Encounter) -> bool {
    &&& a.last_combat_packet == b.last_combat_packet
    &&& a.fight_start == b.fight_start
    &&& a.local_player == b.local_player
    &&& a.current_boss_name == b.current_boss_name
    &&& a.encounter_damage_stats == b.encounter_damage_stats
    &&& a.duration == b.duration
    &&& a.reset == b.reset
}

/// An entity that a record creates: the given id and name and nothing else.
pub open spec fn fresh(e: Entity, id: Seq<char>, name: Seq<char>) -> bool {
    &&& e.id@ == id
    &&& e.name@ == name
    &&& e.npc_id == 0
    &&& e.class_id == 0
    &&& e.class@.len() == 0
    &&& e.gear_score == 0
    &&& e.current_hp == 0
    &&& e.max_hp == 0
    &&& e.is_blank()
}

/// The table after entity `name` became `e`: in its old place if it was
/// there, else added at the end.
pub open spec fn upserted(o: Seq<Entity>, f: Seq<Entity>, name: Seq<char>, e: Entity) -> bool {
    &&& e.name@ == name
    &&& if has_name(o, name) {
        f == o.update(index_of(o, name), e)
    } else {
        f == o.push(e)
    }
}

/// An entity that a death record creates: the record's id, dead once at
/// `ts`, and nothing else.
pub open spec fn death_created(e: Entity, id: Seq<char>, ts: i64) -> bool {
    &&& e.id@ == id
    &&& e.is_dead
    &&& e.last_update == ts
    &&& e.npc_id == 0
    &&& e.entity_type == EntityType::UNKNOWN
    &&& e.class_id == 0
    &&& e.class@.len() == 0
    &&& e.gear_score == 0
    &&& e.current_hp == 0
    &&& e.max_hp == 0
    &&& e.skills@.len() == 0
    &&& e.skill_stats == crate::model::SkillStats::zeroed()
    &&& e.damage_stats.damage_dealt == 0
    &&& e.damage_stats.damage_taken == 0
    &&& e.damage_stats.buffed_by@ == Map::<i32, i64>::empty()
    &&& e.damage_stats.debuffed_by@ == Map::<i32, i64>::empty()
    &&& e.damage_stats.buffed_by_support == 0
    &&& e.damage_stats.debuffed_by_support == 0
    &&& e.damage_stats.deaths == 1
    &&& e.damage_stats.death_time == ts
    &&& e.damage_stats.dps == 0
}

/// The death of `id`/`name` at `ts` as the table records it: a first death
/// counts once, a repeated one changes no count, and an entity of that name
/// but another id is left alone.
pub open spec fn death_applied(o: Seq<Entity>, f: Seq<Entity>, ts: i64, id: Seq<char>, name: Seq<char>) -> bool {
    if has_name(o, name) {
        let p = entity_named(o, name);
        if p.id@ != id {
            f == o
        } else {
            upserted(o, f, name, Entity {
                is_dead: true,
                last_update: ts,
                damage_stats: crate::model::DamageStats {
                    deaths: if p.is_dead { p.damage_stats.deaths } else { 1 },
                    death_time: ts,
                    ..p.damage_stats
                },
                ..p
            })
        }
    } else {
        exists|e: Entity| upserted(o, f, name, e) && death_created(e, id, ts)
    }
}

/// Writes entity `e` under its name: over the old record of that name, or
/// as a new one.
pub fn upsert(encounter: &mut Encounter, e: Entity)
    requires
        old(encounter).wf(),
    ensures
        final(encounter).wf(),
        same_frame(*final(encounter), *old(encounter)),
        upserted(old(encounter).entities@, final(encounter).entities@, e.name@, e),
        final(encounter).has(e.name@),
        final(encounter).get(e.name@) == e,
{
    match find_entity(&encounter.entities, &e.name) {
        Some(i) => {
            proof {
                lemma_index_of(encounter.entities@, i as int);
                lemma_update_same_name(encounter.entities@, i as int, e);
                lemma_take_put(encounter.entities@, i as int, e);
            }
            let _ = take_entity(&mut encounter.entities, i);
            put_entity(&mut encounter.entities, i, e);
        },
        None => {
            proof {
                lemma_push_new_name(encounter.entities@, e);
            }
            encounter.entities.push(e);
        },
    }
}

/// What a death record does, as `on_death` states it.
pub open spec fn death_handled(o: Encounter, f: Encounter, timestamp: i64, line: Seq<String>) -> bool {
    &&& f.wf()
    &&& same_frame(f, o)
    &&& (line.len() < 6 ==> f.entities@ == o.entities@)
    &&& (line.len() >= 6 ==> death_applied(o.entities@, f.entities@, timestamp, line[2]@, display_name(line[3]@)))
}

/// Handles a death record: fields id, name, killer id, killer name.
pub fn on_death(encounter: &mut Encounter, timestamp: i64, line: &Vec<String>)
    requires
        old(encounter).wf(),
    ensures
        death_handled(*old(encounter), *final(encounter), timestamp, line@),
{
    if line.len() < 6 {
        return;
    }
    let id = &line[2];
    let name = name_field(&line[3]);
    match find_entity(&encounter.entities, &name) {
        Some(i) => {
            proof {
                lemma_index_of(encounter.entities@, i as int);
            }
            if encounter.entities[i].id != *id {
                return;
            }
            let mut e = take_entity(&mut encounter.entities, i);
            let deaths = if e.is_dead { e.damage_stats.deaths } else { 1 };
            e.is_dead = true;
            e.damage_stats.deaths = deaths;
            e.damage_stats.death_time = timestamp;
            e.last_update = timestamp;
            proof {
                lemma_update_same_name(old(encounter).entities@, i as int, e);
                lemma_take_put(old(encounter).entities@, i as int, e);
            }
            put_entity(&mut encounter.entities, i, e);
        },
        None => {
            let mut e = Entity::new(id.clone(), name);
            e.is_dead = true;
            e.damage_stats.deaths = 1;
            e.damage_stats.death_time = timestamp;
            e.last_update = timestamp;
            proof {
                lemma_push_new_name(encounter.entities@, e);
            }
            encounter.entities.push(e);
            assert(upserted(old(encounter).entities@, encounter.entities@, name@, e));
            assert(death_created(e, id@, timestamp));
        },
    }
}

/// What a counterattack record does, as `on_counterattack` states it.
pub open spec fn counter_handled(o: Encounter, f: Encounter, line: Seq<String>) -> bool {
    &&& (f.wf())
    &&& (same_frame(f, o))
    &&& (line.len() < 6 ==> f.entities@ == o.entities@)
    &&& (line.len() >= 6 ==> {
        let name = display_name(line[3]@);
        let e = f.get(name);
        &&& upserted(o.entities@, f.entities@, name, e)
        &&& if o.has(name) {
            let p = o.get(name);
            e == Entity {
                skill_stats: crate::model::SkillStats {
                    counters: sat(p.skill_stats.counters + 1),
                    ..p.skill_stats
                },
                ..p
            }
        } else {
            &&& e.id@ == line[2]@
            &&& e.entity_type == EntityType::PLAYER
            &&& e.skill_stats.counters == 2
            &&& e.skills@.len() == 0
            &&& e.damage_stats.is_zero()
        }
    })
}

/// Handles a counterattack record: fields id, name, target id, target name.
/// An entity first seen here is taken for a player.
pub fn on_counterattack(encounter: &mut Encounter, line: &Vec<String>)
    requires
        old(encounter).wf(),
    ensures
        counter_handled(*old(encounter), *final(encounter), line@),
{
    if line.len() < 6 {
        return;
    }
    let name = name_field(&line[3]);
    match find_entity(&encounter.entities, &name) {
        Some(i) => {
            proof {
                lemma_index_of(encounter.entities@, i as int);
            }
            let mut e = take_entity(&mut encounter.entities, i);
            e.skill_stats.counters = add_sat(e.skill_stats.counters, 1);
            proof {
                lemma_update_same_name(old(encounter).entities@, i as int, e);
                lemma_take_put(old(encounter).entities@, i as int, e);
            }
            put_entity(&mut encounter.entities, i, e);
        },
        None => {
            let mut e = Entity::new(line[2].clone(), name);
            e.entity_type = EntityType::PLAYER;
            e.skill_stats.counters = 1;
            e.skill_stats.counters = e.skill_stats.counters + 1;
            proof {
                lemma_push_new_name(encounter.entities@, e);
            }
            encounter.entities.push(e);
        },
    }
}

/// The parts of an encounter besides its entity table, local player and
/// tracked boss are equal.
pub open spec fn same_stats(a: Encounter, b: Encounter) -> bool {
    &&& a.last_combat_packet == b.last_combat_packet
    &&& a.fight_start == b.fight_start
    &&& a.encounter_damage_stats == b.encounter_damage_stats
    &&& a.duration == b.duration
    &&& a.reset == b.reset
}

/// The class a record gives when its class field is empty.
pub open spec fn class_name(s: Seq<char>) -> Seq<char> {
    if s.len() == 0 {
        "Unknown Class"@
    } else {
        s
    }
}

/// Marks the entities whose id differs from `id`.
pub open spec fn other_id_marks(es: Seq<Entity>, id: Seq<char>) -> Seq<bool> {
    Seq::new(es.len(), |i: int| es[i].id@ != id)
}

/// `e` is `p` with what a player record restates replaced.
pub open spec fn restated_pc(e: Entity, p: Entity) -> bool {
    &&& e.name == p.name
    &&& e.npc_id == p.npc_id
    &&& e.entity_type == p.entity_type
    &&& e.is_dead == p.is_dead
    &&& e.skills == p.skills
    &&& e.damage_stats == p.damage_stats
    &&& e.skill_stats == p.skill_stats
}

/// The local player after a player record for `id`/`name`: the record renames
/// it when it restates the local player's id.
pub open spec fn local_after_pc(o: Encounter, id: Seq<char>, name: Seq<char>) -> Seq<char> {
    if o.local_player@.len() > 0 && o.has(o.local_player@) && o.get(o.local_player@).id@ == id {
        name
    } else {
        o.local_player@
    }
}

/// What a new-player record does, as `on_new_pc` states it.
pub open spec fn new_pc_handled(o: Encounter, f: Encounter, timestamp: i64, line: Seq<String>) -> bool {
    &&& (f.wf())
    &&& (same_stats(f, o))
    &&& (f.current_boss_name@ == (if f.has(o.current_boss_name@) {
        o.current_boss_name@
    } else {
        Seq::<char>::empty()
    }))
    &&& (line.len() < 10 ==> f == o)
    &&& (line.len() >= 10 ==> {
        let id = line[2]@;
        let name = display_name(line[3]@);
        let o = o;
        let f = f;
        let e = f.get(name);
        &&& f.local_player@ == local_after_pc(o, id, name)
        &&& f.has(name)
        &&& e.name@ == name
        &&& e.id@ == id
        &&& e.class_id == i32_field(line[4]@)
        &&& e.class@ == class_name(line[5]@)
        &&& e.gear_score == gear_score_field(line[7]@)
        &&& e.current_hp == i64_field(line[8]@)
        &&& e.max_hp == i64_field(line[9]@)
        &&& e.last_update == timestamp
        &&& if o.has(name) {
            &&& restated_pc(e, o.get(name))
            &&& f.entities@ == o.entities@.update(index_of(o.entities@, name), e)
        } else {
            &&& e.entity_type == EntityType::PLAYER
            &&& e.npc_id == 0
            &&& !e.is_dead
            &&& e.is_blank()
            &&& f.entities@ == kept(o.entities@, other_id_marks(o.entities@, id)).push(e)
            &&& forall|j: int| 0 <= j < f.entities@.len() && #[trigger] f.entities@[j].id@ == id ==> f.entities@[j].name@ == name
        }
    })
}

/// Handles a new-player record: fields id, name, class id, class, level,
/// gear score, current hp, max hp.
pub fn on_new_pc(encounter: &mut Encounter, timestamp: i64, line: &Vec<String>)
    requires
        old(encounter).wf(),
    ensures
        new_pc_handled(*old(encounter), *final(encounter), timestamp, line@),
{
    proof {
        if encounter.current_boss_name@.len() == 0 {
            assert(encounter.current_boss_name@ =~= Seq::<char>::empty());
        }
    }
    if line.len() < 10 {
        return;
    }
    let id = &line[2];
    let name = name_field(&line[3]);
    let class_id = field_i32(&line[4]);
    let class = if line[5].as_str().is_empty() {
        owned("Unknown Class")
    } else {
        line[5].clone()
    };
    let gear_score = field_gear_score(&line[7]);
    let current_hp = field_i64(&line[8]);
    let max_hp = field_i64(&line[9]);
    if !encounter.local_player.as_str().is_empty() {
        match find_entity(&encounter.entities, &encounter.local_player) {
            Some(i) => {
                proof {
                    lemma_index_of(encounter.entities@, i as int);
                }
                if encounter.entities[i].id == *id {
                    encounter.local_player = name.clone();
                }
            },
            None => {},
        }
    }
    match find_entity(&encounter.entities, &name) {
        Some(i) => {
            proof {
                lemma_index_of(encounter.entities@, i as int);
            }
            let mut e = take_entity(&mut encounter.entities, i);
            e.id = id.clone();
            e.class_id = class_id;
            e.class = class;
            e.gear_score = gear_score;
            e.current_hp = current_hp;
            e.max_hp = max_hp;
            e.last_update = timestamp;
            proof {
                lemma_update_same_name(old(encounter).entities@, i as int, e);
                lemma_take_put(old(encounter).entities@, i as int, e);
            }
            put_entity(&mut encounter.entities, i, e);
        },
        None => {
            let ghost before = encounter.entities@;
            let mut marks: Vec<bool> = Vec::new();
            for k in 0..encounter.entities.len()
                invariant
                    before == encounter.entities@,
                    marks@ == other_id_marks(before, id@).take(k as int),
            {
                marks.push(encounter.entities[k].id != *id);
                assert(marks@ =~= other_id_marks(before, id@).take(k + 1));
            }
            assert(marks@ =~= other_id_marks(before, id@));
            retain_marked(&mut encounter.entities, &marks);
            proof {
                lemma_kept(before, marks@);
                assert(!has_name(encounter.entities@, name@)) by {
                    if has_name(encounter.entities@, name@) {
                        let k = choose|k: int| 0 <= k < encounter.entities@.len() && #[trigger] encounter.entities@[k].name@ == name@;
                        let m = crate::model::kept_origin(before, marks@, k);
                        assert(before[m].name@ == name@);
                    }
                }
            }
            let mut e = Entity::new(id.clone(), name);
            e.class_id = class_id;
            e.class = class;
            e.gear_score = gear_score;
            e.current_hp = current_hp;
            e.max_hp = max_hp;
            e.last_update = timestamp;
            e.entity_type = EntityType::PLAYER;
            proof {
                lemma_push_new_name(encounter.entities@, e);
            }
            let ghost mid = encounter.entities@;
            encounter.entities.push(e);
            if !encounter.current_boss_name.as_str().is_empty() {
                if find_entity(&encounter.entities, &encounter.current_boss_name).is_none() {
                    encounter.current_boss_name = String::new();
                }
            }
            proof {
                assert forall|j: int| 0 <= j < encounter.entities@.len() && #[trigger] encounter.entities@[j].id@ == id@ implies encounter.entities@[j].name@ == name@ by {
                    if j < mid.len() {
                        let m = crate::model::kept_origin(before, marks@, j);
                        assert(mid[j] == before[m]);
                        assert(marks@[m] == (before[m].id@ != id@));
                    }
                }
            }
        },
    }
}

/// The entity type an NPC record gives a new entity.
pub open spec fn npc_type(tier: Option<bool>) -> EntityType {
    if tier == Some(true) {
        EntityType::BOSS
    } else {
        EntityType::NPC
    }
}

/// The tracked boss after an NPC record for `name` with `max_hp`, given the
/// entity table `es` that the record left: the first boss-tier NPC becomes
/// the boss, a later one only with strictly more hp, and a boss name that
/// finds no entity is cleared.
pub open spec fn boss_after_npc(
    boss: Seq<char>,
    es: Seq<Entity>,
    tier: Option<bool>,
    name: Seq<char>,
    max_hp: i64,
) -> Seq<char> {
    if boss.len() == 0 {
        if tier == Some(true) {
            name
        } else {
            boss
        }
    } else if has_name(es, boss) {
        if max_hp > entity_named(es, boss).max_hp && tier == Some(true) {
            name
        } else {
            boss
        }
    } else {
        Seq::empty()
    }
}

/// What a new-NPC record does, as `on_new_npc` states it.
pub open spec fn new_npc_handled(o: Encounter, f: Encounter, timestamp: i64, line: Seq<String>, store: ReferenceData) -> bool {
    &&& (f.wf())
    &&& (same_stats(f, o))
    &&& (f.local_player == o.local_player)
    &&& (line.len() < 7 ==> f == o)
    &&& (line.len() >= 7 ==> {
        let name = display_name(line[4]@);
        let npc_id = i32_field(line[3]@);
        let max_hp = i64_field(line[6]@);
        let tier = npc_boss_tier(store.npcs@, npc_id);
        let o = o;
        let f = f;
        let e = f.get(name);
        &&& f.has(name)
        &&& e.name@ == name
        &&& e.id@ == line[2]@
        &&& e.npc_id == npc_id
        &&& e.current_hp == i64_field(line[5]@)
        &&& e.max_hp == max_hp
        &&& e.last_update == timestamp
        &&& if o.has(name) {
            let p = o.get(name);
            &&& f.entities@ == o.entities@.update(index_of(o.entities@, name), e)
            &&& e.entity_type == (match tier {
                Some(b) => npc_type(Some(b)),
                None => p.entity_type,
            })
            &&& e.class == p.class
            &&& e.class_id == p.class_id
            &&& e.gear_score == p.gear_score
            &&& e.is_dead == p.is_dead
            &&& e.skills == p.skills
            &&& e.damage_stats == p.damage_stats
            &&& e.skill_stats == p.skill_stats
        } else {
            &&& f.entities@ == o.entities@.push(e)
            &&& e.entity_type == npc_type(tier)
            &&& e.class_id == 0
            &&& e.class@.len() == 0
            &&& e.gear_score == 0
            &&& !e.is_dead
            &&& e.is_blank()
        }
        &&& f.current_boss_name@ == boss_after_npc(o.current_boss_name@, f.entities@, tier, name, max_hp)
    })
}

/// Handles a new-NPC record: fields id, NPC id, name, current hp, max hp.
pub fn on_new_npc(encounter: &mut Encounter, timestamp: i64, line: &Vec<String>, store: &ReferenceData)
    requires
        old(encounter).wf(),
    ensures
        new_npc_handled(*old(encounter), *final(encounter), timestamp, line@, *store),
{
    if line.len() < 7 {
        return;
    }
    let npc_id = field_i32(&line[3]);
    let name = name_field(&line[4]);
    let current_hp = field_i64(&line[5]);
    let max_hp = field_i64(&line[6]);
    let tier = npc_tier(store, npc_id);
    match find_entity(&encounter.entities, &name) {
        Some(i) => {
            proof {
                lemma_index_of(encounter.entities@, i as int);
            }
            let mut e = take_entity(&mut encounter.entities, i);
            e.id = line[2].clone();
            e.npc_id = npc_id;
            e.current_hp = current_hp;
            e.max_hp = max_hp;
            e.last_update = timestamp;
            match tier {
                Some(b) => {
                    e.entity_type = if b { EntityType::BOSS } else { EntityType::NPC };
                },
                None => {},
            }
            proof {
                lemma_update_same_name(old(encounter).entities@, i as int, e);
                lemma_take_put(old(encounter).entities@, i as int, e);
            }
            put_entity(&mut encounter.entities, i, e);
        },
        None => {
            let mut e = Entity::new(line[2].clone(), name.clone());
            e.npc_id = npc_id;
            e.current_hp = current_hp;
            e.max_hp = max_hp;
            e.last_update = timestamp;
            e.entity_type = if tier == Some(true) { EntityType::BOSS } else { EntityType::NPC };
            proof {
                lemma_push_new_name(encounter.entities@, e);
            }
            encounter.entities.push(e);
        },
    }
    let boss_tier = match tier {
        Some(b) => b,
        None => false,
    };
    if encounter.current_boss_name.as_str().is_empty() {
        if boss_tier {
            encounter.current_boss_name = name;
        }
    } else {
        match find_entity(&encounter.entities, &encounter.current_boss_name) {
            Some(b) => {
                proof {
                    lemma_index_of(encounter.entities@, b as int);
                }
                if max_hp > encounter.entities[b].max_hp && boss_tier {
                    encounter.current_boss_name = name;
                }
            },
            None => {
                encounter.current_boss_name = String::new();
            },
        }
    }
}

/// `n` is skill `o` cast once more.
pub open spec fn cast_once_more(n: crate::model::Skill, o: crate::model::Skill) -> bool {
    n == crate::model::Skill { casts: sat(o.casts + 1), ..o }
}

/// The skills of an entity after a cast of skill `id` whose resolved display
/// name is `name`: the skill with that id, else one with that name, counts
/// one more cast; else a new skill resolved from the tables with one cast.
pub open spec fn cast_recorded(
    n: Seq<crate::model::Skill>,
    o: Seq<crate::model::Skill>,
    id: i32,
    name: Seq<char>,
    resolved: (Seq<char>, Seq<char>),
) -> bool {
    let k = chosen_skill(o, id, name);
    if k >= 0 {
        &&& n == o.update(k, n[k])
        &&& cast_once_more(n[k], o[k])
    } else {
        &&& n.len() == o.len() + 1
        &&& n.drop_last() == o
        &&& n.last().id == id
        &&& (n.last().name@, n.last().icon@) == resolved
        &&& n.last().casts == 1
        &&& n.last().hits == 0
        &&& n.last().total_damage == 0
    }
}

/// What a skill-start record does, as `on_skill_start` states it.
pub open spec fn skill_start_handled(o: Encounter, f: Encounter, timestamp: i64, line: Seq<String>, store: ReferenceData) -> bool {
    &&& (f.wf())
    &&& (same_frame(f, o))
    &&& (line.len() < 6 ==> f.entities@ == o.entities@)
    &&& (line.len() >= 6 ==> {
        let name = display_name(line[3]@);
        let id = i32_field(line[4]@);
        let sname = skill_display_name(line[5]@);
        let resolved = skill_name_icon(store.skills@, store.skill_effects@, id, 0, sname);
        let o = o;
        let e = f.get(name);
        &&& upserted(o.entities@, f.entities@, name, e)
        &&& e.last_update == timestamp
        &&& !e.is_dead
        &&& if o.has(name) {
            let p = o.get(name);
            &&& e.skill_stats == crate::model::SkillStats { casts: sat(p.skill_stats.casts + 1), ..p.skill_stats }
            &&& cast_recorded(e.skills@, p.skills@, id, resolved.0, resolved)
            &&& e.id == p.id
            &&& e.entity_type == p.entity_type
            &&& e.damage_stats == p.damage_stats
            &&& e.current_hp == p.current_hp
            &&& e.max_hp == p.max_hp
        } else {
            &&& e.id@.len() == 0
            &&& e.entity_type == EntityType::UNKNOWN
            &&& e.skill_stats.casts == 1
            &&& e.damage_stats.is_zero()
            &&& e.skills@.len() == 1
            &&& e.skills@[0].id == id
            &&& (e.skills@[0].name@, e.skills@[0].icon@) == resolved
            &&& e.skills@[0].casts == 1
        }
    })
}

/// Handles a skill-start record: fields id, name, skill id, skill name.
pub fn on_skill_start(encounter: &mut Encounter, timestamp: i64, line: &Vec<String>, store: &ReferenceData)
    requires
        old(encounter).wf(),
    ensures
        skill_start_handled(*old(encounter), *final(encounter), timestamp, line@, *store),
{
    if line.len() < 6 {
        return;
    }
    let name = name_field(&line[3]);
    let skill_id = field_i32(&line[4]);
    let skill_name = if line[5].as_str().is_empty() {
        owned("Unknown Skill")
    } else {
        line[5].clone()
    };
    let (e, at) = match find_entity(&encounter.entities, &name) {
        Some(i) => {
            proof {
                lemma_index_of(encounter.entities@, i as int);
            }
            (take_entity(&mut encounter.entities, i), Some(i))
        },
        None => (Entity::new(String::new(), name.clone()), None),
    };
    let mut e = e;
    let ghost p = e;
    e.last_update = timestamp;
    e.is_dead = false;
    e.skill_stats.casts = add_sat(e.skill_stats.casts, 1);
    let (n, icon) = get_skill_name_and_icon(store, skill_id, 0, skill_name);
    match find_skill(&e.skills, skill_id, &n) {
        Some(k) => {
            let mut sk = crate::model::Skill::new(0, String::new(), String::new(), 0);
            e.skills.set_and_swap(k, &mut sk);
            sk.casts = add_sat(sk.casts, 1);
            e.skills.set(k, sk);
            proof {
                assert(e.skills@ =~= p.skills@.update(k as int, e.skills@[k as int]));
            }
        },
        None => {
            e.skills.push(crate::model::Skill::new(skill_id, n, icon, 1));
            proof {
                assert(e.skills@.drop_last() =~= p.skills@);
            }
        },
    }
    match at {
        Some(i) => {
            proof {
                lemma_update_same_name(old(encounter).entities@, i as int, e);
                lemma_take_put(old(encounter).entities@, i as int, e);
            }
            put_entity(&mut encounter.entities, i, e);
        },
        None => {
            proof {
                lemma_push_new_name(encounter.entities@, e);
            }
            encounter.entities.push(e);
        },
    }
}

/// Recording the same death twice counts it at most once: after two death
/// records for one id and name, the entity of that name has a death count
/// of at most one (given that it had no more before), and is dead when it
/// carries that id.
pub proof fn lemma_death_counted_once(
    o: Seq<Entity>,
    m: Seq<Entity>,
    f: Seq<Entity>,
    ts1: i64,
    ts2: i64,
    id: Seq<char>,
    name: Seq<char>,
)
    requires
        names_distinct(o),
        has_name(o, name) ==> entity_named(o, name).damage_stats.deaths <= 1,
        death_applied(o, m, ts1, id, name),
        death_applied(m, f, ts2, id, name),
    ensures
        has_name(f, name),
        entity_named(f, name).damage_stats.deaths <= 1,
        entity_named(f, name).id@ == id ==> entity_named(f, name).is_dead,
{
    lemma_death_step(o, m, ts1, id, name);
    lemma_death_step(m, f, ts2, id, name);
}

proof fn lemma_death_step(o: Seq<Entity>, f: Seq<Entity>, ts: i64, id: Seq<char>, name: Seq<char>)
    requires
        names_distinct(o),
        has_name(o, name) ==> entity_named(o, name).damage_stats.deaths <= 1,
        death_applied(o, f, ts, id, name),
    ensures
        names_distinct(f),
        has_name(f, name),
        entity_named(f, name).damage_stats.deaths <= 1,
        entity_named(f, name).id@ == id ==> entity_named(f, name).is_dead,
{
    if has_name(o, name) {
        let i = index_of(o, name);
        lemma_index_of(o, i);
        let p = entity_named(o, name);
        if p.id@ == id {
            let e = f[i];
            assert(f == o.update(i, e));
            lemma_update_same_name(o, i, e);
        }
    } else {
        let e = choose|e: Entity| upserted(o, f, name, e) && death_created(e, id, ts);
        lemma_push_new_name(o, e);
    }
}

} // verus!
