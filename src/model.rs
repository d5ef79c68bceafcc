use std::collections::{HashMap, HashSet};
use vstd::prelude::*;

use crate::reference::StatusEffect;

verus! {

#[derive(Clone, Copy, Debug, PartialEq, Eq, Structural)]
pub enum EntityType {
    UNKNOWN,
    NPC,
    BOSS,
    PLAYER,
}

#[derive(Clone, Copy, Debug, PartialEq, Eq, Structural)]
pub enum HitFlag {
    NORMAL,
    CRITICAL,
    MISS,
    INVINCIBLE,
    DOT,
    IMMUNE,
    IMMUNE_SILENCED,
    FONT_SILENCED,
    DOT_CRITICAL,
    DODGE,
    REFLECT,
    DAMAGE_SHARE,
    DODGE_HIT,
    MAX,
}

#[derive(Clone, Copy, Debug, PartialEq, Eq, Structural)]
pub enum HitOption {
    NONE,
    BACK_ATTACK,
    FRONTAL_ATTACK,
    FLANK_ATTACK,
    MAX,
}

#[derive(Clone, Copy, Debug, PartialEq, Eq, Structural)]
pub enum RaidResult {
    RAID_RESULT,
    GUARDIAN_DEAD,
    RAID_END,
    UNKNOWN,
}

/// One ability of one entity and what it has done.
pub struct Skill {
    pub id: i32,
    pub name: String,
    pub icon: String,
    pub total_damage: i64,
    pub max_damage: i64,
    pub buffed_by: HashMap<i32, i64>,
    pub debuffed_by: HashMap<i32, i64>,
    pub buffed_by_support: i64,
    pub debuffed_by_support: i64,
    pub casts: i64,
    pub hits: i64,
    pub crits: i64,
    pub back_attacks: i64,
    pub front_attacks: i64,
    pub dps: i64,
}

impl Skill {
    pub fn new(id: i32, name: String, icon: String, casts: i64) -> (r: Skill)
        ensures
            r.id == id,
            r.name == name,
            r.icon == icon,
            r.casts == casts,
            r.total_damage == 0 && r.max_damage == 0 && r.dps == 0,
            r.hits == 0 && r.crits == 0 && r.back_attacks == 0 && r.front_attacks == 0,
            r.buffed_by_support == 0 && r.debuffed_by_support == 0,
            r.buffed_by@ == Map::<i32, i64>::empty(),
            r.debuffed_by@ == Map::<i32, i64>::empty(),
    {
        Skill {
            id,
            name,
            icon,
            total_damage: 0,
            max_damage: 0,
            buffed_by: HashMap::new(),
            debuffed_by: HashMap::new(),
            buffed_by_support: 0,
            debuffed_by_support: 0,
            casts,
            hits: 0,
            crits: 0,
            back_attacks: 0,
            front_attacks: 0,
            dps: 0,
        }
    }
}

/// Counters of an entity's casts and hits.
#[derive(Clone, Copy, Debug, PartialEq, Eq, Structural)]
pub struct SkillStats {
    pub casts: i64,
    pub hits: i64,
    pub crits: i64,
    pub back_attacks: i64,
    pub front_attacks: i64,
    pub counters: i64,
}

impl SkillStats {
    pub open spec fn zeroed() -> SkillStats {
        SkillStats { casts: 0, hits: 0, crits: 0, back_attacks: 0, front_attacks: 0, counters: 0 }
    }

    pub fn zero() -> (r: SkillStats)
        ensures
            r == SkillStats::zeroed(),
    {
        SkillStats { casts: 0, hits: 0, crits: 0, back_attacks: 0, front_attacks: 0, counters: 0 }
    }
}

/// Damage an entity dealt and took, and how buffs contributed to it.
pub struct DamageStats {
    pub damage_dealt: i64,
    pub damage_taken: i64,
    pub buffed_by: HashMap<i32, i64>,
    pub debuffed_by: HashMap<i32, i64>,
    pub buffed_by_support: i64,
    pub debuffed_by_support: i64,
    pub deaths: i64,
    pub death_time: i64,
    pub dps: i64,
}

impl DamageStats {
    pub open spec fn is_zero(&self) -> bool {
        &&& self.damage_dealt == 0
        &&& self.damage_taken == 0
        &&& self.buffed_by@ == Map::<i32, i64>::empty()
        &&& self.debuffed_by@ == Map::<i32, i64>::empty()
        &&& self.buffed_by_support == 0
        &&& self.debuffed_by_support == 0
        &&& self.deaths == 0
        &&& self.death_time == 0
        &&& self.dps == 0
    }

    pub fn zero() -> (r: DamageStats)
        ensures
            r.is_zero(),
    {
        DamageStats {
            damage_dealt: 0,
            damage_taken: 0,
            buffed_by: HashMap::new(),
            debuffed_by: HashMap::new(),
            buffed_by_support: 0,
            debuffed_by_support: 0,
            deaths: 0,
            death_time: 0,
            dps: 0,
        }
    }
}

/// One participant of an encounter, keyed by its display name.
pub struct Entity {
    pub last_update: i64,
    pub id: String,
    pub npc_id: i32,
    pub name: String,
    pub entity_type: EntityType,
    pub class_id: i32,
    pub class: String,
    /// In hundredths of a point.
    pub gear_score: i64,
    pub current_hp: i64,
    pub max_hp: i64,
    pub is_dead: bool,
    pub skills: Vec<Skill>,
    pub damage_stats: DamageStats,
    pub skill_stats: SkillStats,
}

impl Entity {
    /// All that an entity holds besides who it is is zero or empty.
    pub open spec fn is_blank(&self) -> bool {
        &&& self.skills@.len() == 0
        &&& self.damage_stats.is_zero()
        &&& self.skill_stats == SkillStats::zeroed()
    }

    /// An entity with the given id and name and everything else empty.
    pub fn new(id: String, name: String) -> (r: Entity)
        ensures
            r.id == id,
            r.name == name,
            r.is_blank(),
            r.last_update == 0 && r.npc_id == 0 && r.class_id == 0 && r.class@.len() == 0,
            r.entity_type == EntityType::UNKNOWN,
            r.gear_score == 0 && r.current_hp == 0 && r.max_hp == 0 && !r.is_dead,
    {
        Entity {
            last_update: 0,
            id,
            npc_id: 0,
            name,
            entity_type: EntityType::UNKNOWN,
            class_id: 0,
            class: String::new(),
            gear_score: 0,
            current_hp: 0,
            max_hp: 0,
            is_dead: false,
            skills: Vec::new(),
            damage_stats: DamageStats::zero(),
            skill_stats: SkillStats::zero(),
        }
    }
}

pub struct MostDamageTakenEntity {
    pub name: String,
    pub damage_taken: i64,
}

/// Totals over the whole encounter, and the classifications of the buffs
/// seen so far.
pub struct EncounterDamageStats {
    pub total_damage_dealt: i64,
    pub top_damage_dealt: i64,
    pub total_damage_taken: i64,
    pub top_damage_taken: i64,
    pub dps: i64,
    pub most_damage_taken_entity: MostDamageTakenEntity,
    pub buffs: HashMap<i32, StatusEffect>,
    pub debuffs: HashMap<i32, StatusEffect>,
    pub unknown_buffs: HashSet<i32>,
}

impl EncounterDamageStats {
    pub open spec fn is_zero(&self) -> bool {
        &&& self.total_damage_dealt == 0
        &&& self.top_damage_dealt == 0
        &&& self.total_damage_taken == 0
        &&& self.top_damage_taken == 0
        &&& self.dps == 0
        &&& self.most_damage_taken_entity.name@.len() == 0
        &&& self.most_damage_taken_entity.damage_taken == 0
        &&& self.buffs@ == Map::<i32, StatusEffect>::empty()
        &&& self.debuffs@ == Map::<i32, StatusEffect>::empty()
        &&& self.unknown_buffs@ == Set::<i32>::empty()
    }

    pub fn zero() -> (r: EncounterDamageStats)
        ensures
            r.is_zero(),
    {
        EncounterDamageStats {
            total_damage_dealt: 0,
            top_damage_dealt: 0,
            total_damage_taken: 0,
            top_damage_taken: 0,
            dps: 0,
            most_damage_taken_entity: MostDamageTakenEntity { name: String::new(), damage_taken: 0 },
            buffs: HashMap::new(),
            debuffs: HashMap::new(),
            unknown_buffs: HashSet::new(),
        }
    }
}

/// One fight session.
pub struct Encounter {
    pub last_combat_packet: i64,
    pub fight_start: i64,
    pub local_player: String,
    pub entities: Vec<Entity>,
    pub current_boss_name: String,
    pub encounter_damage_stats: EncounterDamageStats,
    pub duration: i64,
    pub reset: bool,
}

/// No two entities of the table share a display name.
pub open spec fn names_distinct(es: Seq<Entity>) -> bool {
    forall|i: int, j: int|
        0 <= i < es.len() && 0 <= j < es.len() && i != j ==> #[trigger] es[i].name@ != #[trigger] es[j].name@
}

/// The table has an entity of this display name.
pub open spec fn has_name(es: Seq<Entity>, name: Seq<char>) -> bool {
    exists|i: int| 0 <= i < es.len() && #[trigger] es[i].name@ == name
}

/// The position of the entity of this display name.
pub open spec fn index_of(es: Seq<Entity>, name: Seq<char>) -> int {
    choose|i: int| 0 <= i < es.len() && #[trigger] es[i].name@ == name
}

/// The entity of this display name.
pub open spec fn entity_named(es: Seq<Entity>, name: Seq<char>) -> Entity {
    es[index_of(es, name)]
}

impl Encounter {
    /// Display names are unique, and a tracked boss names an entity.
    pub open spec fn wf(&self) -> bool {
        &&& names_distinct(self.entities@)
        &&& self.current_boss_name@.len() > 0 ==> has_name(self.entities@, self.current_boss_name@)
    }

    pub open spec fn has(&self, name: Seq<char>) -> bool {
        has_name(self.entities@, name)
    }

    pub open spec fn get(&self, name: Seq<char>) -> Entity {
        entity_named(self.entities@, name)
    }

    /// An idle encounter with nothing in it.
    pub fn new() -> (r: Encounter)
        ensures
            r.wf(),
            r.entities@.len() == 0,
            r.fight_start == 0 && r.last_combat_packet == 0 && r.duration == 0,
            r.local_player@.len() == 0 && r.current_boss_name@.len() == 0,
            r.encounter_damage_stats.is_zero(),
            !r.reset,
    {
        Encounter {
            last_combat_packet: 0,
            fight_start: 0,
            local_player: String::new(),
            entities: Vec::new(),
            current_boss_name: String::new(),
            encounter_damage_stats: EncounterDamageStats::zero(),
            duration: 0,
            reset: false,
        }
    }
}

/// Finds the entity of a display name.
pub fn find_entity(es: &Vec<Entity>, name: &String) -> (r: Option<usize>)
    ensures
        match r {
            Some(i) => i < es@.len() && es@[i as int].name@ == name@,
            None => !has_name(es@, name@),
        },
{
    let mut i: usize = 0;
    while i < es.len()
        invariant
            i <= es@.len(),
            forall|k: int| 0 <= k < i ==> #[trigger] es@[k].name@ != name@,
        decreases es.len() - i,
    {
        if es[i].name == *name {
            return Some(i);
        }
        i = i + 1;
    }
    None
}

pub proof fn lemma_index_of(es: Seq<Entity>, i: int)
    requires
        names_distinct(es),
        0 <= i < es.len(),
    ensures
        has_name(es, es[i].name@),
        index_of(es, es[i].name@) == i,
        entity_named(es, es[i].name@) == es[i],
{
    assert(es[i].name@ == es[i].name@);
}

/// Replacing an entity by one of the same display name keeps names distinct
/// and makes the new one what that name finds.
pub proof fn lemma_update_same_name(es: Seq<Entity>, i: int, e: Entity)
    requires
        names_distinct(es),
        0 <= i < es.len(),
        e.name@ == es[i].name@,
    ensures
        names_distinct(es.update(i, e)),
        index_of(es, e.name@) == i,
        index_of(es.update(i, e), e.name@) == i,
        entity_named(es.update(i, e), e.name@) == e,
        forall|n: Seq<char>| #[trigger] has_name(es.update(i, e), n) == has_name(es, n),
        forall|n: Seq<char>| n != e.name@ && has_name(es, n) ==> #[trigger] entity_named(es.update(i, e), n) == entity_named(es, n),
{
    let u = es.update(i, e);
    lemma_index_of(es, i);
    lemma_index_of(u, i);
    assert forall|n: Seq<char>| #[trigger] has_name(u, n) == has_name(es, n) by {
        if has_name(es, n) {
            let k = choose|k: int| 0 <= k < es.len() && #[trigger] es[k].name@ == n;
            assert(u[k].name@ == n);
        }
        if has_name(u, n) {
            let k = choose|k: int| 0 <= k < u.len() && #[trigger] u[k].name@ == n;
            assert(es[k].name@ == n);
        }
    }
    assert forall|n: Seq<char>| n != e.name@ && has_name(es, n) implies #[trigger] entity_named(u, n) == entity_named(es, n) by {
        let k = index_of(es, n);
        assert(es[k].name@ == n);
        assert(k != i);
        lemma_index_of(es, k);
        lemma_index_of(u, k);
    }
}

/// Adding an entity of a new display name keeps names distinct and makes
/// it what that name finds.
pub proof fn lemma_push_new_name(es: Seq<Entity>, e: Entity)
    requires
        names_distinct(es),
        !has_name(es, e.name@),
    ensures
        names_distinct(es.push(e)),
        entity_named(es.push(e), e.name@) == e,
        forall|n: Seq<char>| #[trigger] has_name(es.push(e), n) == (has_name(es, n) || n == e.name@),
        forall|n: Seq<char>| has_name(es, n) ==> #[trigger] entity_named(es.push(e), n) == entity_named(es, n),
{
    let u = es.push(e);
    assert forall|a: int, b: int| 0 <= a < u.len() && 0 <= b < u.len() && a != b implies
        #[trigger] u[a].name@ != #[trigger] u[b].name@ by {
        if a == es.len() {
            assert(u[b] == es[b]);
        } else if b == es.len() {
            assert(u[a] == es[a]);
        }
    }
    lemma_index_of(u, es.len() as int);
    assert forall|n: Seq<char>| #[trigger] has_name(u, n) == (has_name(es, n) || n == e.name@) by {
        if has_name(es, n) {
            let k = choose|k: int| 0 <= k < es.len() && #[trigger] es[k].name@ == n;
            assert(u[k].name@ == n);
        }
        if has_name(u, n) {
            let k = choose|k: int| 0 <= k < u.len() && #[trigger] u[k].name@ == n;
            if k < es.len() {
                assert(es[k].name@ == n);
            }
        }
    }
    assert forall|n: Seq<char>| has_name(es, n) implies #[trigger] entity_named(u, n) == entity_named(es, n) by {
        let k = index_of(es, n);
        lemma_index_of(es, k);
        lemma_index_of(u, k);
    }
}

/// Takes the entity at `i` out of the table, to be put back by
/// `put_entity`.
pub fn take_entity(es: &mut Vec<Entity>, i: usize) -> (r: Entity)
    requires
        i < old(es)@.len(),
    ensures
        r == old(es)@[i as int],
        final(es)@ == old(es)@.remove(i as int),
{
    es.remove(i)
}

/// Puts an entity back where `take_entity` took one.
pub fn put_entity(es: &mut Vec<Entity>, i: usize, e: Entity)
    requires
        i <= old(es)@.len(),
    ensures
        final(es)@ == old(es)@.insert(i as int, e),
{
    es.insert(i, e)
}

pub proof fn lemma_take_put(es: Seq<Entity>, i: int, e: Entity)
    requires
        0 <= i < es.len(),
    ensures
        es.remove(i).insert(i, e) == es.update(i, e),
{
    assert(es.remove(i).insert(i, e) =~= es.update(i, e));
}

/// The entities whose mark is set, in their order.
pub open spec fn kept(es: Seq<Entity>, keep: Seq<bool>) -> Seq<Entity>
    decreases es.len(),
{
    if es.len() == 0 || keep.len() == 0 {
        Seq::empty()
    } else {
        let rest = kept(es.skip(1), keep.skip(1));
        if keep[0] {
            seq![es[0]] + rest
        } else {
            rest
        }
    }
}

/// Where the `k`-th kept entity stood before.
pub open spec fn kept_origin(es: Seq<Entity>, keep: Seq<bool>, k: int) -> int
    decreases es.len(),
{
    if es.len() == 0 || keep.len() == 0 {
        0
    } else if keep[0] {
        if k == 0 {
            0
        } else {
            1 + kept_origin(es.skip(1), keep.skip(1), k - 1)
        }
    } else {
        1 + kept_origin(es.skip(1), keep.skip(1), k)
    }
}

pub proof fn lemma_kept(es: Seq<Entity>, keep: Seq<bool>)
    requires
        keep.len() == es.len(),
    ensures
        forall|k: int| #![trigger kept_origin(es, keep, k)] 0 <= k < kept(es, keep).len() ==> {
            &&& 0 <= kept_origin(es, keep, k) < es.len()
            &&& keep[kept_origin(es, keep, k)]
            &&& kept(es, keep)[k] == es[kept_origin(es, keep, k)]
        },
        forall|m: int| 0 <= m < es.len() && keep[m] ==> kept(es, keep).contains(#[trigger] es[m]),
        names_distinct(es) ==> names_distinct(kept(es, keep)),
    decreases es.len(),
{
    if es.len() > 0 {
        let tail = es.skip(1);
        let tk = keep.skip(1);
        lemma_kept(tail, tk);
        let rest = kept(tail, tk);
        assert forall|k: int| #![trigger kept_origin(es, keep, k)] 0 <= k < kept(es, keep).len() implies {
            &&& 0 <= kept_origin(es, keep, k) < es.len()
            &&& keep[kept_origin(es, keep, k)]
            &&& kept(es, keep)[k] == es[kept_origin(es, keep, k)]
        } by {
            if keep[0] && k == 0 {
                assert(kept(es, keep)[0] == es[0]);
                assert(kept_origin(es, keep, k) == 0);
            } else {
                let j = if keep[0] { k - 1 } else { k };
                assert(kept(es, keep)[k] == rest[j]);
                assert(0 <= j < rest.len());
                let m = kept_origin(tail, tk, j);
                assert(kept_origin(es, keep, k) == m + 1);
                assert(0 <= m < tail.len());
                assert(rest[j] == tail[m]);
                assert(es[m + 1] == tail[m]);
                assert(keep[m + 1] == tk[m]);
            }
        }
        assert forall|m: int| 0 <= m < es.len() && keep[m] implies kept(es, keep).contains(#[trigger] es[m]) by {
            if m == 0 {
                assert(kept(es, keep)[0] == es[0]);
            } else {
                assert(tail[m - 1] == es[m]);
                assert(tk[m - 1] == keep[m]);
                assert(rest.contains(tail[m - 1]));
                let k = choose|k: int| 0 <= k < rest.len() && rest[k] == tail[m - 1];
                if keep[0] {
                    assert(kept(es, keep)[k + 1] == rest[k]);
                } else {
                    assert(kept(es, keep)[k] == rest[k]);
                }
            }
        }
        if names_distinct(es) {
            assert(names_distinct(tail)) by {
                assert forall|a: int, b: int| 0 <= a < tail.len() && 0 <= b < tail.len() && a != b implies
                    #[trigger] tail[a].name@ != #[trigger] tail[b].name@ by {
                    assert(tail[a] == es[a + 1]);
                    assert(tail[b] == es[b + 1]);
                }
            }
            if keep[0] {
                assert forall|a: int, b: int| 0 <= a < kept(es, keep).len() && 0 <= b < kept(es, keep).len() && a != b implies
                    #[trigger] kept(es, keep)[a].name@ != #[trigger] kept(es, keep)[b].name@ by {
                    if a == 0 || b == 0 {
                        let o = if a == 0 { b } else { a };
                        assert(kept(es, keep)[o] == rest[o - 1]);
                        let m = kept_origin(tail, tk, o - 1);
                        assert(rest[o - 1] == tail[m]);
                        assert(tail[m] == es[m + 1]);
                        assert(kept(es, keep)[0] == es[0]);
                    } else {
                        assert(kept(es, keep)[a] == rest[a - 1]);
                        assert(kept(es, keep)[b] == rest[b - 1]);
                    }
                }
            }
        }
    } else {
        assert(kept(es, keep) =~= Seq::<Entity>::empty());
    }
}

/// Drops the entities whose mark is clear, keeping the order of the rest.
pub fn retain_marked(es: &mut Vec<Entity>, keep: &Vec<bool>)
    requires
        keep@.len() == old(es)@.len(),
    ensures
        final(es)@ == kept(old(es)@, keep@),
{
    let ghost orig = es@;
    let mut i: usize = es.len();
    assert(orig.skip(orig.len() as int) =~= Seq::<Entity>::empty());
    assert(orig.take(orig.len() as int) =~= orig);
    while i > 0
        invariant
            i <= orig.len(),
            keep@.len() == orig.len(),
            es@ == orig.take(i as int) + kept(orig.skip(i as int), keep@.skip(i as int)),
        decreases i,
    {
        let idx = i - 1;
        let ghost rest = kept(orig.skip(i as int), keep@.skip(i as int));
        assert(orig.skip(idx as int).skip(1) =~= orig.skip(i as int));
        assert(keep@.skip(idx as int).skip(1) =~= keep@.skip(i as int));
        assert(orig.take(i as int) =~= orig.take(idx as int).push(orig[idx as int]));
        if !keep[idx] {
            es.remove(idx);
            assert(es@ =~= orig.take(idx as int) + rest);
        } else {
            assert(orig.take(idx as int).push(orig[idx as int]) + rest =~= orig.take(idx as int) + (seq![orig[idx as int]] + rest));
        }
        i = idx;
    }
    assert(orig.take(0) + kept(orig.skip(0), keep@.skip(0)) =~= kept(orig, keep@)) by {
        assert(orig.skip(0) =~= orig);
        assert(keep@.skip(0) =~= keep@);
    }
}

} // verus!
