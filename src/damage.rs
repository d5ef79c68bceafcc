use std::collections::{HashMap, HashSet};
use vstd::prelude::*;

use crate::encounter::{is_soft_reset_of, soft_reset};
use crate::handlers::{add_sat, display_name, name_field, sat};
use crate::model::{
    find_entity, has_name, lemma_index_of, Encounter, EncounterDamageStats, Entity,
    EntityType, HitFlag, HitOption, Skill,
};
use crate::reference::{
    get_skill_name_and_icon, get_status_effect_data, is_support_class_id, ReferenceData,
    StatusEffect, StatusEffectTarget,
};
use crate::text::{field_hex_i32, field_i32, field_i64, hex_i32_field, i32_field, i64_field, is_text, owned, split_fields, split_on};

verus! {

broadcast use vstd::std_specs::hash::group_hash_axioms;

/// The hit flag held in the low four bits of a damage modifier, if it is one.
pub open spec fn hit_flag_of(m: i32) -> Option<HitFlag> {
    let n = m & 0xf;
    if n == 0 {
        Some(HitFlag::NORMAL)
    } else if n == 1 {
        Some(HitFlag::CRITICAL)
    } else if n == 2 {
        Some(HitFlag::MISS)
    } else if n == 3 {
        Some(HitFlag::INVINCIBLE)
    } else if n == 4 {
        Some(HitFlag::DOT)
    } else if n == 5 {
        Some(HitFlag::IMMUNE)
    } else if n == 6 {
        Some(HitFlag::IMMUNE_SILENCED)
    } else if n == 7 {
        Some(HitFlag::FONT_SILENCED)
    } else if n == 8 {
        Some(HitFlag::DOT_CRITICAL)
    } else if n == 9 {
        Some(HitFlag::DODGE)
    } else if n == 10 {
        Some(HitFlag::REFLECT)
    } else if n == 11 {
        Some(HitFlag::DAMAGE_SHARE)
    } else if n == 12 {
        Some(HitFlag::DODGE_HIT)
    } else if n == 13 {
        Some(HitFlag::MAX)
    } else {
        None
    }
}

/// The hit option held in the next three bits of a damage modifier, less
/// one, if it is one.
pub open spec fn hit_option_of(m: i32) -> Option<HitOption> {
    let n = ((m >> 4u32) & 7) - 1;
    if n == -1 {
        Some(HitOption::NONE)
    } else if n == 0 {
        Some(HitOption::BACK_ATTACK)
    } else if n == 1 {
        Some(HitOption::FRONTAL_ATTACK)
    } else if n == 2 {
        Some(HitOption::FLANK_ATTACK)
    } else if n == 3 {
        Some(HitOption::MAX)
    } else {
        None
    }
}

pub fn decode_hit_flag(m: i32) -> (r: Option<HitFlag>)
    ensures
        r == hit_flag_of(m),
{
    let n = m & 0xf;
    if n == 0 {
        Some(HitFlag::NORMAL)
    } else if n == 1 {
        Some(HitFlag::CRITICAL)
    } else if n == 2 {
        Some(HitFlag::MISS)
    } else if n == 3 {
        Some(HitFlag::INVINCIBLE)
    } else if n == 4 {
        Some(HitFlag::DOT)
    } else if n == 5 {
        Some(HitFlag::IMMUNE)
    } else if n == 6 {
        Some(HitFlag::IMMUNE_SILENCED)
    } else if n == 7 {
        Some(HitFlag::FONT_SILENCED)
    } else if n == 8 {
        Some(HitFlag::DOT_CRITICAL)
    } else if n == 9 {
        Some(HitFlag::DODGE)
    } else if n == 10 {
        Some(HitFlag::REFLECT)
    } else if n == 11 {
        Some(HitFlag::DAMAGE_SHARE)
    } else if n == 12 {
        Some(HitFlag::DODGE_HIT)
    } else if n == 13 {
        Some(HitFlag::MAX)
    } else {
        None
    }
}

pub fn decode_hit_option(m: i32) -> (r: Option<HitOption>)
    ensures
        r == hit_option_of(m),
{
    let bits: i32 = (m >> 4u32) & 7;
    assert(0 <= bits <= 7) by (bit_vector)
        requires
            bits == (m >> 4u32) & 7,
    ;
    let n = bits - 1;
    if n == -1 {
        Some(HitOption::NONE)
    } else if n == 0 {
        Some(HitOption::BACK_ATTACK)
    } else if n == 1 {
        Some(HitOption::FRONTAL_ATTACK)
    } else if n == 2 {
        Some(HitOption::FLANK_ATTACK)
    } else if n == 3 {
        Some(HitOption::MAX)
    } else {
        None
    }
}

/// Whether `x` is one of the buff ids of a list field: the list holds
/// comma-separated pairs, and the first of each pair is the id.
pub open spec fn buff_listed(s: Seq<char>, x: i32) -> bool {
    exists|k: int| 0 <= k < split_on(s, ',').len() && k % 2 == 0
        && split_on(s, ',')[k].len() > 0 && i32_field(#[trigger] split_on(s, ',')[k]) == x
}

/// Reads the buff ids of a list field, each once.
pub fn buff_ids(s: &String) -> (r: Vec<i32>)
    ensures
        r@.no_duplicates(),
        forall|x: i32| #[trigger] r@.contains(x) <==> buff_listed(s@, x),
{
    let toks = split_fields(s.as_str(), ',');
    let mut out: Vec<i32> = Vec::new();
    let mut k: usize = 0;
    while k < toks.len()
        invariant
            toks@.len() == split_on(s@, ',').len(),
            forall|i: int| 0 <= i < toks@.len() ==> #[trigger] toks@[i]@ == split_on(s@, ',')[i],
            k <= toks@.len(),
            out@.no_duplicates(),
            forall|x: i32| #[trigger] out@.contains(x) <==> exists|j: int| 0 <= j < k && j < toks@.len() && j % 2 == 0
                && split_on(s@, ',')[j].len() > 0 && i32_field(#[trigger] split_on(s@, ',')[j]) == x,
        decreases toks@.len() - k,
    {
        let ghost before = out@;
        if k % 2 == 0 && !toks[k].as_str().is_empty() {
            let v = field_i32(&toks[k]);
            let mut seen = false;
            let mut j: usize = 0;
            while j < out.len()
                invariant
                    j <= out@.len(),
                    seen <==> exists|i: int| 0 <= i < j && out@[i] == v,
                decreases out.len() - j,
            {
                if out[j] == v {
                    seen = true;
                }
                j = j + 1;
            }
            if !seen {
                out.push(v);
                assert forall|x: i32| #[trigger] out@.contains(x) <==> (before.contains(x) || x == v) by {
                    if out@.contains(x) {
                        let i = choose|i: int| 0 <= i < out@.len() && out@[i] == x;
                        if i < before.len() {
                            assert(before[i] == x);
                        }
                    }
                    if before.contains(x) {
                        let i = choose|i: int| 0 <= i < before.len() && before[i] == x;
                        assert(out@[i] == x);
                    }
                    if x == v {
                        assert(out@[before.len() as int] == v);
                    }
                }
            } else {
                assert(before.contains(v));
            }
        }
        assert forall|x: i32| #[trigger] out@.contains(x) <==> exists|j: int| 0 <= j < k + 1 && j < toks@.len() && j % 2 == 0
            && split_on(s@, ',')[j].len() > 0 && i32_field(#[trigger] split_on(s@, ',')[j]) == x by {
            if exists|j: int| 0 <= j < k + 1 && j < toks@.len() && j % 2 == 0
                && split_on(s@, ',')[j].len() > 0 && i32_field(#[trigger] split_on(s@, ',')[j]) == x {
                let j = choose|j: int| 0 <= j < k + 1 && j < toks@.len() && j % 2 == 0
                    && split_on(s@, ',')[j].len() > 0 && i32_field(#[trigger] split_on(s@, ',')[j]) == x;
                if j != k {
                    assert(j < k);
                }
            }
        }
        k = k + 1;
    }
    out
}

/// One damage record, as read from its fields.
pub struct DamageRecord {
    pub source_id: String,
    pub source_name: String,
    pub skill_id: i32,
    pub skill_name: String,
    pub skill_effect_id: i32,
    pub skill_effect: String,
    pub target_id: String,
    pub target_name: String,
    pub damage: i64,
    pub damage_mod: i32,
    pub current_hp: i64,
    pub max_hp: i64,
    pub effects_on_source: Vec<i32>,
    pub effects_on_target: Vec<i32>,
}

/// The skill name a record gives when its skill-name field is empty.
pub open spec fn skill_display_name(s: Seq<char>) -> Seq<char> {
    if s.len() == 0 {
        "Unknown Skill"@
    } else {
        s
    }
}

/// What the fields of a damage record (at least thirteen of them) read as.
/// A missing max-hp field reads as zero; the two buff lists count only when
/// there are at least seventeen fields.
pub open spec fn read_from(r: DamageRecord, line: Seq<String>) -> bool {
    &&& r.source_id@ == line[2]@
    &&& r.source_name@ == display_name(line[3]@)
    &&& r.skill_id == i32_field(line[4]@)
    &&& r.skill_name@ == skill_display_name(line[5]@)
    &&& r.skill_effect_id == i32_field(line[6]@)
    &&& r.skill_effect@ == line[7]@
    &&& r.target_id@ == line[8]@
    &&& r.target_name@ == display_name(line[9]@)
    &&& r.damage == i64_field(line[10]@)
    &&& r.damage_mod == hex_i32_field(line[11]@)
    &&& r.current_hp == i64_field(line[12]@)
    &&& r.max_hp == (if line.len() > 13 { i64_field(line[13]@) } else { 0 })
    &&& r.effects_on_target@.no_duplicates()
    &&& r.effects_on_source@.no_duplicates()
    &&& forall|x: i32| #[trigger] r.effects_on_target@.contains(x) <==> line.len() >= 17 && buff_listed(line[14]@, x)
    &&& forall|x: i32| #[trigger] r.effects_on_source@.contains(x) <==> line.len() >= 17 && buff_listed(line[15]@, x)
}

/// Reads the fields of a damage record.
pub fn read_damage(line: &Vec<String>) -> (r: DamageRecord)
    requires
        line@.len() >= 13,
    ensures
        read_from(r, line@),
{
    let skill_name = if line[5].as_str().is_empty() {
        owned("Unknown Skill")
    } else {
        line[5].clone()
    };
    let (effects_on_target, effects_on_source) = if line.len() >= 17 {
        (buff_ids(&line[14]), buff_ids(&line[15]))
    } else {
        (Vec::new(), Vec::new())
    };
    DamageRecord {
        source_id: line[2].clone(),
        source_name: name_field(&line[3]),
        skill_id: field_i32(&line[4]),
        skill_name,
        skill_effect_id: field_i32(&line[6]),
        skill_effect: line[7].clone(),
        target_id: line[8].clone(),
        target_name: name_field(&line[9]),
        damage: field_i64(&line[10]),
        damage_mod: field_hex_i32(&line[11]),
        current_hp: field_i64(&line[12]),
        max_hp: if line.len() > 13 { field_i64(&line[13]) } else { 0 },
        effects_on_source,
        effects_on_target,
    }
}

/// The position of the first skill with this id at or after `i`, or -1.
pub open spec fn skill_id_from(s: Seq<Skill>, id: i32, i: int) -> int
    decreases s.len() - i,
{
    if i < 0 || i >= s.len() {
        -1
    } else if s[i].id == id {
        i
    } else {
        skill_id_from(s, id, i + 1)
    }
}

/// The position of the first skill with this name at or after `i`, or -1.
pub open spec fn skill_name_from(s: Seq<Skill>, name: Seq<char>, i: int) -> int
    decreases s.len() - i,
{
    if i < 0 || i >= s.len() {
        -1
    } else if s[i].name@ == name {
        i
    } else {
        skill_name_from(s, name, i + 1)
    }
}

/// The skill a hit or cast counts for: the one with its id, else one with
/// its resolved display name (variants that share a name are grouped), else
/// -1 for a new one.
pub open spec fn chosen_skill(s: Seq<Skill>, id: i32, name: Seq<char>) -> int {
    if skill_id_from(s, id, 0) >= 0 {
        skill_id_from(s, id, 0)
    } else {
        skill_name_from(s, name, 0)
    }
}

proof fn lemma_skill_from_range(s: Seq<Skill>, id: i32, name: Seq<char>, i: int)
    requires
        0 <= i,
    ensures
        -1 <= skill_id_from(s, id, i) < s.len(),
        skill_id_from(s, id, i) >= 0 ==> s[skill_id_from(s, id, i)].id == id,
        -1 <= skill_name_from(s, name, i) < s.len(),
        skill_name_from(s, name, i) >= 0 ==> s[skill_name_from(s, name, i)].name@ == name,
    decreases s.len() - i,
{
    if i < s.len() {
        lemma_skill_from_range(s, id, name, i + 1);
    }
}

/// Finds the skill that a hit of this id and name counts for.
pub fn find_skill(s: &Vec<Skill>, id: i32, name: &String) -> (r: Option<usize>)
    ensures
        match r {
            Some(k) => k as int == chosen_skill(s@, id, name@) && k < s@.len(),
            None => chosen_skill(s@, id, name@) == -1,
        },
{
    proof {
        lemma_skill_from_range(s@, id, name@, 0);
    }
    let mut i: usize = 0;
    while i < s.len()
        invariant
            i <= s@.len(),
            skill_id_from(s@, id, 0) == skill_id_from(s@, id, i as int),
        decreases s.len() - i,
    {
        if s[i].id == id {
            return Some(i);
        }
        i = i + 1;
    }
    let mut j: usize = 0;
    while j < s.len()
        invariant
            j <= s@.len(),
            skill_id_from(s@, id, 0) == -1,
            skill_name_from(s@, name@, 0) == skill_name_from(s@, name@, j as int),
        decreases s.len() - j,
    {
        if s[j].name == *name {
            return Some(j);
        }
        j = j + 1;
    }
    None
}

/// `n` is `o` after a hit of `dmg`, counted as critical, back or frontal as
/// flagged; what buffs contributed is left to the caller.
pub open spec fn skill_hit(n: Skill, o: Skill, dmg: i64, crit: bool, back: bool, front: bool) -> bool {
    &&& n.id == o.id
    &&& n.name == o.name
    &&& n.icon == o.icon
    &&& n.casts == o.casts
    &&& n.dps == o.dps
    &&& n.total_damage == sat(o.total_damage + dmg)
    &&& n.max_damage == (if dmg > o.max_damage { dmg } else { o.max_damage })
    &&& n.hits == sat(o.hits + 1)
    &&& n.crits == (if crit { sat(o.crits + 1) } else { o.crits })
    &&& n.back_attacks == (if back { sat(o.back_attacks + 1) } else { o.back_attacks })
    &&& n.front_attacks == (if front { sat(o.front_attacks + 1) } else { o.front_attacks })
}

fn bump(x: i64, on: bool) -> (r: i64)
    ensures
        r == (if on { sat(x + 1) } else { x }),
{
    if on {
        add_sat(x, 1)
    } else {
        x
    }
}

fn hit_skill(sk: &mut Skill, dmg: i64, crit: bool, back: bool, front: bool)
    ensures
        skill_hit(*final(sk), *old(sk), dmg, crit, back, front),
        final(sk).buffed_by == old(sk).buffed_by,
        final(sk).debuffed_by == old(sk).debuffed_by,
        final(sk).buffed_by_support == old(sk).buffed_by_support,
        final(sk).debuffed_by_support == old(sk).debuffed_by_support,
{
    sk.total_damage = add_sat(sk.total_damage, dmg);
    if dmg > sk.max_damage {
        sk.max_damage = dmg;
    }
    sk.hits = add_sat(sk.hits, 1);
    sk.crits = bump(sk.crits, crit);
    sk.back_attacks = bump(sk.back_attacks, back);
    sk.front_attacks = bump(sk.front_attacks, front);
}

/// `m` with `d` added to the entry of each id in `ids`.
pub open spec fn credited(m: Map<i32, i64>, ids: Seq<i32>, d: i64) -> Map<i32, i64>
    decreases ids.len(),
{
    if ids.len() == 0 {
        m
    } else {
        let prior = credited(m, ids.drop_last(), d);
        let x = ids.last();
        prior.insert(x, if prior.contains_key(x) { sat(prior[x] + d) } else { d })
    }
}

fn credit(m: &mut HashMap<i32, i64>, ids: &Vec<i32>, d: i64)
    ensures
        final(m)@ == credited(old(m)@, ids@, d),
{
    let ghost start = m@;
    for k in 0..ids.len()
        invariant
            m@ == credited(start, ids@.take(k as int), d),
    {
        let x = ids[k];
        proof {
            assert(ids@.take(k + 1).drop_last() == ids@.take(k as int));
        }
        let v = match m.get(&x) {
            Some(prior) => add_sat(*prior, d),
            None => d,
        };
        m.insert(x, v);
    }
    proof {
        assert(ids@.take(ids@.len() as int) == ids@);
    }
}

/// A classification that makes a hit count as supported: a class skill,
/// identity or ability effect on the party whose source skill belongs to a
/// support class.
pub open spec fn supports(se: StatusEffect) -> bool {
    &&& se.source.skill is Some
    &&& (se.buff_category@ == "classskill"@ || se.buff_category@ == "identity"@
        || se.buff_category@ == "ability"@)
    &&& se.target == StatusEffectTarget::PARTY
    &&& crate::reference::support_class(se.source.skill->0.class_id)
}

fn supports_exec(se: &StatusEffect) -> (r: bool)
    ensures
        r == supports(*se),
{
    match &se.source.skill {
        Some(skill) => (is_text(&se.buff_category, "classskill") || is_text(&se.buff_category, "identity")
            || is_text(&se.buff_category, "ability")) && se.target == StatusEffectTarget::PARTY
            && is_support_class_id(skill.class_id),
        None => false,
    }
}

/// Classifies each id of `ids` into the cache (or marks it unknown), and
/// tells whether any of them is a support effect.
pub fn support_flag(
    cache: &mut HashMap<i32, StatusEffect>,
    unknown: &mut HashSet<i32>,
    ids: &Vec<i32>,
    store: &ReferenceData,
) -> (r: bool)
    ensures
        r == exists|k: int| 0 <= k < ids@.len() && final(cache)@.contains_key(#[trigger] ids@[k])
            && supports(final(cache)@[ids@[k]]),
        forall|x: i32| old(cache)@.contains_key(x) ==> #[trigger] final(cache)@.contains_key(x)
            && final(cache)@[x] == old(cache)@[x],
        forall|x: i32| #[trigger] final(cache)@.contains_key(x) && !old(cache)@.contains_key(x) ==>
            crate::reference::buff_known(store.skill_buffs@, x)
            && crate::reference::classifies(final(cache)@[x], store.skills@, store.skill_buffs@, x),
        forall|x: i32| old(unknown)@.contains(x) ==> #[trigger] final(unknown)@.contains(x),
{
    let mut flag = false;
    let ghost c0 = cache@;
    for k in 0..ids.len()
        invariant
            flag == exists|j: int| 0 <= j < k && cache@.contains_key(#[trigger] ids@[j])
                && supports(cache@[ids@[j]]),
            forall|x: i32| #[trigger] c0.contains_key(x) ==> cache@.contains_key(x) && cache@[x] == c0[x],
            forall|j: int| 0 <= j < k ==> cache@.contains_key(#[trigger] ids@[j]) || unknown@.contains(ids@[j]),
            forall|x: i32| #[trigger] cache@.contains_key(x) && !c0.contains_key(x) ==>
                crate::reference::buff_known(store.skill_buffs@, x)
                && crate::reference::classifies(cache@[x], store.skills@, store.skill_buffs@, x),
            forall|x: i32| old(unknown)@.contains(x) ==> #[trigger] unknown@.contains(x),
    {
        let id = ids[k];
        let ghost before = cache@;
        let ghost unknown_before = unknown@;
        if !unknown.contains(&id) && !cache.contains_key(&id) {
            match get_status_effect_data(store, id) {
                Some(se) => {
                    cache.insert(id, se);
                },
                None => {
                    unknown.insert(id);
                },
            }
        }
        assert forall|x: i32| #[trigger] before.contains_key(x) implies cache@.contains_key(x) && cache@[x] == before[x] by {}
        assert forall|x: i32| #[trigger] cache@.contains_key(x) && !before.contains_key(x) implies x == id by {}
        assert forall|x: i32| #[trigger] unknown_before.contains(x) implies unknown@.contains(x) by {}
        assert(cache@.contains_key(id) || unknown@.contains(id));
        assert forall|j: int| 0 <= j < k + 1 implies cache@.contains_key(#[trigger] ids@[j]) || unknown@.contains(ids@[j]) by {
            if j < k {
                if before.contains_key(ids@[j]) {
                } else {
                    assert(unknown_before.contains(ids@[j]));
                }
            }
        }
        let hit = match cache.get(&id) {
            Some(se) => supports_exec(se),
            None => false,
        };
        assert(flag == exists|j: int| 0 <= j < k && cache@.contains_key(#[trigger] ids@[j])
            && supports(cache@[ids@[j]])) by {
            if exists|j: int| 0 <= j < k && before.contains_key(#[trigger] ids@[j]) && supports(before[ids@[j]]) {
                let j = choose|j: int| 0 <= j < k && before.contains_key(#[trigger] ids@[j]) && supports(before[ids@[j]]);
                assert(before.contains_key(ids@[j]));
                assert(cache@.contains_key(ids@[j]));
            }
            if exists|j: int| 0 <= j < k && cache@.contains_key(#[trigger] ids@[j]) && supports(cache@[ids@[j]]) {
                let j = choose|j: int| 0 <= j < k && cache@.contains_key(#[trigger] ids@[j]) && supports(cache@[ids@[j]]);
                if !before.contains_key(ids@[j]) {
                    assert(ids@[j] == id);
                    assert(unknown_before.contains(id));
                    assert(false);
                } else {
                    assert(before.contains_key(ids@[j]));
                }
            }
        }
        flag = flag || hit;
        assert(flag == exists|j: int| 0 <= j < k + 1 && cache@.contains_key(#[trigger] ids@[j])
            && supports(cache@[ids@[j]])) by {
            if hit {
                assert(cache@.contains_key(ids@[k as int]) && supports(cache@[ids@[k as int]]));
            }
        }
    }
    flag
}

/// Whether any id of `ids` has a support classification in `cache`.
pub open spec fn any_support(cache: Map<i32, StatusEffect>, ids: Seq<i32>) -> bool {
    exists|k: int| 0 <= k < ids.len() && cache.contains_key(#[trigger] ids[k]) && supports(cache[ids[k]])
}

/// Adds `d` when `on` holds.
pub open spec fn plus_if(x: i64, on: bool, d: i64) -> i64 {
    if on {
        sat(x + d)
    } else {
        x
    }
}

fn add_if(x: i64, on: bool, d: i64) -> (r: i64)
    ensures
        r == plus_if(x, on, d),
{
    if on {
        add_sat(x, d)
    } else {
        x
    }
}

/// The buff-related parts of skill `n` after a hit of `dmg` on skill `o`.
pub open spec fn skill_buffs_after(n: Skill, o: Skill, player: bool, buffed: bool, debuffed: bool, src: Seq<i32>, tgt: Seq<i32>, dmg: i64) -> bool {
    if player {
        &&& n.buffed_by@ == credited(o.buffed_by@, src, dmg)
        &&& n.debuffed_by@ == credited(o.debuffed_by@, tgt, dmg)
        &&& n.buffed_by_support == plus_if(o.buffed_by_support, buffed, dmg)
        &&& n.debuffed_by_support == plus_if(o.debuffed_by_support, debuffed, dmg)
    } else {
        &&& n.buffed_by == o.buffed_by
        &&& n.debuffed_by == o.debuffed_by
        &&& n.buffed_by_support == o.buffed_by_support
        &&& n.debuffed_by_support == o.debuffed_by_support
    }
}

/// What a hit of `dmg` does to the entity that dealt it (`o` before, `n`
/// after), given whether a support buff and a support debuff were active.
pub open spec fn source_hit(
    n: Entity,
    o: Entity,
    dmg: i64,
    skill_id: i32,
    resolved: (Seq<char>, Seq<char>),
    crit: bool,
    back: bool,
    front: bool,
    buffed: bool,
    debuffed: bool,
    src: Seq<i32>,
    tgt: Seq<i32>,
) -> bool {
    let player = o.entity_type == EntityType::PLAYER;
    let k = chosen_skill(o.skills@, skill_id, resolved.0);
    &&& n.name == o.name
    &&& n.npc_id == o.npc_id
    &&& n.entity_type == o.entity_type
    &&& n.class == o.class
    &&& n.class_id == o.class_id
    &&& n.gear_score == o.gear_score
    &&& n.current_hp == o.current_hp
    &&& n.max_hp == o.max_hp
    &&& n.is_dead == o.is_dead
    &&& n.damage_stats.damage_dealt == sat(o.damage_stats.damage_dealt + dmg)
    &&& n.damage_stats.damage_taken == o.damage_stats.damage_taken
    &&& n.damage_stats.deaths == o.damage_stats.deaths
    &&& n.damage_stats.death_time == o.damage_stats.death_time
    &&& n.damage_stats.dps == o.damage_stats.dps
    &&& n.skill_stats.hits == sat(o.skill_stats.hits + 1)
    &&& n.skill_stats.crits == (if crit { sat(o.skill_stats.crits + 1) } else { o.skill_stats.crits })
    &&& n.skill_stats.back_attacks == (if back { sat(o.skill_stats.back_attacks + 1) } else { o.skill_stats.back_attacks })
    &&& n.skill_stats.front_attacks == (if front { sat(o.skill_stats.front_attacks + 1) } else { o.skill_stats.front_attacks })
    &&& n.skill_stats.casts == o.skill_stats.casts
    &&& n.skill_stats.counters == o.skill_stats.counters
    &&& if player {
        &&& n.damage_stats.buffed_by@ == credited(o.damage_stats.buffed_by@, src, dmg)
        &&& n.damage_stats.debuffed_by@ == credited(o.damage_stats.debuffed_by@, tgt, dmg)
        &&& n.damage_stats.buffed_by_support == plus_if(o.damage_stats.buffed_by_support, buffed, dmg)
        &&& n.damage_stats.debuffed_by_support == plus_if(o.damage_stats.debuffed_by_support, debuffed, dmg)
    } else {
        &&& n.damage_stats.buffed_by == o.damage_stats.buffed_by
        &&& n.damage_stats.debuffed_by == o.damage_stats.debuffed_by
        &&& n.damage_stats.buffed_by_support == o.damage_stats.buffed_by_support
        &&& n.damage_stats.debuffed_by_support == o.damage_stats.debuffed_by_support
    }
    &&& if k >= 0 {
        &&& n.skills@ == o.skills@.update(k, n.skills@[k])
        &&& skill_hit(n.skills@[k], o.skills@[k], dmg, crit, back, front)
        &&& skill_buffs_after(n.skills@[k], o.skills@[k], player, buffed, debuffed, src, tgt, dmg)
    } else {
        let m = n.skills@.last();
        &&& n.skills@.len() == o.skills@.len() + 1
        &&& n.skills@.drop_last() == o.skills@
        &&& m.id == skill_id
        &&& (m.name@, m.icon@) == resolved
        &&& m.casts == 1
        &&& m.dps == 0
        &&& m.total_damage == dmg
        &&& m.max_damage == (if dmg > 0 { dmg } else { 0 })
        &&& m.hits == 1
        &&& m.crits == (if crit { 1i64 } else { 0i64 })
        &&& m.back_attacks == (if back { 1i64 } else { 0i64 })
        &&& m.front_attacks == (if front { 1i64 } else { 0i64 })
        &&& m.buffed_by_support == (if player { plus_if(0, buffed, dmg) } else { 0 })
        &&& m.debuffed_by_support == (if player { plus_if(0, debuffed, dmg) } else { 0 })
        &&& m.buffed_by@ == (if player { credited(Map::empty(), src, dmg) } else { Map::empty() })
        &&& m.debuffed_by@ == (if player { credited(Map::empty(), tgt, dmg) } else { Map::empty() })
    }
}

/// What a hit by a source of type `ty` does to the encounter totals of
/// damage dealt, given the source's dealt damage after it.
pub open spec fn dealt_totals(n: EncounterDamageStats, o: EncounterDamageStats, player: bool, dmg: i64, dealt: i64) -> bool {
    &&& n.total_damage_taken == o.total_damage_taken
    &&& n.top_damage_taken == o.top_damage_taken
    &&& n.dps == o.dps
    &&& n.most_damage_taken_entity == o.most_damage_taken_entity
    &&& if player {
        &&& n.total_damage_dealt == sat(o.total_damage_dealt + dmg)
        &&& n.top_damage_dealt == (if dealt > o.top_damage_dealt { dealt } else { o.top_damage_dealt })
    } else {
        &&& n.total_damage_dealt == o.total_damage_dealt
        &&& n.top_damage_dealt == o.top_damage_dealt
        &&& n.buffs == o.buffs
        &&& n.debuffs == o.debuffs
        &&& n.unknown_buffs == o.unknown_buffs
    }
}

/// Records on the dealing entity a hit of `dmg`: the skill it counts for
/// (found by id, else by name, else made from the reference tables), the
/// entity's counters and, for a player, the encounter totals and what buffs
/// contributed.
pub fn hit_source(
    s: &mut Entity,
    stats: &mut EncounterDamageStats,
    dmg: i64,
    skill_id: i32,
    skill_name: &String,
    skill_effect_id: i32,
    crit: bool,
    back: bool,
    front: bool,
    src: &Vec<i32>,
    tgt: &Vec<i32>,
    store: &ReferenceData,
)
    ensures
        source_hit(
            *final(s),
            *old(s),
            dmg,
            skill_id,
            crate::reference::skill_name_icon(store.skills@, store.skill_effects@, skill_id, skill_effect_id, skill_name@),
            crit,
            back,
            front,
            any_support(final(stats).buffs@, src@),
            any_support(final(stats).debuffs@, tgt@),
            src@,
            tgt@,
        ),
        dealt_totals(*final(stats), *old(stats), old(s).entity_type == EntityType::PLAYER, dmg, final(s).damage_stats.damage_dealt),
        final(s).id == old(s).id,
        final(s).last_update == old(s).last_update,
{
    let ghost o = *s;
    let (name, icon) = get_skill_name_and_icon(store, skill_id, skill_effect_id, skill_name.clone());
    proof {
        lemma_skill_from_range(s.skills@, skill_id, name@, 0);
    }
    let k: usize = match find_skill(&s.skills, skill_id, &name) {
        Some(k) => k,
        None => {
            s.skills.push(Skill::new(skill_id, name, icon, 1));
            s.skills.len() - 1
        },
    };
    let mut sk = Skill::new(0, String::new(), String::new(), 0);
    s.skills.set_and_swap(k, &mut sk);
    let ghost sk0 = sk;
    hit_skill(&mut sk, dmg, crit, back, front);
    s.damage_stats.damage_dealt = add_sat(s.damage_stats.damage_dealt, dmg);
    s.skill_stats.hits = add_sat(s.skill_stats.hits, 1);
    s.skill_stats.crits = bump(s.skill_stats.crits, crit);
    s.skill_stats.back_attacks = bump(s.skill_stats.back_attacks, back);
    s.skill_stats.front_attacks = bump(s.skill_stats.front_attacks, front);
    if s.entity_type == EntityType::PLAYER {
        stats.total_damage_dealt = add_sat(stats.total_damage_dealt, dmg);
        if s.damage_stats.damage_dealt > stats.top_damage_dealt {
            stats.top_damage_dealt = s.damage_stats.damage_dealt;
        }
        let buffed = support_flag(&mut stats.buffs, &mut stats.unknown_buffs, src, store);
        let debuffed = support_flag(&mut stats.debuffs, &mut stats.unknown_buffs, tgt, store);
        sk.buffed_by_support = add_if(sk.buffed_by_support, buffed, dmg);
        sk.debuffed_by_support = add_if(sk.debuffed_by_support, debuffed, dmg);
        s.damage_stats.buffed_by_support = add_if(s.damage_stats.buffed_by_support, buffed, dmg);
        s.damage_stats.debuffed_by_support = add_if(s.damage_stats.debuffed_by_support, debuffed, dmg);
        credit(&mut sk.buffed_by, src, dmg);
        credit(&mut s.damage_stats.buffed_by, src, dmg);
        credit(&mut sk.debuffed_by, tgt, dmg);
        credit(&mut s.damage_stats.debuffed_by, tgt, dmg);
    }
    s.skills.set(k, sk);
    proof {
        let player = o.entity_type == EntityType::PLAYER;
        let buffed = any_support(stats.buffs@, src@);
        let debuffed = any_support(stats.debuffs@, tgt@);
        assert(s.damage_stats.damage_dealt == sat(o.damage_stats.damage_dealt + dmg));
        if chosen_skill(o.skills@, skill_id, crate::reference::skill_name_icon(store.skills@, store.skill_effects@, skill_id, skill_effect_id, skill_name@).0) < 0 {
            assert(s.skills@.drop_last() =~= o.skills@);
            let m = s.skills@.last();
            assert(m == sk);
            assert(m.id == skill_id);
            assert(m.total_damage == dmg);
        } else {
            assert(s.skills@ =~= o.skills@.update(k as int, s.skills@[k as int]));
            assert(skill_hit(s.skills@[k as int], o.skills@[k as int], dmg, crit, back, front));
            assert(skill_buffs_after(s.skills@[k as int], o.skills@[k as int], player, buffed, debuffed, src@, tgt@, dmg));
        }
    }
}

/// What a hit of `dmg` does to the entity that took it.
pub open spec fn target_hit(n: Entity, o: Entity, dmg: i64) -> bool {
    &&& n.name == o.name
    &&& n.npc_id == o.npc_id
    &&& n.entity_type == o.entity_type
    &&& n.class == o.class
    &&& n.class_id == o.class_id
    &&& n.gear_score == o.gear_score
    &&& n.is_dead == o.is_dead
    &&& n.skills == o.skills
    &&& n.skill_stats == o.skill_stats
    &&& n.damage_stats.damage_taken == sat(o.damage_stats.damage_taken + dmg)
    &&& n.damage_stats.damage_dealt == o.damage_stats.damage_dealt
    &&& n.damage_stats.buffed_by == o.damage_stats.buffed_by
    &&& n.damage_stats.debuffed_by == o.damage_stats.debuffed_by
    &&& n.damage_stats.buffed_by_support == o.damage_stats.buffed_by_support
    &&& n.damage_stats.debuffed_by_support == o.damage_stats.debuffed_by_support
    &&& n.damage_stats.deaths == o.damage_stats.deaths
    &&& n.damage_stats.death_time == o.damage_stats.death_time
    &&& n.damage_stats.dps == o.damage_stats.dps
}

/// The damage a hit counts for: against a target that is not a player and
/// whose reported hp went below zero, the overkill is taken off.
pub open spec fn counted_damage(damage: i64, current_hp: i64, target_type: EntityType) -> i64 {
    if target_type != EntityType::PLAYER && current_hp < 0 {
        sat(damage + current_hp)
    } else {
        damage
    }
}

/// Hit points that mark a few bosses which the tables leave unclassified.
pub open spec fn boss_hp_marker(max_hp: i64) -> bool {
    max_hp > 1865513010 || max_hp == 529402339 || max_hp == 285632921 || max_hp == 999_999_999
}

/// The tracked boss after a hit on target `name`: a boss target is tracked,
/// and so is an unclassified one with a known boss's hit points.
pub open spec fn boss_after_hit(boss: Seq<char>, ty: EntityType, max_hp: i64, name: Seq<char>) -> Seq<char> {
    if ty == EntityType::BOSS {
        name
    } else if ty == EntityType::UNKNOWN && boss_hp_marker(max_hp) {
        name
    } else {
        boss
    }
}

/// The entity that a damage record finds under `name` before the hit: the
/// one of that name, else a new one with the record's id (and, for the
/// target, its hp).
pub open spec fn prior_entity(p: Entity, o: Encounter, name: Seq<char>, id: Seq<char>, hp: i64, max_hp: i64) -> bool {
    if o.has(name) {
        p == o.get(name)
    } else {
        &&& p.name@ == name
        &&& p.id@ == id
        &&& p.npc_id == 0
        &&& p.entity_type == EntityType::UNKNOWN
        &&& p.class_id == 0
        &&& p.class@.len() == 0
        &&& p.gear_score == 0
        &&& p.current_hp == hp
        &&& p.max_hp == max_hp
        &&& !p.is_dead
        &&& p.last_update == 0
        &&& p.is_blank()
    }
}

fn ensure_entity(encounter: &mut Encounter, id: &String, name: &String, hp: i64, max_hp: i64) -> (r: usize)
    requires
        old(encounter).wf(),
    ensures
        final(encounter).wf(),
        crate::handlers::same_frame(*final(encounter), *old(encounter)),
        r < final(encounter).entities@.len(),
        final(encounter).entities@[r as int].name@ == name@,
        final(encounter).has(name@),
        prior_entity(final(encounter).entities@[r as int], *old(encounter), name@, id@, hp, max_hp),
        old(encounter).has(name@) ==> final(encounter).entities@ == old(encounter).entities@,
        !old(encounter).has(name@) ==> final(encounter).entities@ == old(encounter).entities@.push(final(encounter).entities@[r as int]),
{
    match find_entity(&encounter.entities, name) {
        Some(i) => {
            proof {
                lemma_index_of(encounter.entities@, i as int);
            }
            i
        },
        None => {
            let mut e = Entity::new(id.clone(), name.clone());
            e.current_hp = hp;
            e.max_hp = max_hp;
            proof {
                crate::model::lemma_push_new_name(encounter.entities@, e);
            }
            encounter.entities.push(e);
            proof {
                lemma_index_of(encounter.entities@, encounter.entities@.len() - 1);
            }
            encounter.entities.len() - 1
        },
    }
}

/// The entity records of a hit between two distinct entities.
pub open spec fn hit_recorded(
    o: Encounter,
    f: Encounter,
    timestamp: i64,
    rec: DamageRecord,
    skill_id: i32,
    skill_name: Seq<char>,
    crit: bool,
    back: bool,
    front: bool,
    store: ReferenceData,
    p: Entity,
    q: Entity,
) -> bool {
    let sn = rec.source_name@;
    let tn = rec.target_name@;
    let dmg = counted_damage(rec.damage, rec.current_hp, q.entity_type);
    let s = f.get(sn);
    let t = f.get(tn);
    let st = f.encounter_damage_stats;
    let os = o.encounter_damage_stats;
    &&& prior_entity(p, o, sn, rec.source_id@, 0, 0)
    &&& prior_entity(q, o, tn, rec.target_id@, rec.current_hp, rec.max_hp)
    &&& f.has(sn) && f.has(tn)
    &&& source_hit(s, p, dmg, skill_id,
        crate::reference::skill_name_icon(store.skills@, store.skill_effects@, skill_id, rec.skill_effect_id, skill_name),
        crit, back, front, any_support(st.buffs@, rec.effects_on_source@),
        any_support(st.debuffs@, rec.effects_on_target@), rec.effects_on_source@, rec.effects_on_target@)
    &&& s.id@ == rec.source_id@
    &&& s.last_update == timestamp
    &&& target_hit(t, q, dmg)
    &&& t.id@ == rec.target_id@
    &&& t.current_hp == rec.current_hp
    &&& t.max_hp == rec.max_hp
    &&& t.last_update == timestamp
    &&& (p.entity_type == EntityType::PLAYER ==> st.total_damage_dealt == sat(os.total_damage_dealt + dmg)
        && st.top_damage_dealt == (if s.damage_stats.damage_dealt > os.top_damage_dealt { s.damage_stats.damage_dealt } else { os.top_damage_dealt }))
    &&& (p.entity_type != EntityType::PLAYER ==> st.total_damage_dealt == os.total_damage_dealt
        && st.top_damage_dealt == os.top_damage_dealt && st.buffs == os.buffs && st.debuffs == os.debuffs
        && st.unknown_buffs == os.unknown_buffs)
    &&& (q.entity_type == EntityType::PLAYER ==> st.total_damage_taken == sat(os.total_damage_taken + dmg)
        && st.top_damage_taken == (if t.damage_stats.damage_taken > os.top_damage_taken { t.damage_stats.damage_taken } else { os.top_damage_taken }))
    &&& (q.entity_type != EntityType::PLAYER ==> st.total_damage_taken == os.total_damage_taken
        && st.top_damage_taken == os.top_damage_taken)
    &&& st.dps == os.dps
    &&& st.most_damage_taken_entity == os.most_damage_taken_entity
    &&& f.current_boss_name@ == boss_after_hit(o.current_boss_name@, q.entity_type, rec.max_hp, tn)
    &&& forall|n: Seq<char>| n != sn && n != tn && #[trigger] o.has(n) ==> f.has(n) && f.get(n) == o.get(n)
    &&& forall|n: Seq<char>| #[trigger] f.has(n) ==> o.has(n) || n == sn || n == tn
}

/// A table that keeps every name of `mid`, with a boss that is either the
/// old one or a name of the table, keeps the boss named.
proof fn lemma_boss_survives(mid: Encounter, f: Encounter, target: Seq<char>)
    requires
        mid.wf(),
        forall|n: Seq<char>| #[trigger] has_name(f.entities@, n) == has_name(mid.entities@, n),
        has_name(mid.entities@, target),
        f.current_boss_name@ == mid.current_boss_name@ || f.current_boss_name@ == target,
    ensures
        f.current_boss_name@.len() > 0 ==> has_name(f.entities@, f.current_boss_name@),
{
    let b = f.current_boss_name@;
    if b.len() > 0 {
        assert(has_name(mid.entities@, b));
    }
}

/// What recording one hit does to an encounter: the fight starts if it had
/// not, and between two distinct entities the hit is recorded as
/// `hit_recorded` says.
pub open spec fn damage_applied(
    o: Encounter,
    f: Encounter,
    timestamp: i64,
    rec: DamageRecord,
    skill_id: i32,
    skill_name: Seq<char>,
    crit: bool,
    back: bool,
    front: bool,
    store: ReferenceData,
) -> bool {
    &&& f.fight_start == (if o.fight_start == 0 { timestamp } else { o.fight_start })
    &&& f.last_combat_packet == timestamp
    &&& f.local_player == o.local_player
    &&& f.duration == o.duration
    &&& f.reset == o.reset
    &&& f.has(rec.source_name@)
    &&& f.has(rec.target_name@)
    &&& rec.source_name@ != rec.target_name@ ==> exists|p: Entity, q: Entity|
        hit_recorded(o, f, timestamp, rec, skill_id, skill_name, crit, back, front, store, p, q)
    &&& rec.source_name@ == rec.target_name@ ==> exists|p: Entity| #[trigger] self_hit_recorded(o, f, timestamp, rec, p)
}

/// The records of a hit whose source and target share a name: the one
/// entity `p` found under it both deals and takes the hit, and ends with the
/// target's id and hp.
pub open spec fn self_hit_recorded(o: Encounter, f: Encounter, timestamp: i64, rec: DamageRecord, p: Entity) -> bool {
    let n = rec.source_name@;
    let dmg = counted_damage(rec.damage, rec.current_hp, p.entity_type);
    let e = f.get(n);
    &&& prior_entity(p, o, n, rec.source_id@, 0, 0)
    &&& e.name == p.name
    &&& e.entity_type == p.entity_type
    &&& e.id@ == rec.target_id@
    &&& e.current_hp == rec.current_hp
    &&& e.max_hp == rec.max_hp
    &&& e.last_update == timestamp
    &&& e.damage_stats.damage_dealt == sat(p.damage_stats.damage_dealt + dmg)
    &&& e.damage_stats.damage_taken == sat(p.damage_stats.damage_taken + dmg)
    &&& e.skill_stats.hits == sat(p.skill_stats.hits + 1)
    &&& f.current_boss_name@ == boss_after_hit(o.current_boss_name@, p.entity_type, rec.max_hp, n)
    &&& forall|m: Seq<char>| m != n && #[trigger] o.has(m) ==> f.has(m) && f.get(m) == o.get(m)
}

#[verifier::rlimit(100)]
#[verifier::spinoff_prover]
/// Records one hit of a damage record: creates the entities it names if
/// needed, starts the fight, and updates both entities, the skill, the
/// encounter totals and the tracked boss.
pub fn apply_damage(
    encounter: &mut Encounter,
    timestamp: i64,
    rec: &DamageRecord,
    skill_id: i32,
    skill_name: &String,
    crit: bool,
    back: bool,
    front: bool,
    store: &ReferenceData,
)
    requires
        old(encounter).wf(),
    ensures
        final(encounter).wf(),
        damage_applied(*old(encounter), *final(encounter), timestamp, *rec, skill_id, skill_name@, crit, back, front, *store),
{
    let ghost o = *encounter;
    let si = ensure_entity(encounter, &rec.source_id, &rec.source_name, 0, 0);
    let ghost o1 = *encounter;
    let ghost p = encounter.entities@[si as int];
    let ti = ensure_entity(encounter, &rec.target_id, &rec.target_name, rec.current_hp, rec.max_hp);
    let ghost mid = *encounter;
    let ghost q = encounter.entities@[ti as int];
    proof {
        if !o.has(rec.source_name@) {
            crate::model::lemma_push_new_name(o.entities@, p);
        }
        if !o1.has(rec.target_name@) {
            crate::model::lemma_push_new_name(o1.entities@, q);
        }
    }
    if encounter.fight_start == 0 {
        encounter.fight_start = timestamp;
    }
    encounter.last_combat_packet = timestamp;
    if si == ti {
        let mut e = Entity::new(String::new(), String::new());
        encounter.entities.set_and_swap(si, &mut e);
        let dmg = if e.entity_type != EntityType::PLAYER && rec.current_hp < 0 {
            add_sat(rec.damage, rec.current_hp)
        } else {
            rec.damage
        };
        e.id = rec.source_id.clone();
        e.last_update = timestamp;
        hit_source(&mut e, &mut encounter.encounter_damage_stats, dmg, skill_id, skill_name,
            rec.skill_effect_id, crit, back, front, &rec.effects_on_source, &rec.effects_on_target, store);
        e.id = rec.target_id.clone();
        e.current_hp = rec.current_hp;
        e.max_hp = rec.max_hp;
        e.damage_stats.damage_taken = add_sat(e.damage_stats.damage_taken, dmg);
        if e.entity_type == EntityType::PLAYER {
            encounter.encounter_damage_stats.total_damage_taken = add_sat(encounter.encounter_damage_stats.total_damage_taken, dmg);
            if e.damage_stats.damage_taken > encounter.encounter_damage_stats.top_damage_taken {
                encounter.encounter_damage_stats.top_damage_taken = e.damage_stats.damage_taken;
            }
        }
        if e.entity_type == EntityType::BOSS || (e.entity_type == EntityType::UNKNOWN && (e.max_hp > 1865513010
            || e.max_hp == 529402339 || e.max_hp == 285632921 || e.max_hp == 999_999_999)) {
            encounter.current_boss_name = e.name.clone();
        }
        proof {
            crate::model::lemma_update_same_name(mid.entities@, si as int, e);
        }
        encounter.entities.set(si, e);
        proof {
            assert(encounter.entities@ =~= mid.entities@.update(si as int, e));
            lemma_boss_survives(mid, *encounter, e.name@);
            lemma_index_of(mid.entities@, si as int);
            assert(encounter.get(rec.source_name@) == e);
            assert forall|m: Seq<char>| m != rec.source_name@ && #[trigger] o.has(m) implies encounter.has(m)
                && encounter.get(m) == o.get(m) by {
                assert(o1.has(m) && o1.get(m) == o.get(m));
            }
            assert(self_hit_recorded(o, *encounter, timestamp, *rec, p));
        }
    } else {
        let mut sv = Entity::new(String::new(), String::new());
        encounter.entities.set_and_swap(si, &mut sv);
        let mut tv = Entity::new(String::new(), String::new());
        encounter.entities.set_and_swap(ti, &mut tv);
        let dmg = if tv.entity_type != EntityType::PLAYER && rec.current_hp < 0 {
            add_sat(rec.damage, rec.current_hp)
        } else {
            rec.damage
        };
        sv.id = rec.source_id.clone();
        sv.last_update = timestamp;
        let ghost stats0 = encounter.encounter_damage_stats;
        hit_source(&mut sv, &mut encounter.encounter_damage_stats, dmg, skill_id, skill_name,
            rec.skill_effect_id, crit, back, front, &rec.effects_on_source, &rec.effects_on_target, store);
        tv.id = rec.target_id.clone();
        tv.current_hp = rec.current_hp;
        tv.max_hp = rec.max_hp;
        tv.last_update = timestamp;
        tv.damage_stats.damage_taken = add_sat(tv.damage_stats.damage_taken, dmg);
        if tv.entity_type == EntityType::PLAYER {
            encounter.encounter_damage_stats.total_damage_taken = add_sat(encounter.encounter_damage_stats.total_damage_taken, dmg);
            if tv.damage_stats.damage_taken > encounter.encounter_damage_stats.top_damage_taken {
                encounter.encounter_damage_stats.top_damage_taken = tv.damage_stats.damage_taken;
            }
        }
        if tv.entity_type == EntityType::BOSS || (tv.entity_type == EntityType::UNKNOWN && (tv.max_hp > 1865513010
            || tv.max_hp == 529402339 || tv.max_hp == 285632921 || tv.max_hp == 999_999_999)) {
            encounter.current_boss_name = tv.name.clone();
        }
        let ghost e1 = mid.entities@.update(si as int, sv);
        proof {
            crate::model::lemma_update_same_name(mid.entities@, si as int, sv);
            crate::model::lemma_update_same_name(e1, ti as int, tv);
        }
        encounter.entities.set(si, sv);
        encounter.entities.set(ti, tv);
        proof {
            assert(encounter.entities@ =~= e1.update(ti as int, tv));
            assert forall|n: Seq<char>| #[trigger] has_name(encounter.entities@, n) == has_name(mid.entities@, n) by {
                assert(has_name(e1, n) == has_name(mid.entities@, n));
            }
            lemma_index_of(mid.entities@, ti as int);
            lemma_boss_survives(mid, *encounter, rec.target_name@);
            assert(encounter.entities@ =~= e1.update(ti as int, tv));
            lemma_index_of(mid.entities@, si as int);
            lemma_index_of(mid.entities@, ti as int);
            assert(mid.get(rec.source_name@) == p);
            assert(mid.get(rec.target_name@) == q);
            assert(encounter.get(rec.source_name@) == sv);
            assert(encounter.get(rec.target_name@) == tv);
            if o.has(rec.target_name@) {
                assert(q == o.get(rec.target_name@));
            }
            assert(prior_entity(p, o, rec.source_name@, rec.source_id@, 0, 0));
            assert(prior_entity(q, o, rec.target_name@, rec.target_id@, rec.current_hp, rec.max_hp));
            let f = *encounter;
            let sn = rec.source_name@;
            let tn = rec.target_name@;
            assert forall|n: Seq<char>| n != sn && n != tn && #[trigger] o.has(n) implies f.has(n) && f.get(n) == o.get(n) by {
                assert(o1.has(n) && o1.get(n) == o.get(n));
                assert(mid.has(n) && mid.get(n) == o1.get(n));
                assert(has_name(e1, n) && crate::model::entity_named(e1, n) == mid.get(n));
            }
            assert forall|n: Seq<char>| #[trigger] f.has(n) implies o.has(n) || n == sn || n == tn by {
                assert(has_name(e1, n));
                assert(mid.has(n));
                if n != tn {
                    assert(o1.has(n));
                }
            }
            assert(hit_recorded(o, *encounter, timestamp, *rec, skill_id, skill_name@, crit, back, front, *store, p, q));
        }
    }
}

/// The skill a damage record counts for: its own, or its effect's when it
/// carries no skill id but an effect id.
pub open spec fn record_skill(rec: DamageRecord) -> (i32, Seq<char>) {
    if rec.skill_id == 0 && rec.skill_effect_id != 0 {
        (rec.skill_effect_id, rec.skill_effect@)
    } else {
        (rec.skill_id, rec.skill_name@)
    }
}

/// Whether a damage record's fields decode: enough of them, and a hit flag
/// and hit option that the modifier field spells.
pub open spec fn damage_decodes(line: Seq<String>) -> bool {
    line.len() >= 13 && hit_flag_of(hex_i32_field(line[11]@)) is Some
        && hit_option_of(hex_i32_field(line[11]@)) is Some
}

/// What a decodable damage record does to the encounter `mid` that the
/// pending reset (if any) left.
pub open spec fn damage_outcome(mid: Encounter, f: Encounter, timestamp: i64, rec: DamageRecord, store: ReferenceData) -> bool {
    let flag = hit_flag_of(rec.damage_mod)->0;
    let opt = hit_option_of(rec.damage_mod)->0;
    let (sid, sname) = record_skill(rec);
    if flag == HitFlag::INVINCIBLE || (sname == "Bleed"@ && flag == HitFlag::DAMAGE_SHARE) {
        f == mid
    } else {
        damage_applied(mid, f, timestamp, rec, sid, sname,
            flag == HitFlag::CRITICAL || flag == HitFlag::DOT_CRITICAL,
            opt == HitOption::BACK_ATTACK, opt == HitOption::FRONTAL_ATTACK, store)
    }
}

/// What a damage record does, as `on_damage` states it.
pub open spec fn damage_handled(oreset: bool, freset: bool, o: Encounter, f: Encounter, timestamp: i64, line: Seq<String>, store: ReferenceData) -> bool {
    &&& (f.wf())
    &&& (!damage_decodes(line) ==> f == o && freset == oreset)
    &&& (damage_decodes(line) ==> !freset && exists|mid: Encounter, rec: DamageRecord| {
        &&& read_from(rec, line)
        &&& if oreset {
            is_soft_reset_of(mid, o)
        } else {
            mid == o
        }
        &&& damage_outcome(mid, f, timestamp, rec, store)
    })
}

/// Handles a damage record: fields source id, source name, skill id, skill
/// name, skill-effect id, skill effect, target id, target name, damage, hex
/// modifier, current hp, max hp, and optionally the buff lists on target and
/// source. A pending reset is applied first; invincible hits and the
/// damage-share echoes of bleeds change nothing more.
pub fn on_damage(reset: &mut bool, encounter: &mut Encounter, timestamp: i64, line: &Vec<String>, store: &ReferenceData)
    requires
        old(encounter).wf(),
    ensures
        damage_handled(*old(reset), *final(reset), *old(encounter), *final(encounter), timestamp, line@, *store),
{
    if line.len() < 13 {
        return;
    }
    let rec = read_damage(line);
    let flag = match decode_hit_flag(rec.damage_mod) {
        Some(f) => f,
        None => {
            return;
        },
    };
    let opt = match decode_hit_option(rec.damage_mod) {
        Some(o) => o,
        None => {
            return;
        },
    };
    if *reset {
        soft_reset(encounter);
        *reset = false;
        encounter.reset = false;
    }
    let ghost mid = *encounter;
    if flag == HitFlag::INVINCIBLE {
        assert(damage_outcome(mid, *encounter, timestamp, rec, *store));
        return;
    }
    let (skill_id, skill_name) = if rec.skill_id == 0 && rec.skill_effect_id != 0 {
        (rec.skill_effect_id, rec.skill_effect.clone())
    } else {
        (rec.skill_id, rec.skill_name.clone())
    };
    if is_text(&skill_name, "Bleed") && flag == HitFlag::DAMAGE_SHARE {
        assert(damage_outcome(mid, *encounter, timestamp, rec, *store));
        return;
    }
    let crit = flag == HitFlag::CRITICAL || flag == HitFlag::DOT_CRITICAL;
    let back = opt == HitOption::BACK_ATTACK;
    let front = opt == HitOption::FRONTAL_ATTACK;
    apply_damage(encounter, timestamp, &rec, skill_id, &skill_name, crit, back, front, store);
    assert(damage_outcome(mid, *encounter, timestamp, rec, *store));
}

} // verus!
