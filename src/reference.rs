use std::collections::HashMap;
use vstd::prelude::*;

use crate::text::is_text;

verus! {

broadcast use vstd::std_specs::hash::group_hash_axioms;

/// One NPC of the reference tables.
pub struct Npc {
    pub id: i32,
    pub name: String,
    pub grade: String,
}

/// One skill of the reference tables.
pub struct SkillData {
    pub id: i32,
    pub name: String,
    pub desc: String,
    pub class_id: i32,
    pub icon: String,
    pub summon_source_skill: Option<i32>,
    pub source_skill: Option<i32>,
}

impl SkillData {
    pub fn duplicate(&self) -> (r: SkillData)
        ensures
            r == *self,
    {
        SkillData {
            id: self.id,
            name: self.name.clone(),
            desc: self.desc.clone(),
            class_id: self.class_id,
            icon: self.icon.clone(),
            summon_source_skill: self.summon_source_skill,
            source_skill: self.source_skill,
        }
    }
}

/// One skill effect of the reference tables.
pub struct SkillEffectData {
    pub id: i32,
    pub comment: String,
    pub source_skill: Option<i32>,
    pub item_name: Option<String>,
    pub item_desc: Option<String>,
    pub icon: Option<String>,
}

/// One buff or debuff of the reference tables.
pub struct SkillBuffData {
    pub id: i32,
    pub name: String,
    pub desc: String,
    pub icon: String,
    pub icon_show_type: String,
    pub duration: i32,
    pub category: String,
    pub buff_category: String,
    pub target: String,
    pub unique_group: i32,
    pub overlap_priority: i32,
    pub buff_type: String,
    pub source_skill: Option<i32>,
    pub set_name: Option<String>,
}

/// The read-only lookup tables that identifiers are resolved against.
pub struct ReferenceData {
    pub npcs: HashMap<i32, Npc>,
    pub skills: HashMap<i32, SkillData>,
    pub skill_effects: HashMap<i32, SkillEffectData>,
    pub skill_buffs: HashMap<i32, SkillBuffData>,
}

impl ReferenceData {
    /// Tables with no records.
    pub fn empty() -> (r: ReferenceData)
        ensures
            r.npcs@ == Map::<i32, Npc>::empty(),
            r.skills@ == Map::<i32, SkillData>::empty(),
            r.skill_effects@ == Map::<i32, SkillEffectData>::empty(),
            r.skill_buffs@ == Map::<i32, SkillBuffData>::empty(),
    {
        ReferenceData {
            npcs: HashMap::new(),
            skills: HashMap::new(),
            skill_effects: HashMap::new(),
            skill_buffs: HashMap::new(),
        }
    }
}

#[derive(Clone, Copy, Debug, PartialEq, Eq, Structural)]
pub enum StatusEffectTarget {
    OTHER,
    PARTY,
    SELF,
}

pub const BUFF_TYPE_NONE: u32 = 0;
pub const BUFF_TYPE_DMG: u32 = 1;
pub const BUFF_TYPE_MOVESPEED: u32 = 8;
pub const BUFF_TYPE_RESOURCE: u32 = 64;
pub const BUFF_TYPE_COOLDOWN: u32 = 128;
pub const BUFF_TYPE_STAGGER: u32 = 256;

/// Where a status effect comes from.
pub struct StatusEffectSource {
    pub name: String,
    pub desc: String,
    pub icon: String,
    pub skill: Option<SkillData>,
    pub set_name: Option<String>,
}

/// The classification of one buff or debuff identifier.
pub struct StatusEffect {
    pub target: StatusEffectTarget,
    pub category: String,
    pub buff_category: String,
    pub buff_type: u32,
    pub unique_group: i32,
    pub source: StatusEffectSource,
}

/// Damage sources of these character classes count as support.
pub open spec fn support_class(class_id: i32) -> bool {
    class_id == 105 || class_id == 204 || class_id == 603
}

pub fn is_support_class_id(class_id: i32) -> (r: bool)
    ensures
        r == support_class(class_id),
{
    class_id == 105 || class_id == 204 || class_id == 603
}

/// An NPC grade that marks a boss.
pub open spec fn boss_grade(g: Seq<char>) -> bool {
    g == "boss"@ || g == "raid"@ || g == "epic_raid"@ || g == "commander"@
}

pub fn is_boss_grade(g: &String) -> (r: bool)
    ensures
        r == boss_grade(g@),
{
    is_text(g, "boss") || is_text(g, "raid") || is_text(g, "epic_raid") || is_text(g, "commander")
}

/// Whether the NPC table lists this NPC with a boss grade, if it lists it.
pub open spec fn npc_boss_tier(npcs: Map<i32, Npc>, npc_id: i32) -> Option<bool> {
    if npcs.contains_key(npc_id) {
        Some(boss_grade(npcs[npc_id].grade@))
    } else {
        None
    }
}

pub fn npc_tier(store: &ReferenceData, npc_id: i32) -> (r: Option<bool>)
    ensures
        r == npc_boss_tier(store.npcs@, npc_id),
{
    match store.npcs.get(&npc_id) {
        Some(npc) => Some(is_boss_grade(&npc.grade)),
        None => None,
    }
}

/// An identifier divided by ten, rounded down.
pub open spec fn floor_div10(x: i32) -> i32 {
    (x as int / 10) as i32
}

/// An identifier divided by ten, rounded toward zero.
pub open spec fn trunc_div10(x: i32) -> i32 {
    if x >= 0 {
        (x as int / 10) as i32
    } else {
        (-((-(x as int)) / 10)) as i32
    }
}

/// An identifier with its last decimal digit cleared.
pub open spec fn skill_family(x: i32) -> i32 {
    if x >= 0 {
        (x - x as int % 10) as i32
    } else {
        (-((-(x as int)) - (-(x as int)) % 10)) as i32
    }
}

fn floor_div10_exec(x: i32) -> (r: i32)
    ensures
        r == floor_div10(x),
{
    let w = x as i64;
    if w >= 0 {
        (w / 10) as i32
    } else {
        let n = -w;
        let q = (n + 9) / 10;
        assert(-q == (x as int) / 10) by (nonlinear_arith)
            requires
                n == -(x as int),
                n > 0,
                q == (n + 9) / 10,
        ;
        (-q) as i32
    }
}

fn trunc_div10_exec(x: i32) -> (r: i32)
    ensures
        r == trunc_div10(x),
{
    let w = x as i64;
    if w >= 0 {
        (w / 10) as i32
    } else {
        (-((-w) / 10)) as i32
    }
}

fn skill_family_exec(x: i32) -> (r: i32)
    ensures
        r == skill_family(x),
{
    let w = x as i64;
    if w >= 0 {
        (w - w % 10) as i32
    } else {
        let n = -w;
        (-(n - n % 10)) as i32
    }
}

pub open spec fn icon_or_empty(icon: Option<String>) -> Seq<char> {
    match icon {
        Some(i) => i@,
        None => Seq::empty(),
    }
}

/// The display name and icon of a skill looked up in the tables, or the
/// fallback name with no icon.
pub open spec fn skill_or_fallback(skills: Map<i32, SkillData>, id: i32, fallback: Seq<char>) -> (Seq<char>, Seq<char>) {
    if skills.contains_key(id) {
        (skills[id].name@, skills[id].icon@)
    } else {
        (fallback, Seq::empty())
    }
}

/// The display name and icon that a damage or cast record's skill resolves to.
pub open spec fn skill_name_icon(
    skills: Map<i32, SkillData>,
    effects: Map<i32, SkillEffectData>,
    skill_id: i32,
    effect_id: i32,
    fallback: Seq<char>,
) -> (Seq<char>, Seq<char>) {
    if skill_id == 0 && effect_id == 0 {
        ("Bleed"@, "buff_168.png"@)
    } else if skill_id == 0 {
        if !effects.contains_key(effect_id) {
            (fallback, Seq::empty())
        } else {
            let e = effects[effect_id];
            if e.item_name is Some {
                (e.item_name->0@, icon_or_empty(e.icon))
            } else {
                let cand = match e.source_skill {
                    Some(s) => s,
                    None => floor_div10(effect_id),
                };
                skill_or_fallback(skills, cand, e.comment@)
            }
        }
    } else {
        let found = if skills.contains_key(skill_id) {
            Some(skill_id)
        } else if skills.contains_key(skill_family(skill_id)) {
            Some(skill_family(skill_id))
        } else {
            None
        };
        match found {
            None => (fallback, Seq::empty()),
            Some(k) => {
                let s = skills[k];
                match s.summon_source_skill {
                    Some(src) => if skills.contains_key(src) {
                        (skills[src].name@ + " (Summon)"@, skills[src].icon@)
                    } else {
                        (fallback, Seq::empty())
                    },
                    None => match s.source_skill {
                        Some(src) => skill_or_fallback(skills, src, fallback),
                        None => (s.name@, s.icon@),
                    },
                }
            }
        }
    }
}

fn skill_name_or(store: &ReferenceData, id: i32, fallback: String) -> (r: (String, String))
    ensures
        (r.0@, r.1@) == skill_or_fallback(store.skills@, id, fallback@),
{
    match store.skills.get(&id) {
        Some(s) => (s.name.clone(), s.icon.clone()),
        None => (fallback, String::new()),
    }
}

/// Resolves a skill to its display name and icon through the reference
/// tables, falling back to the name the record carried.
pub fn get_skill_name_and_icon(
    store: &ReferenceData,
    skill_id: i32,
    skill_effect_id: i32,
    skill_name: String,
) -> (r: (String, String))
    ensures
        (r.0@, r.1@) == skill_name_icon(
            store.skills@,
            store.skill_effects@,
            skill_id,
            skill_effect_id,
            skill_name@,
        ),
{
    if skill_id == 0 && skill_effect_id == 0 {
        (String::from_str("Bleed"), String::from_str("buff_168.png"))
    } else if skill_id == 0 {
        match store.skill_effects.get(&skill_effect_id) {
            None => (skill_name, String::new()),
            Some(effect) => {
                match &effect.item_name {
                    Some(item) => {
                        let icon = match &effect.icon {
                            Some(i) => i.clone(),
                            None => String::new(),
                        };
                        (item.clone(), icon)
                    },
                    None => {
                        let cand = match effect.source_skill {
                            Some(s) => s,
                            None => floor_div10_exec(skill_effect_id),
                        };
                        skill_name_or(store, cand, effect.comment.clone())
                    },
                }
            },
        }
    } else {
        let mut skill = store.skills.get(&skill_id);
        if skill.is_none() {
            skill = store.skills.get(&skill_family_exec(skill_id));
        }
        match skill {
            None => (skill_name, String::new()),
            Some(s) => {
                match s.summon_source_skill {
                    Some(src) => match store.skills.get(&src) {
                        Some(ss) => {
                            let mut name = ss.name.clone();
                            name.append(" (Summon)");
                            (name, ss.icon.clone())
                        },
                        None => (skill_name, String::new()),
                    },
                    None => match s.source_skill {
                        Some(src) => skill_name_or(store, src, skill_name),
                        None => (s.name.clone(), s.icon.clone()),
                    },
                }
            },
        }
    }
}

/// The buff-type flag that a buff's kind keyword maps to.
pub open spec fn buff_type_flags(t: Seq<char>) -> u32 {
    if t == "weaken_defense"@ || t == "weaken_resistance"@ || t == "skill_damage_amplify"@
        || t == "beattacked_damage_amplify"@ || t == "skill_damage_amplify_attack"@
        || t == "directional_attack_amplify"@ || t == "instant_stat_amplify"@
        || t == "attack_power_amplify"@ || t == "instant_stat_amplify_by_contents"@ {
        BUFF_TYPE_DMG
    } else if t == "move_speed_down"@ || t == "all_speed_down"@ {
        BUFF_TYPE_MOVESPEED
    } else if t == "reset_cooldown"@ {
        BUFF_TYPE_COOLDOWN
    } else if t == "change_ai_point"@ || t == "ai_point_amplify"@ {
        BUFF_TYPE_STAGGER
    } else if t == "increase_identity_gauge"@ {
        BUFF_TYPE_RESOURCE
    } else {
        BUFF_TYPE_NONE
    }
}

pub fn get_status_effect_buff_type_flags(buff: &SkillBuffData) -> (r: u32)
    ensures
        r == buff_type_flags(buff.buff_type@),
{
    let t = &buff.buff_type;
    if is_text(t, "weaken_defense") || is_text(t, "weaken_resistance") || is_text(t, "skill_damage_amplify")
        || is_text(t, "beattacked_damage_amplify") || is_text(t, "skill_damage_amplify_attack")
        || is_text(t, "directional_attack_amplify") || is_text(t, "instant_stat_amplify")
        || is_text(t, "attack_power_amplify") || is_text(t, "instant_stat_amplify_by_contents") {
        BUFF_TYPE_DMG
    } else if is_text(t, "move_speed_down") || is_text(t, "all_speed_down") {
        BUFF_TYPE_MOVESPEED
    } else if is_text(t, "reset_cooldown") {
        BUFF_TYPE_COOLDOWN
    } else if is_text(t, "change_ai_point") || is_text(t, "ai_point_amplify") {
        BUFF_TYPE_STAGGER
    } else if is_text(t, "increase_identity_gauge") {
        BUFF_TYPE_RESOURCE
    } else {
        BUFF_TYPE_NONE
    }
}

/// The category a buff is filed under: ability buffs of the unique groups
/// 501 to 505 form a category of their own.
pub open spec fn buff_category_of(b: SkillBuffData) -> Seq<char> {
    if b.buff_category@ == "ability"@ && 501 <= b.unique_group <= 505 {
        "dropsofether"@
    } else {
        b.buff_category@
    }
}

pub open spec fn target_of(t: Seq<char>) -> StatusEffectTarget {
    if t == "none"@ {
        StatusEffectTarget::OTHER
    } else if t == "self"@ {
        StatusEffectTarget::SELF
    } else {
        StatusEffectTarget::PARTY
    }
}

pub open spec fn skill_at(skills: Map<i32, SkillData>, id: i32) -> Option<SkillData> {
    if skills.contains_key(id) {
        Some(skills[id])
    } else {
        None
    }
}

/// Whether a buff's category names a skill as its source.
pub open spec fn buff_attributed(b: SkillBuffData) -> bool {
    let cat = buff_category_of(b);
    cat == "classkill"@ || cat == "identity"@ || (cat == "ability"@ && b.unique_group != 0)
}

/// The skill a buff is attributed to, the first of three lookups that hits:
/// its own source reference, the skill numbered by the buff id over ten, the
/// skill numbered by its unique group over ten.
pub open spec fn buff_source_skill(skills: Map<i32, SkillData>, buff_id: i32, b: SkillBuffData) -> Option<SkillData> {
    if buff_attributed(b) {
        if b.source_skill is Some && skills.contains_key(b.source_skill->0) {
            skill_at(skills, b.source_skill->0)
        } else if skills.contains_key(trunc_div10(buff_id)) {
            skill_at(skills, trunc_div10(buff_id))
        } else {
            skill_at(skills, trunc_div10(b.unique_group))
        }
    } else {
        None
    }
}

/// Whether a buff id has a visible classification.
pub open spec fn buff_known(buffs: Map<i32, SkillBuffData>, buff_id: i32) -> bool {
    buffs.contains_key(buff_id) && buffs[buff_id].icon_show_type@ != "none"@
}

/// What the classification of a known buff holds.
pub open spec fn classifies(
    se: StatusEffect,
    skills: Map<i32, SkillData>,
    buffs: Map<i32, SkillBuffData>,
    buff_id: i32,
) -> bool {
    let b = buffs[buff_id];
    &&& se.target == target_of(b.target@)
    &&& se.category@ == b.category@
    &&& se.buff_category@ == buff_category_of(b)
    &&& se.buff_type == buff_type_flags(b.buff_type@)
    &&& se.unique_group == b.unique_group
    &&& se.source.name@ == b.name@
    &&& se.source.desc@ == b.desc@
    &&& se.source.icon@ == b.icon@
    &&& se.source.skill == buff_source_skill(skills, buff_id, b)
    &&& se.source.set_name == (if !buff_attributed(b) && buff_category_of(b) == "set"@ {
        b.set_name
    } else {
        None
    })
}

fn skill_lookup(store: &ReferenceData, id: i32) -> (r: Option<SkillData>)
    ensures
        r == skill_at(store.skills@, id),
{
    match store.skills.get(&id) {
        Some(s) => Some(s.duplicate()),
        None => None,
    }
}

/// Classifies a buff or debuff identifier, or gives nothing when the
/// tables do not know it or mark it hidden.
pub fn get_status_effect_data(store: &ReferenceData, buff_id: i32) -> (r: Option<StatusEffect>)
    ensures
        r is Some <==> buff_known(store.skill_buffs@, buff_id),
        r is Some ==> classifies(r->0, store.skills@, store.skill_buffs@, buff_id),
{
    let buff = match store.skill_buffs.get(&buff_id) {
        None => {
            return None;
        },
        Some(b) => b,
    };
    if is_text(&buff.icon_show_type, "none") {
        return None;
    }
    let ether = is_text(&buff.buff_category, "ability") && 501 <= buff.unique_group
        && buff.unique_group <= 505;
    let buff_category = if ether {
        String::from_str("dropsofether")
    } else {
        buff.buff_category.clone()
    };
    let target = if is_text(&buff.target, "none") {
        StatusEffectTarget::OTHER
    } else if is_text(&buff.target, "self") {
        StatusEffectTarget::SELF
    } else {
        StatusEffectTarget::PARTY
    };
    let attributed = is_text(&buff_category, "classkill") || is_text(&buff_category, "identity")
        || (is_text(&buff_category, "ability") && buff.unique_group != 0);
    let mut skill: Option<SkillData> = None;
    let mut set_name: Option<String> = None;
    if attributed {
        match buff.source_skill {
            Some(s) => {
                skill = skill_lookup(store, s);
            },
            None => {},
        }
        if skill.is_none() {
            skill = skill_lookup(store, trunc_div10_exec(buff_id));
        }
        if skill.is_none() {
            skill = skill_lookup(store, trunc_div10_exec(buff.unique_group));
        }
    } else if is_text(&buff_category, "set") {
        set_name = match &buff.set_name {
            Some(n) => Some(n.clone()),
            None => None,
        };
    }
    let buff_type = get_status_effect_buff_type_flags(buff);
    Some(StatusEffect {
        target,
        category: buff.category.clone(),
        buff_category,
        buff_type,
        unique_group: buff.unique_group,
        source: StatusEffectSource {
            name: buff.name.clone(),
            desc: buff.desc.clone(),
            icon: buff.icon.clone(),
            skill,
            set_name,
        },
    })
}

} // verus!
