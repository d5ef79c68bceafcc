use loa_logs::encounter::soft_reset;
use loa_logs::model::{Encounter, Entity, EntityType};
use loa_logs::parser::{parse_line, parse_log, rate, Notice};
use loa_logs::reference::{Npc, ReferenceData, SkillData};

const TS: &str = "2022-09-15T20:04:30.123Z";

fn millis(ts: &str) -> i64 {
    chrono::DateTime::parse_from_rfc3339(ts).unwrap().timestamp_millis()
}

fn store() -> ReferenceData {
    let mut s = ReferenceData::empty();
    for (id, name, grade) in [(1, "Alpha", "boss"), (2, "Beta", "raid"), (3, "Gamma", "normal")] {
        s.npcs.insert(id, Npc { id, name: name.to_string(), grade: grade.to_string() });
    }
    s.skills.insert(
        16140,
        SkillData {
            id: 16140,
            name: "Sky Shatter".to_string(),
            desc: String::new(),
            class_id: 102,
            icon: "sky.png".to_string(),
            summon_source_skill: None,
            source_skill: None,
        },
    );
    s
}

fn feed(
    encounters: &mut Option<Vec<Encounter>>,
    reset: &mut bool,
    enc: &mut Encounter,
    store: &ReferenceData,
    line: &str,
) -> Notice {
    parse_line(encounters, reset, enc, &line.to_string(), store)
}

fn entity<'a>(enc: &'a Encounter, name: &str) -> &'a Entity {
    enc.entities.iter().find(|e| e.name == name).expect("entity present")
}

fn damage_line(source: &str, target: &str, damage: i64, modifier: &str) -> String {
    format!("8|{TS}|11|{source}|16140|Sky Shatter|0||22|{target}|{damage}|{modifier}|1000|5000")
}

#[test]
fn back_attack_damage_on_fresh_encounter() {
    let s = store();
    let mut enc = Encounter::new();
    let mut reset = false;
    let mut none = None;
    feed(&mut none, &mut reset, &mut enc, &s, &damage_line("Ann", "Golem", 500, "10"));
    let src = entity(&enc, "Ann");
    assert_eq!(src.damage_stats.damage_dealt, 500);
    assert_eq!(src.skill_stats.back_attacks, 1);
    assert_eq!(src.skill_stats.hits, 1);
    assert_eq!(src.skill_stats.front_attacks, 0);
    assert_eq!(src.skills.len(), 1);
    assert_eq!(src.skills[0].total_damage, 500);
    assert_eq!(src.skills[0].back_attacks, 1);
    assert_eq!(src.skills[0].name, "Sky Shatter");
    assert_eq!(src.skills[0].icon, "sky.png");
    let tgt = entity(&enc, "Golem");
    assert_eq!(tgt.damage_stats.damage_taken, 500);
    assert_eq!(tgt.max_hp, 5000);
    assert_eq!(enc.fight_start, millis(TS));
    assert_eq!(enc.last_combat_packet, millis(TS));
    assert_eq!(enc.current_boss_name, "");
}

#[test]
fn damage_on_boss_tracks_it() {
    let s = store();
    let mut enc = Encounter::new();
    let mut reset = false;
    let mut none = None;
    feed(&mut none, &mut reset, &mut enc, &s, &format!("4|{TS}|22|1|Golem|5000|5000"));
    assert_eq!(enc.current_boss_name, "Golem");
    enc.current_boss_name = String::new();
    feed(&mut none, &mut reset, &mut enc, &s, &damage_line("Ann", "Golem", 500, "10"));
    assert_eq!(enc.current_boss_name, "Golem");
}

#[test]
fn critical_frontal_hit_and_overkill() {
    let s = store();
    let mut enc = Encounter::new();
    let mut reset = false;
    let mut none = None;
    // flag 1 (critical), option bits 2 (frontal attack), hp below zero
    let line = format!("8|{TS}|11|Ann|16140|Sky Shatter|0||22|Golem|500|21|-100|5000");
    feed(&mut none, &mut reset, &mut enc, &s, &line);
    let src = entity(&enc, "Ann");
    assert_eq!(src.skill_stats.crits, 1);
    assert_eq!(src.skill_stats.front_attacks, 1);
    assert_eq!(src.damage_stats.damage_dealt, 400);
    assert_eq!(entity(&enc, "Golem").current_hp, -100);
}

#[test]
fn invincible_hit_changes_nothing() {
    let s = store();
    let mut enc = Encounter::new();
    let mut reset = false;
    let mut none = None;
    feed(&mut none, &mut reset, &mut enc, &s, &damage_line("Ann", "Golem", 500, "3"));
    assert_eq!(enc.entities.len(), 0);
    assert_eq!(enc.fight_start, 0);
    assert_eq!(enc.last_combat_packet, 0);
    assert_eq!(enc.encounter_damage_stats.total_damage_dealt, 0);
}

#[test]
fn undecodable_modifier_drops_record() {
    let s = store();
    let mut enc = Encounter::new();
    let mut reset = true;
    let mut none = None;
    // low nibble 14 is no hit flag
    feed(&mut none, &mut reset, &mut enc, &s, &damage_line("Ann", "Golem", 500, "e"));
    assert_eq!(enc.entities.len(), 0);
    assert!(reset);
    // option bits 5 decode to no hit option
    feed(&mut none, &mut reset, &mut enc, &s, &damage_line("Ann", "Golem", 500, "50"));
    assert_eq!(enc.entities.len(), 0);
}

#[test]
fn bleed_damage_share_is_dropped() {
    let s = store();
    let mut enc = Encounter::new();
    let mut reset = false;
    let mut none = None;
    let line = format!("8|{TS}|11|Ann|0|Bleed|0||22|Golem|70|b|1000|5000");
    feed(&mut none, &mut reset, &mut enc, &s, &line);
    assert_eq!(enc.entities.len(), 0);
    let line = format!("8|{TS}|11|Ann|0|Bleed|0||22|Golem|70|0|1000|5000");
    feed(&mut none, &mut reset, &mut enc, &s, &line);
    assert_eq!(entity(&enc, "Ann").skills[0].name, "Bleed");
    assert_eq!(entity(&enc, "Ann").skills[0].icon, "buff_168.png");
}

#[test]
fn repeated_death_counts_once() {
    let s = store();
    let mut enc = Encounter::new();
    let mut reset = false;
    let mut none = None;
    feed(&mut none, &mut reset, &mut enc, &s, &format!("5|{TS}|11|Ann|22|Golem"));
    feed(&mut none, &mut reset, &mut enc, &s, &format!("5|{TS}|11|Ann|22|Golem"));
    let e = entity(&enc, "Ann");
    assert!(e.is_dead);
    assert_eq!(e.damage_stats.deaths, 1);
    assert_eq!(e.damage_stats.death_time, millis(TS));
    // same name, other id: left alone
    feed(&mut none, &mut reset, &mut enc, &s, &format!("5|2022-09-15T21:00:00Z|99|Ann|22|Golem"));
    assert_eq!(entity(&enc, "Ann").damage_stats.death_time, millis(TS));
}

#[test]
fn renamed_player_keeps_one_entity_per_id() {
    let s = store();
    let mut enc = Encounter::new();
    let mut reset = false;
    let mut none = None;
    feed(&mut none, &mut reset, &mut enc, &s, &format!("3|{TS}|77|Old|204|Bard|60|1540.5|100|200"));
    feed(&mut none, &mut reset, &mut enc, &s, &format!("3|{TS}|77|New|204|Bard|60|1600|100|200"));
    let with_id: Vec<&Entity> = enc.entities.iter().filter(|e| e.id == "77").collect();
    assert_eq!(with_id.len(), 1);
    assert_eq!(with_id[0].name, "New");
    assert_eq!(with_id[0].entity_type, EntityType::PLAYER);
    assert_eq!(with_id[0].gear_score, 160000);
    assert_eq!(with_id[0].class_id, 204);
}

#[test]
fn gear_score_out_of_range_reads_as_zero() {
    let s = store();
    let mut enc = Encounter::new();
    let mut reset = false;
    let mut none = None;
    feed(&mut none, &mut reset, &mut enc, &s, &format!("3|{TS}|1|A|1|C|60|1700|1|1"));
    feed(&mut none, &mut reset, &mut enc, &s, &format!("3|{TS}|2|B|1||60|1540.57|1|1"));
    assert_eq!(entity(&enc, "A").gear_score, 0);
    assert_eq!(entity(&enc, "B").gear_score, 154057);
    assert_eq!(entity(&enc, "B").class, "Unknown Class");
}

#[test]
fn boss_replaced_by_bigger_boss_only() {
    let s = store();
    let mut enc = Encounter::new();
    let mut reset = false;
    let mut none = None;
    feed(&mut none, &mut reset, &mut enc, &s, &format!("4|{TS}|31|1|A|100|100"));
    assert_eq!(enc.current_boss_name, "A");
    feed(&mut none, &mut reset, &mut enc, &s, &format!("4|{TS}|32|3|C|900|900"));
    assert_eq!(enc.current_boss_name, "A");
    feed(&mut none, &mut reset, &mut enc, &s, &format!("4|{TS}|33|2|B|150|150"));
    assert_eq!(enc.current_boss_name, "B");
    assert_eq!(entity(&enc, "B").entity_type, EntityType::BOSS);
    assert_eq!(entity(&enc, "C").entity_type, EntityType::NPC);
}

#[test]
fn phase_transitions_in_live_feed_reset_once() {
    let s = store();
    let mut enc = Encounter::new();
    let mut reset = false;
    let mut none = None;
    feed(&mut none, &mut reset, &mut enc, &s, &damage_line("Ann", "Golem", 100, "0"));
    let n1 = feed(&mut none, &mut reset, &mut enc, &s, &format!("2|{TS}|1"));
    let n2 = feed(&mut none, &mut reset, &mut enc, &s, &format!("2|{TS}|2"));
    assert!(matches!(n1, Notice::PhaseTransition(_)));
    assert!(matches!(n2, Notice::PhaseTransition(_)));
    assert!(reset);
    assert!(enc.reset);
    assert_eq!(entity(&enc, "Ann").damage_stats.damage_dealt, 100);
    feed(&mut none, &mut reset, &mut enc, &s, &damage_line("Ann", "Golem", 50, "0"));
    assert!(!reset);
    assert!(!enc.reset);
    assert_eq!(entity(&enc, "Ann").damage_stats.damage_dealt, 50);
    assert_eq!(entity(&enc, "Golem").damage_stats.damage_taken, 50);
}

#[test]
fn soft_reset_zeroes_stats_and_keeps_identity() {
    let s = store();
    let mut enc = Encounter::new();
    let mut reset = false;
    let mut none = None;
    feed(&mut none, &mut reset, &mut enc, &s, &format!("3|{TS}|11|Ann|204|Bard|60|1600|100|200"));
    feed(&mut none, &mut reset, &mut enc, &s, &damage_line("Ann", "Golem", 500, "10"));
    feed(&mut none, &mut reset, &mut enc, &s, &format!("5|{TS}|22|Golem|11|Ann"));
    assert_eq!(enc.encounter_damage_stats.total_damage_dealt, 500);
    soft_reset(&mut enc);
    assert_eq!(enc.fight_start, 0);
    assert_eq!(enc.encounter_damage_stats.total_damage_dealt, 0);
    let a = entity(&enc, "Ann");
    assert_eq!(a.id, "11");
    assert_eq!(a.class, "Bard");
    assert_eq!(a.damage_stats.damage_dealt, 0);
    assert!(a.skills.is_empty());
    let g = entity(&enc, "Golem");
    assert!(g.is_dead);
    assert_eq!(g.max_hp, 5000);
    assert_eq!(g.damage_stats.damage_taken, 0);
}

#[test]
fn split_keeps_only_fights() {
    let s = store();
    let lines: Vec<String> = vec![
        format!("1|{TS}|5"),
        format!("1|{TS}|6"),
        format!("3|{TS}|11|Ann|204|Bard|60|1600|100|200"),
        damage_line("Ann", "Golem", 500, "10"),
        format!("1|2022-09-15T20:04:40.123Z|7"),
        format!("2|{TS}|1"),
    ];
    let out = parse_log(lines, &s).unwrap();
    assert_eq!(out.len(), 1);
    assert_eq!(out[0].encounter_damage_stats.total_damage_dealt, 500);
    assert_eq!(out[0].duration, 0);
    assert_eq!(out[0].encounter_damage_stats.most_damage_taken_entity.name, "Golem");
    assert_eq!(out[0].encounter_damage_stats.most_damage_taken_entity.damage_taken, 500);
    assert!(out[0].entities.iter().all(|e| e.max_hp > 0));
}

#[test]
fn rejected_lines_change_nothing() {
    let s = store();
    let mut enc = Encounter::new();
    let mut reset = false;
    let mut none = None;
    for line in ["", "8", "x|2022-09-15T20:04:30Z|1", "8|not a time|1", &format!("3|{TS}|0|Ann|1|C|1|1|1|1")] {
        assert_eq!(feed(&mut none, &mut reset, &mut enc, &s, line), Notice::Quiet);
    }
    assert_eq!(enc.entities.len(), 0);
}

#[test]
fn live_zone_change_asks_to_settle() {
    let s = store();
    let mut enc = Encounter::new();
    let mut reset = false;
    let mut none = None;
    feed(&mut none, &mut reset, &mut enc, &s, &format!("4|{TS}|31|1|A|100|100"));
    let n = feed(&mut none, &mut reset, &mut enc, &s, &format!("1|{TS}|42"));
    assert_eq!(n, Notice::SettleThenZoneChange);
    assert_eq!(enc.local_player, "You");
    assert_eq!(enc.entities.len(), 1);
    assert_eq!(entity(&enc, "You").id, "42");
    assert_eq!(enc.current_boss_name, "");
}

#[test]
fn counters_and_casts() {
    let s = store();
    let mut enc = Encounter::new();
    let mut reset = false;
    let mut none = None;
    feed(&mut none, &mut reset, &mut enc, &s, &format!("6|{TS}|11|Ann|16140|Sky Shatter"));
    feed(&mut none, &mut reset, &mut enc, &s, &format!("6|{TS}|11|Ann|16141|Sky Shatter"));
    let a = entity(&enc, "Ann");
    assert_eq!(a.skill_stats.casts, 2);
    assert_eq!(a.skills.len(), 1);
    assert_eq!(a.skills[0].casts, 2);
    feed(&mut none, &mut reset, &mut enc, &s, &format!("12|{TS}|11|Ann|22|Golem"));
    assert_eq!(entity(&enc, "Ann").skill_stats.counters, 1);
    feed(&mut none, &mut reset, &mut enc, &s, &format!("12|{TS}|12|Bob|22|Golem"));
    assert_eq!(entity(&enc, "Bob").skill_stats.counters, 2);
}

#[test]
fn rates_per_second() {
    assert_eq!(rate(5000, 2000), 2500);
    assert_eq!(rate(1, 3000), 0);
    assert_eq!(rate(-5000, 2000), -2500);
    assert_eq!(rate(7, 0), i64::MAX);
    assert_eq!(rate(0, 0), 0);
}

#[test]
fn surrounding_whitespace_is_trimmed() {
    let s = store();
    let mut enc = Encounter::new();
    let mut reset = false;
    let mut none = None;
    feed(&mut none, &mut reset, &mut enc, &s, &format!("  5|{TS}|11|Ann|22|Golem \r\n"));
    assert_eq!(enc.entities.len(), 1);
    assert_eq!(entity(&enc, "Ann").damage_stats.deaths, 1);
}

#[test]
fn buff_lists_take_every_other_token() {
    let s = store();
    let mut enc = Encounter::new();
    let mut reset = false;
    let mut none = None;
    feed(&mut none, &mut reset, &mut enc, &s, &format!("3|{TS}|11|Ann|204|Bard|60|1600|100|200"));
    let line = format!("8|{TS}|11|Ann|16140|Sky Shatter|0||22|Golem|10|0|1000|5000|7,1,8,2|9,3,9,4,|x|y");
    feed(&mut none, &mut reset, &mut enc, &s, &line);
    let a = entity(&enc, "Ann");
    assert_eq!(a.damage_stats.debuffed_by.len(), 2);
    assert_eq!(a.damage_stats.debuffed_by[&7], 10);
    assert_eq!(a.damage_stats.debuffed_by[&8], 10);
    assert_eq!(a.damage_stats.buffed_by.len(), 1);
    assert_eq!(a.damage_stats.buffed_by[&9], 10);
    assert_eq!(enc.encounter_damage_stats.unknown_buffs.len(), 3);
}

#[test]
fn evicted_boss_is_no_longer_tracked() {
    let s = store();
    let mut enc = Encounter::new();
    let mut reset = false;
    let mut none = None;
    feed(&mut none, &mut reset, &mut enc, &s, &format!("4|{TS}|31|1|A|100|100"));
    assert_eq!(enc.current_boss_name, "A");
    feed(&mut none, &mut reset, &mut enc, &s, &format!("3|{TS}|31|P|204|Bard|60|1600|100|200"));
    assert!(enc.entities.iter().all(|e| e.name != "A"));
    assert_eq!(enc.current_boss_name, "");
}

#[test]
fn skills_merge_by_resolved_name() {
    let s = store();
    let mut enc = Encounter::new();
    let mut reset = false;
    let mut none = None;
    feed(&mut none, &mut reset, &mut enc, &s, &format!("8|{TS}|11|Ann|16140|First|0||22|Golem|100|0|1000|5000"));
    feed(&mut none, &mut reset, &mut enc, &s, &format!("8|{TS}|11|Ann|16141|Second|0||22|Golem|50|0|1000|5000"));
    let a = entity(&enc, "Ann");
    assert_eq!(a.skills.len(), 1);
    assert_eq!(a.skills[0].name, "Sky Shatter");
    assert_eq!(a.skills[0].hits, 2);
    assert_eq!(a.skills[0].total_damage, 150);
    feed(&mut none, &mut reset, &mut enc, &s, &format!("6|{TS}|11|Ann|16142|Third"));
    let a = entity(&enc, "Ann");
    assert_eq!(a.skills.len(), 1);
    assert_eq!(a.skills[0].casts, 2);
}
