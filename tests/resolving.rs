use loa_logs::reference::{
    get_skill_name_and_icon, get_status_effect_buff_type_flags, get_status_effect_data,
    is_support_class_id, ReferenceData, SkillBuffData, SkillData, SkillEffectData, StatusEffectTarget,
    BUFF_TYPE_DMG, BUFF_TYPE_NONE, BUFF_TYPE_STAGGER,
};

fn skill(id: i32, name: &str, class_id: i32, summon: Option<i32>, source: Option<i32>) -> SkillData {
    SkillData {
        id,
        name: name.to_string(),
        desc: String::new(),
        class_id,
        icon: format!("{id}.png"),
        summon_source_skill: summon,
        source_skill: source,
    }
}

fn buff(id: i32, category: &str, target: &str, unique_group: i32, kind: &str) -> SkillBuffData {
    SkillBuffData {
        id,
        name: format!("buff {id}"),
        desc: String::new(),
        icon: "b.png".to_string(),
        icon_show_type: "always".to_string(),
        duration: 0,
        category: "buff".to_string(),
        buff_category: category.to_string(),
        target: target.to_string(),
        unique_group,
        overlap_priority: 0,
        buff_type: kind.to_string(),
        source_skill: None,
        set_name: Some("Salvation".to_string()),
    }
}

fn store() -> ReferenceData {
    let mut s = ReferenceData::empty();
    s.skills.insert(100, skill(100, "Base", 204, None, None));
    s.skills.insert(200, skill(200, "Pet", 204, Some(100), None));
    s.skills.insert(300, skill(300, "Variant", 204, None, Some(100)));
    s.skills.insert(2100, skill(2100, "Family", 105, None, None));
    s.skill_effects.insert(
        7,
        SkillEffectData {
            id: 7,
            comment: "effect seven".to_string(),
            source_skill: None,
            item_name: Some("Bomb".to_string()),
            item_desc: None,
            icon: Some("bomb.png".to_string()),
        },
    );
    s.skill_effects.insert(
        1001,
        SkillEffectData {
            id: 1001,
            comment: "effect".to_string(),
            source_skill: None,
            item_name: None,
            item_desc: None,
            icon: None,
        },
    );
    s.skill_buffs.insert(21001, buff(21001, "classskill", "party", 0, "skill_damage_amplify"));
    s.skill_buffs.insert(21002, buff(21002, "identity", "party", 0, "change_ai_point"));
    s.skill_buffs.insert(5, buff(5, "ability", "self", 503, "none_of_these"));
    s.skill_buffs.insert(6, buff(6, "set", "none", 0, "none_of_these"));
    let mut dangling = buff(21003, "identity", "party", 0, "x");
    dangling.source_skill = Some(999);
    s.skill_buffs.insert(21003, dangling);
    let mut hidden = buff(9, "classskill", "party", 0, "x");
    hidden.icon_show_type = "none".to_string();
    s.skill_buffs.insert(9, hidden);
    s
}

#[test]
fn skill_names_resolve_through_the_tables() {
    let s = store();
    assert_eq!(get_skill_name_and_icon(&s, 0, 0, "x".to_string()), ("Bleed".to_string(), "buff_168.png".to_string()));
    assert_eq!(get_skill_name_and_icon(&s, 100, 0, "x".to_string()), ("Base".to_string(), "100.png".to_string()));
    assert_eq!(get_skill_name_and_icon(&s, 200, 0, "x".to_string()), ("Base (Summon)".to_string(), "100.png".to_string()));
    assert_eq!(get_skill_name_and_icon(&s, 300, 0, "x".to_string()), ("Base".to_string(), "100.png".to_string()));
    assert_eq!(get_skill_name_and_icon(&s, 2105, 0, "x".to_string()), ("Family".to_string(), "2100.png".to_string()));
    assert_eq!(get_skill_name_and_icon(&s, 555, 0, "given".to_string()), ("given".to_string(), String::new()));
    assert_eq!(get_skill_name_and_icon(&s, 0, 7, "x".to_string()), ("Bomb".to_string(), "bomb.png".to_string()));
    assert_eq!(get_skill_name_and_icon(&s, 0, 1001, "x".to_string()), ("Base".to_string(), "100.png".to_string()));
    assert_eq!(get_skill_name_and_icon(&s, 0, 8, "given".to_string()), ("given".to_string(), String::new()));
}

#[test]
fn status_effects_are_classified() {
    let s = store();
    let amp = get_status_effect_data(&s, 21001).unwrap();
    assert_eq!(amp.target, StatusEffectTarget::PARTY);
    assert_eq!(amp.buff_type, BUFF_TYPE_DMG);
    assert!(amp.source.skill.is_none());
    let ident = get_status_effect_data(&s, 21002).unwrap();
    assert_eq!(ident.buff_type, BUFF_TYPE_STAGGER);
    assert_eq!(ident.source.skill.as_ref().unwrap().id, 2100);
    let fallback = get_status_effect_data(&s, 21003).unwrap();
    assert_eq!(fallback.source.skill.as_ref().unwrap().id, 2100);
    let ether = get_status_effect_data(&s, 5).unwrap();
    assert_eq!(ether.buff_category, "dropsofether");
    assert_eq!(ether.target, StatusEffectTarget::SELF);
    assert_eq!(ether.buff_type, BUFF_TYPE_NONE);
    let set = get_status_effect_data(&s, 6).unwrap();
    assert_eq!(set.target, StatusEffectTarget::OTHER);
    assert_eq!(set.source.set_name.as_deref(), Some("Salvation"));
    assert!(get_status_effect_data(&s, 9).is_none());
    assert!(get_status_effect_data(&s, 12345).is_none());
    assert_eq!(get_status_effect_buff_type_flags(&s.skill_buffs[&21001]), BUFF_TYPE_DMG);
}

#[test]
fn support_classes() {
    assert!(is_support_class_id(105));
    assert!(is_support_class_id(204));
    assert!(is_support_class_id(603));
    assert!(!is_support_class_id(102));
}
