use veritas::attack::{display_damage_type, AttackType};
use veritas::names::{is_obfuscated_name, sanitize_entity_name, utf8_len_of, white_space, wrap_character_name};
use veritas::types::{Avatar, BattleStats, Entity, Property, Skill, Team};

#[test]
fn obfuscated_names_are_eleven_capitals() {
    assert!(is_obfuscated_name("ABCDEFGHIJK"));
    assert!(!is_obfuscated_name("ABCDEFGHIJ"));
    assert!(!is_obfuscated_name("ABCDEFGHIJKL"));
    assert!(!is_obfuscated_name("ABCDEfGHIJK"));
    assert!(!is_obfuscated_name("ABCDE GHIJK"));
    assert!(!is_obfuscated_name(""));
}

#[test]
fn sanitize_removes_markup() {
    assert_eq!(sanitize_entity_name("<ub>Kafka</ub>"), "Kafka");
    assert_eq!(sanitize_entity_name("Dan Heng"), "Dan Heng");
    assert_eq!(sanitize_entity_name("<ub>A</ub> and <ub>B</ub>"), "A and B");
    assert_eq!(sanitize_entity_name("<<ub>ub>"), "<ub>");
}

#[test]
fn wrap_keeps_short_names() {
    assert_eq!(wrap_character_name("Kafka", 10), "Kafka");
    assert_eq!(wrap_character_name("Dan Heng", 8), "Dan Heng");
}

#[test]
fn wrap_breaks_between_words() {
    assert_eq!(wrap_character_name("Dan Heng Imbibitor Lunae", 10), "Dan Heng\nImbibitor\nLunae");
    assert_eq!(wrap_character_name("Trailblazer of the Astral Express", 12), "Trailblazer\nof the\nAstral\nExpress");
    assert_eq!(wrap_character_name("  spaced   out  ", 5), "spaced\nout");
}

#[test]
fn wrap_keeps_long_words_whole() {
    assert_eq!(wrap_character_name("Supercalifragilistic", 5), "Supercalifragilistic");
    assert_eq!(wrap_character_name("     ", 2), "     ");
}

#[test]
fn wrap_counts_bytes() {
    assert_eq!(wrap_character_name("ÉÉ ÉÉ", 5), "ÉÉ\nÉÉ");
    assert_eq!(utf8_len_of("ÉÉ"), 4);
    assert_eq!(utf8_len_of("a€"), 4);
    assert_eq!(utf8_len_of("😀"), 4);
}

#[test]
fn white_space_is_unicode_white_space() {
    assert!(white_space(' '));
    assert!(white_space('\t'));
    assert!(white_space('\n'));
    assert!(white_space('\u{3000}'));
    assert!(white_space('\u{A0}'));
    assert!(!white_space('a'));
    assert!(!white_space('\u{200B}'));
}

#[test]
fn attack_types_parse_from_member_names() {
    assert_eq!(AttackType::parse("Normal"), AttackType::Normal);
    assert_eq!(AttackType::parse("ElationDamage"), AttackType::ElationDamage);
    assert_eq!(AttackType::parse("normal"), AttackType::Unknown);
    assert_eq!(AttackType::parse(""), AttackType::Unknown);
    for t in [AttackType::Unknown, AttackType::BPSkill, AttackType::MazeNormal, AttackType::Assist] {
        assert_eq!(AttackType::parse(&t.name()), t);
    }
}

#[test]
fn attack_type_labels() {
    assert_eq!(display_damage_type(&AttackType::Normal), "Basic");
    assert_eq!(display_damage_type(&AttackType::BPSkill), "Skill");
    assert_eq!(display_damage_type(&AttackType::Ultra), "Ultimate");
    assert_eq!(display_damage_type(&AttackType::DOT), "DoT");
    assert_eq!(display_damage_type(&AttackType::Pursued), "Additional");
    assert_eq!(display_damage_type(&AttackType::Maze), "Technique");
    assert_eq!(display_damage_type(&AttackType::MazeNormal), "Technique");
    assert_eq!(display_damage_type(&AttackType::Insert), "Follow-Up");
    assert_eq!(display_damage_type(&AttackType::ElementDamage), "Break");
    assert_eq!(display_damage_type(&AttackType::TrueDamage), "True");
    assert_eq!(display_damage_type(&AttackType::ElationDamage), "Elation");
    assert_eq!(display_damage_type(&AttackType::Unknown), "Unknown");
}

#[test]
fn avatars_and_skills_display() {
    let a = Avatar { id: 1, name: "Himeko".to_string() };
    assert_eq!(a.display_text(), "Himeko");
    let s = Skill { name: "Victory Rush".to_string(), skill_type: "Talent".to_string(), skill_config_id: 2 };
    assert_eq!(s.display_text(), "[Talent] Victory Rush");
}

#[test]
fn entities_compare_by_uid() {
    assert!(Entity { uid: 5, team: Team::Player } == Entity { uid: 5, team: Team::Enemy });
    assert!(Entity { uid: 5, team: Team::Player } != Entity { uid: 6, team: Team::Player });
}

#[test]
fn stats_replace_values_by_name() {
    let mut s: BattleStats<f64> = BattleStats::new();
    assert_eq!(s.get_value("Speed"), None);
    s.set_value("Speed", 100.0);
    s.set_value("Attack", 2000.0);
    s.set_value("Speed", 110.0);
    assert_eq!(s.get_value("Speed"), Some(110.0));
    assert_eq!(s.get_value("Attack"), Some(2000.0));
    assert_eq!(s.properties.len(), 2);
    s.set_property(Property { value: 3.0, kind: "Level".to_string() });
    assert_eq!(s.get_value("Level"), Some(3.0));
    let c = s.copy();
    assert_eq!(c.properties, s.properties);
}

#[test]
fn wrapping_keeps_words_and_fits_lines() {
    let names = [
        "Dan Heng Imbibitor Lunae",
        "Trailblazer of the Astral Express",
        "A  very\tspaced\u{3000}name with Supercalifragilistic words",
    ];
    for name in names {
        for max in [1usize, 4, 8, 12, 30] {
            let wrapped = wrap_character_name(name, max);
            let before: Vec<&str> = name.split_whitespace().collect();
            let after: Vec<&str> = wrapped.split_whitespace().collect();
            assert_eq!(before, after);
            if name.len() > max {
                for line in wrapped.split('\n') {
                    assert!(!line.is_empty());
                    assert!(line.len() <= max || !line.contains(char::is_whitespace));
                }
            }
        }
    }
}
