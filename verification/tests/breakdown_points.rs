use std::collections::BTreeMap;

use veritas::attack::AttackType;
use veritas::breakdown::{aggregate_damage_by_category, collect_damage_category_points};

fn plus(a: f64, b: f64) -> f64 {
    a + b
}

fn positive(x: f64) -> bool {
    x > 0.0
}

fn breakdown(entries: &[(AttackType, f64)]) -> BTreeMap<u32, f64> {
    let mut m = BTreeMap::new();
    for (t, d) in entries {
        *m.entry(t.rank()).or_insert(0.0) += *d;
    }
    m
}

fn shown(points: &[(AttackType, String, f64)]) -> Vec<(AttackType, &str, f64)> {
    points.iter().map(|(t, l, d)| (*t, l.as_str(), *d)).collect()
}

#[test]
fn team_breakdown_adds_up_characters() {
    let rows = vec![
        breakdown(&[(AttackType::Normal, 100.0), (AttackType::Ultra, 300.0)]),
        breakdown(&[(AttackType::DOT, 40.0), (AttackType::Normal, 20.0)]),
        BTreeMap::new(),
        breakdown(&[(AttackType::Ultra, 5.0)]),
    ];
    let team = aggregate_damage_by_category(&rows, 0.0, &plus);
    assert_eq!(team, breakdown(&[(AttackType::Normal, 120.0), (AttackType::Ultra, 305.0), (AttackType::DOT, 40.0)]));
    let empty: Vec<BTreeMap<u32, f64>> = Vec::new();
    assert!(aggregate_damage_by_category(&empty, 0.0, &plus).is_empty());
}

#[test]
fn breakdown_points_follow_fixed_order() {
    let row = breakdown(&[
        (AttackType::Unknown, 7.0),
        (AttackType::Ultra, 300.0),
        (AttackType::MazeNormal, 2.0),
        (AttackType::Normal, 100.0),
        (AttackType::DOT, 0.0),
    ]);
    let points = collect_damage_category_points(&row, &positive);
    assert_eq!(shown(&points), vec![
        (AttackType::Normal, "Basic", 100.0),
        (AttackType::Ultra, "Ultimate", 300.0),
        (AttackType::Unknown, "Unknown", 7.0),
        (AttackType::MazeNormal, "Technique", 2.0),
    ]);
}

#[test]
fn other_types_come_in_type_order_whatever_the_crediting_order() {
    let first = breakdown(&[(AttackType::MazeNormal, 2.0), (AttackType::Unknown, 7.0)]);
    let second = breakdown(&[(AttackType::Unknown, 7.0), (AttackType::MazeNormal, 2.0)]);
    let expected = vec![(AttackType::Unknown, "Unknown", 7.0), (AttackType::MazeNormal, "Technique", 2.0)];
    assert_eq!(shown(&collect_damage_category_points(&first, &positive)), expected);
    assert_eq!(shown(&collect_damage_category_points(&second, &positive)), expected);
}
