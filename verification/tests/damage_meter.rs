use veritas::chart::{create_damage_portrait_rows, ChartArith};
use veritas::meter::{bar_amount, damage_meter_order, meter_amounts, meter_fill, meter_scale};
use veritas::types::Avatar;
use veritas::ui_state::DamageBarValue;

fn plus(a: f64, b: f64) -> f64 {
    a + b
}

fn minus(a: f64, b: f64) -> f64 {
    a - b
}

fn div(a: f64, b: f64) -> f64 {
    a / b
}

fn mul(a: f64, b: f64) -> f64 {
    a * b
}

fn larger(a: f64, b: f64) -> f64 {
    a.max(b)
}

fn positive(x: f64) -> bool {
    x > 0.0
}

fn greater(a: f64, b: f64) -> bool {
    a > b
}

fn of_count(n: u32) -> f64 {
    n as f64
}

type Ops = ChartArith<f64, fn(f64) -> bool, fn(f64, f64) -> f64, fn(u32) -> f64>;

fn ops() -> Ops {
    ChartArith {
        zero: 0.0,
        hundred: 100.0,
        positive: positive as fn(f64) -> bool,
        plus: plus as fn(f64, f64) -> f64,
        div: div as fn(f64, f64) -> f64,
        mul: mul as fn(f64, f64) -> f64,
        max: larger as fn(f64, f64) -> f64,
        of_count: of_count as fn(u32) -> f64,
    }
}

fn team() -> Vec<Avatar> {
    vec![
        Avatar { id: 1, name: "A".to_string() },
        Avatar { id: 2, name: "B".to_string() },
        Avatar { id: 3, name: "C".to_string() },
        Avatar { id: 4, name: "D".to_string() },
    ]
}

#[test]
fn meter_orders_greatest_first_ties_in_lineup_order() {
    let order = damage_meter_order(&vec![10.0, 30.0, 10.0, 20.0], &greater);
    assert_eq!(order, vec![1, 3, 0, 2]);
    let order = damage_meter_order(&vec![5.0, 5.0, 5.0], &greater);
    assert_eq!(order, vec![0, 1, 2]);
    let order = damage_meter_order(&vec![1.0, 2.0, 3.0], &greater);
    assert_eq!(order, vec![2, 1, 0]);
    assert!(damage_meter_order(&Vec::<f64>::new(), &greater).is_empty());
}

#[test]
fn meter_shows_the_chosen_measure() {
    let sub = minus as fn(f64, f64) -> f64;
    let rows = create_damage_portrait_rows(&team(), &vec![100.0, 300.0, 0.0, 200.0], &vec![10.0, 0.0, 0.0, 40.0], 50.0, &ops(), &sub);
    assert_eq!(bar_amount(&rows[0], DamageBarValue::Damage), (100.0, 10.0));
    assert_eq!(bar_amount(&rows[0], DamageBarValue::Dpav), (2.0, 0.2));
    let shown = meter_amounts(&rows, DamageBarValue::Damage);
    assert_eq!(shown, vec![100.0, 300.0, 0.0, 200.0]);
    assert_eq!(damage_meter_order(&shown, &greater), vec![1, 3, 0, 2]);
    let scale = meter_scale(&shown, &ops());
    assert_eq!(scale, 300.0);
    assert_eq!(meter_fill(150.0, scale, &ops()), 0.5);
    assert_eq!(meter_fill(40.0, 200.0, &ops()), 0.2);
}

#[test]
fn empty_meter_fills_nothing() {
    let scale = meter_scale(&vec![0.0, 0.0], &ops());
    assert_eq!(scale, 0.0);
    assert_eq!(meter_fill(0.0, scale, &ops()), 0.0);
    assert_eq!(meter_scale(&Vec::new(), &ops()), 0.0);
}
