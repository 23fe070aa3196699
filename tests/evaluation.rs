use reshade_preset_switcher::condition::ConjunctionType::{And, Or};
use reshade_preset_switcher::condition::{
    conditions_fulfilled, ConditionData, ConjunctionType, RuleCondition, TimePeriods, CHANCE_SCALE,
};
use reshade_preset_switcher::context::Context;
use reshade_preset_switcher::preset_rule::{PresetRule, RuleValidationError};
use reshade_preset_switcher::time_period::CurrentTimePeriod;

const MAP: u32 = 50;

fn cond(holds: bool, conjunction: ConjunctionType) -> RuleCondition {
    let maps = if holds { vec![MAP] } else { vec![MAP + 1] };
    RuleCondition::new(ConditionData::Maps(maps), conjunction)
}

fn eval(conds: &Vec<RuleCondition>) -> bool {
    let rolls = vec![1u32; conds.len()];
    conditions_fulfilled(conds, CurrentTimePeriod::Day, MAP, &rolls)
}

fn rule(path: &str, conditions: Vec<RuleCondition>) -> PresetRule {
    PresetRule { rule_name: "r".to_string(), preset_path: path.to_string(), conditions }
}

#[test]
fn empty_conditions_hold() {
    assert!(eval(&vec![]));
    let ctx = Context::default();
    let r = rule("p", vec![]).evaluate(&ctx, &MAP, true);
    assert_eq!(r.activate_rule, Ok(true));
    assert_eq!(r.validation_result, Ok(()));
}

#[test]
fn and_chain_needs_every_condition() {
    assert!(eval(&vec![cond(true, And), cond(true, And), cond(true, And)]));
    assert!(!eval(&vec![cond(true, And), cond(false, And), cond(true, And)]));
    assert!(!eval(&vec![cond(false, And), cond(true, And), cond(true, And)]));
    assert!(!eval(&vec![cond(true, And), cond(true, And), cond(false, And)]));
    // the first condition's own conjunction is never read
    assert!(eval(&vec![cond(true, Or), cond(true, And)]));
}

#[test]
fn or_chain_needs_one_condition() {
    assert!(!eval(&vec![cond(false, Or), cond(false, Or), cond(false, Or)]));
    assert!(eval(&vec![cond(true, Or), cond(false, Or), cond(false, Or)]));
    assert!(eval(&vec![cond(false, Or), cond(true, Or), cond(false, Or)]));
    assert!(eval(&vec![cond(false, Or), cond(false, Or), cond(true, Or)]));
}

// [A(And), B(Or), C(And), D(And)]: the conjunction stored on a condition
// joins it to the one before, so the groups are {A} and {B, C, D}.
fn mixed(a: bool, b: bool, c: bool, d: bool) -> bool {
    eval(&vec![cond(a, And), cond(b, Or), cond(c, And), cond(d, And)])
}

#[test]
fn mixed_chain_scan() {
    assert!(mixed(false, true, true, true));
    assert!(mixed(true, false, false, false));
    assert!(mixed(true, true, true, true));
    assert!(!mixed(false, false, true, true));
    assert!(!mixed(false, true, true, false));
    assert!(!mixed(false, true, false, true));
    assert!(!mixed(false, false, false, false));
}

#[test]
fn mixed_chain_with_trailing_or() {
    // groups {A}, {B, C}, {D}
    assert!(eval(&vec![cond(false, And), cond(false, Or), cond(true, And), cond(true, Or)]));
    assert!(!eval(&vec![cond(false, And), cond(true, Or), cond(false, And), cond(false, Or)]));
}

#[test]
fn each_condition_kind() {
    let at = |data: ConditionData, period: CurrentTimePeriod, roll: u32| {
        conditions_fulfilled(&vec![RuleCondition::new(data, ConjunctionType::Or)], period, MAP, &vec![roll])
    };
    assert!(at(ConditionData::Maps(vec![1, MAP]), CurrentTimePeriod::Day, 1));
    assert!(!at(ConditionData::Maps(vec![]), CurrentTimePeriod::Day, 1));
    assert!(!at(ConditionData::BlacklistedMaps(vec![MAP]), CurrentTimePeriod::Day, 1));
    assert!(at(ConditionData::BlacklistedMaps(vec![2]), CurrentTimePeriod::Day, 1));
    let dusk_only = TimePeriods { day: false, dusk: true, night: false, dawn: false };
    assert!(at(ConditionData::Time(dusk_only), CurrentTimePeriod::Dusk, 1));
    assert!(!at(ConditionData::Time(dusk_only), CurrentTimePeriod::Night, 1));
    assert!(at(ConditionData::Chance(500), CurrentTimePeriod::Day, 500));
    assert!(!at(ConditionData::Chance(500), CurrentTimePeriod::Day, 501));
}

#[test]
fn chance_extremes_with_real_draws() {
    let ctx = Context::default();
    let never = rule("p", vec![RuleCondition::new(ConditionData::Chance(0), ConjunctionType::Or)]);
    let always = rule("p", vec![RuleCondition::new(ConditionData::Chance(CHANCE_SCALE), ConjunctionType::Or)]);
    for _ in 0..200 {
        assert_eq!(never.evaluate(&ctx, &MAP, true).activate_rule, Ok(false));
        assert_eq!(always.evaluate(&ctx, &MAP, true).activate_rule, Ok(true));
    }
}

#[test]
fn invalid_rule_is_not_evaluated() {
    let ctx = Context::default();
    let missing = rule("p", vec![]).evaluate(&ctx, &MAP, false);
    assert_eq!(missing.validation_result, Err(RuleValidationError::NoPresetSelected));
    assert_eq!(missing.activate_rule, Err(()));
    let unnamed = rule("", vec![]).evaluate(&ctx, &MAP, true);
    assert_eq!(unnamed.validation_result, Err(RuleValidationError::NoPresetSelected));
    assert_eq!(rule("p", vec![]).validate(true), Ok(()));
}

#[test]
fn evaluate_with_fixed_rolls() {
    let r = rule("p", vec![cond(true, ConjunctionType::And), cond(false, ConjunctionType::And)]);
    let out = r.evaluate_with_rolls(CurrentTimePeriod::Day, MAP, true, &vec![1, 1]);
    assert_eq!(out.activate_rule, Ok(false));
}

#[test]
fn conjunction_switch_and_label() {
    let mut c = ConjunctionType::default();
    assert_eq!(c, ConjunctionType::Or);
    assert_eq!(c.label(), "Or");
    c.switch();
    assert_eq!(c, ConjunctionType::And);
    assert_eq!(c.label(), "And");
    let t = TimePeriods::default();
    assert!(t.day && t.dusk && t.night && t.dawn);
}
