use reshade_preset_switcher::condition::{ConditionData, ConjunctionType, RuleCondition};
use reshade_preset_switcher::context::Context;
use reshade_preset_switcher::control::{
    activate_preset_rule, process_preset_rules, select_rule_with_rolls, LoopAction, LoopObservation,
    RETRY_COUNT,
};
use reshade_preset_switcher::key_combination::KeyCombination;
use reshade_preset_switcher::preset_rule::PresetRule;
use reshade_preset_switcher::reshade::ReshadeContext;
use reshade_preset_switcher::shortcut_config::{parse_shortcut_entries, shortcut_map_from};
use reshade_preset_switcher::time_period::CurrentTimePeriod;

fn key(code: &str) -> KeyCombination {
    KeyCombination { key_code: code.to_string(), ctrl: false, shift: false, alt: false }
}

fn pending(target: &str, retries: usize, active: &str) -> ReshadeContext {
    let mut r = ReshadeContext::default();
    r.verify_activation = Some((target.to_string(), retries));
    r.active_preset_path = active.to_string();
    r
}

#[test]
fn retries_run_out() {
    let mut r = pending("a", 3, "b");
    for left in (0..3).rev() {
        assert!(r.should_retry_activation());
        assert_eq!(r.verify_activation, Some(("a".to_string(), left)));
    }
    assert!(!r.should_retry_activation());
    assert_eq!(r.verify_activation, None);
    assert!(!r.should_retry_activation());
    assert_eq!(r.verify_activation, None);
}

#[test]
fn convergence_clears_pending() {
    let mut r = pending("a", 3, "a");
    assert!(!r.should_retry_activation());
    assert_eq!(r.verify_activation, None);
    let mut later = pending("a", 2, "b");
    assert!(later.should_retry_activation());
    later.active_preset_path = "a".to_string();
    assert!(!later.should_retry_activation());
    assert_eq!(later.verify_activation, None);
}

#[test]
fn zero_retries_gives_up_at_once() {
    let mut r = pending("a", 0, "b");
    assert!(!r.should_retry_activation());
    assert_eq!(r.verify_activation, None);
}

fn never(name: &str, path: &str) -> PresetRule {
    PresetRule {
        rule_name: name.to_string(),
        preset_path: path.to_string(),
        conditions: vec![RuleCondition::new(ConditionData::Maps(vec![]), ConjunctionType::Or)],
    }
}

#[test]
fn fallback_is_last_rule() {
    let rules = vec![never("a", "pa"), never("b", "pb"), never("c", "pc")];
    let mut ctx = Context::default();
    ctx.process_manually = true;
    let r = process_preset_rules(&rules, &mut ctx, 7, false, &vec![true, true, true]);
    assert_eq!(r, Some("pc".to_string()));
    assert_eq!(ctx.reshade.verify_activation, Some(("pc".to_string(), RETRY_COUNT)));
    assert!(!ctx.process_manually);
}

#[test]
fn first_matching_rule_wins() {
    let hit = PresetRule {
        rule_name: "hit".to_string(),
        preset_path: "ph".to_string(),
        conditions: vec![RuleCondition::new(ConditionData::Maps(vec![7]), ConjunctionType::Or)],
    };
    let rules = vec![never("a", "pa"), hit.clone(), hit.clone(), never("c", "pc")];
    let rolls = vec![vec![1], vec![1], vec![1], vec![1]];
    let exists = vec![true, true, true, true];
    assert_eq!(select_rule_with_rolls(&rules, &exists, CurrentTimePeriod::Day, 7, &rolls), Some(1));
    assert_eq!(select_rule_with_rolls(&rules, &exists, CurrentTimePeriod::Day, 8, &rolls), None);
    // an invalid rule is skipped even when its conditions hold
    let skipped = vec![true, false, true, true];
    assert_eq!(select_rule_with_rolls(&rules, &skipped, CurrentTimePeriod::Day, 7, &rolls), Some(2));
    let mut ctx = Context::default();
    assert_eq!(process_preset_rules(&rules, &mut ctx, 7, false, &exists), Some("ph".to_string()));
    // on the character select screen the last rule is used
    assert_eq!(process_preset_rules(&rules, &mut ctx, 7, true, &exists), Some("pc".to_string()));
}

#[test]
fn activation_of_missing_rule_changes_nothing() {
    let mut ctx = Context::default();
    assert_eq!(activate_preset_rule(&vec![], &mut ctx, None), None);
    assert_eq!(activate_preset_rule(&vec![never("a", "pa")], &mut ctx, Some(3)), None);
    assert_eq!(ctx.reshade.verify_activation, None);
    assert_eq!(activate_preset_rule(&vec![never("a", "pa")], &mut ctx, Some(0)), Some("pa".to_string()));
}

fn engaged_context() -> Context {
    let mut ctx = Context::default();
    let entries = vec![(key("65"), "pa".to_string())];
    let (map, _) = shortcut_map_from(&entries, &vec![true]);
    ctx.reshade.preset_shortcuts = map;
    ctx
}

fn observation(map: Option<u32>) -> LoopObservation {
    LoopObservation {
        config_valid: true,
        has_focus: true,
        in_game: true,
        map_reading: map,
        authoritative_period: Some(CurrentTimePeriod::Dusk),
    }
}

#[test]
fn control_loop_decisions() {
    let mut ctx = engaged_context();
    match ctx.next_action(&observation(Some(15))) {
        LoopAction::ProcessRules(m) => assert_eq!(m, 15),
        other => panic!("unexpected {:?}", other),
    }
    assert_eq!(ctx.current_time_period, CurrentTimePeriod::Dusk);
    assert!(matches!(ctx.next_action(&observation(Some(15))), LoopAction::Wait));
    ctx.reshade.verify_activation = Some(("pa".to_string(), 1));
    ctx.reshade.active_preset_path = "pb".to_string();
    match ctx.next_action(&observation(Some(15))) {
        LoopAction::RetryActivation(p) => assert_eq!(p, "pa"),
        other => panic!("unexpected {:?}", other),
    }
    assert!(matches!(ctx.next_action(&observation(Some(15))), LoopAction::Wait));
    assert_eq!(ctx.reshade.verify_activation, None);
    let mut dawn = observation(Some(15));
    dawn.authoritative_period = Some(CurrentTimePeriod::Dawn);
    assert!(matches!(ctx.next_action(&dawn), LoopAction::ProcessRules(15)));
    ctx.process_manually = true;
    assert!(matches!(ctx.next_action(&dawn), LoopAction::ProcessRules(15)));
}

#[test]
fn control_loop_idles_when_not_engaged() {
    let mut ctx = engaged_context();
    let mut obs = observation(Some(15));
    obs.config_valid = false;
    assert!(matches!(ctx.next_action(&obs), LoopAction::Wait));
    let mut unfocused = observation(Some(15));
    unfocused.has_focus = false;
    assert!(matches!(ctx.next_action(&unfocused), LoopAction::Wait));
    assert_eq!(ctx.previous_map_id, None);
    let mut empty = Context::default();
    assert!(matches!(empty.next_action(&observation(Some(15))), LoopAction::Wait));
}

#[test]
fn map_change_detection() {
    let mut ctx = Context::default();
    let mut id: u32 = 0;
    assert!(!ctx.map_changed(None, None, &mut id));
    assert_eq!(id, 0);
    assert!(ctx.map_changed(Some(4), Some(CurrentTimePeriod::Night), &mut id));
    assert_eq!(id, 4);
    assert_eq!(ctx.current_time_period, CurrentTimePeriod::Night);
    assert!(!ctx.map_changed(Some(4), Some(CurrentTimePeriod::Day), &mut id));
    assert_eq!(ctx.current_time_period, CurrentTimePeriod::Night);
    assert!(ctx.time_period_changed(4, Some(CurrentTimePeriod::Day)));
    assert!(!ctx.time_period_changed(4, Some(CurrentTimePeriod::Day)));
}

#[test]
fn parsed_entries_drive_activation() {
    let text = "PresetShortcutPaths=pa,pb\nPresetShortcutKeys=65,1,0,0,66,0,0,1\n";
    let entries = parse_shortcut_entries(text).unwrap();
    let (map, missing) = shortcut_map_from(&entries, &vec![true, true]);
    assert!(!missing);
    let mut r = ReshadeContext::default();
    r.preset_shortcuts = map;
    let rule = never("b", "pb");
    let k = rule.activate(&r).unwrap();
    assert_eq!(k, KeyCombination { key_code: "66".to_string(), ctrl: false, shift: false, alt: true });
    assert_eq!(never("x", "px").activate(&r), None);
}
