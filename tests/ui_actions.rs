use reshade_preset_switcher::condition::{ConditionData, ConjunctionType, RuleCondition};
use reshade_preset_switcher::preset_rule::PresetRule;
use reshade_preset_switcher::ui::{process_ui_actions_for_vec, shorten_path, UiAction, UiElement};
use reshade_preset_switcher::util::{is_on_character_select, true_if_1};

fn rule(name: &str) -> PresetRule {
    PresetRule { rule_name: name.to_string(), preset_path: format!("{}.ini", name), conditions: vec![] }
}

fn names(v: &Vec<PresetRule>) -> Vec<String> {
    v.iter().map(|r| r.rule_name.clone()).collect()
}

#[test]
fn moves_deletes_and_clones() {
    let mut v = vec![rule("a"), rule("b"), rule("c")];
    process_ui_actions_for_vec(&mut v, vec![UiAction::MoveDown(0)]);
    assert_eq!(names(&v), vec!["b", "a", "c"]);
    process_ui_actions_for_vec(&mut v, vec![UiAction::MoveUp(2)]);
    assert_eq!(names(&v), vec!["b", "c", "a"]);
    process_ui_actions_for_vec(&mut v, vec![UiAction::Clone(2), UiAction::Clone(0)]);
    assert_eq!(names(&v), vec!["a (1) (1)", "a (1)", "b", "c", "a"]);
    assert_eq!(v[0].preset_path, "a.ini");
    process_ui_actions_for_vec(&mut v, vec![UiAction::Delete(1), UiAction::Delete(0), UiAction::Clone(9)]);
    assert_eq!(names(&v), vec!["b", "c", "a"]);
}

#[test]
fn conditions_are_renamed() {
    let mut c = vec![RuleCondition::new(ConditionData::Maps(vec![1]), ConjunctionType::And)];
    c[0].rename("maps".to_string());
    process_ui_actions_for_vec(&mut c, vec![UiAction::Clone(0)]);
    assert_eq!(c[0].name(), "maps (1)");
    assert_eq!(c[1].name(), "maps");
}

#[test]
fn shortened_paths() {
    assert_eq!(shorten_path("C:\\Games\\Guild Wars 2\\ReShade.ini".to_string()), "..\\Games\\Guild Wars 2\\ReShade.ini");
    assert_eq!(shorten_path("a\\b".to_string()), "..\\a\\b");
    assert_eq!(shorten_path("".to_string()), "..\\");
}

#[test]
fn small_helpers() {
    assert!(is_on_character_select(false));
    assert!(!is_on_character_select(true));
    assert!(true_if_1(&"1".to_string()));
    assert!(!true_if_1(&"0".to_string()));
    assert!(!true_if_1(&"11".to_string()));
}
