use reshade_preset_switcher::key_combination::KeyCombination;
use reshade_preset_switcher::stepping::{parse_key_setting, position_of, step_shortcut, StepError};

fn key(code: &str) -> KeyCombination {
    KeyCombination { key_code: code.to_string(), ctrl: false, shift: false, alt: false }
}

fn list() -> Vec<String> {
    vec!["a.ini".to_string(), "b.ini".to_string(), "c.ini".to_string()]
}

#[test]
fn steps_toward_the_target() {
    let next = Some(key("34"));
    let previous = Some(key("33"));
    let s = |active: &str, target: &str| step_shortcut(&list(), &active.to_string(), &target.to_string(), &next, &previous);
    assert_eq!(s("a.ini", "c.ini"), Ok(key("34")));
    assert_eq!(s("c.ini", "a.ini"), Ok(key("33")));
    assert_eq!(s("b.ini", "b.ini"), Err(StepError::AlreadyActive));
    assert_eq!(s("x.ini", "b.ini"), Err(StepError::PresetNotListed));
    assert_eq!(s("a.ini", "x.ini"), Err(StepError::PresetNotListed));
}

#[test]
fn missing_step_shortcut() {
    let r = step_shortcut(&list(), &"a.ini".to_string(), &"b.ini".to_string(), &None, &Some(key("33")));
    assert_eq!(r, Err(StepError::NoStepShortcut));
    let r = step_shortcut(&list(), &"b.ini".to_string(), &"a.ini".to_string(), &Some(key("34")), &None);
    assert_eq!(r, Err(StepError::NoStepShortcut));
}

#[test]
fn positions() {
    let l = vec!["a".to_string(), "b".to_string(), "a".to_string()];
    assert_eq!(position_of(&l, &"a".to_string()), Some(0));
    assert_eq!(position_of(&l, &"b".to_string()), Some(1));
    assert_eq!(position_of(&l, &"z".to_string()), None);
}

#[test]
fn step_shortcut_settings() {
    let text = "[INPUT]\nKeyNextPreset=34,1,0,0\nKeyPreviousPreset=33\nKeyEffects=\n";
    assert_eq!(parse_key_setting(text, "KeyNextPreset"), Some(KeyCombination { key_code: "34".to_string(), ctrl: true, shift: false, alt: false }));
    assert_eq!(parse_key_setting(text, "KeyPreviousPreset"), Some(key("33")));
    assert_eq!(parse_key_setting(text, "KeyEffects"), None);
    assert_eq!(parse_key_setting(text, "KeyScreenshot"), None);
}
