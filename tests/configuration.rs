use reshade_preset_switcher::config::{default_version, migrate_configs, Config, Notifications, VERSION};
use reshade_preset_switcher::context::Context;
use reshade_preset_switcher::key_combination::{KeyCombination, KeyPress};
use reshade_preset_switcher::reshade::ReshadeContext;
use reshade_preset_switcher::shortcut_config::{
    bool_to_string, parse_active_preset_path, parse_shortcut_entries, shortcut_map_from,
};

fn key(code: &str, ctrl: bool, shift: bool, alt: bool) -> KeyCombination {
    KeyCombination { key_code: code.to_string(), ctrl, shift, alt }
}

fn sorted(mut v: Vec<(KeyCombination, String)>) -> Vec<(String, bool, bool, bool, String)> {
    let mut out: Vec<(String, bool, bool, bool, String)> =
        v.drain(..).map(|(k, p)| (k.key_code, k.ctrl, k.shift, k.alt, p)).collect();
    out.sort();
    out
}

const INI: &str = "[GENERAL]\r\nPresetPath= C:\\ReShade\\Day.ini \r\nPresetShortcutKeys=65,1,0,0,66,0,1,0,67,0,0,1\r\nPresetShortcutPaths=C:\\ReShade\\Day.ini,C:\\ReShade\\Night.ini,C:\\ReShade\\Dusk.ini\r\nOther=1\r\n";

#[test]
fn active_preset_is_read() {
    assert_eq!(parse_active_preset_path(INI), Some("C:\\ReShade\\Day.ini".to_string()));
    assert_eq!(parse_active_preset_path("X=1\nPresetPathX=2"), None);
    assert_eq!(parse_active_preset_path("A=1\nPresetPath=first\nPresetPath=second"), Some("first".to_string()));
}

#[test]
fn entries_are_read_in_order() {
    let e = parse_shortcut_entries(INI).unwrap();
    assert_eq!(e.len(), 3);
    assert_eq!(e[0], (key("65", true, false, false), "C:\\ReShade\\Day.ini".to_string()));
    assert_eq!(e[1], (key("66", false, true, false), "C:\\ReShade\\Night.ini".to_string()));
    assert_eq!(e[2], (key("67", false, false, true), "C:\\ReShade\\Dusk.ini".to_string()));
}

#[test]
fn missing_sections() {
    assert!(parse_shortcut_entries("PresetShortcutKeys=65,0,0,0").is_none());
    assert_eq!(parse_shortcut_entries("PresetShortcutPaths=a,b").unwrap().len(), 0);
    assert_eq!(parse_shortcut_entries("").map(|v| v.len()), None);
    // more paths than shortcuts, and a short last group of fields
    let e = parse_shortcut_entries("PresetShortcutPaths=a,b,c\nPresetShortcutKeys=1,1,1,1,2,1").unwrap();
    assert_eq!(e, vec![(key("1", true, true, true), "a".to_string()), (key("2", true, false, false), "b".to_string())]);
    // empty fields are skipped
    let e = parse_shortcut_entries("PresetShortcutPaths=,a,,\nPresetShortcutKeys=,5,0,0,0").unwrap();
    assert_eq!(e, vec![(key("5", false, false, false), "a".to_string())]);
}

#[test]
fn missing_presets_are_dropped_and_flagged() {
    let e = parse_shortcut_entries(INI).unwrap();
    let (map, missing) = shortcut_map_from(&e, &vec![true, false, true]);
    assert!(missing);
    let mut r = ReshadeContext::default();
    r.preset_shortcuts = map;
    assert!(r.shortcut_for_preset(&"C:\\ReShade\\Night.ini".to_string()).is_none());
    assert!(r.shortcut_for_preset(&"C:\\ReShade\\Dusk.ini".to_string()).is_some());
}

#[test]
fn duplicate_pairs_overwrite() {
    let e = parse_shortcut_entries("PresetShortcutPaths=a,b,a\nPresetShortcutKeys=1,0,0,0,1,0,0,0,3,0,0,0").unwrap();
    let (map, missing) = shortcut_map_from(&e, &vec![true, true, true]);
    assert!(!missing);
    let mut r = ReshadeContext::default();
    r.preset_shortcuts = map;
    // ("1", b) removed ("1", a); then ("3", a) removed nothing else
    assert_eq!(r.shortcut_for_preset(&"a".to_string()), Some(key("3", false, false, false)));
    assert_eq!(r.shortcut_for_preset(&"b".to_string()), Some(key("1", false, false, false)));
    let text = r.as_reshade_shortcut_configuration();
    assert_eq!(sorted(parse_shortcut_entries(&text).unwrap()).len(), 2);
}

#[test]
fn configuration_round_trip() {
    let e = parse_shortcut_entries(INI).unwrap();
    let (map, _) = shortcut_map_from(&e, &vec![true, true, true]);
    let mut r = ReshadeContext::default();
    r.preset_shortcuts = map;
    let text = r.as_reshade_shortcut_configuration();
    assert!(text.starts_with("PresetShortcutPaths="));
    assert_eq!(text.lines().count(), 2);
    let again = parse_shortcut_entries(&text).unwrap();
    assert_eq!(sorted(again.clone()), sorted(e.clone()));
    let (map2, _) = shortcut_map_from(&again, &vec![true; again.len()]);
    let mut r2 = ReshadeContext::default();
    r2.preset_shortcuts = map2;
    for (k, p) in e {
        assert_eq!(r2.shortcut_for_preset(&p), Some(k));
    }
}

#[test]
fn serialization_of_one_pair() {
    let (map, _) = shortcut_map_from(&vec![(key("65", true, false, true), "p".to_string())], &vec![true]);
    let mut r = ReshadeContext::default();
    r.preset_shortcuts = map;
    assert_eq!(r.as_reshade_shortcut_configuration(), "PresetShortcutPaths=p\nPresetShortcutKeys=65,1,0,1");
    assert!(r.valid());
    assert!(!ReshadeContext::default().valid());
    assert_eq!(ReshadeContext::default().as_reshade_shortcut_configuration(), "PresetShortcutPaths=\nPresetShortcutKeys=");
    assert_eq!(bool_to_string(true), "1");
    assert_eq!(bool_to_string(false), "0");
}

#[test]
fn load_into_context() {
    let mut ctx = Context::default();
    let e = parse_shortcut_entries(INI);
    ctx.load_reshade_configuration(parse_active_preset_path(INI), e, &vec![true, true, false]);
    assert_eq!(ctx.reshade.active_preset_path, "C:\\ReShade\\Day.ini");
    assert!(ctx.ui.invalid_reshade_preset_configuration);
    assert!(ctx.valid());
    ctx.load_reshade_configuration(None, None, &vec![]);
    assert!(!ctx.ui.invalid_reshade_preset_configuration);
    assert_eq!(ctx.reshade.active_preset_path, "C:\\ReShade\\Day.ini");
}

#[test]
fn key_presses_and_labels() {
    assert_eq!(key("65", true, false, true).key_sequence(), Some(vec![KeyPress::ControlLeft, KeyPress::Alt, KeyPress::Code(65)]));
    assert_eq!(key("+7", false, true, false).key_sequence(), Some(vec![KeyPress::ShiftLeft, KeyPress::Code(7)]));
    assert_eq!(key("x1", true, true, true).key_sequence(), None);
    assert_eq!(key("4294967296", false, false, false).key_sequence(), None);
    assert_eq!(key("65", true, true, true).label(), "Ctrl+Shift+Alt+A");
    assert_eq!(key("97", false, false, false).label(), "a");
    assert_eq!(key("55296", true, false, false).label(), "Ctrl+");
    assert_eq!(key("abc", false, false, true).label(), "Alt+");
    assert_eq!(KeyCombination::default(), key("", false, false, false));
}

#[test]
fn defaults() {
    let n = Notifications::default();
    assert!(n.notify_success && !n.notify_failure);
    let mut c = Config::default();
    assert_eq!(c.version, VERSION);
    assert!(c.preset_rules.is_empty());
    c.version = "0.0.1".to_string();
    migrate_configs(&mut c);
    assert_eq!(c.version, VERSION);
    assert_eq!(default_version(), VERSION);
}
