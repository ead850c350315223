use srdwm::event::{canonicalize_key_combo, parse_key_combo, Modifiers};

#[test]
fn super_first_combo_canonicalizes_to_dispatch_order() {
    assert_eq!(canonicalize_key_combo("Mod4+Shift+m"), "Shift+Mod4+m");
    assert_eq!(canonicalize_key_combo("Mod4+Ctrl+k"), "Ctrl+Mod4+k");
    assert_eq!(canonicalize_key_combo("Alt+Shift+Tab"), "Shift+Alt+Tab");
}

#[test]
fn already_canonical_combo_is_unchanged() {
    assert_eq!(canonicalize_key_combo("Ctrl+Mod4+k"), "Ctrl+Mod4+k");
}

#[test]
fn single_modifier_combo_is_unaffected() {
    assert_eq!(canonicalize_key_combo("Mod4+Return"), "Mod4+Return");
}

#[test]
fn lowercase_named_key_still_reaches_the_capitalized_dispatch_form() {
    assert_eq!(canonicalize_key_combo("Super+space"), canonicalize_key_combo("Super+Space"));
    assert_eq!(canonicalize_key_combo("Super+space"), "Mod4+Space");
    assert_eq!(canonicalize_key_combo("Super+Shift+return"), canonicalize_key_combo("Super+Shift+Return"));
}

#[test]
fn unrecognized_key_name_is_left_as_is() {
    assert_eq!(canonicalize_key_combo("Mod4+NotARealKey"), "Mod4+NotARealKey");
}

#[test]
fn parse_key_combo_accepts_modifiers_in_any_order() {
    let (mods, key) = parse_key_combo("Mod4+Shift+m").unwrap();
    assert_eq!(key, "m");
    assert!(mods.contains(Modifiers::SUPER) && mods.contains(Modifiers::SHIFT));

    let (mods2, key2) = parse_key_combo("Shift+Mod4+m").unwrap();
    assert_eq!(key2, "m");
    assert_eq!(mods, mods2);
}

#[test]
fn parse_key_combo_with_no_modifiers_is_bare_key() {
    let (mods, key) = parse_key_combo("Return").unwrap();
    assert_eq!(key, "Return");
    assert_eq!(mods, Modifiers::empty());
}
