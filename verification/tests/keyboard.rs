use libreland::keyboard::{
    effective_mods, fold_keysym, format_trigger, is_modifier_keysym, key_names, matches_key, parse_trigger,
    KeyLookup, KeyResult, MOD_SHIFT, MOD_SUPER,
};
use xkeysym::Keysym;

/// What the names of keys in these tests stand for, as libxkbcommon has them:
/// spelled as they are, and in any case.
fn look_up(name: &str) -> KeyLookup {
    let exact = match name {
        "e" => Keysym::e.raw(),
        "p" => Keysym::p.raw(),
        "F5" => Keysym::F5.raw(),
        "Print" => Keysym::Print.raw(),
        _ => 0,
    };
    let folded = match name.to_ascii_lowercase().as_str() {
        "e" => Keysym::e.raw(),
        "p" => Keysym::p.raw(),
        "f5" => Keysym::F5.raw(),
        "print" => Keysym::Print.raw(),
        _ => 0,
    };
    KeyLookup { exact, folded }
}

fn parse(trigger: &str) -> Option<(u32, u32)> {
    let found = key_names(trigger).iter().map(|n| look_up(n)).collect();
    parse_trigger(trigger, &found)
}

fn ev(produced: Keysym, base: Keysym) -> KeyResult {
    KeyResult {
        keysym: produced.raw(),
        base_keysym: base.raw(),
        mods: 0,
    }
}

/// No layout leaves the digit row alone under Shift: US gives `@` for Shift+2,
/// Swedish gives `"`. The shifted level is another symbol, not a change of
/// case, and still satisfies a bind written for the digit.
#[test]
fn a_shifted_digit_matches_the_bind_written_for_the_digit() {
    for (produced, digit) in [
        (Keysym::quotedbl, Keysym::_2),   // se
        (Keysym::at, Keysym::_2),         // us
        (Keysym::exclam, Keysym::_1),     // both
        (Keysym::numbersign, Keysym::_3), // us
    ] {
        assert!(
            matches_key(&ev(produced, digit), digit.raw()),
            "{produced:?} should satisfy a bind on {digit:?}"
        );
    }
}

/// The unshifted symbol comes from the key itself, so layouts that nobody
/// thought of work too.
#[test]
fn the_fix_is_layout_agnostic() {
    assert!(matches_key(&ev(Keysym::eacute, Keysym::_2), Keysym::_2.raw()));
    assert!(matches_key(&ev(Keysym::periodcentered, Keysym::_3), Keysym::_3.raw()));
}

/// A bind written for the shifted symbol still matches it directly.
#[test]
fn a_bind_on_the_shifted_symbol_still_matches() {
    assert!(matches_key(&ev(Keysym::exclam, Keysym::_1), Keysym::exclam.raw()));
}

/// Another key is still another key.
#[test]
fn unrelated_keys_do_not_match() {
    assert!(!matches_key(&ev(Keysym::quotedbl, Keysym::_2), Keysym::_3.raw()));
    assert!(!matches_key(&ev(Keysym::a, Keysym::a), Keysym::b.raw()));
}

/// Case is folded on top, so `Super+Shift+E` reaches a bind written for either
/// letter.
#[test]
fn case_folding_still_applies() {
    assert!(matches_key(&ev(Keysym::E, Keysym::e), Keysym::e.raw()));
    assert!(matches_key(&ev(Keysym::E, Keysym::e), Keysym::E.raw()));
}

#[test]
fn triggers_round_trip() {
    let (mods, key) = parse("SUPER+SHIFT+e").expect("parses");
    assert_eq!(mods, MOD_SUPER | MOD_SHIFT);
    assert_eq!(key, Keysym::e.raw());
    assert_eq!(format_trigger(mods, "e"), "SUPER+SHIFT+e");
}

#[test]
fn trigger_modifier_aliases_are_accepted() {
    assert_eq!(parse("LOGO+p"), parse("SUPER+p"));
}

#[test]
fn a_trigger_without_a_key_is_rejected() {
    assert!(parse("SUPER+SHIFT").is_none());
    assert!(parse("").is_none());
    assert!(parse("SUPER+notakey").is_none());
}

#[test]
fn function_and_named_keys_parse() {
    assert_eq!(parse("F5").map(|(_, k)| k), Some(Keysym::F5.raw()));
    assert_eq!(
        parse("CTRL+Print").map(|(_, k)| k),
        Some(Keysym::Print.raw())
    );
}

#[test]
fn held_modifiers_are_recognised() {
    for k in [
        Keysym::Super_L,
        Keysym::Super_R,
        Keysym::Alt_L,
        Keysym::Alt_R,
        Keysym::Control_L,
        Keysym::Control_R,
        Keysym::Shift_L,
        Keysym::Shift_R,
        Keysym::Meta_L,
        Keysym::Hyper_R,
        Keysym::ISO_Level3_Shift,
    ] {
        assert!(is_modifier_keysym(k.raw()), "{k:?} should be a held modifier");
    }
}

#[test]
fn ordinary_and_latching_keys_are_not() {
    // Latching locks keep their press semantics on purpose.
    for k in [
        Keysym::Caps_Lock,
        Keysym::Num_Lock,
        Keysym::Scroll_Lock,
        Keysym::a,
        Keysym::E,
        Keysym::Return,
        Keysym::F1,
        Keysym::space,
        Keysym::Print,
    ] {
        assert!(!is_modifier_keysym(k.raw()), "{k:?} should not be a held modifier");
    }
}

#[test]
fn folding_leaves_modifier_keysyms_alone() {
    for k in [Keysym::Super_L, Keysym::Alt_R, Keysym::Shift_L] {
        assert_eq!(fold_keysym(k.raw()), k.raw());
    }
}

#[test]
fn triggers_are_read_leniently() {
    assert_eq!(key_names(" super + Shift + F5 "), vec!["F5"]);
    assert_eq!(parse(" super + Shift + F5 "), Some((MOD_SUPER | MOD_SHIFT, Keysym::F5.raw())));
    // Any case will do where the spelling is not known, and the last key wins.
    assert_eq!(parse("CTRL+PRINT").map(|(_, k)| k), Some(Keysym::Print.raw()));
    assert_eq!(parse("e+p").map(|(_, k)| k), Some(Keysym::p.raw()));
    assert_eq!(parse("++e"), Some((0, Keysym::e.raw())));
    // A name that was not looked up is not known.
    assert_eq!(parse_trigger("e", &vec![]), None);
    assert_eq!(format_trigger(0, "e"), "e");
    assert_eq!(format_trigger(15, "e"), "SUPER+CTRL+ALT+SHIFT+e");
}

#[test]
fn held_modifiers_make_a_mask() {
    assert_eq!(effective_mods(true, false, false, true), MOD_SHIFT | MOD_SUPER);
    assert_eq!(effective_mods(false, true, true, false), 6);
    let k = KeyResult::new(Keysym::E.raw(), Some(Keysym::e.raw()), MOD_SUPER);
    assert_eq!(k.base_keysym, Keysym::e.raw());
    assert_eq!(KeyResult::new(Keysym::E.raw(), None, 0).base_keysym, Keysym::E.raw());
    assert!(k.has_all_mods(MOD_SUPER));
    assert!(k.has_all_mods(0));
    assert!(!k.has_all_mods(MOD_SUPER | MOD_SHIFT));
}
