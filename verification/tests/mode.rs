use miniutils::mode::{
    chmod, chmod_numeric, chmod_symbolic, format_permissions, is_alphabetic, ModeChange,
};

#[test]
fn format_permissions_shows_each_bit() {
    assert_eq!(format_permissions(0o755), "rwxr-xr-x");
    assert_eq!(format_permissions(0o644), "rw-r--r--");
    assert_eq!(format_permissions(0o777), "rwxrwxrwx");
    assert_eq!(format_permissions(0), "---------");
    assert_eq!(format_permissions(0o421), "r---w---x");
}

#[test]
fn format_permissions_ignores_type_bits() {
    assert_eq!(format_permissions(0o100644), "rw-r--r--");
    assert_eq!(format_permissions(0o040755), "rwxr-xr-x");
    assert_eq!(format_permissions(0o4000), "---------");
}

#[test]
fn chmod_symbolic_single_letters() {
    assert_eq!(chmod("u+r"), ModeChange::Grant(0o400));
    assert_eq!(chmod("u+w"), ModeChange::Grant(0o200));
    assert_eq!(chmod("u+x"), ModeChange::Grant(0o100));
    assert_eq!(chmod("g+r"), ModeChange::Grant(0o040));
    assert_eq!(chmod("g+w"), ModeChange::Grant(0o020));
    assert_eq!(chmod("g+x"), ModeChange::Grant(0o010));
    assert_eq!(chmod("o+r"), ModeChange::Grant(0o004));
    assert_eq!(chmod("o+w"), ModeChange::Grant(0o002));
    assert_eq!(chmod("o+x"), ModeChange::Grant(0o001));
    assert_eq!(chmod("a+r"), ModeChange::Grant(0o444));
    assert_eq!(chmod("a+w"), ModeChange::Grant(0o222));
    assert_eq!(chmod("a+x"), ModeChange::Grant(0o111));
}

#[test]
fn chmod_symbolic_letters_combine() {
    assert_eq!(chmod("ug+rw"), ModeChange::Grant(0o660));
    assert_eq!(chmod("go-rwx"), ModeChange::Revoke(0o077));
    assert_eq!(chmod("ugo+rwx"), ModeChange::Grant(0o777));
    assert_eq!(chmod("a-rwx"), ModeChange::Revoke(0o777));
    assert_eq!(chmod("uu+xx"), ModeChange::Grant(0o100));
}

#[test]
fn chmod_symbolic_ignores_other_letters() {
    assert_eq!(chmod("uz+rq"), ModeChange::Grant(0o400));
    assert_eq!(chmod("z+r"), ModeChange::Grant(0));
    assert_eq!(chmod("u+q"), ModeChange::Grant(0));
}

#[test]
fn chmod_symbolic_without_sign_touches_no_bit() {
    assert_eq!(chmod("abc"), ModeChange::Revoke(0));
    assert_eq!(chmod("abc").apply(0o644), Some(0o644));
}

#[test]
fn chmod_plus_wins_over_minus() {
    // the text before the first `+` names the classes, `-` and all
    assert_eq!(chmod("u-w+x"), ModeChange::Grant(0o100));
    assert_eq!(chmod("u+w-x"), ModeChange::Grant(0o300));
}

#[test]
fn chmod_first_sign_divides() {
    assert_eq!(chmod("u+x+r"), ModeChange::Grant(0o500));
    assert_eq!(chmod("g-r-w"), ModeChange::Revoke(0o060));
    assert_eq!(chmod("u+"), ModeChange::Grant(0));
    assert_eq!(chmod("u-"), ModeChange::Revoke(0));
}

#[test]
fn chmod_alphabetic_beyond_ascii_is_symbolic() {
    assert_eq!(chmod("\u{e9}u+x"), ModeChange::Grant(0o100));
    assert_eq!(chmod("\u{4eac}"), ModeChange::Revoke(0));
}

#[test]
fn chmod_reads_octal_modes() {
    assert_eq!(chmod("644"), ModeChange::Absolute(0o644));
    assert_eq!(chmod("0755"), ModeChange::Absolute(0o755));
    assert_eq!(chmod("7"), ModeChange::Absolute(7));
    assert_eq!(chmod("+644"), ModeChange::Absolute(0o644));
    assert_eq!(chmod("37777777777"), ModeChange::Absolute(u32::MAX));
}

#[test]
fn chmod_invalid_octal_changes_nothing() {
    assert_eq!(chmod("999"), ModeChange::Nothing);
    assert_eq!(chmod("64x"), ModeChange::Nothing);
    assert_eq!(chmod("-644"), ModeChange::Nothing);
    assert_eq!(chmod("+"), ModeChange::Nothing);
    assert_eq!(chmod("++1"), ModeChange::Nothing);
    assert_eq!(chmod("6 4"), ModeChange::Nothing);
    assert_eq!(chmod("40000000000"), ModeChange::Nothing);
    assert_eq!(chmod("777777777777777777777777777"), ModeChange::Nothing);
    assert_eq!(chmod(""), ModeChange::Nothing);
    assert_eq!(chmod("\u{1f49d}"), ModeChange::Nothing);
}

#[test]
fn mode_change_apply() {
    assert_eq!(ModeChange::Nothing.apply(0o644), None);
    assert_eq!(ModeChange::Absolute(0o600).apply(0o644), Some(0o600));
    assert_eq!(ModeChange::Grant(0o111).apply(0o644), Some(0o755));
    assert_eq!(ModeChange::Revoke(0o022).apply(0o666), Some(0o644));
    assert_eq!(ModeChange::Revoke(0o777).apply(0o100644), Some(0o100000));
}

#[test]
fn mode_change_reads_current() {
    assert!(ModeChange::Grant(1).reads_current());
    assert!(ModeChange::Revoke(1).reads_current());
    assert!(!ModeChange::Absolute(1).reads_current());
    assert!(!ModeChange::Nothing.reads_current());
}

#[test]
fn chmod_execute_round_trip() {
    for mode in [0o644u32, 0o600, 0, 0o100644, 0o077] {
        let granted = chmod("u+x").apply(mode).unwrap();
        assert_eq!(granted, mode | 0o100);
        assert_eq!(chmod("u-x").apply(granted), Some(mode));
    }
}

#[test]
fn chmod_execute_round_trip_clears_a_bit_that_was_set() {
    let granted = chmod("u+x").apply(0o755).unwrap();
    assert_eq!(granted, 0o755);
    assert_eq!(chmod("u-x").apply(granted), Some(0o655));
}

#[test]
fn chmod_changes_are_idempotent() {
    let change = chmod("go-w");
    let once = change.apply(0o666).unwrap();
    assert_eq!(once, 0o644);
    assert_eq!(change.apply(once), Some(once));
    let change = chmod("a+x");
    let once = change.apply(0o644).unwrap();
    assert_eq!(once, 0o755);
    assert_eq!(change.apply(once), Some(once));
}

#[test]
fn chmod_symbolic_reads_any_text_as_symbolic() {
    assert_eq!(chmod_symbolic("u+x"), ModeChange::Grant(0o100));
    assert_eq!(chmod_symbolic("644"), ModeChange::Revoke(0));
    assert_eq!(chmod_symbolic("+x"), ModeChange::Grant(0));
    assert_eq!(chmod_symbolic("7u-r"), ModeChange::Revoke(0o400));
    assert_eq!(chmod_symbolic(""), ModeChange::Revoke(0));
}

#[test]
fn chmod_numeric_reads_any_text_as_a_number() {
    assert_eq!(chmod_numeric("644"), ModeChange::Absolute(0o644));
    assert_eq!(chmod_numeric("u+x"), ModeChange::Nothing);
    assert_eq!(chmod_numeric(""), ModeChange::Nothing);
    assert_eq!(chmod_numeric("0"), ModeChange::Absolute(0));
}

#[test]
fn is_alphabetic_agrees_with_std() {
    for code in 0..0x3000u32 {
        if let Some(c) = char::from_u32(code) {
            assert_eq!(is_alphabetic(c), c.is_alphabetic(), "code {:#x}", code);
        }
    }
    assert!(is_alphabetic('\u{4eac}'));
    assert!(!is_alphabetic('\u{1f49d}'));
}
