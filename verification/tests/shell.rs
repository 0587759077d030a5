use futurecommander::capability::{AnyGuard, Answer, Capability, Guard};
use futurecommander::path::FsPath;
use futurecommander::shell::{add_red_color, trim, AvailableGuard};

#[test]
fn available_guards_are_named() {
    assert!(AvailableGuard::available("interactive"));
    assert!(AvailableGuard::available("zealed"));
    assert!(AvailableGuard::available("skip"));
    assert!(AvailableGuard::available("blind"));
    assert!(!AvailableGuard::available("careless"));
    assert!(!AvailableGuard::available(" zealed"));
}

#[test]
fn a_guard_is_found_by_its_trimmed_name() {
    assert_eq!(AvailableGuard::from_name("  zealed \n"), AvailableGuard::Zealed);
    assert_eq!(AvailableGuard::from_name("skip"), AvailableGuard::Skip);
    assert_eq!(AvailableGuard::from_name("blind"), AvailableGuard::Blind);
    assert_eq!(AvailableGuard::from_name("interactive"), AvailableGuard::Interactive);
    assert_eq!(AvailableGuard::from_name("other"), AvailableGuard::Interactive);
    assert_eq!(AvailableGuard::default(), AvailableGuard::Interactive);
}

#[test]
fn red_text_is_framed_by_terminal_codes() {
    assert_eq!(add_red_color("error"), String::from("\x1b[1;91merror\x1b[0m"));
    assert_eq!(add_red_color(""), String::from("\x1b[1;91m\x1b[0m"));
}

#[test]
fn each_guard_name_gives_its_guard() {
    let target = FsPath::new("/t");
    let mut zealed = AvailableGuard::Zealed.to_guard(vec![]);
    assert!(zealed.authorize(Capability::Merge, false, &target).is_err());
    let mut blind = AvailableGuard::Blind.to_guard(vec![]);
    assert!(blind.authorize(Capability::Merge, false, &target).unwrap());
    let mut quiet = AvailableGuard::Skip.to_guard(vec![]);
    assert!(!quiet.authorize(Capability::Merge, false, &target).unwrap());
    let mut asking = AvailableGuard::Interactive.to_guard(vec![Answer::Allow]);
    assert!(asking.authorize(Capability::Overwrite, false, &target).unwrap());
    assert!(!asking.authorize(Capability::Overwrite, false, &target).unwrap());
    match asking {
        AnyGuard::Scripted(g) => assert_eq!(g.pending(), Some((Capability::Overwrite, target.clone()))),
        _ => panic!("the interactive guard is scripted"),
    }
}

#[test]
fn trimming_strips_unicode_white_space_at_both_ends_only() {
    assert_eq!(trim("\u{3000} a b\t\n"), "a b");
    assert_eq!(trim("\u{85}x\u{a0}"), "x");
    assert_eq!(trim(" \r\n\u{2028} "), "");
    assert_eq!(trim(""), "");
    assert_eq!(trim("a\u{200b}"), "a\u{200b}");
}
