use futurecommander::capability::{
    Answer, BlindGuard, Capabilities, Capability, DefaultGuard, Guard, InteractiveGuard, QuietGuard,
    RegistrarGuard, ZealedGuard,
};
use futurecommander::errors::DomainErrorOf;
use futurecommander::path::FsPath;

#[test]
fn all_guards_let_default_through() {
    let target = FsPath::new("/virtual/directory");
    let default = true;

    let mut zealed = ZealedGuard;
    assert!(zealed.authorize(Capability::Overwrite, default, &target).unwrap());
    assert!(zealed.authorize(Capability::Merge, default, &target).unwrap());
    assert!(zealed.authorize(Capability::Recursive, default, &target).unwrap());

    let mut blind = BlindGuard;
    assert!(blind.authorize(Capability::Overwrite, default, &target).unwrap());
    assert!(blind.authorize(Capability::Merge, default, &target).unwrap());
    assert!(blind.authorize(Capability::Recursive, default, &target).unwrap());

    let mut quiet = QuietGuard;
    assert!(quiet.authorize(Capability::Overwrite, default, &target).unwrap());
    assert!(quiet.authorize(Capability::Merge, default, &target).unwrap());
    assert!(quiet.authorize(Capability::Recursive, default, &target).unwrap());
}

#[test]
fn zealed_guard_block_sensible_operation() {
    let mut guard = ZealedGuard;
    let target = FsPath::new("/virtual/directory");
    let default = false;

    assert_eq!(
        guard.authorize(Capability::Overwrite, default, &target).err().unwrap(),
        DomainErrorOf::OverwriteNotAllowed(target.clone())
    );
    assert_eq!(
        guard.authorize(Capability::Merge, default, &target).err().unwrap(),
        DomainErrorOf::MergeNotAllowed(target.clone())
    );
    assert_eq!(
        guard.authorize(Capability::Recursive, default, &target).err().unwrap(),
        DomainErrorOf::RecursiveNotAllowed(target.clone())
    );
}

#[test]
fn quiet_guard_skip_sensible_operation() {
    let mut guard = QuietGuard;
    let target = FsPath::new("/virtual/directory");
    let default = false;

    assert_eq!(guard.authorize(Capability::Overwrite, default, &target).unwrap(), false);
    assert_eq!(guard.authorize(Capability::Merge, default, &target).unwrap(), false);
    assert_eq!(guard.authorize(Capability::Recursive, default, &target).unwrap(), false);
}

#[test]
fn blind_guard_let_any_sensible_operation_through() {
    let mut guard = BlindGuard;
    let target = FsPath::new("/virtual/directory");
    let default = false;

    assert_eq!(guard.authorize(Capability::Overwrite, default, &target).unwrap(), true);
    assert_eq!(guard.authorize(Capability::Merge, default, &target).unwrap(), true);
    assert_eq!(guard.authorize(Capability::Recursive, default, &target).unwrap(), true);
}

#[test]
fn default_guard_decides_as_the_zealed_one() {
    let mut guard = DefaultGuard;
    let target = FsPath::new("/x");
    assert!(guard.authorize(Capability::Merge, true, &target).unwrap());
    assert_eq!(
        guard.authorize(Capability::Merge, false, &target).err().unwrap(),
        DomainErrorOf::MergeNotAllowed(target.clone())
    );
}

#[test]
fn capabilities_add_and_sub() {
    let none = Capabilities::default();
    assert!(!none.authorize(Capability::Merge));
    let merge = none.add(Capability::Merge);
    assert!(merge.authorize(Capability::Merge));
    assert!(merge.merge());
    assert!(!merge.overwrite());
    assert!(!merge.recursive());
    let both = merge.add(Capability::Recursive);
    assert!(both.recursive());
    let back = both.sub(Capability::Merge);
    assert!(!back.authorize(Capability::Merge));
    assert!(back.authorize(Capability::Recursive));
    let all = Capabilities::new(true, true, true);
    assert!(all.overwrite());
}

#[test]
fn registrar_remembers_what_it_granted() {
    let target = FsPath::new("/a");
    let other = FsPath::new("/b");
    let mut guard = RegistrarGuard::from(QuietGuard);
    assert!(guard.authorize(Capability::Overwrite, true, &target).unwrap());
    assert!(guard.granted(&target).overwrite());
    assert!(guard.authorize(Capability::Overwrite, false, &target).unwrap());
    assert!(!guard.authorize(Capability::Overwrite, false, &other).unwrap());
    assert!(!guard.granted(&other).overwrite());
}

#[test]
fn registrar_over_zealed_fails_on_first_refusal() {
    let target = FsPath::new("/a");
    let mut guard = RegistrarGuard::from(ZealedGuard);
    assert_eq!(
        guard.authorize(Capability::Merge, false, &target).err().unwrap(),
        DomainErrorOf::MergeNotAllowed(target.clone())
    );
}

#[test]
fn interactive_guard_decides_without_asking_when_it_can() {
    let mut guard = InteractiveGuard::default();
    assert_eq!(guard.unasked(Capability::Merge, true), Some(true));
    assert_eq!(guard.unasked(Capability::Merge, false), None);
    assert_eq!(InteractiveGuard::parse_answer("allow_all"), Answer::AllowAll);
    assert_eq!(InteractiveGuard::parse_answer("whatever"), Answer::Skip);
    assert!(guard.answer(Capability::Merge, Answer::AllowAll).unwrap());
    assert_eq!(guard.unasked(Capability::Merge, false), Some(true));
    assert!(!guard.answer(Capability::Overwrite, Answer::SkipAll).unwrap());
    assert_eq!(guard.unasked(Capability::Overwrite, true), Some(false));
    assert_eq!(guard.answer(Capability::Recursive, Answer::Cancel).err().unwrap(), DomainErrorOf::UserCancelled);
}
