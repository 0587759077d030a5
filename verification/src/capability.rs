//! Capabilities and guards: what an event may do when it would merge
//! directories, overwrite a file or remove a directory with its content.

use vstd::prelude::*;

use crate::errors::{DomainError, DomainErrorOf, DomainErrorView};
use crate::path::{FsPath, PathView};
use crate::shell::{trim, trimmed};

verus! {

/// A sensitive thing that an event may have to do.
#[derive(Clone, Copy, Debug, PartialEq, Eq, Structural)]
pub enum Capability {
    Merge,
    Overwrite,
    Recursive,
}

/// A set of capabilities.
#[derive(Clone, Copy, Debug, PartialEq, Eq, Structural)]
pub struct Capabilities {
    merge: bool,
    overwrite: bool,
    recursive: bool,
}

impl View for Capabilities {
    type V = Set<Capability>;

    closed spec fn view(&self) -> Set<Capability> {
        Set::new(
            |c: Capability|
                match c {
                    Capability::Merge => self.merge,
                    Capability::Overwrite => self.overwrite,
                    Capability::Recursive => self.recursive,
                },
        )
    }
}

impl Default for Capabilities {
    fn default() -> (c: Self)
        ensures
            c@ == Set::<Capability>::empty(),
    {
        let c = Capabilities { merge: false, overwrite: false, recursive: false };
        assert(c@ =~= Set::<Capability>::empty());
        c
    }
}

impl Capabilities {
    /// The set of the given capabilities.
    pub fn new(merge: bool, overwrite: bool, recursive: bool) -> (c: Capabilities)
        ensures
            c@.contains(Capability::Merge) == merge,
            c@.contains(Capability::Overwrite) == overwrite,
            c@.contains(Capability::Recursive) == recursive,
    {
        Capabilities { merge, overwrite, recursive }
    }

    pub fn merge(self) -> (b: bool)
        ensures
            b == self@.contains(Capability::Merge),
    {
        self.merge
    }

    pub fn overwrite(self) -> (b: bool)
        ensures
            b == self@.contains(Capability::Overwrite),
    {
        self.overwrite
    }

    pub fn recursive(self) -> (b: bool)
        ensures
            b == self@.contains(Capability::Recursive),
    {
        self.recursive
    }

    /// Whether `capability` is in the set.
    pub fn authorize(self, capability: Capability) -> (b: bool)
        ensures
            b == self@.contains(capability),
    {
        match capability {
            Capability::Merge => self.merge(),
            Capability::Recursive => self.recursive(),
            Capability::Overwrite => self.overwrite(),
        }
    }

    /// The set with `capability` added.
    pub fn add(self, capability: Capability) -> (c: Capabilities)
        ensures
            c@ == self@.insert(capability),
    {
        let c = Capabilities {
            merge: self.merge || capability == Capability::Merge,
            overwrite: self.overwrite || capability == Capability::Overwrite,
            recursive: self.recursive || capability == Capability::Recursive,
        };
        assert(c@ =~= self@.insert(capability));
        c
    }

    /// The set with `capability` taken out.
    pub fn sub(self, capability: Capability) -> (c: Capabilities)
        ensures
            c@ == self@.remove(capability),
    {
        let c = Capabilities {
            merge: self.merge && capability != Capability::Merge,
            overwrite: self.overwrite && capability != Capability::Overwrite,
            recursive: self.recursive && capability != Capability::Recursive,
        };
        assert(c@ =~= self@.remove(capability));
        c
    }
}

pub open spec fn bool_domain_view(r: Result<bool, DomainError>) -> Result<bool, DomainErrorView> {
    match r {
        Ok(b) => Ok(b),
        Err(e) => Err(e@),
    }
}

/// The error that refuses `capability` on `target`.
pub open spec fn refusal_view(capability: Capability, target: PathView) -> DomainErrorView {
    match capability {
        Capability::Merge => DomainErrorOf::MergeNotAllowed(target),
        Capability::Overwrite => DomainErrorOf::OverwriteNotAllowed(target),
        Capability::Recursive => DomainErrorOf::RecursiveNotAllowed(target),
    }
}

/// Decides whether an event may use a capability on a target, given what
/// the event itself asked for (`default`). A guard may keep state.
pub trait Guard: View + Sized {
    /// The guard's state after the decision, and the decision: go on, skip,
    /// or fail.
    spec fn authorize_view(
        v: Self::V,
        capability: Capability,
        default: bool,
        target: PathView,
    ) -> (Self::V, Result<bool, DomainErrorView>);

    fn authorize(&mut self, capability: Capability, default: bool, target: &FsPath) -> (r: Result<
        bool,
        DomainError,
    >)
        ensures
            (final(self)@, bool_domain_view(r)) == Self::authorize_view(
                old(self)@,
                capability,
                default,
                target@,
            ),
    ;
}

fn refusal(capability: Capability, target: &FsPath) -> (e: DomainError)
    ensures
        e@ == refusal_view(capability, target@),
{
    match capability {
        Capability::Merge => DomainErrorOf::MergeNotAllowed(target.clone()),
        Capability::Overwrite => DomainErrorOf::OverwriteNotAllowed(target.clone()),
        Capability::Recursive => DomainErrorOf::RecursiveNotAllowed(target.clone()),
    }
}

/// Lets through what the event asked for, and fails on the rest.
#[derive(Clone, Copy, Debug)]
pub struct ZealedGuard;

impl View for ZealedGuard {
    type V = ();

    open spec fn view(&self) -> () {
        ()
    }
}

impl Guard for ZealedGuard {
    open spec fn authorize_view(
        v: (),
        capability: Capability,
        default: bool,
        target: PathView,
    ) -> ((), Result<bool, DomainErrorView>) {
        if default {
            ((), Ok(true))
        } else {
            ((), Err(refusal_view(capability, target)))
        }
    }

    fn authorize(&mut self, capability: Capability, default: bool, target: &FsPath) -> (r: Result<
        bool,
        DomainError,
    >) {
        if default {
            Ok(true)
        } else {
            Err(refusal(capability, target))
        }
    }
}

/// Lets everything through.
#[derive(Clone, Copy, Debug)]
pub struct BlindGuard;

impl View for BlindGuard {
    type V = ();

    open spec fn view(&self) -> () {
        ()
    }
}

impl Guard for BlindGuard {
    open spec fn authorize_view(
        v: (),
        capability: Capability,
        default: bool,
        target: PathView,
    ) -> ((), Result<bool, DomainErrorView>) {
        ((), Ok(true))
    }

    fn authorize(&mut self, capability: Capability, default: bool, target: &FsPath) -> (r: Result<
        bool,
        DomainError,
    >) {
        Ok(true)
    }
}

/// Lets through what the event asked for, and skips the rest.
#[derive(Clone, Copy, Debug)]
pub struct QuietGuard;

impl View for QuietGuard {
    type V = ();

    open spec fn view(&self) -> () {
        ()
    }
}

impl Guard for QuietGuard {
    open spec fn authorize_view(
        v: (),
        capability: Capability,
        default: bool,
        target: PathView,
    ) -> ((), Result<bool, DomainErrorView>) {
        ((), Ok(default))
    }

    fn authorize(&mut self, capability: Capability, default: bool, target: &FsPath) -> (r: Result<
        bool,
        DomainError,
    >) {
        Ok(default)
    }
}

/// The guard of the events when none is given: it decides as the zealed
/// guard does.
#[derive(Clone, Copy, Debug)]
pub struct DefaultGuard;

impl View for DefaultGuard {
    type V = ();

    open spec fn view(&self) -> () {
        ()
    }
}

impl Guard for DefaultGuard {
    open spec fn authorize_view(
        v: (),
        capability: Capability,
        default: bool,
        target: PathView,
    ) -> ((), Result<bool, DomainErrorView>) {
        if default {
            ((), Ok(true))
        } else {
            ((), Err(refusal_view(capability, target)))
        }
    }

    fn authorize(&mut self, capability: Capability, default: bool, target: &FsPath) -> (r: Result<
        bool,
        DomainError,
    >) {
        if default {
            Ok(true)
        } else {
            Err(refusal(capability, target))
        }
    }
}

pub type Registry = Seq<(PathView, Set<Capability>)>;

/// The first entry of the registry at or after `from` that is about `p`.
pub open spec fn registry_index(reg: Registry, p: PathView, from: nat) -> Option<nat>
    decreases reg.len() - from,
{
    if from >= reg.len() {
        None
    } else if reg[from as int].0 == p {
        Some(from)
    } else {
        registry_index(reg, p, from + 1)
    }
}

/// The capabilities granted on `p`.
pub open spec fn registry_get(reg: Registry, p: PathView) -> Set<Capability> {
    match registry_index(reg, p, 0) {
        Some(i) => reg[i as int].1,
        None => Set::empty(),
    }
}

/// The registry with the capabilities of `p` set to `caps`.
pub open spec fn registry_set(reg: Registry, p: PathView, caps: Set<Capability>) -> Registry {
    match registry_index(reg, p, 0) {
        Some(i) => reg.update(i as int, (p, caps)),
        None => reg.push((p, caps)),
    }
}

pub open spec fn registry_view(v: Seq<(FsPath, Capabilities)>) -> Registry {
    v.map_values(|e: (FsPath, Capabilities)| (e.0@, e.1@))
}

/// Remembers, for each target, the capabilities granted on it, and asks an
/// inner guard about the others.
#[derive(Debug)]
pub struct RegistrarGuard<G> {
    inner: G,
    registry: Vec<(FsPath, Capabilities)>,
}

impl<G: Guard> View for RegistrarGuard<G> {
    type V = (G::V, Registry);

    closed spec fn view(&self) -> (G::V, Registry) {
        (self.inner@, registry_view(self.registry@))
    }
}

impl<G: Guard> Guard for RegistrarGuard<G> {
    open spec fn authorize_view(
        v: (G::V, Registry),
        capability: Capability,
        default: bool,
        target: PathView,
    ) -> ((G::V, Registry), Result<bool, DomainErrorView>) {
        let caps = registry_get(v.1, target);
        if caps.contains(capability) {
            ((v.0, registry_set(v.1, target, caps.insert(capability))), Ok(true))
        } else {
            let asked = G::authorize_view(v.0, capability, default, target);
            match asked.1 {
                Err(e) => ((asked.0, v.1), Err(e)),
                Ok(true) => ((asked.0, registry_set(v.1, target, caps.insert(capability))), Ok(true)),
                Ok(false) => ((asked.0, v.1), Ok(false)),
            }
        }
    }

    fn authorize(&mut self, capability: Capability, default: bool, target: &FsPath) -> (r: Result<
        bool,
        DomainError,
    >) {
        let found = self.find(target);
        let caps = match found {
            Some(i) => self.registry[i].1,
            None => Capabilities::default(),
        };
        if caps.authorize(capability) {
            self.set(found, target, caps.add(capability));
            return Ok(true);
        }
        match self.inner.authorize(capability, default, target) {
            Err(e) => Err(e),
            Ok(true) => {
                self.set(found, target, caps.add(capability));
                Ok(true)
            },
            Ok(false) => Ok(false),
        }
    }
}

impl<G: Guard> RegistrarGuard<G> {
    /// A registrar with an empty registry over `inner`.
    pub fn from(inner: G) -> (g: RegistrarGuard<G>)
        ensures
            g@ == (inner@, Seq::<(PathView, Set<Capability>)>::empty()),
    {
        let g = RegistrarGuard { inner, registry: Vec::new() };
        assert(registry_view(g.registry@) =~= Seq::<(PathView, Set<Capability>)>::empty());
        g
    }

    /// The capabilities granted on `target`.
    pub fn granted(&self, target: &FsPath) -> (c: Capabilities)
        ensures
            c@ == registry_get(self@.1, target@),
    {
        match self.find(target) {
            Some(i) => self.registry[i].1,
            None => Capabilities::default(),
        }
    }

    fn find(&self, target: &FsPath) -> (r: Option<usize>)
        ensures
            match r {
                Some(i) => registry_index(self@.1, target@, 0) == Some(i as nat) && i
                    < self.registry@.len(),
                None => registry_index(self@.1, target@, 0) is None,
            },
    {
        let ghost reg = self@.1;
        let mut i: usize = 0;
        while i < self.registry.len()
            invariant
                reg == registry_view(self.registry@),
                i <= self.registry.len(),
                registry_index(reg, target@, 0) == registry_index(reg, target@, i as nat),
            decreases self.registry.len() - i,
        {
            assert(reg[i as int] == (self.registry@[i as int].0@, self.registry@[i as int].1@));
            if self.registry[i].0.same(target) {
                return Some(i);
            }
            i += 1;
        }
        None
    }

    fn set(&mut self, found: Option<usize>, target: &FsPath, caps: Capabilities)
        requires
            match found {
                Some(i) => registry_index(old(self)@.1, target@, 0) == Some(i as nat) && i
                    < old(self).registry@.len(),
                None => registry_index(old(self)@.1, target@, 0) is None,
            },
        ensures
            final(self)@ == (old(self)@.0, registry_set(old(self)@.1, target@, caps@)),
    {
        let ghost before = self.registry@;
        match found {
            Some(i) => {
                self.registry.set(i, (target.clone(), caps));
                assert(registry_view(self.registry@) =~= registry_view(before).update(
                    i as int,
                    (target@, caps@),
                ));
            },
            None => {
                self.registry.push((target.clone(), caps));
                assert(registry_view(self.registry@) =~= registry_view(before).push(
                    (target@, caps@),
                ));
            },
        }
    }
}

/// What an interactive guard is told.
#[derive(Clone, Copy, Debug, PartialEq, Eq, Structural)]
pub enum Answer {
    Skip,
    SkipAll,
    Allow,
    AllowAll,
    Cancel,
}

/// The answer that a line of input gives: anything not understood skips.
pub open spec fn answer_view(input: Seq<char>) -> Answer {
    if input == "skip_all"@ {
        Answer::SkipAll
    } else if input == "allow"@ {
        Answer::Allow
    } else if input == "allow_all"@ {
        Answer::AllowAll
    } else if input == "cancel"@ {
        Answer::Cancel
    } else {
        Answer::Skip
    }
}

/// A guard that asks the user about what the event did not ask for, and
/// remembers the capabilities to skip or allow from then on.
#[derive(Clone, Copy, Debug)]
pub struct InteractiveGuard {
    skip_all: Capabilities,
    allow_all: Capabilities,
}

impl View for InteractiveGuard {
    type V = (Set<Capability>, Set<Capability>);

    closed spec fn view(&self) -> (Set<Capability>, Set<Capability>) {
        (self.skip_all@, self.allow_all@)
    }
}

impl Default for InteractiveGuard {
    fn default() -> (g: Self)
        ensures
            g@ == (Set::<Capability>::empty(), Set::<Capability>::empty()),
    {
        InteractiveGuard { skip_all: Capabilities::default(), allow_all: Capabilities::default() }
    }
}

/// The decision taken without a question, if there is one.
pub open spec fn unasked_view(
    v: (Set<Capability>, Set<Capability>),
    capability: Capability,
    default: bool,
) -> Option<bool> {
    if v.0.contains(capability) {
        Some(false)
    } else if default || v.1.contains(capability) {
        Some(true)
    } else {
        None
    }
}

/// The decision that an answer gives, and the guard's state after it.
pub open spec fn answered_view(
    v: (Set<Capability>, Set<Capability>),
    capability: Capability,
    answer: Answer,
) -> ((Set<Capability>, Set<Capability>), Result<bool, DomainErrorView>) {
    match answer {
        Answer::Skip => (v, Ok(false)),
        Answer::Allow => (v, Ok(true)),
        Answer::SkipAll => ((v.0.insert(capability), v.1), Ok(false)),
        Answer::AllowAll => ((v.0, v.1.insert(capability)), Ok(true)),
        Answer::Cancel => (v, Err(DomainErrorOf::UserCancelled)),
    }
}

impl InteractiveGuard {
    /// The decision taken without asking: skipped for good, or allowed by
    /// the event or for good; `None` when the user must be asked.
    pub fn unasked(&self, capability: Capability, default: bool) -> (r: Option<bool>)
        ensures
            r == unasked_view(self@, capability, default),
    {
        if self.skip_all.authorize(capability) {
            Some(false)
        } else if default || self.allow_all.authorize(capability) {
            Some(true)
        } else {
            None
        }
    }

    /// Reads a line of input, trimmed, as an answer.
    pub fn parse_answer(input: &str) -> (a: Answer)
        ensures
            a == answer_view(trimmed(input@)),
    {
        let s = trim(input).to_owned();
        let skip_all = "skip_all".to_owned();
        let allow = "allow".to_owned();
        let allow_all = "allow_all".to_owned();
        let cancel = "cancel".to_owned();
        if s == skip_all {
            Answer::SkipAll
        } else if s == allow {
            Answer::Allow
        } else if s == allow_all {
            Answer::AllowAll
        } else if s == cancel {
            Answer::Cancel
        } else {
            Answer::Skip
        }
    }

    /// Takes the user's answer about `capability`.
    pub fn answer(&mut self, capability: Capability, answer: Answer) -> (r: Result<bool, DomainError>)
        ensures
            (final(self)@, bool_domain_view(r)) == answered_view(old(self)@, capability, answer),
    {
        match answer {
            Answer::Skip => Ok(false),
            Answer::Allow => Ok(true),
            Answer::SkipAll => {
                self.skip_all = self.skip_all.add(capability);
                Ok(false)
            },
            Answer::AllowAll => {
                self.allow_all = self.allow_all.add(capability);
                Ok(true)
            },
            Answer::Cancel => Err(DomainErrorOf::UserCancelled),
        }
    }
}

/// The state of a scripted guard: the interactive guard's state, the answers
/// not used yet, and the first question that found no answer.
pub struct ScriptedView {
    pub interactive: (Set<Capability>, Set<Capability>),
    pub answers: Seq<Answer>,
    pub pending: Option<(Capability, PathView)>,
}

/// An interactive guard whose answers are given in advance, in the order in
/// which the questions come. A question with no answer left skips, and is
/// kept so that the user can be asked and the event decided again.
#[derive(Debug)]
pub struct ScriptedGuard {
    interactive: InteractiveGuard,
    answers: Vec<Answer>,
    next: usize,
    pending: Option<(Capability, FsPath)>,
}

impl View for ScriptedGuard {
    type V = ScriptedView;

    closed spec fn view(&self) -> ScriptedView {
        ScriptedView {
            interactive: self.interactive@,
            answers: if self.next <= self.answers.len() {
                self.answers@.skip(self.next as int)
            } else {
                Seq::empty()
            },
            pending: match self.pending {
                Some((c, p)) => Some((c, p@)),
                None => None,
            },
        }
    }
}

impl Guard for ScriptedGuard {
    open spec fn authorize_view(
        v: ScriptedView,
        capability: Capability,
        default: bool,
        target: PathView,
    ) -> (ScriptedView, Result<bool, DomainErrorView>) {
        match unasked_view(v.interactive, capability, default) {
            Some(b) => (v, Ok(b)),
            None => if v.answers.len() > 0 {
                let answered = answered_view(v.interactive, capability, v.answers[0]);
                (
                    ScriptedView {
                        interactive: answered.0,
                        answers: v.answers.drop_first(),
                        pending: v.pending,
                    },
                    answered.1,
                )
            } else {
                (
                    ScriptedView {
                        pending: if v.pending is None {
                            Some((capability, target))
                        } else {
                            v.pending
                        },
                        ..v
                    },
                    Ok(false),
                )
            },
        }
    }

    fn authorize(&mut self, capability: Capability, default: bool, target: &FsPath) -> (r: Result<
        bool,
        DomainError,
    >) {
        if let Some(b) = self.interactive.unasked(capability, default) {
            return Ok(b);
        }
        if self.next < self.answers.len() {
            let answer = self.answers[self.next];
            assert(self.answers@.skip(self.next + 1) =~= self.answers@.skip(
                self.next as int,
            ).drop_first());
            self.next = self.next + 1;
            self.interactive.answer(capability, answer)
        } else {
            if self.pending.is_none() {
                self.pending = Some((capability, target.clone()));
            }
            Ok(false)
        }
    }
}

impl ScriptedGuard {
    /// A guard that will give `answers`, in order, to the questions.
    pub fn new(answers: Vec<Answer>) -> (g: ScriptedGuard)
        ensures
            g@ == (ScriptedView {
                interactive: (Set::<Capability>::empty(), Set::<Capability>::empty()),
                answers: answers@,
                pending: None,
            }),
    {
        let g = ScriptedGuard {
            interactive: InteractiveGuard::default(),
            answers,
            next: 0,
            pending: None,
        };
        assert(g@.answers =~= answers@);
        g
    }

    /// The first question that found no answer, if any.
    pub fn pending(&self) -> (r: Option<(Capability, FsPath)>)
        ensures
            r matches Some((c, p)) ==> self@.pending == Some((c, p@)),
            r is None <==> self@.pending is None,
    {
        match &self.pending {
            Some((c, p)) => Some((*c, p.clone())),
            None => None,
        }
    }
}

/// The state of one of the guards that a command can name.
pub enum AnyGuardView {
    Zealed,
    Blind,
    Quiet,
    Scripted(ScriptedView),
}

/// One of the guards that a command can name.
#[derive(Debug)]
pub enum AnyGuard {
    Zealed(ZealedGuard),
    Blind(BlindGuard),
    Quiet(QuietGuard),
    Scripted(ScriptedGuard),
}

impl View for AnyGuard {
    type V = AnyGuardView;

    open spec fn view(&self) -> AnyGuardView {
        match self {
            AnyGuard::Zealed(_) => AnyGuardView::Zealed,
            AnyGuard::Blind(_) => AnyGuardView::Blind,
            AnyGuard::Quiet(_) => AnyGuardView::Quiet,
            AnyGuard::Scripted(g) => AnyGuardView::Scripted(g@),
        }
    }
}

impl Guard for AnyGuard {
    /// Each guard decides as it does alone.
    open spec fn authorize_view(
        v: AnyGuardView,
        capability: Capability,
        default: bool,
        target: PathView,
    ) -> (AnyGuardView, Result<bool, DomainErrorView>) {
        match v {
            AnyGuardView::Zealed => (v, ZealedGuard::authorize_view((), capability, default, target).1),
            AnyGuardView::Blind => (v, BlindGuard::authorize_view((), capability, default, target).1),
            AnyGuardView::Quiet => (v, QuietGuard::authorize_view((), capability, default, target).1),
            AnyGuardView::Scripted(s) => {
                let r = ScriptedGuard::authorize_view(s, capability, default, target);
                (AnyGuardView::Scripted(r.0), r.1)
            },
        }
    }

    fn authorize(&mut self, capability: Capability, default: bool, target: &FsPath) -> (r: Result<
        bool,
        DomainError,
    >) {
        match self {
            AnyGuard::Zealed(g) => g.authorize(capability, default, target),
            AnyGuard::Blind(g) => g.authorize(capability, default, target),
            AnyGuard::Quiet(g) => g.authorize(capability, default, target),
            AnyGuard::Scripted(g) => g.authorize(capability, default, target),
        }
    }
}

} // verus!
