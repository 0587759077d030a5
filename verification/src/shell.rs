//! What the shell decides by itself: which guard a command names, and how
//! an error is highlighted.

use vstd::prelude::*;
use vstd::string::*;

use crate::capability::{
    Answer, AnyGuard, AnyGuardView, BlindGuard, Capability, QuietGuard, ScriptedGuard, ScriptedView,
    ZealedGuard,
};

verus! {

/// The characters that `char::is_whitespace` accepts: those of the Unicode
/// property White_Space.
pub open spec fn white_space(c: char) -> bool {
    let n = c as u32;
    (0x9 <= n && n <= 0xd) || n == 0x20 || n == 0x85 || n == 0xa0 || n == 0x1680 || (0x2000 <= n
        && n <= 0x200a) || n == 0x2028 || n == 0x2029 || n == 0x202f || n == 0x205f || n == 0x3000
}

/// The text without the white space at its start.
pub open spec fn trim_start_view(s: Seq<char>) -> Seq<char>
    decreases s.len(),
{
    if s.len() > 0 && white_space(s[0]) {
        trim_start_view(s.drop_first())
    } else {
        s
    }
}

/// The text without the white space at its end.
pub open spec fn trim_end_view(s: Seq<char>) -> Seq<char>
    decreases s.len(),
{
    if s.len() > 0 && white_space(s.last()) {
        trim_end_view(s.drop_last())
    } else {
        s
    }
}

/// The text without the white space at its start and at its end, as
/// `str::trim` gives it.
pub open spec fn trimmed(s: Seq<char>) -> Seq<char> {
    trim_end_view(trim_start_view(s))
}

/// Whether `c` is white space, as `char::is_whitespace` decides.
fn is_white_space(c: char) -> (b: bool)
    ensures
        b == white_space(c),
{
    let n = c as u32;
    (0x9 <= n && n <= 0xd) || n == 0x20 || n == 0x85 || n == 0xa0 || n == 0x1680 || (0x2000 <= n
        && n <= 0x200a) || n == 0x2028 || n == 0x2029 || n == 0x202f || n == 0x205f || n == 0x3000
}

/// The text without its leading and trailing white space.
pub fn trim(s: &str) -> (r: &str)
    ensures
        r@ == trimmed(s@),
{
    let n = s.unicode_len();
    let mut i: usize = 0;
    assert(s@.subrange(0, n as int) =~= s@);
    while i < n && is_white_space(s.get_char(i))
        invariant
            i <= n,
            n == s@.len(),
            trim_start_view(s@) == trim_start_view(s@.subrange(i as int, n as int)),
        decreases n - i,
    {
        assert(s@.subrange(i as int, n as int).drop_first() =~= s@.subrange(i + 1, n as int));
        i = i + 1;
    }
    if i == n {
        assert(s@.subrange(i as int, n as int).len() == 0);
    }
    assert(trim_start_view(s@) == s@.subrange(i as int, n as int));
    let mut j: usize = n;
    while j > i && is_white_space(s.get_char(j - 1))
        invariant
            i <= j <= n,
            n == s@.len(),
            trim_start_view(s@) == s@.subrange(i as int, n as int),
            trimmed(s@) == trim_end_view(s@.subrange(i as int, j as int)),
        decreases j - i,
    {
        assert(s@.subrange(i as int, j as int).drop_last() =~= s@.subrange(i as int, j - 1));
        assert(s@.subrange(i as int, j as int).last() == s@[j - 1]);
        j = j - 1;
    }
    if j == i {
        assert(s@.subrange(i as int, j as int).len() == 0);
    } else {
        assert(s@.subrange(i as int, j as int).last() == s@[j - 1]);
    }
    s.substring_char(i, j)
}

/// The guards that a command can name.
#[derive(Clone, Copy, Debug, PartialEq, Eq, Structural)]
pub enum AvailableGuard {
    Zealed,
    Blind,
    Skip,
    Interactive,
}

/// The guard that a name denotes, the interactive one for any other name.
pub open spec fn guard_named(s: Seq<char>) -> AvailableGuard {
    if s == "zealed"@ {
        AvailableGuard::Zealed
    } else if s == "skip"@ {
        AvailableGuard::Skip
    } else if s == "blind"@ {
        AvailableGuard::Blind
    } else {
        AvailableGuard::Interactive
    }
}

impl Default for AvailableGuard {
    fn default() -> (g: Self)
        ensures
            g == AvailableGuard::Interactive,
    {
        AvailableGuard::Interactive
    }
}

impl AvailableGuard {
    /// Whether `s` names a guard.
    pub fn available(s: &str) -> (b: bool)
        ensures
            b == (s@ == "interactive"@ || s@ == "zealed"@ || s@ == "skip"@ || s@ == "blind"@),
    {
        let given = s.to_owned();
        given == "interactive".to_owned() || given == "zealed".to_owned() || given
            == "skip".to_owned() || given == "blind".to_owned()
    }

    /// The guard that `s` names, once trimmed; the interactive one when it
    /// names none.
    pub fn from_name(s: &str) -> (g: AvailableGuard)
        ensures
            g == guard_named(trimmed(s@)),
    {
        let name = trim(s).to_owned();
        if name == "zealed".to_owned() {
            AvailableGuard::Zealed
        } else if name == "skip".to_owned() {
            AvailableGuard::Skip
        } else if name == "blind".to_owned() {
            AvailableGuard::Blind
        } else {
            AvailableGuard::Interactive
        }
    }
}

/// The guard that a command's guard name stands for; an interactive one is
/// given its answers in advance.
pub open spec fn guard_view(g: AvailableGuard, answers: Seq<Answer>) -> AnyGuardView {
    match g {
        AvailableGuard::Zealed => AnyGuardView::Zealed,
        AvailableGuard::Blind => AnyGuardView::Blind,
        AvailableGuard::Skip => AnyGuardView::Quiet,
        AvailableGuard::Interactive => AnyGuardView::Scripted(
            ScriptedView {
                interactive: (Set::<Capability>::empty(), Set::<Capability>::empty()),
                answers,
                pending: None,
            },
        ),
    }
}

impl AvailableGuard {
    /// The guard to decide with.
    pub fn to_guard(&self, answers: Vec<Answer>) -> (g: AnyGuard)
        ensures
            g@ == guard_view(*self, answers@),
    {
        match self {
            AvailableGuard::Zealed => AnyGuard::Zealed(ZealedGuard),
            AvailableGuard::Blind => AnyGuard::Blind(BlindGuard),
            AvailableGuard::Skip => AnyGuard::Quiet(QuietGuard),
            AvailableGuard::Interactive => AnyGuard::Scripted(ScriptedGuard::new(answers)),
        }
    }
}

pub open spec fn red_view(text: Seq<char>) -> Seq<char> {
    "\x1b[1;91m"@ + text + "\x1b[0m"@
}

/// `text` in bold red for a terminal.
pub fn add_red_color(text: &str) -> (r: String)
    ensures
        r@ == red_view(text@),
{
    let mut r = "\x1b[1;91m".to_owned();
    r.append(text);
    r.append("\x1b[0m");
    r
}

} // verus!
