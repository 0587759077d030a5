//! Paths as sequences of components, with the operations that the file
//! system layers need: parsing, joining, parents and ancestors, prefixes and
//! the lexical normalisation of `.` and `..`.

use vstd::prelude::*;
use vstd::string::*;

verus! {

/// The mathematical value of a path: whether it starts at the root, and its
/// components. A component is never empty and holds no separator; `.` can
/// only stand first in a relative path.
pub struct PathView {
    pub absolute: bool,
    pub components: Seq<Seq<char>>,
}

pub open spec fn dot() -> Seq<char> {
    seq!['.']
}

pub open spec fn dot_dot() -> Seq<char> {
    seq!['.', '.']
}

pub open spec fn sep() -> char {
    '/'
}

/// The components kept after one more piece between separators is read.
pub open spec fn push_component(done: Seq<Seq<char>>, piece: Seq<char>, absolute: bool) -> Seq<
    Seq<char>,
> {
    if piece.len() == 0 {
        done
    } else if piece == dot() && (absolute || done.len() > 0) {
        done
    } else {
        done.push(piece)
    }
}

/// The components already read and the piece being read after a prefix of
/// the text of a path.
pub open spec fn parse_state(s: Seq<char>, absolute: bool) -> (Seq<Seq<char>>, Seq<char>)
    decreases s.len(),
{
    if s.len() == 0 {
        (seq![], seq![])
    } else {
        let st = parse_state(s.drop_last(), absolute);
        if s.last() == sep() {
            (push_component(st.0, st.1, absolute), seq![])
        } else {
            (st.0, st.1.push(s.last()))
        }
    }
}

/// The path that a text denotes.
pub open spec fn parse_view(s: Seq<char>) -> PathView {
    let absolute = s.len() > 0 && s[0] == sep();
    let st = parse_state(s, absolute);
    PathView { absolute, components: push_component(st.0, st.1, absolute) }
}

pub open spec fn root_view() -> PathView {
    PathView { absolute: true, components: seq![] }
}

pub open spec fn parent_view(p: PathView) -> Option<PathView> {
    if p.components.len() == 0 {
        None
    } else {
        Some(PathView { absolute: p.absolute, components: p.components.drop_last() })
    }
}

pub open spec fn parent_or_root_view(p: PathView) -> PathView {
    match parent_view(p) {
        Some(q) => q,
        None => root_view(),
    }
}

/// Joining `b` onto `a`: an absolute `b` replaces `a`; a leading `.` of `b`
/// disappears once it stands inside the path.
pub open spec fn join_view(a: PathView, b: PathView) -> PathView {
    if b.absolute {
        b
    } else if (a.absolute || a.components.len() > 0) && b.components.len() > 0
        && b.components[0] == dot() {
        PathView { absolute: a.absolute, components: a.components + b.components.drop_first() }
    } else {
        PathView { absolute: a.absolute, components: a.components + b.components }
    }
}

/// The ancestor `n` steps up, or the path itself when there is none.
pub open spec fn nth_ancestor_view(p: PathView, n: nat) -> PathView {
    if n <= p.components.len() {
        PathView { absolute: p.absolute, components: p.components.take(p.components.len() - n) }
    } else {
        p
    }
}

pub open spec fn starts_with_view(p: PathView, base: PathView) -> bool {
    p.absolute == base.absolute && base.components.is_prefix_of(p.components)
}

pub open spec fn strip_prefix_view(p: PathView, base: PathView) -> Option<PathView> {
    if starts_with_view(p, base) {
        Some(
            PathView {
                absolute: false,
                components: p.components.skip(base.components.len() as int),
            },
        )
    } else {
        None
    }
}

/// `base` with the last component of `p` appended.
pub open spec fn push_last_view(base: PathView, p: PathView) -> PathView {
    PathView { absolute: base.absolute, components: base.components.push(p.components.last()) }
}

pub open spec fn file_name_view(p: PathView) -> Option<Seq<char>> {
    if p.components.len() > 0 && p.components.last() != dot() && p.components.last()
        != dot_dot() {
        Some(p.components.last())
    } else {
        None
    }
}

/// The components left on the stack of the lexical normalisation.
pub open spec fn normalized_components(absolute: bool, comps: Seq<Seq<char>>) -> Seq<Seq<char>>
    decreases comps.len(),
{
    if comps.len() == 0 {
        seq![]
    } else {
        let st = normalized_components(absolute, comps.drop_last());
        let c = comps.last();
        if c == dot() {
            st
        } else if c == dot_dot() {
            if st.len() > 0 {
                if st.last() == dot_dot() {
                    st.push(c)
                } else {
                    st.drop_last()
                }
            } else if absolute {
                st
            } else {
                st.push(c)
            }
        } else {
            st.push(c)
        }
    }
}

/// A path with every `.` dropped and every `..` that follows a name folded
/// into it; an empty relative result is `.`.
pub open spec fn normalize_view(p: PathView) -> PathView {
    let n = normalized_components(p.absolute, p.components);
    if !p.absolute && n.len() == 0 {
        PathView { absolute: false, components: seq![dot()] }
    } else {
        PathView { absolute: p.absolute, components: n }
    }
}

/// The components joined by separators.
pub open spec fn joined_components(comps: Seq<Seq<char>>) -> Seq<char>
    decreases comps.len(),
{
    if comps.len() == 0 {
        seq![]
    } else if comps.len() == 1 {
        comps[0]
    } else {
        joined_components(comps.drop_last()) + seq![sep()] + comps.last()
    }
}

/// The text of a path.
pub open spec fn display_view(p: PathView) -> Seq<char> {
    if p.absolute {
        seq![sep()] + joined_components(p.components)
    } else {
        joined_components(p.components)
    }
}

pub open spec fn strings_view(v: Seq<String>) -> Seq<Seq<char>> {
    v.map_values(|c: String| c@)
}

/// A path of the file systems.
#[derive(Debug, PartialEq, Eq)]
pub struct FsPath {
    absolute: bool,
    components: Vec<String>,
}

impl View for FsPath {
    type V = PathView;

    closed spec fn view(&self) -> PathView {
        PathView { absolute: self.absolute, components: strings_view(self.components@) }
    }
}

impl Clone for FsPath {
    fn clone(&self) -> (res: Self)
        ensures
            res@ == self@,
    {
        let mut components: Vec<String> = Vec::new();
        extend_strings(&mut components, &self.components, 0, self.components.len());
        let res = FsPath { absolute: self.absolute, components };
        assert(res@.components =~= self@.components);
        res
    }
}


/// Appends the components `from..to` of `v` to `out`.
fn extend_strings(out: &mut Vec<String>, v: &Vec<String>, from: usize, to: usize)
    requires
        from <= to <= v@.len(),
    ensures
        strings_view(final(out)@) =~= strings_view(old(out)@) + strings_view(v@).subrange(
            from as int,
            to as int,
        ),
{
    let ghost start = strings_view(out@);
    let mut i: usize = from;
    while i < to
        invariant
            from <= i <= to <= v@.len(),
            strings_view(out@) =~= start + strings_view(v@).subrange(from as int, i as int),
        decreases to - i,
    {
        let ghost before = out@;
        let c = v[i].clone();
        out.push(c);
        assert(out@ == before.push(c));
        assert(strings_view(out@) =~= strings_view(before).push(c@));
        assert(c@ == strings_view(v@)[i as int]);
        i += 1;
    }
}

fn is_dot_piece(s: &str, start: usize, end: usize, text: Ghost<Seq<char>>) -> (b: bool)
    requires
        start <= end <= s@.len(),
        text@ == s@,
    ensures
        b == (s@.subrange(start as int, end as int) == dot()),
{
    if end - start == 1 && s.get_char(start) == '.' {
        assert(s@.subrange(start as int, end as int) =~= dot());
        true
    } else {
        assert(dot().len() == 1 && dot()[0] == '.');
        if end - start == 1 {
            assert(s@.subrange(start as int, end as int)[0] == s@[start as int]);
            assert(s@.subrange(start as int, end as int)[0] != dot()[0]);
        } else {
            assert(s@.subrange(start as int, end as int).len() != dot().len());
        }
        false
    }
}

fn push_piece(comps: &mut Vec<String>, s: &str, start: usize, end: usize, absolute: bool)
    requires
        start <= end <= s@.len(),
    ensures
        strings_view(final(comps)@) == push_component(
            strings_view(old(comps)@),
            s@.subrange(start as int, end as int),
            absolute,
        ),
{
    let ghost piece = s@.subrange(start as int, end as int);
    if start == end {
        return;
    }
    if is_dot_piece(s, start, end, Ghost(s@)) && (absolute || comps.len() > 0) {
        return;
    }
    let text = String::from_str(s.substring_char(start, end));
    comps.push(text);
    assert(strings_view(comps@) =~= strings_view(old(comps)@).push(piece));
}

fn string_is(s: &String, c: char) -> (b: bool)
    ensures
        b == (s@ == seq![c]),
{
    let t = s.as_str();
    if t.unicode_len() == 1 && t.get_char(0) == c {
        assert(t@ =~= seq![c]);
        true
    } else {
        if t.unicode_len() == 1 {
            assert(seq![c][0] == c);
        }
        false
    }
}

fn string_is_dot_dot(s: &String) -> (b: bool)
    ensures
        b == (s@ == dot_dot()),
{
    let t = s.as_str();
    if t.unicode_len() == 2 && t.get_char(0) == '.' && t.get_char(1) == '.' {
        assert(t@ =~= dot_dot());
        true
    } else {
        if t.unicode_len() == 2 {
            assert(dot_dot()[0] == '.' && dot_dot()[1] == '.');
        }
        false
    }
}

impl FsPath {
    /// The path that a text denotes: separators split it into components,
    /// empty components and `.` inside the path are dropped.
    pub fn new(s: &str) -> (p: FsPath)
        ensures
            p@ == parse_view(s@),
    {
        let n = s.unicode_len();
        let absolute = n > 0 && s.get_char(0) == '/';
        let mut comps: Vec<String> = Vec::new();
        let mut start: usize = 0;
        let mut i: usize = 0;
        while i < n
            invariant
                start <= i <= n,
                n == s@.len(),
                absolute == (s@.len() > 0 && s@[0] == sep()),
                parse_state(s@.take(i as int), absolute).0 == strings_view(comps@),
                parse_state(s@.take(i as int), absolute).1 =~= s@.subrange(
                    start as int,
                    i as int,
                ),
            decreases n - i,
        {
            let c = s.get_char(i);
            assert(s@.take(i + 1).drop_last() =~= s@.take(i as int));
            assert(s@.take(i + 1).last() == c);
            if c == '/' {
                push_piece(&mut comps, s, start, i, absolute);
                start = i + 1;
            } else {
                assert(s@.subrange(start as int, i + 1) =~= s@.subrange(start as int, i as int).push(c));
            }
            i += 1;
        }
        assert(s@.take(n as int) =~= s@);
        push_piece(&mut comps, s, start, n, absolute);
        let p = FsPath { absolute, components: comps };
        p
    }

    /// The root path `/`.
    pub fn root() -> (p: FsPath)
        ensures
            p@ == root_view(),
    {
        let p = FsPath { absolute: true, components: Vec::new() };
        assert(p@.components =~= seq![]);
        p
    }

    pub fn is_absolute(&self) -> (b: bool)
        ensures
            b == self@.absolute,
    {
        self.absolute
    }

    /// The number of components.
    pub fn depth(&self) -> (n: usize)
        ensures
            n == self@.components.len(),
    {
        self.components.len()
    }

    /// The last component.
    pub fn last_name(&self) -> (s: String)
        requires
            self@.components.len() > 0,
        ensures
            s@ == self@.components.last(),
    {
        let s = self.components[self.components.len() - 1].clone();
        s
    }

    /// Whether two paths are the same path.
    pub fn same(&self, other: &FsPath) -> (b: bool)
        ensures
            b == (self@ == other@),
    {
        if self.absolute != other.absolute || self.components.len() != other.components.len() {
            assert(self@.components.len() == self.components@.len());
            assert(other@.components.len() == other.components@.len());
            return false;
        }
        let mut i: usize = 0;
        while i < self.components.len()
            invariant
                i <= self.components.len() == other.components.len(),
                self.absolute == other.absolute,
                forall|j: int| 0 <= j < i ==> self@.components[j] == other@.components[j],
            decreases self.components.len() - i,
        {
            if self.components[i] != other.components[i] {
                assert(self@.components[i as int] != other@.components[i as int]);
                return false;
            }
            i += 1;
        }
        assert(self@.components =~= other@.components);
        true
    }

    /// The parent path, if there is one.
    pub fn parent(&self) -> (r: Option<FsPath>)
        ensures
            r matches Some(q) ==> parent_view(self@) == Some(q@),
            r is None <==> parent_view(self@) is None,
    {
        if self.components.len() == 0 {
            None
        } else {
            let mut components: Vec<String> = Vec::new();
            extend_strings(&mut components, &self.components, 0, self.components.len() - 1);
            let q = FsPath { absolute: self.absolute, components };
            assert(q@.components =~= self@.components.drop_last());
            Some(q)
        }
    }

    /// The ancestor `n` steps up, or the path itself when there is none.
    pub fn ancestor(&self, n: usize) -> (r: FsPath)
        ensures
            r@ == nth_ancestor_view(self@, n as nat),
    {
        if n > self.components.len() {
            return self.clone();
        }
        let keep = self.components.len() - n;
        let mut components: Vec<String> = Vec::new();
        extend_strings(&mut components, &self.components, 0, keep);
        let q = FsPath { absolute: self.absolute, components };
        assert(q@.components =~= self@.components.take(keep as int));
        q
    }

    /// The path with `other` joined onto it.
    pub fn join(&self, other: &FsPath) -> (r: FsPath)
        ensures
            r@ == join_view(self@, other@),
    {
        if other.absolute {
            return other.clone();
        }
        let mut components: Vec<String> = Vec::new();
        extend_strings(&mut components, &self.components, 0, self.components.len());
        let skip_first = (self.absolute || self.components.len() > 0) && other.components.len() > 0
            && string_is(&other.components[0], '.');
        let first: usize = if skip_first {
            1
        } else {
            0
        };
        assert(strings_view(self.components@).subrange(0, self.components@.len() as int)
            =~= self@.components);
        extend_strings(&mut components, &other.components, first, other.components.len());
        let r = FsPath { absolute: self.absolute, components };
        if skip_first {
            assert(r@.components =~= self@.components + other@.components.drop_first());
        } else {
            assert(r@.components =~= self@.components + other@.components);
        }
        r
    }

    /// The path with one more component `name`, a single component of text
    /// with no separator.
    pub fn join_name(&self, name: &String) -> (r: FsPath)
        requires
            name@.len() > 0,
            !name@.contains(sep()),
            name@ != dot(),
        ensures
            r@ == (PathView { absolute: self@.absolute, components: self@.components.push(name@) }),
    {
        let mut r = self.clone();
        r.components.push(name.clone());
        assert(r@.components =~= self@.components.push(name@));
        r
    }

    /// The last component when it is a name.
    /// This path with the last component of `other` appended.
    pub fn join_last_of(&self, other: &FsPath) -> (r: FsPath)
        requires
            other@.components.len() > 0,
        ensures
            r@ == push_last_view(self@, other@),
    {
        let mut r = self.clone();
        let n = other.components.len();
        let last = other.components[n - 1].clone();
        r.components.push(last);
        assert(r@.components =~= self@.components.push(other@.components.last()));
        r
    }

    pub fn file_name(&self) -> (r: Option<String>)
        ensures
            r matches Some(s) ==> file_name_view(self@) == Some(s@),
            r is None <==> file_name_view(self@) is None,
    {
        let n = self.components.len();
        if n > 0 && !string_is(&self.components[n - 1], '.') && !string_is_dot_dot(
            &self.components[n - 1],
        ) {
            assert(self@.components.last() == self.components@[n - 1]@);
            Some(self.components[n - 1].clone())
        } else {
            proof {
                if n > 0 {
                    assert(self@.components.last() == self.components@[n - 1]@);
                }
            }
            None
        }
    }

    /// Whether `base` is a prefix of this path, component by component.
    pub fn starts_with(&self, base: &FsPath) -> (b: bool)
        ensures
            b == starts_with_view(self@, base@),
    {
        if self.absolute != base.absolute || base.components.len() > self.components.len() {
            return false;
        }
        let mut i: usize = 0;
        while i < base.components.len()
            invariant
                i <= base.components.len() <= self.components.len(),
                forall|j: int| 0 <= j < i ==> base@.components[j] == self@.components[j],
            decreases base.components.len() - i,
        {
            if base.components[i] != self.components[i] {
                assert(base@.components[i as int] != self@.components[i as int]);
                return false;
            }
            i += 1;
        }
        true
    }

    /// The rest of this path after the prefix `base`, as a relative path.
    pub fn strip_prefix(&self, base: &FsPath) -> (r: Option<FsPath>)
        ensures
            r matches Some(q) ==> strip_prefix_view(self@, base@) == Some(q@),
            r is None <==> strip_prefix_view(self@, base@) is None,
    {
        if !self.starts_with(base) {
            return None;
        }
        let mut components: Vec<String> = Vec::new();
        extend_strings(&mut components, &self.components, base.components.len(), self.components.len());
        let q = FsPath { absolute: false, components };
        assert(q@.components =~= self@.components.skip(base@.components.len() as int));
        Some(q)
    }

    /// The text of the path.
    pub fn display(&self) -> (s: String)
        ensures
            s@ == display_view(self@),
    {
        let mut s = String::new();
        if self.absolute {
            s.append("/");
            proof {
                reveal_strlit("/");
            }
        }
        let ghost start = s@;
        let mut i: usize = 0;
        while i < self.components.len()
            invariant
                i <= self.components.len(),
                start == (if self.absolute {
                    seq![sep()]
                } else {
                    Seq::<char>::empty()
                }),
                s@ =~= start + joined_components(strings_view(self.components@).take(i as int)),
            decreases self.components.len() - i,
        {
            let ghost prev = strings_view(self.components@).take(i as int);
            assert(strings_view(self.components@).take(i + 1).drop_last() =~= prev);
            if i > 0 {
                s.append("/");
                proof {
                    reveal_strlit("/");
                }
            }
            s.append(self.components[i].as_str());
            i += 1;
        }
        assert(strings_view(self.components@).take(self.components.len() as int)
            =~= self@.components);
        s
    }
}

/// The parent of `identity`, or the root when it has none.
pub fn get_parent_or_root(identity: &FsPath) -> (p: FsPath)
    ensures
        p@ == parent_or_root_view(identity@),
{
    match identity.parent() {
        Some(parent) => parent,
        None => FsPath::root(),
    }
}

/// The root path.
pub fn root_identity() -> (p: FsPath)
    ensures
        p@ == root_view(),
{
    FsPath::root()
}


/// The lexical normalisation of a path: `.` components are dropped, a `..`
/// folds into the name before it, a `..` right under the root is dropped, and
/// an empty relative result is `.`.
pub fn normalize(p: &FsPath) -> (r: FsPath)
    ensures
        r@ == normalize_view(p@),
{
    let mut stack: Vec<String> = Vec::new();
    let mut i: usize = 0;
    while i < p.components.len()
        invariant
            i <= p.components.len(),
            strings_view(stack@) =~= normalized_components(
                p@.absolute,
                p@.components.take(i as int),
            ),
        decreases p.components.len() - i,
    {
        let ghost before = stack@;
        assert(p@.components.take(i + 1).drop_last() =~= p@.components.take(i as int));
        assert(p@.components.take(i + 1).last() == p.components@[i as int]@);
        let c = &p.components[i];
        if string_is(c, '.') {
        } else if string_is_dot_dot(c) {
            if stack.len() > 0 {
                let last = stack.len() - 1;
                assert(strings_view(stack@).last() == stack@[last as int]@);
                if string_is_dot_dot(&stack[last]) {
                    stack.push(c.clone());
                    assert(strings_view(stack@) =~= strings_view(before).push(c@));
                } else {
                    stack.pop();
                    assert(strings_view(stack@) =~= strings_view(before).drop_last());
                }
            } else if p.absolute {
            } else {
                stack.push(c.clone());
                assert(strings_view(stack@) =~= strings_view(before).push(c@));
            }
        } else {
            stack.push(c.clone());
            assert(strings_view(stack@) =~= strings_view(before).push(c@));
        }
        i += 1;
    }
    assert(p@.components.take(p.components.len() as int) =~= p@.components);
    if !p.absolute && stack.len() == 0 {
        let mut components: Vec<String> = Vec::new();
        let d = String::from_str(".");
        proof {
            reveal_strlit(".");
        }
        assert(d@ =~= dot());
        components.push(d);
        assert(strings_view(components@) =~= seq![dot()]);
        let r = FsPath { absolute: false, components };
        assert(r@.components =~= seq![dot()]);
        return r;
    }
    FsPath { absolute: p.absolute, components: stack }
}

/// `path` taken from the working directory `cwd`, then normalised.
pub fn absolute(cwd: &FsPath, path: &FsPath) -> (r: FsPath)
    ensures
        r@ == normalize_view(join_view(cwd@, path@)),
{
    normalize(&cwd.join(path))
}

} // verus!
