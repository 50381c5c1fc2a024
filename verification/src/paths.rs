//! The path model: a path is an absolute-or-relative flag together with the
//! sequence of its components. All path algebra of the vault (prefix tests,
//! stripping, joining, parsing from and rendering to strings) lives here.

use vstd::prelude::*;

verus! {

/// Mathematical form of a filesystem path.
pub ghost struct PathModel {
    /// Whether the path is rooted (written with a leading separator).
    pub absolute: bool,
    /// The path components, in order, each a sequence of characters.
    pub components: Seq<Seq<char>>,
}

/// A sound component is nonempty and holds no separator.
pub open spec fn component_wf(c: Seq<char>) -> bool {
    &&& c.len() > 0
    &&& forall|i: int| 0 <= i < c.len() ==> c[i] != '/'
}

/// A sound path is made of sound components.
pub open spec fn path_wf(p: PathModel) -> bool {
    forall|i: int| 0 <= i < p.components.len() ==> component_wf(#[trigger] p.components[i])
}

/// `p` lies at or below `prefix`: same rootedness, and `prefix`'s components
/// lead `p`'s.
pub open spec fn path_starts_with(p: PathModel, prefix: PathModel) -> bool {
    &&& p.absolute == prefix.absolute
    &&& prefix.components.len() <= p.components.len()
    &&& forall|i: int|
        0 <= i < prefix.components.len() ==> #[trigger] p.components[i] == prefix.components[i]
}

/// The relative remainder of `p` once `prefix` is removed from its front.
pub open spec fn path_strip_prefix(p: PathModel, prefix: PathModel) -> PathModel {
    PathModel { absolute: false, components: p.components.skip(prefix.components.len() as int) }
}

/// Joining: an absolute suffix replaces the base entirely, a relative suffix
/// is appended to it.
pub open spec fn path_join(base: PathModel, suffix: PathModel) -> PathModel {
    if suffix.absolute {
        suffix
    } else {
        PathModel { absolute: base.absolute, components: base.components + suffix.components }
    }
}

/// The directory holding `p`: `p` without its last component. A path with no
/// components has no parent.
pub open spec fn path_parent(p: PathModel) -> Option<PathModel> {
    if p.components.len() == 0 {
        None
    } else {
        Some(PathModel { absolute: p.absolute, components: p.components.drop_last() })
    }
}

/// A dotfile is named by its final component alone: that component starts
/// with a dot.
pub open spec fn path_is_dotfile(p: PathModel) -> bool {
    &&& p.components.len() > 0
    &&& p.components.last().len() > 0
    &&& p.components.last()[0] == '.'
}

/// The components of the character range `[start, i)` onward of `s`, where a
/// run of non-separator characters began at `start`: maximal nonempty runs
/// between separators.
pub open spec fn split_from(s: Seq<char>, i: int, start: int) -> Seq<Seq<char>>
    decreases s.len() - i,
{
    if i >= s.len() {
        if start < i {
            seq![s.subrange(start, i)]
        } else {
            Seq::empty()
        }
    } else if s[i] == '/' {
        if start < i {
            seq![s.subrange(start, i)] + split_from(s, i + 1, i + 1)
        } else {
            split_from(s, i + 1, i + 1)
        }
    } else {
        split_from(s, i + 1, start)
    }
}

/// What parsing a string yields: rooted when the first character is a
/// separator, with the nonempty runs between separators as components.
pub open spec fn spec_parse_path(s: Seq<char>) -> PathModel {
    PathModel { absolute: s.len() > 0 && s[0] == '/', components: split_from(s, 0, 0) }
}

/// The components joined by separators, without a leading one.
pub open spec fn join_chars(cs: Seq<Seq<char>>) -> Seq<char>
    decreases cs.len(),
{
    if cs.len() == 0 {
        Seq::empty()
    } else if cs.len() == 1 {
        cs[0]
    } else {
        join_chars(cs.drop_last()) + seq!['/'] + cs.last()
    }
}

/// What rendering a path yields: its components joined by separators, led by
/// one when the path is absolute.
pub open spec fn spec_render_path(p: PathModel) -> Seq<char> {
    if p.absolute {
        seq!['/'] + join_chars(p.components)
    } else {
        join_chars(p.components)
    }
}

proof fn lemma_split_from_wf(s: Seq<char>, i: int, start: int)
    requires
        0 <= start <= i <= s.len(),
        forall|j: int| start <= j < i ==> s[j] != '/',
    ensures
        forall|k: int|
            0 <= k < split_from(s, i, start).len() ==> component_wf(
                #[trigger] split_from(s, i, start)[k],
            ),
    decreases s.len() - i,
{
    if i >= s.len() {
        if start < i {
            let c = s.subrange(start, i);
            assert forall|j: int| 0 <= j < c.len() implies c[j] != '/' by {
                assert(s[start + j] != '/');
            }
            assert(split_from(s, i, start) == seq![c]);
            assert forall|k: int|
                0 <= k < split_from(s, i, start).len() implies component_wf(
                #[trigger] split_from(s, i, start)[k],
            ) by {
                assert(split_from(s, i, start)[k] == c);
            }
        } else {
            assert(split_from(s, i, start) == Seq::<Seq<char>>::empty());
        }
    } else if s[i] == '/' {
        lemma_split_from_wf(s, i + 1, i + 1);
        let rest = split_from(s, i + 1, i + 1);
        if start < i {
            let c = s.subrange(start, i);
            assert forall|j: int| 0 <= j < c.len() implies c[j] != '/' by {
                assert(s[start + j] != '/');
            }
            assert(split_from(s, i, start) == seq![c] + rest);
            assert forall|k: int|
                0 <= k < split_from(s, i, start).len() implies component_wf(
                #[trigger] split_from(s, i, start)[k],
            ) by {
                if k == 0 {
                    assert((seq![c] + rest)[0] == c);
                } else {
                    assert((seq![c] + rest)[k] == rest[k - 1]);
                }
            }
        } else {
            assert(split_from(s, i, start) == rest);
        }
    } else {
        lemma_split_from_wf(s, i + 1, start);
        assert(split_from(s, i, start) == split_from(s, i + 1, start));
    }
}

/// An executable path: the flag and the owned component strings. Its view is
/// the corresponding `PathModel`.
pub struct FilePath {
    pub absolute: bool,
    pub components: Vec<String>,
}

impl View for FilePath {
    type V = PathModel;

    open spec fn view(&self) -> PathModel {
        PathModel { absolute: self.absolute, components: self.components.deep_view() }
    }
}

impl DeepView for FilePath {
    type V = PathModel;

    open spec fn deep_view(&self) -> PathModel {
        self.view()
    }
}

impl FilePath {
    /// An exact copy of the path.
    pub fn dup(&self) -> (r: FilePath)
        ensures
            r@ == self@,
    {
        let mut comps: Vec<String> = Vec::new();
        let mut i: usize = 0;
        while i < self.components.len()
            invariant
                i <= self.components.len(),
                comps.deep_view() == self.components.deep_view().take(i as int),
            decreases self.components.len() - i,
        {
            proof {
                assert(comps@.len() == comps.deep_view().len());
            }
            comps.push(self.components[i].clone());
            proof {
                assert(comps.deep_view() =~= self.components.deep_view().take(i + 1));
            }
            i = i + 1;
        }
        proof {
            assert(comps.deep_view() =~= self.components.deep_view());
        }
        FilePath { absolute: self.absolute, components: comps }
    }

    /// Whether this path equals `other`, component for component.
    pub fn eq_path(&self, other: &FilePath) -> (b: bool)
        ensures
            b == (self@ == other@),
    {
        if self.absolute != other.absolute {
            return false;
        }
        if self.components.len() != other.components.len() {
            proof {
                assert(self@.components.len() != other@.components.len());
            }
            return false;
        }
        let n = self.components.len();
        let mut i: usize = 0;
        while i < n
            invariant
                n == self.components.len(),
                n == other.components.len(),
                i <= n,
                forall|j: int|
                    0 <= j < i ==> #[trigger] self.components.deep_view()[j]
                        == other.components.deep_view()[j],
            decreases n - i,
        {
            if !(self.components[i] == other.components[i]) {
                proof {
                    let ghost gi = i as int;
                    assert(self.components.deep_view()[gi] != other.components.deep_view()[gi]);
                }
                return false;
            }
            i = i + 1;
        }
        proof {
            assert(self@.components =~= other@.components);
        }
        true
    }

    /// Whether this path lies at or below `prefix`.
    pub fn starts_with(&self, prefix: &FilePath) -> (b: bool)
        ensures
            b == path_starts_with(self@, prefix@),
    {
        if self.absolute != prefix.absolute {
            return false;
        }
        if prefix.components.len() > self.components.len() {
            return false;
        }
        let n = prefix.components.len();
        let mut i: usize = 0;
        while i < n
            invariant
                n == prefix.components.len(),
                n <= self.components.len(),
                i <= n,
                self.absolute == prefix.absolute,
                forall|j: int|
                    0 <= j < i ==> #[trigger] self.components.deep_view()[j]
                        == prefix.components.deep_view()[j],
            decreases n - i,
        {
            if !(self.components[i] == prefix.components[i]) {
                proof {
                    let ghost gi = i as int;
                    assert(self.components.deep_view()[gi] != prefix.components.deep_view()[gi]);
                }
                return false;
            }
            i = i + 1;
        }
        true
    }

    /// The relative remainder below `prefix`, or `None` when this path does
    /// not lie under it.
    pub fn strip_prefix(&self, prefix: &FilePath) -> (r: Option<FilePath>)
        ensures
            match r {
                Some(rest) => path_starts_with(self@, prefix@) && rest@ == path_strip_prefix(
                    self@,
                    prefix@,
                ),
                None => !path_starts_with(self@, prefix@),
            },
    {
        if !self.starts_with(prefix) {
            return None;
        }
        let mut comps: Vec<String> = Vec::new();
        let k = prefix.components.len();
        let mut i: usize = k;
        while i < self.components.len()
            invariant
                k <= i <= self.components.len(),
                comps.deep_view() == self.components.deep_view().subrange(k as int, i as int),
            decreases self.components.len() - i,
        {
            proof {
                assert(comps@.len() == comps.deep_view().len());
            }
            comps.push(self.components[i].clone());
            proof {
                assert(comps.deep_view() =~= self.components.deep_view().subrange(
                    k as int,
                    i + 1,
                ));
            }
            i = i + 1;
        }
        proof {
            assert(comps.deep_view() =~= self@.components.skip(k as int));
        }
        Some(FilePath { absolute: false, components: comps })
    }

    /// This path joined with `suffix`.
    pub fn join(&self, suffix: &FilePath) -> (r: FilePath)
        ensures
            r@ == path_join(self@, suffix@),
    {
        if suffix.absolute {
            return suffix.dup();
        }
        let mut comps: Vec<String> = Vec::new();
        let mut i: usize = 0;
        while i < self.components.len()
            invariant
                i <= self.components.len(),
                comps.deep_view() == self.components.deep_view().take(i as int),
            decreases self.components.len() - i,
        {
            proof {
                assert(comps@.len() == comps.deep_view().len());
            }
            comps.push(self.components[i].clone());
            proof {
                assert(comps.deep_view() =~= self.components.deep_view().take(i + 1));
            }
            i = i + 1;
        }
        let mut j: usize = 0;
        while j < suffix.components.len()
            invariant
                j <= suffix.components.len(),
                comps.deep_view() == self.components.deep_view() + suffix.components.deep_view().take(
                    j as int,
                ),
            decreases suffix.components.len() - j,
        {
            proof {
                assert(comps@.len() == comps.deep_view().len());
                assert(self.components.deep_view().len() == self.components@.len());
                assert(suffix.components.deep_view().len() == suffix.components@.len());
            }
            comps.push(suffix.components[j].clone());
            proof {
                let sdv = self.components.deep_view();
                let fdv = suffix.components.deep_view();
                assert(fdv.take(j + 1) =~= fdv.take(j as int).push(fdv[j as int]));
                assert(comps.deep_view() =~= (sdv + fdv.take(j as int)).push(fdv[j as int]));
                assert(comps.deep_view() =~= sdv + fdv.take(j + 1));
            }
            j = j + 1;
        }
        proof {
            assert(comps.deep_view() =~= self@.components + suffix@.components);
        }
        FilePath { absolute: self.absolute, components: comps }
    }

    /// The path's parent directory, when it has one.
    pub fn parent(&self) -> (r: Option<FilePath>)
        ensures
            match r {
                Some(par) => path_parent(self@) == Some(par@),
                None => path_parent(self@) is None,
            },
    {
        if self.components.len() == 0 {
            return None;
        }
        let mut d = self.dup();
        let _ = d.components.pop();
        proof {
            assert(d.components.deep_view() =~= self@.components.drop_last());
        }
        Some(d)
    }

    /// Parse a path from its textual form.
    pub fn parse(s: &str) -> (r: FilePath)
        ensures
            r@ == spec_parse_path(s@),
            path_wf(r@),
    {
        let n: usize = s.unicode_len();
        let absolute: bool = n > 0 && s.get_char(0) == '/';
        let mut components: Vec<String> = Vec::new();
        let mut start: usize = 0;
        let mut i: usize = 0;
        while i < n
            invariant
                n == s@.len(),
                start <= i <= n,
                forall|j: int| start <= j < i ==> s@[j] != '/',
                split_from(s@, 0, 0) == components.deep_view() + split_from(
                    s@,
                    i as int,
                    start as int,
                ),
            decreases n - i,
        {
            let c = s.get_char(i);
            if c == '/' {
                if start < i {
                    let comp = s.substring_char(start, i).to_owned();
                    proof {
                        assert(components@.len() == components.deep_view().len());
                    }
                    components.push(comp);
                    proof {
                        assert(split_from(s@, 0, 0) =~= components.deep_view() + split_from(
                            s@,
                            i + 1,
                            i + 1,
                        ));
                    }
                }
                start = i + 1;
            }
            i = i + 1;
        }
        if start < n {
            let comp = s.substring_char(start, n).to_owned();
            proof {
                assert(components@.len() == components.deep_view().len());
            }
            components.push(comp);
            proof {
                assert(split_from(s@, 0, 0) =~= components.deep_view());
            }
        } else {
            proof {
                assert(split_from(s@, 0, 0) =~= components.deep_view());
            }
        }
        proof {
            lemma_split_from_wf(s@, 0, 0);
        }
        FilePath { absolute, components }
    }

    /// Render the path in its textual form.
    pub fn render(&self) -> (r: String)
        ensures
            r@ == spec_render_path(self@),
    {
        let mut out = String::new();
        if self.absolute {
            proof {
                reveal_strlit("/");
            }
            out.append("/");
        }
        let mut i: usize = 0;
        while i < self.components.len()
            invariant
                i <= self.components.len(),
                out@ == if self.absolute {
                    seq!['/'] + join_chars(self.components.deep_view().take(i as int))
                } else {
                    join_chars(self.components.deep_view().take(i as int))
                },
            decreases self.components.len() - i,
        {
            if i > 0 {
                proof {
                    reveal_strlit("/");
                }
                out.append("/");
            }
            out.append(self.components[i].as_str());
            proof {
                let cs = self.components.deep_view();
                assert(cs.take(i + 1).drop_last() =~= cs.take(i as int));
                assert(cs.take(i + 1).last() == cs[i as int]);
                if i > 0 {
                    assert(join_chars(cs.take(i + 1)) == join_chars(cs.take(i as int)) + seq!['/']
                        + cs[i as int]);
                } else {
                    assert(cs.take(1) =~= seq![cs[0]]);
                    assert(join_chars(cs.take(1)) == cs[0]);
                }
            }
            i = i + 1;
        }
        proof {
            assert(self.components.deep_view().take(self.components.len() as int)
                =~= self@.components);
        }
        out
    }
}

} // verus!

