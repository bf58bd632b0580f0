//! Sections written one after another with a separator between any two that
//! are present: an absent or empty section leaves no trace.
use vstd::prelude::*;
use vstd::string::*;

verus! {

/// Some part has text.
pub open spec fn any_present(parts: Seq<Seq<char>>) -> bool {
    exists|i: int| 0 <= i < parts.len() && (#[trigger] parts[i]).len() > 0
}

/// The text of `parts` written in order, with `sep` between any two non-empty
/// ones, none before the first and none after the last.
pub open spec fn composed(sep: Seq<char>, parts: Seq<Seq<char>>) -> Seq<char>
    decreases parts.len(),
{
    if parts.len() == 0 {
        Seq::empty()
    } else {
        let before = composed(sep, parts.drop_last());
        let s = parts.last();
        if s.len() == 0 {
            before
        } else if any_present(parts.drop_last()) {
            before + sep + s
        } else {
            s
        }
    }
}

/// Number of parts with text.
pub open spec fn present_count(parts: Seq<Seq<char>>) -> nat
    decreases parts.len(),
{
    if parts.len() == 0 {
        0
    } else {
        present_count(parts.drop_last()) + if parts.last().len() > 0 {
            1nat
        } else {
            0nat
        }
    }
}

/// Total length of the parts.
pub open spec fn total_len(parts: Seq<Seq<char>>) -> nat
    decreases parts.len(),
{
    if parts.len() == 0 {
        0
    } else {
        total_len(parts.drop_last()) + parts.last().len()
    }
}

proof fn lemma_present_count_positive(parts: Seq<Seq<char>>)
    ensures
        any_present(parts) <==> present_count(parts) > 0,
        present_count(parts) == 0 ==> total_len(parts) == 0,
    decreases parts.len(),
{
    if parts.len() > 0 {
        let init = parts.drop_last();
        lemma_present_count_positive(init);
        if any_present(init) {
            let i = choose|i: int| 0 <= i < init.len() && (#[trigger] init[i]).len() > 0;
            assert(parts[i] == init[i]);
        }
        if any_present(parts) && parts.last().len() == 0 {
            let i = choose|i: int| 0 <= i < parts.len() && (#[trigger] parts[i]).len() > 0;
            assert(init[i] == parts[i]);
        }
        if parts.last().len() > 0 {
            assert(parts[parts.len() - 1].len() > 0);
        }
    }
}

/// Writing sections of which `m` have text yields exactly `m - 1` separators
/// (none when `m` is at most one), wherever the absent ones stand: the output
/// is as long as the sections together plus that many separators.
pub proof fn lemma_separator_count(sep: Seq<char>, parts: Seq<Seq<char>>)
    ensures
        composed(sep, parts).len() == total_len(parts) + (if present_count(parts) == 0 {
            0
        } else {
            present_count(parts) - 1
        }) * sep.len(),
    decreases parts.len(),
{
    if parts.len() > 0 {
        let init = parts.drop_last();
        lemma_separator_count(sep, init);
        lemma_present_count_positive(init);
        let m = present_count(init);
        let l = sep.len();
        if parts.last().len() > 0 && m > 0 {
            assert((m - 1) * l + l == m * l) by (nonlinear_arith);
        }
        if m > 0 {
            assert((m - 1) * l >= 0) by (nonlinear_arith)
                requires
                    m >= 1,
            ;
        }
    }
}

/// A text under construction, made of sections with a fixed separator.
pub struct Sections {
    sep: String,
    out: String,
    started: bool,
    parts: Ghost<Seq<Seq<char>>>,
}

impl Sections {
    /// The separator.
    pub closed spec fn separator(&self) -> Seq<char> {
        self.sep@
    }

    /// The sections written so far, present or not.
    pub closed spec fn parts(&self) -> Seq<Seq<char>> {
        self.parts@
    }

    /// The text written so far matches the sections.
    pub closed spec fn wf(&self) -> bool {
        &&& self.out@ == composed(self.sep@, self.parts@)
        &&& self.started == any_present(self.parts@)
    }

    /// A text with no section yet.
    pub fn new(sep: &str) -> (r: Sections)
        ensures
            r.wf(),
            r.separator() == sep@,
            r.parts() == Seq::<Seq<char>>::empty(),
    {
        Sections { sep: String::from_str(sep), out: String::new(), started: false, parts: Ghost(Seq::empty()) }
    }

    /// Writes one section; the separator goes before it only where it has text
    /// and some section before it had text.
    pub fn write(&mut self, s: &str)
        requires
            old(self).wf(),
        ensures
            final(self).wf(),
            final(self).separator() == old(self).separator(),
            final(self).parts() == old(self).parts().push(s@),
    {
        let ghost before = self.parts@;
        let ghost after = before.push(s@);
        proof {
            assert(after.drop_last() =~= before);
            assert(after.last() == s@);
            if any_present(before) {
                let i = choose|i: int| 0 <= i < before.len() && (#[trigger] before[i]).len() > 0;
                assert(after[i] == before[i]);
            }
            if any_present(after) && s@.len() == 0 {
                let i = choose|i: int| 0 <= i < after.len() && (#[trigger] after[i]).len() > 0;
                assert(before[i] == after[i]);
            }
            if s@.len() > 0 {
                assert(after[before.len() as int] == s@);
            }
        }
        if s.unicode_len() > 0 {
            if self.started {
                self.out.append(self.sep.as_str());
                self.out.append(s);
            } else {
                self.out = String::from_str(s);
            }
            self.started = true;
        }
        self.parts = Ghost(after);
    }

    /// Writes a section that may be absent.
    pub fn write_opt(&mut self, s: Option<&str>)
        requires
            old(self).wf(),
        ensures
            final(self).wf(),
            final(self).separator() == old(self).separator(),
            final(self).parts() == old(self).parts().push(
                match s {
                    Some(t) => t@,
                    None => Seq::<char>::empty(),
                },
            ),
    {
        match s {
            Some(t) => self.write(t),
            None => {
                let e = "";
                proof {
                    reveal_strlit("");
                    assert(e@ =~= Seq::<char>::empty());
                }
                self.write(e)
            },
        }
    }

    /// The finished text.
    pub fn finish(self) -> (r: String)
        requires
            self.wf(),
        ensures
            r@ == composed(self.separator(), self.parts()),
    {
        self.out
    }
}

} // verus!
