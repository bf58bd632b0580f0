//! The library's frame filters and the laws that every filter pipeline built
//! from removals keeps.
use vstd::prelude::*;
use crate::frame::{Frame, is_post_panic, is_runtime_init, name_of};
use crate::text::{has_prefix, starts_with};

verus! {

/// `idx` picks the elements of `a` out of `b`, in order.
pub open spec fn embeds<A>(a: Seq<A>, b: Seq<A>, idx: Seq<int>) -> bool {
    &&& idx.len() == a.len()
    &&& forall|i: int, j: int| 0 <= i < j < idx.len() ==> idx[i] < idx[j]
    &&& forall|i: int| 0 <= i < idx.len() ==> 0 <= #[trigger] idx[i] < b.len() && a[i] == b[idx[i]]
}

/// `a` is `b` with some elements removed and the rest kept in order.
pub open spec fn is_sublist<A>(a: Seq<A>, b: Seq<A>) -> bool {
    exists|idx: Seq<int>| embeds(a, b, idx)
}

/// Frame indices strictly increase along the list.
pub open spec fn ascending(s: Seq<&Frame>) -> bool {
    forall|i: int, j: int| 0 <= i < j < s.len() ==> s[i].n < s[j].n
}

/// Removing the elements that fail a predicate leaves a sublist.
pub proof fn lemma_filter_is_sublist<A>(s: Seq<A>, pred: spec_fn(A) -> bool)
    ensures
        is_sublist(s.filter(pred), s),
    decreases s.len(),
{
    reveal(Seq::filter);
    if s.len() == 0 {
        assert(embeds(s.filter(pred), s, Seq::<int>::empty()));
    } else {
        lemma_filter_is_sublist(s.drop_last(), pred);
        let idx = choose|idx: Seq<int>| embeds(s.drop_last().filter(pred), s.drop_last(), idx);
        let sub = s.drop_last().filter(pred);
        if pred(s.last()) {
            assert(s.filter(pred) == sub.push(s.last()));
            let idx2 = idx.push(s.len() - 1);
            assert forall|i: int| 0 <= i < idx2.len() implies 0 <= #[trigger] idx2[i] < s.len()
                && s.filter(pred)[i] == s[idx2[i]] by {
                if i < idx.len() {
                    assert(idx2[i] == idx[i]);
                }
            }
            assert(embeds(s.filter(pred), s, idx2));
        } else {
            assert(s.filter(pred) == sub);
            assert forall|i: int| 0 <= i < idx.len() implies 0 <= #[trigger] idx[i] < s.len()
                && s.filter(pred)[i] == s[idx[i]] by {
                assert(s.drop_last()[idx[i]] == s[idx[i]]);
            }
            assert(embeds(s.filter(pred), s, idx));
        }
    }
}

/// Filters applied one after another leave a sublist of the first input.
pub proof fn lemma_sublist_trans<A>(a: Seq<A>, b: Seq<A>, c: Seq<A>)
    requires
        is_sublist(a, b),
        is_sublist(b, c),
    ensures
        is_sublist(a, c),
{
    let ia = choose|idx: Seq<int>| embeds(a, b, idx);
    let ib = choose|idx: Seq<int>| embeds(b, c, idx);
    let ic = Seq::new(ia.len(), |k: int| ib[ia[k]]);
    assert forall|i: int, j: int| 0 <= i < j < ic.len() implies ic[i] < ic[j] by {
        assert(ia[i] < ia[j]);
    }
    assert(embeds(a, c, ic));
}

proof fn lemma_embed_bound<A>(a: Seq<A>, b: Seq<A>, idx: Seq<int>, k: int)
    requires
        embeds(a, b, idx),
        0 <= k < idx.len(),
    ensures
        k <= idx[k],
    decreases k,
{
    if k > 0 {
        lemma_embed_bound(a, b, idx, k - 1);
    }
}

/// A filter pipeline never lengthens the frame list and never reorders the
/// frames that survive it: whatever survives of an ascending list is still
/// ascending.
pub proof fn lemma_filtered_keeps_order(before: Seq<&Frame>, after: Seq<&Frame>)
    requires
        is_sublist(after, before),
    ensures
        after.len() <= before.len(),
        ascending(before) ==> ascending(after),
{
    let idx = choose|idx: Seq<int>| embeds(after, before, idx);
    if after.len() > 0 {
        lemma_embed_bound(after, before, idx, after.len() - 1);
    }
    if ascending(before) {
        assert forall|i: int, j: int| 0 <= i < j < after.len() implies after[i].n < after[j].n by {
            assert(idx[i] < idx[j]);
            assert(after[i] == before[idx[i]]);
            assert(after[j] == before[idx[j]]);
        }
    }
}

/// Position of the last post-panic frame, or -1.
pub open spec fn last_post_panic(s: Seq<&Frame>) -> int
    decreases s.len(),
{
    if s.len() == 0 {
        -1
    } else if is_post_panic(*s.last()) {
        s.len() - 1
    } else {
        last_post_panic(s.drop_last())
    }
}

/// Position of the first runtime-init frame, or the length of the list.
pub open spec fn first_runtime_init(s: Seq<&Frame>) -> int
    decreases s.len(),
{
    if s.len() == 0 {
        0
    } else {
        let f = first_runtime_init(s.drop_last());
        if f < s.len() - 1 {
            f
        } else if is_runtime_init(*s.last()) {
            s.len() - 1
        } else {
            s.len() as int
        }
    }
}

/// Smallest frame index the default filter keeps: two past the index of the
/// last post-panic frame, or 0 when there is none.
pub open spec fn window_start(s: Seq<&Frame>) -> int {
    if last_post_panic(s) < 0 {
        0
    } else {
        s[last_post_panic(s)].n + 2
    }
}

/// Largest frame index the default filter keeps.
pub open spec fn window_end(s: Seq<&Frame>) -> int {
    first_runtime_init(s)
}

/// The frames whose index lies in the visibility window of `s`.
pub open spec fn in_window(s: Seq<&Frame>) -> spec_fn(&Frame) -> bool {
    |f: &Frame| window_start(s) <= f.n <= window_end(s)
}

/// Names of this library and of the error library it reports for.
pub open spec fn library_symbol(s: Seq<char>) -> bool {
    starts_with(s, "<nocolor_eyre::Handler as eyre::EyreHandler>::default"@)
    || starts_with(s, "eyre::"@)
    || starts_with(s, "nocolor_eyre::"@)
}

/// A frame the library filter keeps: one whose name is unknown or is not one
/// of the library's own.
pub open spec fn outside_library(f: &Frame) -> bool {
    match name_of(*f) {
        Some(s) => !library_symbol(s),
        None => true,
    }
}

/// Hides the panic machinery above the first interesting frame and the
/// runtime's startup frames below the last one.
pub fn default_frame_filter(frames: &mut Vec<&Frame>)
    ensures
        final(frames)@ == old(frames)@.filter(in_window(old(frames)@)),
        is_sublist(final(frames)@, old(frames)@),
{
    let len = frames.len();
    let mut last: Option<usize> = None;
    let mut first: usize = 0;
    let mut i: usize = 0;
    while i < len
        invariant
            len == frames@.len(),
            i <= len,
            first <= i,
            first as int == first_runtime_init(frames@.subrange(0, i as int)),
            match last {
                Some(p) => p < i && p as int == last_post_panic(frames@.subrange(0, i as int)),
                None => last_post_panic(frames@.subrange(0, i as int)) == -1,
            },
        decreases len - i,
    {
        assert(frames@.subrange(0, i + 1).drop_last() =~= frames@.subrange(0, i as int));
        if frames[i].is_post_panic_code() {
            last = Some(i);
        }
        if first == i && !frames[i].is_runtime_init_code() {
            first = i + 1;
        }
        i = i + 1;
    }
    assert(frames@.subrange(0, len as int) =~= frames@);
    let ghost pred = in_window(frames@);
    let ghost s = frames@;
    let mut kept: Vec<&Frame> = Vec::new();
    let mut j: usize = 0;
    while j < len
        invariant
            s == frames@,
            len == s.len(),
            j <= len,
            pred == in_window(s),
            kept@ == s.subrange(0, j as int).filter(pred),
            first as int == window_end(s),
            match last {
                Some(p) => p < len && s[p as int].n + 2 == window_start(s),
                None => window_start(s) == 0,
            },
        decreases len - j,
    {
        let f = frames[j];
        let keep = match last {
            Some(p) => f.n >= 2 && f.n - 2 >= frames[p].n && f.n <= first,
            None => f.n <= first,
        };
        proof {
            reveal(Seq::filter);
        }
        assert(s.subrange(0, j + 1).drop_last() =~= s.subrange(0, j as int));
        assert(s.subrange(0, j + 1).last() == s[j as int]);
        assert(keep == pred(s[j as int]));
        if keep {
            kept.push(f);
        }
        j = j + 1;
    }
    assert(s.subrange(0, len as int) =~= s);
    *frames = kept;
    proof {
        lemma_filter_is_sublist(s, pred);
    }
}

fn is_library_symbol(s: &str) -> (r: bool)
    ensures
        r == library_symbol(s@),
{
    has_prefix(s, "<nocolor_eyre::Handler as eyre::EyreHandler>::default")
    || has_prefix(s, "eyre::")
    || has_prefix(s, "nocolor_eyre::")
}

/// Removes the frames of this library and of the error library, so that a
/// report never shows its own machinery; frames without a name stay.
pub fn eyre_frame_filters(frames: &mut Vec<&Frame>)
    ensures
        final(frames)@ == old(frames)@.filter(|f: &Frame| outside_library(f)),
        is_sublist(final(frames)@, old(frames)@),
{
    let ghost pred = |f: &Frame| outside_library(f);
    let ghost s = frames@;
    let len = frames.len();
    let mut kept: Vec<&Frame> = Vec::new();
    let mut j: usize = 0;
    while j < len
        invariant
            s == frames@,
            len == s.len(),
            j <= len,
            pred == (|f: &Frame| outside_library(f)),
            kept@ == s.subrange(0, j as int).filter(pred),
        decreases len - j,
    {
        let f = frames[j];
        let keep = match &f.name {
            Some(name) => !is_library_symbol(name.as_str()),
            None => true,
        };
        proof {
            reveal(Seq::filter);
        }
        assert(s.subrange(0, j + 1).drop_last() =~= s.subrange(0, j as int));
        assert(s.subrange(0, j + 1).last() == s[j as int]);
        assert(keep == pred(s[j as int]));
        if keep {
            kept.push(f);
        }
        j = j + 1;
    }
    assert(s.subrange(0, len as int) =~= s);
    *frames = kept;
    proof {
        lemma_filter_is_sublist(s, pred);
    }
}

} // verus!
