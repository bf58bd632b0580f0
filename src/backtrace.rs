//! Rendering of a filtered backtrace: runs of hidden frames fold into one
//! marker each, and every shown frame keeps its number from the capture.
use vstd::prelude::*;
use vstd::string::*;
use crate::frame::{Frame, name_of, file_of};
use crate::section::{Sections, composed};
use crate::text::{center, centered, dec, decimal, pad_left, right_aligned, same_text};
use crate::verbosity::Verbosity;

verus! {

/// One line of a folded backtrace.
#[derive(Debug, Clone, Copy, PartialEq, Eq, Structural)]
pub enum Fold {
    /// a run of this many hidden frames
    Hidden(usize),
    /// the frame at this position of the capture
    Shown(usize),
}

/// The folded lines for positions `i..` of `kept`, when the `run` positions
/// before `i` were hidden.
pub open spec fn fold_from(kept: Seq<bool>, i: int, run: nat) -> Seq<Fold>
    decreases kept.len() - i,
{
    if i >= kept.len() || i < 0 {
        if run > 0 {
            seq![Fold::Hidden(run as usize)]
        } else {
            Seq::empty()
        }
    } else if kept[i] {
        (if run > 0 {
            seq![Fold::Hidden(run as usize)]
        } else {
            Seq::<Fold>::empty()
        }) + seq![Fold::Shown(i as usize)] + fold_from(kept, i + 1, 0)
    } else {
        fold_from(kept, i + 1, run + 1)
    }
}

/// The folded lines of a capture in which position `k` survived the filters
/// exactly where `kept[k]` holds.
pub open spec fn fold_spec(kept: Seq<bool>) -> Seq<Fold> {
    fold_from(kept, 0, 0)
}

/// Folds the hidden runs of a capture into markers.
pub fn fold_frames(kept: &Vec<bool>) -> (r: Vec<Fold>)
    ensures
        r@ == fold_spec(kept@),
{
    let len = kept.len();
    let mut out: Vec<Fold> = Vec::new();
    let mut run: usize = 0;
    let mut i: usize = 0;
    while i < len
        invariant
            len == kept@.len(),
            i <= len,
            run <= i,
            out@ + fold_from(kept@, i as int, run as nat) == fold_spec(kept@),
        decreases len - i,
    {
        let ghost before = out@;
        if kept[i] {
            if run > 0 {
                out.push(Fold::Hidden(run));
            }
            out.push(Fold::Shown(i));
            assert(out@ + fold_from(kept@, i + 1, 0) =~= before + fold_from(
                kept@,
                i as int,
                run as nat,
            ));
            run = 0;
        } else {
            run = run + 1;
        }
        i = i + 1;
    }
    if run > 0 {
        out.push(Fold::Hidden(run));
    }
    assert(out@ =~= out@ + Seq::<Fold>::empty());
    out
}

/// Which positions of a capture of `len` frames some frame of `filtered`
/// stands for, by its number.
pub open spec fn kept_of(len: nat, filtered: Seq<&Frame>) -> Seq<bool> {
    Seq::new(len, |k: int| exists|j: int| 0 <= j < filtered.len() && filtered[j].n == k + 1)
}

/// Marks the positions whose frames survived the filters.
pub fn kept_positions(len: usize, filtered: &Vec<&Frame>) -> (r: Vec<bool>)
    ensures
        r@ == kept_of(len as nat, filtered@),
{
    let mut r: Vec<bool> = Vec::new();
    let mut k: usize = 0;
    while k < len
        invariant
            k <= len,
            r@.len() == k,
            forall|m: int| 0 <= m < k ==> !r@[m],
        decreases len - k,
    {
        r.push(false);
        k = k + 1;
    }
    let mut j: usize = 0;
    while j < filtered.len()
        invariant
            j <= filtered@.len(),
            r@.len() == len,
            forall|m: int|
                0 <= m < len ==> (r@[m] <==> exists|i: int|
                    0 <= i < j && filtered@[i].n == m + 1),
        decreases filtered@.len() - j,
    {
        let n = filtered[j].n;
        if n >= 1 && n <= len {
            r.set(n - 1, true);
        }
        assert forall|m: int|
            0 <= m < len implies (r@[m] <==> exists|i: int|
                0 <= i < j + 1 && filtered@[i].n == m + 1) by {
            if filtered@[j as int].n == m + 1 {
                assert(r@[m]);
            }
        }
        j = j + 1;
    }
    assert(r@ =~= kept_of(len as nat, filtered@));
    r
}

/// A hexadecimal digit, in either case.
pub open spec fn is_hex(c: char) -> bool {
    ('0' <= c && c <= '9') || ('a' <= c && c <= 'f') || ('A' <= c && c <= 'F')
}

/// The name ends in a disambiguation suffix: `::h` and sixteen hex digits,
/// after at least one character of name.
pub open spec fn has_hash_suffix(name: Seq<char>) -> bool {
    &&& name.len() > 19
    &&& name.subrange(name.len() - 19, name.len() - 16) == "::h"@
    &&& forall|k: int| name.len() - 16 <= k < name.len() ==> is_hex(#[trigger] name[k])
}

/// A symbol name split into the name proper and its suffix; a name without a
/// suffix stays whole, with the placeholder `<unknown>` as suffix.
pub open spec fn symbol_parts(name: Seq<char>) -> (Seq<char>, Seq<char>) {
    if has_hash_suffix(name) {
        (name.subrange(0, name.len() - 19), name.subrange(name.len() - 19, name.len() as int))
    } else {
        (name, "<unknown>"@)
    }
}

fn is_hex_char(c: char) -> (r: bool)
    ensures
        r == is_hex(c),
{
    ('0' <= c && c <= '9') || ('a' <= c && c <= 'f') || ('A' <= c && c <= 'F')
}

/// Splits the disambiguation suffix off a symbol name.
pub fn split_symbol(name: &str) -> (r: (String, String))
    ensures
        r.0@ == symbol_parts(name@).0,
        r.1@ == symbol_parts(name@).1,
{
    let len = name.unicode_len();
    let mut hashed = len > 19 && same_text(name.substring_char(len - 19, len - 16), "::h");
    if hashed {
        let mut k: usize = len - 16;
        while k < len
            invariant
                len == name@.len(),
                len > 19,
                len - 16 <= k <= len,
                hashed ==> forall|m: int| len - 16 <= m < k ==> is_hex(#[trigger] name@[m]),
                !hashed ==> !has_hash_suffix(name@),
                hashed ==> name@.subrange(len - 19, len - 16) == "::h"@,
            decreases len - k,
        {
            if !is_hex_char(name.get_char(k)) {
                hashed = false;
            }
            k = k + 1;
        }
    }
    assert(hashed == has_hash_suffix(name@));
    if hashed {
        (
            String::from_str(name.substring_char(0, len - 19)),
            String::from_str(name.substring_char(len - 19, len)),
        )
    } else {
        (String::from_str(name), String::from_str("<unknown>"))
    }
}

/// The name shown for a frame.
pub open spec fn shown_name(f: Frame) -> Seq<char> {
    match name_of(f) {
        Some(s) => s,
        None => "<unknown>"@,
    }
}

/// The first line of a frame's text: its number, two columns wide, and its
/// name followed by its suffix.
pub open spec fn frame_head(f: Frame) -> Seq<char> {
    pad_left(dec(f.n as nat), 2) + ": "@ + symbol_parts(shown_name(f)).0 + symbol_parts(
        shown_name(f),
    ).1
}

/// The source location of a frame, with placeholders for what is unknown.
pub open spec fn frame_location(f: Frame) -> Seq<char> {
    "    at "@ + (match file_of(f) {
        Some(p) => p,
        None => "<unknown source file>"@,
    }) + ":"@ + (match f.lineno {
        Some(l) => dec(l as nat),
        None => "<unknown line>"@,
    })
}

/// The first line of the source window around line `lineno`: two lines
/// before it, or the start of the file.
pub open spec fn excerpt_start(lineno: nat) -> nat {
    if lineno <= 2 {
        1
    } else {
        (lineno - 2) as nat
    }
}

/// How many lines the window around `lineno` holds: from its first line to
/// two lines after `lineno`.
pub open spec fn excerpt_len(lineno: nat) -> nat {
    (lineno + 3 - excerpt_start(lineno)) as nat
}

/// The lines of a window that are shown: those numbered up to two after
/// `lineno`.
pub open spec fn window(lineno: nat, lines: Seq<Seq<char>>) -> Seq<Seq<char>> {
    if lines.len() <= excerpt_len(lineno) {
        lines
    } else {
        lines.subrange(0, excerpt_len(lineno) as int)
    }
}

/// One line of source: its number eight columns wide, then a marker that
/// points at the frame's own line.
pub open spec fn source_line(no: nat, lineno: nat, text: Seq<char>) -> Seq<char> {
    pad_left(dec(no), 8) + (if no == lineno {
        " > "@
    } else {
        " \u{2502} "@
    }) + text
}

/// The source window around `lineno`, whose lines, from its first line on,
/// are `lines`.
pub open spec fn source_excerpt(lineno: nat, lines: Seq<Seq<char>>) -> Seq<char> {
    composed(
        "\n"@,
        Seq::new(
            window(lineno, lines).len(),
            |k: int| source_line(excerpt_start(lineno) + k as nat, lineno, window(lineno, lines)[k]),
        ),
    )
}

/// The lines of an optional window, as characters.
pub open spec fn lines_view(o: Option<Vec<String>>) -> Option<Seq<Seq<char>>> {
    match o {
        Some(v) => Some(v@.map_values(|s: String| s@)),
        None => None,
    }
}

/// The source shown under a frame: only at Full verbosity, for a frame whose
/// file and line are known and whose file could be read.
pub open spec fn frame_source(f: Frame, v: Verbosity, lines: Option<Seq<Seq<char>>>) -> Seq<
    char,
> {
    match (f.lineno, file_of(f), lines) {
        (Some(l), Some(_), Some(ls)) => if v == Verbosity::Full {
            source_excerpt(l as nat, ls)
        } else {
            Seq::empty()
        },
        _ => Seq::empty(),
    }
}

/// The text of one frame.
pub open spec fn frame_text(f: Frame, v: Verbosity, lines: Option<Seq<Seq<char>>>) -> Seq<char> {
    composed("\n"@, seq![frame_head(f), frame_location(f), frame_source(f, v, lines)])
}

/// The marker that stands for `c` hidden frames, centred in eighty columns.
pub open spec fn hidden_marker(c: nat) -> Seq<char> {
    center(
        "\u{22ee} "@ + dec(c) + " frame"@ + (if c == 1 {
            ""@
        } else {
            "s"@
        }) + " hidden \u{22ee}"@,
        80,
    )
}

/// The first source line to read for a frame at `lineno`.
pub fn excerpt_first_line(lineno: u32) -> (r: u32)
    ensures
        r as nat == excerpt_start(lineno as nat),
{
    if lineno <= 2 {
        1
    } else {
        lineno - 2
    }
}

/// The number of source lines to read for a frame at `lineno`.
pub fn excerpt_line_count(lineno: u32) -> (r: usize)
    ensures
        r as nat == excerpt_len(lineno as nat),
{
    if lineno <= 2 {
        lineno as usize + 2
    } else {
        5
    }
}

/// Renders the source window around `lineno`; `lines` start at
/// `excerpt_first_line(lineno)`.
pub fn format_source(lineno: u32, lines: &Vec<String>) -> (r: String)
    ensures
        r@ == source_excerpt(lineno as nat, lines@.map_values(|s: String| s@)),
{
    let ghost ls = lines@.map_values(|s: String| s@);
    let start = excerpt_first_line(lineno) as u64;
    let most = excerpt_line_count(lineno);
    let count = if lines.len() <= most {
        lines.len()
    } else {
        most
    };
    let ghost shown = Seq::new(
        window(lineno as nat, ls).len(),
        |k: int| source_line(excerpt_start(lineno as nat) + k as nat, lineno as nat, window(lineno as nat, ls)[k]),
    );
    let nl = "\n";
    let mut out = Sections::new(nl);
    let mut k: usize = 0;
    while k < count
        invariant
            k <= count <= most,
            most as nat == excerpt_len(lineno as nat),
            count == window(lineno as nat, ls).len(),
            ls == lines@.map_values(|s: String| s@),
            start as nat == excerpt_start(lineno as nat),
            shown.len() == count,
            shown == Seq::new(
                window(lineno as nat, ls).len(),
                |k: int| source_line(excerpt_start(lineno as nat) + k as nat, lineno as nat, window(lineno as nat, ls)[k]),
            ),
            out.wf(),
            out.separator() == nl@,
            out.parts() == shown.subrange(0, k as int),
        decreases count - k,
    {
        let no = start + k as u64;
        let mut line = right_aligned(decimal(no).as_str(), 8);
        if no == lineno as u64 {
            line.append(" > ");
        } else {
            line.append(" \u{2502} ");
        }
        line.append(lines[k].as_str());
        assert(window(lineno as nat, ls)[k as int] == lines@[k as int]@);
        assert(line@ =~= shown[k as int]);
        out.write(line.as_str());
        assert(out.parts() =~= shown.subrange(0, k + 1));
        k = k + 1;
    }
    assert(shown.subrange(0, count as int) =~= shown);
    out.finish()
}

/// Renders one frame: its head, its location and, where it is shown, its
/// source.
pub fn format_frame(f: &Frame, v: Verbosity, lines: &Option<Vec<String>>) -> (r: String)
    ensures
        r@ == frame_text(*f, v, lines_view(*lines)),
{
    let mut head = right_aligned(decimal(f.n as u64).as_str(), 2);
    head.append(": ");
    let parts = match &f.name {
        Some(name) => split_symbol(name.as_str()),
        None => split_symbol("<unknown>"),
    };
    head.append(parts.0.as_str());
    head.append(parts.1.as_str());
    let mut loc = String::from_str("    at ");
    match &f.filename {
        Some(p) => loc.append(p.as_str()),
        None => loc.append("<unknown source file>"),
    }
    loc.append(":");
    match f.lineno {
        Some(l) => {
            let d = decimal(l as u64);
            loc.append(d.as_str());
        },
        None => loc.append("<unknown line>"),
    }
    let src = match (f.lineno, &f.filename, lines) {
        (Some(l), Some(_), Some(ls)) => if v.shows_source() {
            format_source(l, ls)
        } else {
            String::new()
        },
        _ => String::new(),
    };
    let nl = "\n";
    let mut out = Sections::new(nl);
    out.write(head.as_str());
    out.write(loc.as_str());
    out.write(src.as_str());
    assert(out.parts() =~= seq![frame_head(*f), frame_location(*f), frame_source(*f, v, lines_view(*lines))]);
    out.finish()
}

/// Renders the marker for a run of `c` hidden frames.
pub fn format_hidden(c: usize) -> (r: String)
    ensures
        r@ == hidden_marker(c as nat),
{
    proof {
        reveal_strlit("");
    }
    let mut s = String::from_str("\u{22ee} ");
    let d = decimal(c as u64);
    s.append(d.as_str());
    s.append(" frame");
    if c != 1 {
        s.append("s");
    }
    s.append(" hidden \u{22ee}");
    centered(s.as_str(), 80)
}

/// The text of one folded line.
pub open spec fn fold_text(
    frames: Seq<Frame>,
    v: Verbosity,
    excerpts: Seq<Option<Vec<String>>>,
    item: Fold,
) -> Seq<char> {
    match item {
        Fold::Hidden(c) => hidden_marker(c as nat),
        Fold::Shown(p) => frame_text(frames[p as int], v, lines_view(excerpts[p as int])),
    }
}

/// The rendered backtrace: a header, then one line per folded line; when no
/// frame survived, the header and an empty-backtrace marker alone.
pub open spec fn backtrace_text(
    frames: Seq<Frame>,
    kept: Seq<bool>,
    v: Verbosity,
    excerpts: Seq<Option<Vec<String>>>,
) -> Seq<char> {
    if !kept.contains(true) {
        "[BACKTRACE]\n<empty backtrace>"@
    } else {
        composed(
            "\n"@,
            seq!["[BACKTRACE]"@] + fold_spec(kept).map_values(
                |item: Fold| fold_text(frames, v, excerpts, item),
            ),
        )
    }
}

/// Every shown line of a fold names a position of the capture.
pub proof fn lemma_fold_positions(kept: Seq<bool>, i: int, run: nat)
    requires
        0 <= i,
        kept.len() <= usize::MAX,
    ensures
        forall|k: int|
            0 <= k < fold_from(kept, i, run).len() ==> match #[trigger] fold_from(kept, i, run)[k] {
                Fold::Shown(p) => i <= p < kept.len(),
                Fold::Hidden(_) => true,
            },
    decreases kept.len() - i,
{
    if i < kept.len() {
        if kept[i] {
            lemma_fold_positions(kept, i + 1, 0);
            let pre = if run > 0 {
                seq![Fold::Hidden(run as usize)]
            } else {
                Seq::<Fold>::empty()
            };
            let rest = fold_from(kept, i + 1, 0);
            let all = fold_from(kept, i, run);
            assert(all == pre + seq![Fold::Shown(i as usize)] + rest);
            assert forall|k: int| 0 <= k < all.len() implies match #[trigger] all[k] {
                Fold::Shown(p) => i <= p < kept.len(),
                Fold::Hidden(_) => true,
            } by {
                if k == pre.len() {
                    assert(all[k] == Fold::Shown(i as usize));
                }
                if k > pre.len() {
                    assert(all[k] == rest[k - pre.len() - 1]);
                }
            }
        } else {
            lemma_fold_positions(kept, i + 1, run + 1);
        }
    }
}

/// Renders a filtered backtrace. `frames` is the whole capture, numbered from
/// 1 in order; `filtered` holds what the filters left, in any order; a frame's
/// source window, read from its file, is in `excerpts` at its position.
pub fn format_backtrace(
    frames: &Vec<Frame>,
    filtered: &Vec<&Frame>,
    verbosity: Verbosity,
    excerpts: &Vec<Option<Vec<String>>>,
) -> (r: String)
    requires
        excerpts@.len() == frames@.len(),
    ensures
        r@ == backtrace_text(frames@, kept_of(frames@.len(), filtered@), verbosity, excerpts@),
{
    let kept = kept_positions(frames.len(), filtered);
    let mut any = false;
    let mut k: usize = 0;
    while k < kept.len()
        invariant
            k <= kept@.len(),
            any == exists|m: int| 0 <= m < k && kept@[m],
        decreases kept@.len() - k,
    {
        if kept[k] {
            any = true;
        }
        k = k + 1;
    }
    if !any {
        proof {
            assert forall|m: int| 0 <= m < kept@.len() implies !kept@[m] by {}
            assert(!kept@.contains(true));
        }
        return String::from_str("[BACKTRACE]\n<empty backtrace>");
    }
    proof {
        let m = choose|m: int| 0 <= m < kept@.len() && kept@[m];
        assert(kept@.contains(true));
    }
    let folds = fold_frames(&kept);
    proof {
        lemma_fold_positions(kept@, 0, 0);
    }
    let ghost texts = folds@.map_values(|item: Fold| fold_text(frames@, verbosity, excerpts@, item));
    let nl = "\n";
    let header = "[BACKTRACE]";
    let mut out = Sections::new(nl);
    out.write(header);
    let mut i: usize = 0;
    while i < folds.len()
        invariant
            i <= folds@.len(),
            folds@ == fold_spec(kept@),
            kept@.len() == frames@.len(),
            excerpts@.len() == frames@.len(),
            forall|k: int|
                0 <= k < folds@.len() ==> match #[trigger] folds@[k] {
                    Fold::Shown(p) => p < kept@.len(),
                    Fold::Hidden(_) => true,
                },
            texts == folds@.map_values(|item: Fold| fold_text(frames@, verbosity, excerpts@, item)),
            out.wf(),
            out.separator() == nl@,
            out.parts() == seq![header@] + texts.subrange(0, i as int),
        decreases folds@.len() - i,
    {
        let text = match folds[i] {
            Fold::Hidden(c) => format_hidden(c),
            Fold::Shown(p) => format_frame(&frames[p], verbosity, &excerpts[p]),
        };
        assert(text@ == texts[i as int]);
        out.write(text.as_str());
        assert(out.parts() =~= seq![header@] + texts.subrange(0, i + 1));
        i = i + 1;
    }
    assert(texts.subrange(0, folds@.len() as int) =~= texts);
    out.finish()
}

/// What a folded line stands for, position by position: -1 for each frame a
/// marker hides, the position of a shown frame.
pub open spec fn expand(items: Seq<Fold>) -> Seq<int>
    decreases items.len(),
{
    if items.len() == 0 {
        Seq::empty()
    } else {
        (match items[0] {
            Fold::Hidden(c) => Seq::new(c as nat, |k: int| -1int),
            Fold::Shown(p) => seq![p as int],
        }) + expand(items.drop_first())
    }
}

/// Position `k` of a capture as a fold must account for it.
pub open spec fn slot(kept: Seq<bool>, k: int) -> int {
    if kept[k] {
        k
    } else {
        -1
    }
}

proof fn lemma_expand_concat(a: Seq<Fold>, b: Seq<Fold>)
    ensures
        expand(a + b) == expand(a) + expand(b),
    decreases a.len(),
{
    if a.len() == 0 {
        assert(a + b =~= b);
        assert(expand(a) + expand(b) =~= expand(b));
    } else {
        lemma_expand_concat(a.drop_first(), b);
        assert((a + b).drop_first() =~= a.drop_first() + b);
        assert((a + b)[0] == a[0]);
        let head = match a[0] {
            Fold::Hidden(c) => Seq::new(c as nat, |k: int| -1int),
            Fold::Shown(p) => seq![p as int],
        };
        assert(head + (expand(a.drop_first()) + expand(b)) =~= (head + expand(a.drop_first()))
            + expand(b));
    }
}

proof fn lemma_fold_shape(kept: Seq<bool>, i: int, run: nat)
    requires
        0 <= i <= kept.len(),
        kept.len() <= usize::MAX,
        run <= i,
    ensures
        expand(fold_from(kept, i, run)) == Seq::new(run, |k: int| -1int) + Seq::new(
            (kept.len() - i) as nat,
            |k: int| slot(kept, i + k),
        ),
        forall|k: int|
            0 <= k < fold_from(kept, i, run).len() ==> match #[trigger] fold_from(kept, i, run)[k] {
                Fold::Hidden(c) => c > 0,
                Fold::Shown(_) => true,
            },
        forall|k: int|
            0 <= k < fold_from(kept, i, run).len() - 1 ==> (#[trigger] fold_from(kept, i, run)[k]
                is Hidden ==> fold_from(kept, i, run)[k + 1] is Shown),
    decreases kept.len() - i,
{
    let all = fold_from(kept, i, run);
    let pre = if run > 0 {
        seq![Fold::Hidden(run as usize)]
    } else {
        Seq::<Fold>::empty()
    };
    if run > 0 {
        assert(pre[0] == Fold::Hidden(run as usize));
        assert(pre.drop_first() =~= Seq::<Fold>::empty());
        assert(expand(pre.drop_first()) == Seq::<int>::empty());
        assert(expand(pre) =~= Seq::new(run, |k: int| -1int));
    } else {
        assert(expand(pre) =~= Seq::new(run, |k: int| -1int));
    }
    if i == kept.len() {
        assert(all == pre);
        assert(Seq::new((kept.len() - i) as nat, |k: int| slot(kept, i + k)) =~= Seq::<
            int,
        >::empty());
        assert(expand(all) =~= Seq::new(run, |k: int| -1int) + Seq::<int>::empty());
    } else if kept[i] {
        lemma_fold_shape(kept, i + 1, 0);
        let rest = fold_from(kept, i + 1, 0);
        let mid = seq![Fold::Shown(i as usize)];
        assert(all == pre + mid + rest);
        lemma_expand_concat(pre + mid, rest);
        lemma_expand_concat(pre, mid);
        assert(mid[0] == Fold::Shown(i as usize));
        assert(mid.drop_first() =~= Seq::<Fold>::empty());
        assert(expand(mid.drop_first()) == Seq::<int>::empty());
        assert(expand(mid) =~= seq![i]);
        assert(expand(rest) == Seq::new(0, |k: int| -1int) + Seq::new(
            (kept.len() - (i + 1)) as nat,
            |k: int| slot(kept, i + 1 + k),
        ));
        assert(expand(all) =~= Seq::new(run, |k: int| -1int) + Seq::new(
            (kept.len() - i) as nat,
            |k: int| slot(kept, i + k),
        ));
        assert forall|k: int| 0 <= k < all.len() implies match #[trigger] all[k] {
            Fold::Hidden(c) => c > 0,
            Fold::Shown(_) => true,
        } by {
            if k > pre.len() {
                assert(all[k] == rest[k - pre.len() - 1]);
            } else if k == pre.len() {
                assert(all[k] == Fold::Shown(i as usize));
            } else {
                assert(all[k] == Fold::Hidden(run as usize));
            }
        }
        assert forall|k: int| 0 <= k < all.len() - 1 implies (#[trigger] all[k] is Hidden
            ==> all[k + 1] is Shown) by {
            if k > pre.len() {
                assert(all[k] == rest[k - pre.len() - 1]);
                assert(all[k + 1] == rest[k + 1 - pre.len() - 1]);
            } else if k == pre.len() {
                assert(all[k] == Fold::Shown(i as usize));
            } else {
                assert(all[k + 1] == Fold::Shown(i as usize));
            }
        }
    } else {
        lemma_fold_shape(kept, i + 1, run + 1);
        assert(all == fold_from(kept, i + 1, run + 1));
        assert(Seq::new(run + 1, |k: int| -1int) + Seq::new(
            (kept.len() - (i + 1)) as nat,
            |k: int| slot(kept, i + 1 + k),
        ) =~= Seq::new(run, |k: int| -1int) + Seq::new(
            (kept.len() - i) as nat,
            |k: int| slot(kept, i + k),
        ));
    }
}

/// Folding accounts for every frame: each marker stands for a maximal run of
/// hidden frames (no two markers are adjacent, none is empty) and counts
/// exactly the frames of that run, the trailing run included; each shown
/// frame stands at its own position.
pub proof fn lemma_fold_markers_match_gaps(kept: Seq<bool>)
    requires
        kept.len() <= usize::MAX,
    ensures
        expand(fold_spec(kept)) == Seq::new(kept.len(), |k: int| slot(kept, k)),
        forall|k: int|
            0 <= k < fold_spec(kept).len() ==> match #[trigger] fold_spec(kept)[k] {
                Fold::Hidden(c) => c > 0,
                Fold::Shown(_) => true,
            },
        forall|k: int|
            0 <= k < fold_spec(kept).len() - 1 ==> (#[trigger] fold_spec(kept)[k] is Hidden
                ==> fold_spec(kept)[k + 1] is Shown),
{
    lemma_fold_shape(kept, 0, 0);
    assert(Seq::new(0, |k: int| -1int) + Seq::new(kept.len(), |k: int| slot(kept, 0 + k))
        =~= Seq::new(kept.len(), |k: int| slot(kept, k)));
}

proof fn lemma_fold_all_shown(kept: Seq<bool>, i: int)
    requires
        0 <= i <= kept.len(),
        kept.len() <= usize::MAX,
        forall|k: int| 0 <= k < kept.len() ==> kept[k],
    ensures
        fold_from(kept, i, 0) == Seq::new((kept.len() - i) as nat, |k: int| Fold::Shown((i + k) as usize)),
    decreases kept.len() - i,
{
    if i < kept.len() {
        lemma_fold_all_shown(kept, i + 1);
        assert(fold_from(kept, i, 0) =~= Seq::new(
            (kept.len() - i) as nat,
            |k: int| Fold::Shown((i + k) as usize),
        ));
    } else {
        assert(fold_from(kept, i, 0) =~= Seq::new(
            (kept.len() - i) as nat,
            |k: int| Fold::Shown((i + k) as usize),
        ));
    }
}

/// With filtering turned off, every captured frame is kept: the fold shows
/// one line per captured frame, in capture order, and hides none.
pub proof fn lemma_unfiltered_shows_every_frame(frames: Seq<&Frame>)
    requires
        frames.len() <= usize::MAX,
        forall|k: int| 0 <= k < frames.len() ==> (#[trigger] frames[k]).n == k + 1,
    ensures
        fold_spec(kept_of(frames.len(), frames)) == Seq::new(
            frames.len(),
            |k: int| Fold::Shown(k as usize),
        ),
        forall|k: int|
            0 <= k < fold_spec(kept_of(frames.len(), frames)).len() ==> !(
            #[trigger] fold_spec(kept_of(frames.len(), frames))[k] is Hidden),
{
    let kept = kept_of(frames.len(), frames);
    assert forall|k: int| 0 <= k < kept.len() implies kept[k] by {
        assert(frames[k].n == k + 1);
    }
    lemma_fold_all_shown(kept, 0);
    assert(Seq::new((kept.len() - 0) as nat, |k: int| Fold::Shown((0 + k) as usize)) =~= Seq::new(
        frames.len(),
        |k: int| Fold::Shown(k as usize),
    ));
}

/// A trace whose frames were all filtered out renders as the header and the
/// empty-backtrace marker alone, with no marker for hidden frames.
pub proof fn lemma_all_filtered_renders_empty(
    frames: Seq<Frame>,
    v: Verbosity,
    excerpts: Seq<Option<Vec<String>>>,
)
    ensures
        backtrace_text(frames, kept_of(frames.len(), Seq::<&Frame>::empty()), v, excerpts)
            == "[BACKTRACE]\n<empty backtrace>"@,
{
    let kept = kept_of(frames.len(), Seq::<&Frame>::empty());
    if kept.contains(true) {
        let k = choose|k: int| 0 <= k < kept.len() && kept[k] == true;
        assert(kept[k]);
    }
}

/// When some frame survives, the rendered backtrace is the header and then one
/// line per folded line, in order: the centred marker for `c` for a run of `c`
/// hidden frames, the frame's own text for a shown frame. With the folding
/// law this places in the output one marker per maximal run of hidden frames,
/// trailing run included, each counting exactly that run's frames.
pub proof fn lemma_rendered_markers_match_gaps(
    frames: Seq<Frame>,
    kept: Seq<bool>,
    v: Verbosity,
    excerpts: Seq<Option<Vec<String>>>,
)
    requires
        kept.contains(true),
        kept.len() <= usize::MAX,
    ensures
        backtrace_text(frames, kept, v, excerpts) == composed(
            "\n"@,
            seq!["[BACKTRACE]"@] + Seq::new(
                fold_spec(kept).len(),
                |k: int| fold_text(frames, v, excerpts, fold_spec(kept)[k]),
            ),
        ),
        forall|k: int|
            0 <= k < fold_spec(kept).len() ==> match #[trigger] fold_spec(kept)[k] {
                Fold::Hidden(c) => c > 0 && fold_text(frames, v, excerpts, fold_spec(kept)[k])
                    == hidden_marker(c as nat),
                Fold::Shown(p) => fold_text(frames, v, excerpts, fold_spec(kept)[k]) == frame_text(
                    frames[p as int],
                    v,
                    lines_view(excerpts[p as int]),
                ),
            },
        forall|k: int|
            0 <= k < fold_spec(kept).len() - 1 ==> (#[trigger] fold_spec(kept)[k] is Hidden
                ==> fold_spec(kept)[k + 1] is Shown),
        expand(fold_spec(kept)) == Seq::new(kept.len(), |k: int| slot(kept, k)),
{
    lemma_fold_markers_match_gaps(kept);
    let folds = fold_spec(kept);
    assert(folds.map_values(|item: Fold| fold_text(frames, v, excerpts, item)) =~= Seq::new(
        folds.len(),
        |k: int| fold_text(frames, v, excerpts, folds[k]),
    ));
}

} // verus!
