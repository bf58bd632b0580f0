//! Small verified string helpers used throughout the library.
use vstd::prelude::*;
use vstd::string::*;

verus! {

/// `s` begins with `p`.
pub open spec fn starts_with(s: Seq<char>, p: Seq<char>) -> bool {
    p.len() <= s.len() && s.subrange(0, p.len() as int) == p
}

/// Whether `s` begins with `p`, comparing characters.
pub fn has_prefix(s: &str, p: &str) -> (r: bool)
    ensures
        r == starts_with(s@, p@),
{
    let sl = s.unicode_len();
    let pl = p.unicode_len();
    if pl > sl {
        return false;
    }
    let mut i: usize = 0;
    while i < pl
        invariant
            i <= pl <= sl,
            sl == s@.len(),
            pl == p@.len(),
            forall|k: int| 0 <= k < i ==> s@[k] == p@[k],
        decreases pl - i,
    {
        if s.get_char(i) != p.get_char(i) {
            return false;
        }
        i = i + 1;
    }
    assert(s@.subrange(0, pl as int) =~= p@);
    true
}

/// Whether two strings hold the same characters.
pub fn same_text(a: &str, b: &str) -> (r: bool)
    ensures
        r == (a@ == b@),
{
    if a.unicode_len() != b.unicode_len() {
        return false;
    }
    assert(a@.subrange(0, a@.len() as int) =~= a@);
    has_prefix(a, b)
}

/// The decimal digit for `d`.
pub open spec fn digit_char(d: nat) -> char {
    if d == 0 {
        '0'
    } else if d == 1 {
        '1'
    } else if d == 2 {
        '2'
    } else if d == 3 {
        '3'
    } else if d == 4 {
        '4'
    } else if d == 5 {
        '5'
    } else if d == 6 {
        '6'
    } else if d == 7 {
        '7'
    } else if d == 8 {
        '8'
    } else {
        '9'
    }
}

/// `n` written in decimal, without leading zeros.
pub open spec fn dec(n: nat) -> Seq<char>
    decreases n,
{
    if n < 10 {
        seq![digit_char(n)]
    } else {
        dec(n / 10).push(digit_char(n % 10))
    }
}

/// `k` spaces.
pub open spec fn spaces(k: nat) -> Seq<char> {
    Seq::new(k, |i: int| ' ')
}

/// `s` right-aligned in a field of `w` characters.
pub open spec fn pad_left(s: Seq<char>, w: nat) -> Seq<char> {
    if s.len() < w {
        spaces((w - s.len()) as nat) + s
    } else {
        s
    }
}

/// `s` centred in a field of `w` characters, the odd space going right.
pub open spec fn center(s: Seq<char>, w: nat) -> Seq<char> {
    if s.len() < w {
        let p = (w - s.len()) as nat;
        spaces(p / 2) + s + spaces((p - p / 2) as nat)
    } else {
        s
    }
}

fn digit_text(d: u64) -> (r: &'static str)
    requires
        d < 10,
    ensures
        r@ == seq![digit_char(d as nat)],
{
    proof {
        reveal_strlit("0");
        reveal_strlit("1");
        reveal_strlit("2");
        reveal_strlit("3");
        reveal_strlit("4");
        reveal_strlit("5");
        reveal_strlit("6");
        reveal_strlit("7");
        reveal_strlit("8");
        reveal_strlit("9");
    }
    let r = if d == 0 {
        "0"
    } else if d == 1 {
        "1"
    } else if d == 2 {
        "2"
    } else if d == 3 {
        "3"
    } else if d == 4 {
        "4"
    } else if d == 5 {
        "5"
    } else if d == 6 {
        "6"
    } else if d == 7 {
        "7"
    } else if d == 8 {
        "8"
    } else {
        "9"
    };
    assert(r@ =~= seq![digit_char(d as nat)]);
    r
}

/// `n` in decimal.
pub fn decimal(n: u64) -> (r: String)
    ensures
        r@ == dec(n as nat),
    decreases n,
{
    if n < 10 {
        String::from_str(digit_text(n))
    } else {
        let mut s = decimal(n / 10);
        s.append(digit_text(n % 10));
        assert(s@ =~= dec(n as nat));
        s
    }
}

/// `s` right-aligned in a field of `w` characters.
pub fn right_aligned(s: &str, w: usize) -> (r: String)
    ensures
        r@ == pad_left(s@, w as nat),
{
    let len = s.unicode_len();
    if len >= w {
        return String::from_str(s);
    }
    let mut r = space_run(w - len);
    r.append(s);
    r
}

/// `s` centred in a field of `w` characters.
pub fn centered(s: &str, w: usize) -> (r: String)
    ensures
        r@ == center(s@, w as nat),
{
    let len = s.unicode_len();
    if len >= w {
        return String::from_str(s);
    }
    let p = w - len;
    let mut r = space_run(p / 2);
    r.append(s);
    let tail = space_run(p - p / 2);
    r.append(tail.as_str());
    r
}

fn space_run(k: usize) -> (r: String)
    ensures
        r@ == spaces(k as nat),
{
    let mut r = String::new();
    let mut i: usize = 0;
    while i < k
        invariant
            i <= k,
            r@ =~= spaces(i as nat),
        decreases k - i,
    {
        let sp = " ";
        proof {
            reveal_strlit(" ");
        }
        r.append(sp);
        i = i + 1;
    }
    r
}

} // verus!
