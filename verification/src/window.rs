//! Window identities and fixed window chrome.
//!
//! Every window gets a label `"main-<n>"` from a monotonic counter, unique
//! for the lifetime of the process: the decimal rendering is proved
//! injective, so no two counter values ever share a label.

use vstd::prelude::*;

verus! {

/// The character of a single decimal digit.
pub open spec fn digit_char(d: nat) -> char
    recommends
        d < 10,
{
    if d == 0 {
        '0'
    } else if d == 1 {
        '1'
    } else if d == 2 {
        '2'
    } else if d == 3 {
        '3'
    } else if d == 4 {
        '4'
    } else if d == 5 {
        '5'
    } else if d == 6 {
        '6'
    } else if d == 7 {
        '7'
    } else if d == 8 {
        '8'
    } else {
        '9'
    }
}

/// The decimal rendering of a number, most significant digit first, with no
/// leading zeros.
pub open spec fn spec_dec(n: nat) -> Seq<char>
    decreases n,
{
    if n < 10 {
        seq![digit_char(n)]
    } else {
        spec_dec(n / 10).push(digit_char(n % 10))
    }
}

/// The window label allocated for counter value `n`.
pub open spec fn spec_label(n: nat) -> Seq<char> {
    seq!['m', 'a', 'i', 'n', '-'] + spec_dec(n)
}

fn digit_str(d: u64) -> (s: &'static str)
    requires
        d < 10,
    ensures
        s@ == seq![digit_char(d as nat)],
{
    if d == 0 {
        let s = "0";
        proof {
            reveal_strlit("0");
            assert(s@ =~= seq![digit_char(0)]);
        }
        s
    } else if d == 1 {
        let s = "1";
        proof {
            reveal_strlit("1");
            assert(s@ =~= seq![digit_char(1)]);
        }
        s
    } else if d == 2 {
        let s = "2";
        proof {
            reveal_strlit("2");
            assert(s@ =~= seq![digit_char(2)]);
        }
        s
    } else if d == 3 {
        let s = "3";
        proof {
            reveal_strlit("3");
            assert(s@ =~= seq![digit_char(3)]);
        }
        s
    } else if d == 4 {
        let s = "4";
        proof {
            reveal_strlit("4");
            assert(s@ =~= seq![digit_char(4)]);
        }
        s
    } else if d == 5 {
        let s = "5";
        proof {
            reveal_strlit("5");
            assert(s@ =~= seq![digit_char(5)]);
        }
        s
    } else if d == 6 {
        let s = "6";
        proof {
            reveal_strlit("6");
            assert(s@ =~= seq![digit_char(6)]);
        }
        s
    } else if d == 7 {
        let s = "7";
        proof {
            reveal_strlit("7");
            assert(s@ =~= seq![digit_char(7)]);
        }
        s
    } else if d == 8 {
        let s = "8";
        proof {
            reveal_strlit("8");
            assert(s@ =~= seq![digit_char(8)]);
        }
        s
    } else {
        let s = "9";
        proof {
            reveal_strlit("9");
            assert(s@ =~= seq![digit_char(9)]);
        }
        s
    }
}

/// Render a counter value in decimal.
pub fn dec_string(n: u64) -> (s: String)
    ensures
        s@ == spec_dec(n as nat),
    decreases n,
{
    if n < 10 {
        String::from_str(digit_str(n))
    } else {
        let mut s = dec_string(n / 10);
        s.append(digit_str(n % 10));
        s
    }
}

/// Render the window label `"main-<n>"` for counter value `n`.
pub fn window_label(n: u64) -> (s: String)
    ensures
        s@ == spec_label(n as nat),
{
    let mut s = String::from_str("main-");
    proof {
        reveal_strlit("main-");
        assert(s@ =~= seq!['m', 'a', 'i', 'n', '-']);
    }
    let digits = dec_string(n);
    s.append(digits.as_str());
    s
}

proof fn lemma_dec_len(n: nat)
    ensures
        spec_dec(n).len() >= 1,
        n >= 10 ==> spec_dec(n).len() >= 2,
    decreases n,
{
    if n >= 10 {
        lemma_dec_len(n / 10);
    }
}

proof fn lemma_digit_char_injective(a: nat, b: nat)
    requires
        a < 10,
        b < 10,
        digit_char(a) == digit_char(b),
    ensures
        a == b,
{
}

proof fn lemma_dec_injective(a: nat, b: nat)
    requires
        spec_dec(a) == spec_dec(b),
    ensures
        a == b,
    decreases a,
{
    if a < 10 && b < 10 {
        assert(spec_dec(a) == seq![digit_char(a)]);
        assert(spec_dec(b) == seq![digit_char(b)]);
        assert(seq![digit_char(a)][0] == digit_char(a));
        assert(seq![digit_char(b)][0] == digit_char(b));
        lemma_digit_char_injective(a, b);
    } else if a < 10 {
        lemma_dec_len(b / 10);
        assert(spec_dec(b).len() >= 2);
    } else if b < 10 {
        lemma_dec_len(a / 10);
        assert(spec_dec(a).len() >= 2);
    } else {
        let sa = spec_dec(a / 10);
        let sb = spec_dec(b / 10);
        assert(sa.push(digit_char(a % 10)) == sb.push(digit_char(b % 10)));
        assert(sa.len() == sb.len());
        assert(sa.push(digit_char(a % 10))[sa.len() as int] == digit_char(a % 10));
        assert(sb.push(digit_char(b % 10))[sb.len() as int] == digit_char(b % 10));
        lemma_digit_char_injective(a % 10, b % 10);
        assert forall|i: int| 0 <= i < sa.len() implies sa[i] == sb[i] by {
            assert(sa[i] == sa.push(digit_char(a % 10))[i]);
            assert(sb[i] == sb.push(digit_char(b % 10))[i]);
        }
        assert(sa =~= sb);
        lemma_dec_injective(a / 10, b / 10);
    }
}

/// Law: window identities are unique. Distinct counter values render to
/// distinct `"main-<n>"` labels, so no two windows created over the
/// process's lifetime ever share an identity.
pub proof fn lemma_label_unique(a: nat, b: nat)
    requires
        a != b,
    ensures
        spec_label(a) != spec_label(b),
{
    if spec_label(a) == spec_label(b) {
        lemma_dec_len(a);
        lemma_dec_len(b);
        assert(spec_label(a).len() == 5 + spec_dec(a).len());
        assert(spec_label(b).len() == 5 + spec_dec(b).len());
        assert forall|i: int|
            0 <= i < spec_dec(a).len() implies spec_dec(a)[i] == spec_dec(b)[i] by {
            assert(spec_label(a)[5 + i] == spec_dec(a)[i]);
            assert(spec_label(b)[5 + i] == spec_dec(b)[i]);
        }
        assert(spec_dec(a) =~= spec_dec(b));
        lemma_dec_injective(a, b);
    }
}

/// The fixed chrome and behavior flags every image window is created with:
/// borderless, always on top, out of the task switcher, initially hidden
/// (revealed only once its size is applied), centered, with devtools
/// available.
#[derive(Clone, Copy, Debug, PartialEq, Eq)]
pub struct WindowOptions {
    pub decorations: bool,
    pub always_on_top: bool,
    pub skip_taskbar: bool,
    pub visible: bool,
    pub devtools: bool,
    pub centered: bool,
}

/// The options of the main image window.
pub fn main_window_options() -> (r: WindowOptions)
    ensures
        !r.decorations,
        r.always_on_top,
        r.skip_taskbar,
        !r.visible,
        r.devtools,
        r.centered,
{
    WindowOptions {
        decorations: false,
        always_on_top: true,
        skip_taskbar: true,
        visible: false,
        devtools: true,
        centered: true,
    }
}

} // verus!
