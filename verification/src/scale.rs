//! Scale-aware sizing.
//!
//! A window's logical size is its physical pixel size divided by the display
//! scale factor. The scale factor may come from an explicit override value
//! (a decimal literal such as `"2.0"` or `"1.5"`) or from the windowing
//! system; an override that does not parse as a positive decimal number is a
//! reportable error, never a silent fallback. Scale factors are kept as
//! exact rationals, so the computed logical size is exact.

use vstd::prelude::*;
use crate::common::Size;

verus! {

/// A configuration value that could not be used.
#[derive(Clone, Copy, Debug, PartialEq, Eq)]
pub enum ConfigError {
    /// The scale-factor override is not a positive decimal number.
    InvalidScaleFactor,
}

/// A positive scale factor, as the exact rational `num / den`.
#[derive(Clone, Copy, Debug, PartialEq, Eq)]
pub struct ScaleFactor {
    pub num: u64,
    pub den: u64,
}

impl ScaleFactor {
    /// Positive, with a denominator small enough that logical sizes of any
    /// pixel dimensions stay within `u64`.
    pub open spec fn wf(self) -> bool {
        &&& 1 <= self.num
        &&& 1 <= self.den <= 1000000000
    }
}

pub open spec fn is_dec_digit(c: char) -> bool {
    48 <= c as int && c as int <= 57
}

pub open spec fn digit_val(c: char) -> nat {
    (c as int - 48) as nat
}

pub open spec fn all_digits(s: Seq<char>) -> bool {
    forall|i: int| 0 <= i < s.len() ==> is_dec_digit(#[trigger] s[i])
}

/// The value of a digit sequence read in base ten.
pub open spec fn digits_val(s: Seq<char>) -> nat
    decreases s.len(),
{
    if s.len() == 0 {
        0
    } else {
        digits_val(s.drop_last()) * 10 + digit_val(s.last())
    }
}

pub open spec fn pow10(k: nat) -> nat
    decreases k,
{
    if k == 0 {
        1
    } else {
        10 * pow10((k - 1) as nat)
    }
}

/// A well-formed dotted scale literal with its dot at position `p`: digits
/// on both sides (possibly none), at most nine on each, at least one digit
/// in all, and a nonzero value.
pub open spec fn valid_dotted(s: Seq<char>, p: int) -> bool {
    &&& 0 <= p < s.len()
    &&& s[p] == '.'
    &&& all_digits(s.subrange(0, p))
    &&& all_digits(s.subrange(p + 1, s.len() as int))
    &&& s.len() >= 2
    &&& p <= 9
    &&& s.len() - p - 1 <= 9
    &&& digits_val(s.subrange(0, p)) + digits_val(s.subrange(p + 1, s.len() as int)) >= 1
}

/// The scale-factor override grammar: a positive decimal literal of at most
/// nine digits before and after an optional dot.
pub open spec fn is_scale_literal(s: Seq<char>) -> bool {
    ||| (all_digits(s) && 1 <= s.len() <= 9 && digits_val(s) >= 1)
    ||| (exists|p: int| valid_dotted(s, p))
}

/// `sf` is the exact rational value of the scale literal `s`.
pub open spec fn scale_of(s: Seq<char>, sf: ScaleFactor) -> bool {
    ||| (all_digits(s) && sf.num == digits_val(s) && sf.den == 1)
    ||| (exists|p: int|
        valid_dotted(s, p) && sf.den == pow10((s.len() - p - 1) as nat) && sf.num == digits_val(
            s.subrange(0, p),
        ) * pow10((s.len() - p - 1) as nat) + digits_val(s.subrange(p + 1, s.len() as int)))
}

proof fn lemma_pow10_table()
    ensures
        pow10(0) == 1,
        pow10(1) == 10,
        pow10(2) == 100,
        pow10(3) == 1000,
        pow10(4) == 10000,
        pow10(5) == 100000,
        pow10(6) == 1000000,
        pow10(7) == 10000000,
        pow10(8) == 100000000,
        pow10(9) == 1000000000,
{
    assert(pow10(0) == 1);
    assert(pow10(1) == 10);
    assert(pow10(2) == 100);
    assert(pow10(3) == 1000);
    assert(pow10(4) == 10000);
    assert(pow10(5) == 100000);
    assert(pow10(6) == 1000000);
    assert(pow10(7) == 10000000);
    assert(pow10(8) == 100000000);
    assert(pow10(9) == 1000000000);
}

proof fn lemma_pow10_bounds(k: nat)
    requires
        k <= 9,
    ensures
        1 <= pow10(k) <= 1000000000,
        k <= 8 ==> pow10(k) <= 100000000,
{
    lemma_pow10_table();
    if k == 0 {
    } else if k == 1 {
    } else if k == 2 {
    } else if k == 3 {
    } else if k == 4 {
    } else if k == 5 {
    } else if k == 6 {
    } else if k == 7 {
    } else if k == 8 {
    } else {
        assert(k == 9);
    }
}

proof fn lemma_digits_val_bound(s: Seq<char>)
    requires
        all_digits(s),
    ensures
        digits_val(s) < pow10(s.len()),
    decreases s.len(),
{
    if s.len() > 0 {
        assert(all_digits(s.drop_last())) by {
            assert(forall|j: int| 0 <= j < s.len() - 1 ==> s.drop_last()[j] == #[trigger] s[j]);
        }
        lemma_digits_val_bound(s.drop_last());
        assert(is_dec_digit(s.last()));
        assert(digit_val(s.last()) <= 9);
    }
}

proof fn lemma_digits_step(s: Seq<char>, from: int, i: int)
    requires
        0 <= from <= i < s.len(),
    ensures
        digits_val(s.subrange(from, i + 1)) == digits_val(s.subrange(from, i)) * 10 + digit_val(
            s[i],
        ),
{
    let t = s.subrange(from, i + 1);
    assert(t.drop_last() =~= s.subrange(from, i));
    assert(t.last() == s[i]);
}

/// Read the value of the digit run `s[from..to]`.
fn digits_value(s: &str, from: usize, to: usize) -> (r: u64)
    requires
        from <= to <= s@.len(),
        to - from <= 9,
        forall|j: int| from <= j < to ==> is_dec_digit(#[trigger] s@[j]),
    ensures
        r == digits_val(s@.subrange(from as int, to as int)),
        r < pow10((to - from) as nat),
{
    let mut acc: u64 = 0;
    let mut i: usize = from;
    proof {
        assert(s@.subrange(from as int, from as int) =~= Seq::<char>::empty());
    }
    while i < to
        invariant
            from <= i <= to <= s@.len(),
            to - from <= 9,
            forall|j: int| from <= j < to ==> is_dec_digit(#[trigger] s@[j]),
            acc == digits_val(s@.subrange(from as int, i as int)),
            acc < pow10((i - from) as nat),
        decreases to - i,
    {
        let c = s.get_char(i);
        let b = c as u32;
        proof {
            lemma_digits_step(s@, from as int, i as int);
            lemma_pow10_bounds((i - from) as nat);
            lemma_pow10_bounds((i + 1 - from) as nat);
        }
        acc = acc * 10 + ((b - 48) as u64);
        i = i + 1;
    }
    acc
}

fn pow10_exec(k: u64) -> (r: u64)
    requires
        k <= 9,
    ensures
        r == pow10(k as nat),
    decreases k,
{
    proof {
        lemma_pow10_bounds(k as nat);
        if k > 0 {
            lemma_pow10_bounds((k - 1) as nat);
        }
    }
    if k == 0 {
        1
    } else {
        10 * pow10_exec(k - 1)
    }
}

/// Parse a scale-factor override. Exactly the positive decimal literals of
/// the override grammar are accepted, and the result is their exact
/// rational value; anything else is `InvalidScaleFactor`.
pub fn parse_scale_factor(s: &str) -> (r: Result<ScaleFactor, ConfigError>)
    ensures
        r matches Ok(sf) ==> is_scale_literal(s@) && scale_of(s@, sf) && sf.wf(),
        r is Err ==> r == Err::<ScaleFactor, ConfigError>(ConfigError::InvalidScaleFactor)
            && !is_scale_literal(s@),
{
    let n = s.unicode_len();
    let mut dot: Option<usize> = None;
    let mut i: usize = 0;
    while i < n
        invariant
            0 <= i <= n,
            n == s@.len(),
            dot matches Some(p) ==> 0 <= p < i && s@[p as int] == '.',
            dot is None ==> forall|j: int| 0 <= j < i ==> s@[j] != '.',
            forall|j: int|
                0 <= j < i ==> (is_dec_digit(#[trigger] s@[j]) || (dot matches Some(p) && p == j)),
        decreases n - i,
    {
        let c = s.get_char(i);
        let b = c as u32;
        if b == 46 {
            if dot.is_some() {
                proof {
                    let p0 = dot->0;
                    assert forall|p: int| !valid_dotted(s@, p) by {
                        if 0 <= p < s@.len() && s@[p] == '.' {
                            if p < i as int {
                                assert(p == p0);
                                assert(s@.subrange(p + 1, s@.len() as int)[i - p - 1]
                                    == s@[i as int]);
                                assert(!is_dec_digit('.'));
                            } else {
                                assert(s@.subrange(0, p)[p0 as int] == s@[p0 as int]);
                                assert(!is_dec_digit('.'));
                            }
                        }
                    }
                    assert(!all_digits(s@)) by {
                        assert(!is_dec_digit(s@[i as int]));
                    }
                }
                return Err(ConfigError::InvalidScaleFactor);
            }
            dot = Some(i);
        } else if 48 <= b && b <= 57 {
        } else {
            proof {
                assert(!is_dec_digit(s@[i as int]));
                assert(s@[i as int] != '.');
                assert forall|p: int| !valid_dotted(s@, p) by {
                    if 0 <= p < s@.len() && s@[p] == '.' {
                        if p < i as int {
                            assert(s@.subrange(p + 1, s@.len() as int)[i - p - 1] == s@[i as int]);
                        } else if p > i as int {
                            assert(s@.subrange(0, p)[i as int] == s@[i as int]);
                        }
                    }
                }
                assert(!all_digits(s@));
            }
            return Err(ConfigError::InvalidScaleFactor);
        }
        i = i + 1;
    }
    match dot {
        None => {
            if n == 0 || n > 9 {
                proof {
                    assert forall|p: int| !valid_dotted(s@, p) by {
                        if 0 <= p < s@.len() {
                            assert(is_dec_digit(s@[p]));
                        }
                    }
                }
                return Err(ConfigError::InvalidScaleFactor);
            }
            let v = digits_value(s, 0, n);
            proof {
                assert(s@.subrange(0, n as int) =~= s@);
            }
            if v == 0 {
                proof {
                    assert forall|p: int| !valid_dotted(s@, p) by {
                        if 0 <= p < s@.len() {
                            assert(is_dec_digit(s@[p]));
                        }
                    }
                }
                return Err(ConfigError::InvalidScaleFactor);
            }
            Ok(ScaleFactor { num: v, den: 1 })
        },
        Some(p) => {
            let frac_len = n - p - 1;
            if n < 2 || p > 9 || frac_len > 9 {
                proof {
                    lemma_unique_dot(s@, p as int);
                }
                return Err(ConfigError::InvalidScaleFactor);
            }
            proof {
                assert forall|j: int| 0 <= j < p implies is_dec_digit(#[trigger] s@[j]) by {
                    assert(s@[j] != '.' || j == p as int);
                }
                assert forall|j: int| p < j < n implies is_dec_digit(#[trigger] s@[j]) by {}
                assert(all_digits(s@.subrange(0, p as int))) by {
                    assert(forall|j: int|
                        0 <= j < p ==> s@.subrange(0, p as int)[j] == #[trigger] s@[j]);
                }
                assert(all_digits(s@.subrange(p as int + 1, n as int))) by {
                    assert(forall|j: int|
                        0 <= j < n - p - 1 ==> s@.subrange(p as int + 1, n as int)[j]
                            == #[trigger] s@[j + p + 1]);
                }
            }
            let iv = digits_value(s, 0, p);
            let fv = digits_value(s, p + 1, n);
            let den = pow10_exec(frac_len as u64);
            proof {
                lemma_pow10_bounds(frac_len as nat);
                lemma_pow10_bounds(p as nat);
                assert(iv < 1000000000);
                assert(iv * den <= 1000000000 * 1000000000) by (nonlinear_arith)
                    requires
                        iv <= 1000000000,
                        den <= 1000000000,
                        0 <= iv,
                        0 <= den,
                ;
            }
            let num = iv * den + fv;
            if num == 0 {
                proof {
                    assert(iv * den == 0 && fv == 0);
                    assert(iv == 0) by (nonlinear_arith)
                        requires
                            iv * den == 0,
                            den >= 1,
                            iv >= 0,
                    ;
                    lemma_unique_dot(s@, p as int);
                    assert forall|q: int| !valid_dotted(s@, q) by {
                        if valid_dotted(s@, q) {
                            assert(q == p as int);
                        }
                    }
                    assert(!all_digits(s@)) by {
                        assert(!is_dec_digit(s@[p as int]));
                    }
                }
                return Err(ConfigError::InvalidScaleFactor);
            }
            proof {
                assert(valid_dotted(s@, p as int)) by {
                    if iv == 0 && fv == 0 {
                        assert(iv * den == 0) by (nonlinear_arith)
                            requires
                                iv == 0,
                        ;
                        assert(false);
                    }
                }
            }
            Ok(ScaleFactor { num, den })
        },
    }
}

/// With one dot in sight, no other position can carry a valid dotted split.
proof fn lemma_unique_dot(s: Seq<char>, p: int)
    requires
        0 <= p < s.len(),
        s[p] == '.',
        forall|j: int| 0 <= j < s.len() ==> (is_dec_digit(#[trigger] s[j]) || j == p),
    ensures
        forall|q: int| q != p ==> !valid_dotted(s, q),
        !all_digits(s),
{
    assert(!is_dec_digit('.'));
    assert forall|q: int| q != p implies !valid_dotted(s, q) by {
        if 0 <= q < s.len() && s[q] == '.' {
            assert(is_dec_digit(s[q]) || q == p);
        }
    }
}

/// The logical window size, as the exact rationals `width_num / den` by
/// `height_num / den`.
#[derive(Clone, Copy, Debug, PartialEq, Eq)]
pub struct LogicalSize {
    pub width_num: u64,
    pub height_num: u64,
    pub den: u64,
}

/// A window's geometry: its physical pixel size and the logical size it
/// must report, which is the physical size divided by the scale factor.
#[derive(Clone, Copy, Debug, PartialEq, Eq)]
pub struct GeometrySpec {
    pub physical: Size<u32>,
    pub logical: LogicalSize,
}

impl GeometrySpec {
    /// `logical == physical / scale`, as an exact cross-multiplication.
    pub open spec fn matches_scale(self, scale: ScaleFactor) -> bool {
        &&& self.logical.width_num == self.physical.width as nat * scale.den
        &&& self.logical.height_num == self.physical.height as nat * scale.den
        &&& self.logical.den == scale.num
    }
}

/// Compute a window's geometry from its image's pixel dimensions and the
/// display scale factor: physical size is the pixel size, logical size is
/// the physical size divided by the scale factor, exactly.
pub fn compute_geometry(dims: Size<u32>, scale: ScaleFactor) -> (r: GeometrySpec)
    requires
        scale.wf(),
    ensures
        r.physical == dims,
        r.matches_scale(scale),
{
    proof {
        assert(dims.width as nat * scale.den <= 0xFFFFFFFF * 1000000000) by (nonlinear_arith)
            requires
                dims.width <= 0xFFFFFFFF,
                scale.den <= 1000000000,
                0 <= dims.width,
                0 <= scale.den,
        ;
        assert(dims.height as nat * scale.den <= 0xFFFFFFFF * 1000000000) by (nonlinear_arith)
            requires
                dims.height <= 0xFFFFFFFF,
                scale.den <= 1000000000,
                0 <= dims.height,
                0 <= scale.den,
        ;
    }
    GeometrySpec {
        physical: dims,
        logical: LogicalSize {
            width_num: (dims.width as u64) * scale.den,
            height_num: (dims.height as u64) * scale.den,
            den: scale.num,
        },
    }
}

/// Resolve the scale-factor source: an explicit override value takes
/// precedence where present and valid, a malformed override surfaces as an
/// error, and absence of an override defers to the windowing system
/// (`Ok(None)`).
pub fn resolve_scale_override(override_value: Option<&str>) -> (r: Result<
    Option<ScaleFactor>,
    ConfigError,
>)
    ensures
        override_value is None ==> r == Ok::<Option<ScaleFactor>, ConfigError>(None),
        override_value matches Some(s) ==> (r matches Ok(opt) ==> opt matches Some(sf)
            && is_scale_literal(s@) && scale_of(s@, sf) && sf.wf()),
        override_value matches Some(s) ==> (r is Err ==> r == Err::<
            Option<ScaleFactor>,
            ConfigError,
        >(ConfigError::InvalidScaleFactor) && !is_scale_literal(s@)),
{
    match override_value {
        None => Ok(None),
        Some(s) => match parse_scale_factor(s) {
            Ok(sf) => Ok(Some(sf)),
            Err(e) => Err(e),
        },
    }
}

} // verus!
