use vstd::prelude::*;

use crate::grouping::{group_chars, group_chars_from_front, grouped, grouped_from_front, MINUS};
use crate::options::{lat_lon_options, FloatFormatOptions};
use crate::text::{chars_of, string_of};

verus! {

/// The infinity sign.
pub const INFINITY: char = '\u{221e}';

/// The degree sign that ends a latitude or a longitude.
pub const DEGREE: char = '\u{b0}';

/// Most decimals ever shown in fixed notation: a 64-bit float carries no information beyond.
pub const MAX_DECIMALS: usize = 16;

/// What the formatter needs to know of the size of a number.
#[derive(Clone, Copy, Debug, PartialEq, Eq)]
pub enum ValueKind {
    NotANumber,
    Infinite,
    /// A finite number whose absolute value `v` has `order` equal to the smallest
    /// integer that is at least `log10(v)`, or 0 when `v` is below 1 (zero included).
    Finite { order: u64 },
}

/// What the formatter needs to know of a number: its sign and its size.
///
/// `negative` holds for values below zero only: negative zero is shown without a sign.
#[derive(Clone, Copy, Debug, PartialEq, Eq)]
pub struct ValueShape {
    pub negative: bool,
    pub kind: ValueKind,
}

/// How the absolute value of a number is to be written out before it is composed.
#[derive(Clone, Copy, Debug, PartialEq, Eq)]
pub enum Rendering {
    /// Nothing to write: the text is `NaN`.
    NotANumber,
    /// Nothing to write: the text is the infinity sign.
    Infinity,
    /// Scientific notation: one leading digit, this many mantissa decimals, an exponent.
    Scientific { mantissa_decimals: usize },
    /// Fixed-point notation with exactly this many decimals.
    Fixed { decimals: usize },
}

/// The smaller of two integers.
pub open spec fn min_int(a: int, b: int) -> int {
    if a <= b { a } else { b }
}

/// The rendering that the options ask for, for a number of this shape.
pub open spec fn rendering_of(o: FloatFormatOptions, kind: ValueKind) -> Rendering {
    match kind {
        ValueKind::NotANumber => Rendering::NotANumber,
        ValueKind::Infinite => Rendering::Infinity,
        ValueKind::Finite { order } => {
            if order > o.precision {
                Rendering::Scientific {
                    mantissa_decimals: if o.precision == 0 { 0 } else { (o.precision - 1) as usize },
                }
            } else {
                let max_decimals = min_int(o.precision - order, MAX_DECIMALS as int);
                let decimals = match o.num_decimals {
                    Some(d) => min_int(d as int, max_decimals),
                    None => max_decimals,
                };
                Rendering::Fixed { decimals: decimals as usize }
            }
        },
    }
}

/// The sign that starts the text.
pub open spec fn sign_text(negative: bool, always_sign: bool) -> Seq<char> {
    if negative {
        seq![MINUS]
    } else if always_sign {
        seq!['+']
    } else {
        Seq::empty()
    }
}

/// `s` without its trailing zeros.
pub open spec fn without_trailing_zeros(s: Seq<char>) -> Seq<char>
    decreases s.len(),
{
    if s.len() > 0 && s.last() == '0' {
        without_trailing_zeros(s.drop_last())
    } else {
        s
    }
}

/// `s` without a trailing point.
pub open spec fn without_trailing_point(s: Seq<char>) -> Seq<char> {
    if s.len() > 0 && s.last() == '.' {
        s.drop_last()
    } else {
        s
    }
}

/// A fixed-point text stripped of the zeros that end its fractional part, and of a bare point.
pub open spec fn stripped(s: Seq<char>) -> Seq<char> {
    if s.contains('.') {
        without_trailing_point(without_trailing_zeros(s))
    } else {
        s
    }
}

/// A fixed-point text with its integer part grouped, and its fractional part grouped from the
/// front when it has at least `min_grouped` digits.
pub open spec fn grouped_fixed(s: Seq<char>, min_grouped: nat) -> Seq<char> {
    match s.index_of_first('.') {
        Some(dot) => {
            let fraction = s.subrange(dot + 1, s.len() as int);
            grouped(s.subrange(0, dot)).push('.') + if fraction.len() < min_grouped {
                fraction
            } else {
                grouped_from_front(fraction)
            }
        },
        None => grouped(s),
    }
}

/// The text for a number of this shape, where `digits` is its absolute value written out as
/// `rendering_of` asks.
pub open spec fn formatted(o: FloatFormatOptions, shape: ValueShape, digits: Seq<char>) -> Seq<
    char,
> {
    let sign = sign_text(shape.negative, o.always_sign);
    match rendering_of(o, shape.kind) {
        Rendering::NotANumber => seq!['N', 'a', 'N'],
        Rendering::Infinity => sign.push(INFINITY),
        Rendering::Scientific { .. } => sign + digits,
        Rendering::Fixed { .. } => sign + grouped_fixed(
            if o.strip_trailing_zeros { stripped(digits) } else { digits },
            o.min_decimals_for_thousands_separators as nat,
        ),
    }
}

fn find_point(s: &Vec<char>) -> (r: Option<usize>)
    ensures
        r matches Some(i) ==> i < s.len() && s@.index_of_first('.') == Some(i as int),
        r is None ==> s@.index_of_first('.') is None,
{
    let mut i: usize = 0;
    while i < s.len()
        invariant
            i <= s.len(),
            forall|j: int| 0 <= j < i ==> s@[j] != '.',
        decreases s.len() - i,
    {
        if s[i] == '.' {
            proof {
                s@.index_of_first_ensures('.');
            }
            return Some(i);
        }
        i += 1;
    }
    proof {
        s@.index_of_first_ensures('.');
    }
    None
}

fn slice_chars(s: &Vec<char>, from: usize, to: usize) -> (r: Vec<char>)
    requires
        from <= to <= s.len(),
    ensures
        r@ == s@.subrange(from as int, to as int),
{
    let mut r: Vec<char> = Vec::new();
    let mut i: usize = from;
    while i < to
        invariant
            from <= i <= to <= s.len(),
            r@ == s@.subrange(from as int, i as int),
        decreases to - i,
    {
        r.push(s[i]);
        proof {
            assert(r@ =~= s@.subrange(from as int, i + 1));
        }
        i += 1;
    }
    r
}

fn strip_chars(s: &Vec<char>) -> (r: Vec<char>)
    ensures
        r@ == stripped(s@),
{
    if find_point(s).is_none() {
        proof {
            s@.index_of_first_ensures('.');
        }
        return slice_chars(s, 0, s.len());
    }
    proof {
        s@.index_of_first_ensures('.');
        assert(s@.subrange(0, s.len() as int) =~= s@);
    }
    let mut n: usize = s.len();
    while n > 0 && s[n - 1] == '0'
        invariant
            n <= s.len(),
            without_trailing_zeros(s@) == without_trailing_zeros(s@.subrange(0, n as int)),
        decreases n,
    {
        proof {
            assert(s@.subrange(0, n as int).drop_last() =~= s@.subrange(0, n - 1));
        }
        n -= 1;
    }
    if n > 0 && s[n - 1] == '.' {
        proof {
            assert(s@.subrange(0, n as int).drop_last() =~= s@.subrange(0, n - 1));
        }
        n -= 1;
    }
    slice_chars(s, 0, n)
}

fn group_fixed_chars(s: &Vec<char>, min_grouped: usize) -> (r: Vec<char>)
    ensures
        r@ == grouped_fixed(s@, min_grouped as nat),
{
    match find_point(s) {
        Some(dot) => {
            proof {
                s@.index_of_first_ensures('.');
            }
            let whole = slice_chars(s, 0, dot);
            let fraction = slice_chars(s, dot + 1, s.len());
            let mut r = group_chars(&whole);
            r.push('.');
            let mut tail = if fraction.len() < min_grouped {
                fraction
            } else {
                group_chars_from_front(&fraction)
            };
            r.append(&mut tail);
            r
        },
        None => group_chars(s),
    }
}

impl FloatFormatOptions {
    /// How the absolute value of a number of this kind is to be written out: in fixed-point
    /// notation with as many decimals as the precision leaves after the integer digits (at most
    /// `MAX_DECIMALS`, and at most `num_decimals` where that is set), or in scientific notation
    /// where the integer digits alone exceed the precision.
    pub fn rendering(&self, kind: ValueKind) -> (r: Rendering)
        ensures
            r == rendering_of(*self, kind),
    {
        match kind {
            ValueKind::NotANumber => Rendering::NotANumber,
            ValueKind::Infinite => Rendering::Infinity,
            ValueKind::Finite { order } => {
                if order as u128 > self.precision as u128 {
                    Rendering::Scientific { mantissa_decimals: self.precision.saturating_sub(1) }
                } else {
                    let left = self.precision - order as usize;
                    let max_decimals = if left <= MAX_DECIMALS { left } else { MAX_DECIMALS };
                    let decimals = match self.num_decimals {
                        Some(d) => if d <= max_decimals { d } else { max_decimals },
                        None => max_decimals,
                    };
                    Rendering::Fixed { decimals }
                }
            },
        }
    }

    /// The text shown for a number of this shape, where `digits` is its absolute value
    /// written out as `rendering` asks: `NaN`; or the sign (the minus character for a
    /// negative number, `+` for another where `always_sign` is set) followed by the infinity
    /// sign, by the scientific notation as given, or by the fixed-point digits, stripped of
    /// trailing zeros if asked, with thin spaces between groups of three digits.
    ///
    /// The text is for human eyes: it is not what `str::parse` reads.
    pub fn compose(&self, shape: ValueShape, digits: &str) -> (r: String)
        ensures
            r@ == formatted(*self, shape, digits@),
            shape.kind is NotANumber ==> r@ == seq!['N', 'a', 'N'],
            shape.kind is Infinite ==> r@.len() > 0 && r@.last() == INFINITY && r@.drop_last()
                == sign_text(shape.negative, self.always_sign),
    {
        let mut out: Vec<char> = Vec::new();
        let rendering = self.rendering(shape.kind);
        if let Rendering::NotANumber = rendering {
            out.push('N');
            out.push('a');
            out.push('N');
            proof {
                assert(out@ =~= seq!['N', 'a', 'N']);
            }
            return string_of(&out);
        }
        if shape.negative {
            out.push(MINUS);
        } else if self.always_sign {
            out.push('+');
        }
        proof {
            assert(out@ =~= sign_text(shape.negative, self.always_sign));
        }
        let chars = chars_of(digits);
        match rendering {
            Rendering::Infinity => {
                out.push(INFINITY);
                proof {
                    assert(out@.drop_last() =~= sign_text(shape.negative, self.always_sign));
                }
            },
            Rendering::Scientific { .. } => {
                let mut body = chars;
                out.append(&mut body);
            },
            _ => {
                let body = if self.strip_trailing_zeros {
                    strip_chars(&chars)
                } else {
                    chars
                };
                let mut body = group_fixed_chars(&body, self.min_decimals_for_thousands_separators);
                out.append(&mut body);
            },
        }
        string_of(&out)
    }
}

/// The text shown for a latitude or a longitude of this shape, where `digits` is its absolute
/// value written out as the latitude and longitude options ask: the text of those options
/// followed by the degree sign.
pub fn compose_lat_lon(shape: ValueShape, digits: &str) -> (r: String)
    ensures
        r@ == formatted(lat_lon_options(), shape, digits@).push(DEGREE),
{
    let options = FloatFormatOptions::lat_lon();
    let text = options.compose(shape, digits);
    let mut out = chars_of(text.as_str());
    out.push(DEGREE);
    string_of(&out)
}

} // verus!
