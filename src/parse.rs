use vstd::prelude::*;

use crate::format::{formatted, grouped_fixed, rendering_of, sign_text, stripped, ValueShape};
use crate::grouping::{grouped, grouped_from_front, MINUS, THIN_SPACE};
use crate::options::FloatFormatOptions;
use crate::text::{chars_of, string_of};

verus! {

/// The characters of Unicode's `White_Space` property.
pub open spec fn is_white_space(c: char) -> bool {
    ||| '\u{9}' <= c <= '\u{d}'
    ||| c == ' '
    ||| c == '\u{85}'
    ||| c == '\u{a0}'
    ||| c == '\u{1680}'
    ||| '\u{2000}' <= c <= '\u{200a}'
    ||| c == '\u{2028}'
    ||| c == '\u{2029}'
    ||| c == '\u{202f}'
    ||| c == '\u{205f}'
    ||| c == '\u{3000}'
}

/// Does `c` have Unicode's `White_Space` property?
pub fn white_space(c: char) -> (r: bool)
    ensures
        r == is_white_space(c),
{
    ('\u{9}' <= c && c <= '\u{d}') || c == ' ' || c == '\u{85}' || c == '\u{a0}' || c
        == '\u{1680}' || ('\u{2000}' <= c && c <= '\u{200a}') || c == '\u{2028}' || c
        == '\u{2029}' || c == '\u{202f}' || c == '\u{205f}' || c == '\u{3000}'
}

/// `c` with the minus character read as a hyphen.
pub open spec fn plain_minus(c: char) -> char {
    if c == MINUS {
        '-'
    } else {
        c
    }
}

/// `s` without its white space, and with each minus character replaced by a hyphen.
pub open spec fn normalized(s: Seq<char>) -> Seq<char>
    decreases s.len(),
{
    if s.len() == 0 {
        s
    } else if is_white_space(s.last()) {
        normalized(s.drop_last())
    } else {
        normalized(s.drop_last()).push(plain_minus(s.last()))
    }
}

/// Prepares a string holding a number for parsing: drops all white space (leading, trailing
/// and the thin spaces between groups of digits) and reads the minus character as a hyphen.
pub fn strip_whitespace_and_normalize(text: &str) -> (r: String)
    ensures
        r@ == normalized(text@),
{
    let chars = chars_of(text);
    let mut out: Vec<char> = Vec::new();
    let mut i: usize = 0;
    while i < chars.len()
        invariant
            i <= chars.len(),
            chars@ == text@,
            out@ == normalized(chars@.subrange(0, i as int)),
        decreases chars.len() - i,
    {
        let c = chars[i];
        proof {
            assert(chars@.subrange(0, i + 1).drop_last() =~= chars@.subrange(0, i as int));
        }
        if !white_space(c) {
            out.push(if c == MINUS { '-' } else { c });
        }
        i += 1;
    }
    proof {
        assert(chars@.subrange(0, chars.len() as int) =~= chars@);
    }
    string_of(&out)
}

/// Normalizing two strings one after the other is normalizing each of them.
pub proof fn lemma_normalized_concat(a: Seq<char>, b: Seq<char>)
    ensures
        normalized(a + b) == normalized(a) + normalized(b),
    decreases b.len(),
{
    if b.len() == 0 {
        assert(a + b =~= a);
        assert(normalized(a) + normalized(b) =~= normalized(a));
    } else {
        lemma_normalized_concat(a, b.drop_last());
        assert((a + b).drop_last() =~= a + b.drop_last());
        if !is_white_space(b.last()) {
            assert(normalized(a) + normalized(b) =~= (normalized(a) + normalized(b.drop_last())).push(
                plain_minus(b.last()),
            ));
        }
    }
}

/// Grouping digits adds nothing that parsing reads: the thin spaces are white space.
pub proof fn lemma_normalized_grouped(s: Seq<char>)
    ensures
        normalized(grouped(s)) == normalized(s),
    decreases s.len(),
{
    if s.len() > 3 {
        let head = s.subrange(0, s.len() - 3);
        let tail = s.subrange(s.len() - 3, s.len() as int);
        lemma_normalized_grouped(head);
        let spaced = grouped(head).push(THIN_SPACE);
        assert(spaced.drop_last() =~= grouped(head));
        assert(normalized(spaced) == normalized(grouped(head)));
        lemma_normalized_concat(spaced, tail);
        lemma_normalized_concat(head, tail);
        assert(head + tail =~= s);
    }
}

/// Normalizing a string backwards is normalizing it, backwards.
pub proof fn lemma_normalized_reverse(s: Seq<char>)
    ensures
        normalized(s.reverse()) == normalized(s).reverse(),
    decreases s.len(),
{
    if s.len() == 0 {
        assert(s.reverse() =~= s);
        assert(normalized(s).reverse() =~= normalized(s));
    } else {
        let rest = s.drop_last();
        let last = seq![s.last()];
        lemma_normalized_reverse(rest);
        assert(s.reverse() =~= last + rest.reverse());
        lemma_normalized_concat(last, rest.reverse());
        assert(last.drop_last() =~= Seq::<char>::empty());
        lemma_normalized_concat(rest, last);
        assert(rest + last =~= s);
        assert((normalized(rest) + normalized(last)).reverse() =~= normalized(last) + normalized(
            rest,
        ).reverse());
    }
}

/// Grouping a fractional part from the front adds nothing that parsing reads.
pub proof fn lemma_normalized_grouped_from_front(s: Seq<char>)
    ensures
        normalized(grouped_from_front(s)) == normalized(s),
{
    lemma_normalized_reverse(grouped(s.reverse()));
    lemma_normalized_grouped(s.reverse());
    lemma_normalized_reverse(s);
    assert(normalized(s).reverse().reverse() =~= normalized(s));
}

/// The separators of a fixed-point text are all white space.
pub proof fn lemma_normalized_grouped_fixed(s: Seq<char>, min_grouped: nat)
    ensures
        normalized(grouped_fixed(s, min_grouped)) == normalized(s),
{
    match s.index_of_first('.') {
        Some(dot) => {
            s.index_of_first_ensures('.');
            let whole = s.subrange(0, dot);
            let fraction = s.subrange(dot + 1, s.len() as int);
            let point = seq!['.'];
            lemma_normalized_grouped(whole);
            lemma_normalized_grouped_from_front(fraction);
            let tail = if fraction.len() < min_grouped {
                fraction
            } else {
                grouped_from_front(fraction)
            };
            assert(grouped(whole).push('.') =~= grouped(whole) + point);
            lemma_normalized_concat(grouped(whole) + point, tail);
            lemma_normalized_concat(grouped(whole), point);
            lemma_normalized_concat(whole + point, fraction);
            lemma_normalized_concat(whole, point);
            assert(whole + point + fraction =~= s);
        },
        None => {
            lemma_normalized_grouped(s);
        },
    }
}

/// The sign that parsing reads at the start of a formatted number.
pub open spec fn plain_sign(negative: bool, always_sign: bool) -> Seq<char> {
    if negative {
        seq!['-']
    } else if always_sign {
        seq!['+']
    } else {
        Seq::empty()
    }
}

/// Parsing reads a number in fixed-point notation as its sign and its digits: the minus
/// character is read as a hyphen, and the thin spaces between groups are dropped.
pub proof fn lemma_normalized_fixed_text(
    o: FloatFormatOptions,
    shape: ValueShape,
    digits: Seq<char>,
)
    requires
        rendering_of(o, shape.kind) is Fixed,
    ensures
        normalized(formatted(o, shape, digits)) == plain_sign(shape.negative, o.always_sign)
            + normalized(if o.strip_trailing_zeros { stripped(digits) } else { digits }),
{
    let body = if o.strip_trailing_zeros { stripped(digits) } else { digits };
    let sign = sign_text(shape.negative, o.always_sign);
    let m = o.min_decimals_for_thousands_separators as nat;
    lemma_normalized_concat(sign, grouped_fixed(body, m));
    lemma_normalized_grouped_fixed(body, m);
    if shape.negative || o.always_sign {
        assert(sign.drop_last() =~= Seq::<char>::empty());
        assert(normalized(sign.drop_last()) =~= Seq::<char>::empty());
        assert(sign.last() == MINUS || sign.last() == '+');
        assert(!is_white_space(sign.last()));
        assert(normalized(sign) =~= plain_sign(shape.negative, o.always_sign));
    }
}

} // verus!
