//! Reading unsigned decimal numbers and comma-separated lists of them from
//! command-line text, as `str::parse` and `str::trim` read them.

use vstd::prelude::*;

verus! {

/// An ASCII decimal digit.
pub open spec fn is_digit(c: char) -> bool {
    '0' <= c <= '9'
}

/// Every character is a decimal digit.
pub open spec fn all_digits(d: Seq<char>) -> bool {
    forall|i: int| 0 <= i < d.len() ==> is_digit(#[trigger] d[i])
}

/// The value of a string of decimal digits, most significant first.
pub open spec fn digits_value(d: Seq<char>) -> nat
    decreases d.len(),
{
    if d.len() == 0 {
        0
    } else {
        digits_value(d.drop_last()) * 10 + ((d.last() as int - '0' as int) as nat)
    }
}

/// The digits of an unsigned decimal: the text after an optional leading
/// `+`.
pub open spec fn unsigned_digits(s: Seq<char>) -> Seq<char> {
    if s.len() > 0 && s[0] == '+' {
        s.drop_first()
    } else {
        s
    }
}

/// `s` reads as an unsigned decimal no greater than `max`: an optional `+`
/// followed by at least one digit and nothing else.
pub open spec fn is_unsigned_decimal(s: Seq<char>, max: nat) -> bool {
    let d = unsigned_digits(s);
    d.len() > 0 && all_digits(d) && digits_value(d) <= max
}

/// The value of an unsigned decimal.
pub open spec fn unsigned_value(s: Seq<char>) -> nat {
    digits_value(unsigned_digits(s))
}

/// A white-space character (the Unicode `White_Space` property, which
/// `char::is_whitespace` tests).
pub open spec fn is_white_space(c: char) -> bool {
    ('\u{9}' <= c <= '\u{d}') || c == ' ' || c == '\u{85}' || c == '\u{a0}' || c == '\u{1680}'
        || ('\u{2000}' <= c <= '\u{200a}') || c == '\u{2028}' || c == '\u{2029}' || c
        == '\u{202f}' || c == '\u{205f}' || c == '\u{3000}'
}

/// `s` without its leading white space.
pub open spec fn trim_start(s: Seq<char>) -> Seq<char>
    decreases s.len(),
{
    if s.len() > 0 && is_white_space(s[0]) {
        trim_start(s.drop_first())
    } else {
        s
    }
}

/// `s` without its trailing white space.
pub open spec fn trim_end(s: Seq<char>) -> Seq<char>
    decreases s.len(),
{
    if s.len() > 0 && is_white_space(s.last()) {
        trim_end(s.drop_last())
    } else {
        s
    }
}

/// `s` without leading and trailing white space.
pub open spec fn trim(s: Seq<char>) -> Seq<char> {
    trim_end(trim_start(s))
}

/// The pieces of `s` between commas: one more piece than there are commas.
pub open spec fn split_commas(s: Seq<char>) -> Seq<Seq<char>>
    decreases s.len(),
{
    if s.len() == 0 {
        seq![Seq::empty()]
    } else {
        let p = split_commas(s.drop_last());
        if s.last() == ',' {
            p.push(Seq::empty())
        } else {
            p.update(p.len() - 1, p.last().push(s.last()))
        }
    }
}

/// Appending digits never lowers the value: a prefix of a digit string is
/// worth no more than the whole.
proof fn lemma_digits_prefix(d: Seq<char>, j: int)
    requires
        0 <= j <= d.len(),
    ensures
        digits_value(d.subrange(0, j)) <= digits_value(d),
    decreases d.len(),
{
    if j == d.len() {
        assert(d.subrange(0, j) =~= d);
    } else {
        lemma_digits_prefix(d.drop_last(), j);
        assert(d.drop_last().subrange(0, j) =~= d.subrange(0, j));
    }
}

/// The characters of a string, in order.
pub fn chars_of(s: &str) -> (v: Vec<char>)
    ensures
        v@ == s@,
{
    broadcast use vstd::string::axiom_spec_iter;

    let mut v: Vec<char> = Vec::new();
    for c in it: s.chars()
        invariant
            v@ == it.seq().take(it.index() as int),
    {
        v.push(c);
    }
    v
}

/// Read `cs[lo..hi]` as an unsigned decimal no greater than `max`.
fn parse_unsigned(cs: &[char], lo: usize, hi: usize, max: u64) -> (r: Option<u64>)
    requires
        lo <= hi <= cs.len(),
        max >= 9,
    ensures
        match r {
            Some(v) => is_unsigned_decimal(cs@.subrange(lo as int, hi as int), max as nat) && v
                == unsigned_value(cs@.subrange(lo as int, hi as int)),
            None => !is_unsigned_decimal(cs@.subrange(lo as int, hi as int), max as nat),
        },
{
    let ghost s = cs@.subrange(lo as int, hi as int);
    let start = if lo < hi && cs[lo] == '+' {
        lo + 1
    } else {
        lo
    };
    let ghost d = cs@.subrange(start as int, hi as int);
    assert(unsigned_digits(s) =~= d);
    if start == hi {
        return None;
    }
    let mut v: u64 = 0;
    let mut i: usize = start;
    while i < hi
        invariant
            lo <= start < hi <= cs.len(),
            start <= i <= hi,
            s == cs@.subrange(lo as int, hi as int),
            d == cs@.subrange(start as int, hi as int),
            unsigned_digits(s) == d,
            all_digits(cs@.subrange(start as int, i as int)),
            v == digits_value(cs@.subrange(start as int, i as int)),
            v <= max,
            max >= 9,
        decreases hi - i,
    {
        let c = cs[i];
        if !('0' <= c && c <= '9') {
            assert(d[i - start] == c);
            assert(!is_digit(d[i - start]));
            return None;
        }
        let digit = (c as u32 - '0' as u32) as u64;
        assert(cs@.subrange(start as int, i + 1).drop_last() =~= cs@.subrange(start as int, i as int));
        assert(digits_value(cs@.subrange(start as int, i + 1)) == v * 10 + digit);
        if v > (max - digit) / 10 {
            assert(v * 10 + digit > max) by (nonlinear_arith)
                requires
                    v > (max - digit) / 10,
                    digit <= 9,
                    digit <= max,
            ;
            proof {
                assert(cs@.subrange(start as int, i + 1) =~= d.subrange(0, i + 1 - start));
                if all_digits(d) {
                    lemma_digits_prefix(d, i + 1 - start);
                }
            }
            return None;
        }
        assert(v * 10 + digit <= max) by (nonlinear_arith)
            requires
                v <= (max - digit) / 10,
                digit <= max,
        ;
        v = v * 10 + digit;
        i += 1;
    }
    assert(cs@.subrange(start as int, i as int) =~= d);
    Some(v)
}

/// Read a string as an unsigned decimal that fits in `usize`, as
/// `str::parse::<usize>` does: `None` unless the text is an optional `+`
/// followed by one or more digits whose value fits.
pub fn parse_usize(s: &str) -> (r: Option<usize>)
    ensures
        match r {
            Some(v) => is_unsigned_decimal(s@, usize::MAX as nat) && v == unsigned_value(s@),
            None => !is_unsigned_decimal(s@, usize::MAX as nat),
        },
{
    let cs = chars_of(s);
    assert(cs@.subrange(0, cs.len() as int) =~= s@);
    match parse_unsigned(&cs, 0, cs.len(), usize::MAX as u64) {
        Some(v) => Some(v as usize),
        None => None,
    }
}

/// Read a string as an unsigned decimal that fits in `u64`, as
/// `str::parse::<u64>` does.
pub fn parse_u64(s: &str) -> (r: Option<u64>)
    ensures
        match r {
            Some(v) => is_unsigned_decimal(s@, u64::MAX as nat) && v == unsigned_value(s@),
            None => !is_unsigned_decimal(s@, u64::MAX as nat),
        },
{
    let cs = chars_of(s);
    assert(cs@.subrange(0, cs.len() as int) =~= s@);
    parse_unsigned(&cs, 0, cs.len(), u64::MAX)
}

/// The bounds of `cs[lo..hi]` with leading and trailing white space removed.
fn trim_bounds(cs: &[char], lo: usize, hi: usize) -> (r: (usize, usize))
    requires
        lo <= hi <= cs.len(),
    ensures
        lo <= r.0 <= r.1 <= hi,
        cs@.subrange(r.0 as int, r.1 as int) == trim(cs@.subrange(lo as int, hi as int)),
{
    let mut a = lo;
    while a < hi && is_white_space_char(cs[a])
        invariant
            lo <= a <= hi <= cs.len(),
            trim_start(cs@.subrange(lo as int, hi as int)) == trim_start(cs@.subrange(a as int, hi as int)),
        decreases hi - a,
    {
        assert(cs@.subrange(a as int, hi as int).drop_first() =~= cs@.subrange(a + 1, hi as int));
        a += 1;
    }
    let mut b = hi;
    while b > a && is_white_space_char(cs[b - 1])
        invariant
            lo <= a <= b <= hi <= cs.len(),
            trim_start(cs@.subrange(lo as int, hi as int)) == cs@.subrange(a as int, hi as int),
            trim_end(cs@.subrange(a as int, hi as int)) == trim_end(cs@.subrange(a as int, b as int)),
        decreases b - a,
    {
        assert(cs@.subrange(a as int, b as int).drop_last() =~= cs@.subrange(a as int, b - 1));
        b -= 1;
    }
    (a, b)
}

/// The bounds `(start, end)` in `cs` of each piece between commas.
fn comma_pieces(cs: &[char]) -> (r: Vec<(usize, usize)>)
    ensures
        r.len() == split_commas(cs@).len(),
        forall|k: int|
            0 <= k < r.len() ==> #[trigger] r@[k].0 <= r@[k].1 <= cs.len() && cs@.subrange(
                r@[k].0 as int,
                r@[k].1 as int,
            ) == split_commas(cs@)[k],
{
    let mut r: Vec<(usize, usize)> = Vec::new();
    let mut lo: usize = 0;
    let mut i: usize = 0;
    assert(cs@.subrange(0, 0) =~= Seq::<char>::empty());
    while i < cs.len()
        invariant
            lo <= i <= cs.len(),
            split_commas(cs@.subrange(0, i as int)).len() == r.len() + 1,
            forall|k: int|
                #![trigger r@[k]]
                0 <= k < r.len() ==> r@[k].0 <= r@[k].1 <= i && cs@.subrange(
                    r@[k].0 as int,
                    r@[k].1 as int,
                ) == split_commas(cs@.subrange(0, i as int))[k],
            split_commas(cs@.subrange(0, i as int)).last() == cs@.subrange(lo as int, i as int),
        decreases cs.len() - i,
    {
        let ghost p = split_commas(cs@.subrange(0, i as int));
        let ghost old_r = r@;
        let ghost old_lo = lo;
        assert(cs@.subrange(0, i + 1).drop_last() =~= cs@.subrange(0, i as int));
        assert(cs@.subrange(0, i + 1).last() == cs@[i as int]);
        if cs[i] == ',' {
            assert(split_commas(cs@.subrange(0, i + 1)) == p.push(Seq::empty()));
            r.push((lo, i));
            lo = i + 1;
            assert(cs@.subrange(lo as int, i + 1) =~= Seq::<char>::empty());
            assert forall|k: int| #![trigger r@[k]] 0 <= k < r.len() implies r@[k].0 <= r@[k].1 <= i + 1
                && cs@.subrange(r@[k].0 as int, r@[k].1 as int) == split_commas(
                cs@.subrange(0, i + 1),
            )[k] by {
                if k < old_r.len() {
                    assert(r@[k] == old_r[k]);
                } else {
                    assert(r@[k] == (old_lo, i));
                }
                assert(split_commas(cs@.subrange(0, i + 1))[k] == p[k]);
            }
        } else {
            assert(cs@.subrange(lo as int, i + 1) =~= cs@.subrange(lo as int, i as int).push(
                cs@[i as int],
            ));
            assert(split_commas(cs@.subrange(0, i + 1)) == p.update(
                p.len() - 1,
                p.last().push(cs@[i as int]),
            ));
            assert forall|k: int| #![trigger r@[k]] 0 <= k < r.len() implies r@[k].0 <= r@[k].1 <= i + 1
                && cs@.subrange(r@[k].0 as int, r@[k].1 as int) == split_commas(
                cs@.subrange(0, i + 1),
            )[k] by {
                assert(split_commas(cs@.subrange(0, i + 1))[k] == p[k]);
            }
        }
        i += 1;
    }
    assert(cs@.subrange(0, cs.len() as int) =~= cs@);
    r.push((lo, cs.len()));
    r
}

/// Read a comma-separated list of unsigned decimals, each piece trimmed of
/// white space, as `--ant` and `--prn` are read.  Every piece must read as
/// a `usize`; otherwise the result is the index of the first piece that
/// does not.
pub fn parse_index_list(s: &str) -> (r: Result<Vec<usize>, usize>)
    ensures
        match r {
            Ok(v) => v.len() == split_commas(s@).len() && forall|k: int|
                0 <= k < v.len() ==> is_unsigned_decimal(
                    trim(#[trigger] split_commas(s@)[k]),
                    usize::MAX as nat,
                ) && v@[k] == unsigned_value(trim(split_commas(s@)[k])),
            Err(k) => k < split_commas(s@).len() && !is_unsigned_decimal(
                trim(split_commas(s@)[k as int]),
                usize::MAX as nat,
            ) && forall|j: int|
                0 <= j < k ==> is_unsigned_decimal(
                    trim(#[trigger] split_commas(s@)[j]),
                    usize::MAX as nat,
                ),
        },
{
    let cs = chars_of(s);
    let pieces = comma_pieces(&cs);
    let mut v: Vec<usize> = Vec::with_capacity(pieces.len());
    let mut k: usize = 0;
    while k < pieces.len()
        invariant
            cs@ == s@,
            pieces.len() == split_commas(cs@).len(),
            forall|m: int|
                0 <= m < pieces.len() ==> #[trigger] pieces@[m].0 <= pieces@[m].1 <= cs.len()
                    && cs@.subrange(pieces@[m].0 as int, pieces@[m].1 as int) == split_commas(
                    cs@,
                )[m],
            k <= pieces.len(),
            v.len() == k,
            forall|m: int|
                0 <= m < k ==> is_unsigned_decimal(
                    trim(#[trigger] split_commas(s@)[m]),
                    usize::MAX as nat,
                ) && v@[m] == unsigned_value(trim(split_commas(s@)[m])),
        decreases pieces.len() - k,
    {
        let (a, b) = pieces[k];
        assert(pieces@[k as int].0 <= pieces@[k as int].1 <= cs.len());
        let (lo, hi) = trim_bounds(&cs, a, b);
        match parse_unsigned(&cs, lo, hi, usize::MAX as u64) {
            Some(x) => {
                v.push(x as usize);
            },
            None => {
                return Err(k);
            },
        }
        k += 1;
    }
    Ok(v)
}

/// Whether a character is white space.
fn is_white_space_char(c: char) -> (r: bool)
    ensures
        r == is_white_space(c),
{
    ('\u{9}' <= c && c <= '\u{d}') || c == ' ' || c == '\u{85}' || c == '\u{a0}' || c == '\u{1680}'
        || ('\u{2000}' <= c && c <= '\u{200a}') || c == '\u{2028}' || c == '\u{2029}' || c
        == '\u{202f}' || c == '\u{205f}' || c == '\u{3000}'
}

} // verus!
