//! The attribute value grammar.
//!
//! Attribute values are stored as raw text; a reader may ask for the value
//! decoded as a bracketed, comma-separated list of integers, written like
//! `[500, 92]`. The grammar is defined here over the UTF-8 bytes of the
//! text: optional whitespace, `[`, integers separated by commas, `]`,
//! optional whitespace. An integer is an optional minus sign and decimal
//! digits without a superfluous leading zero, and must fit in an `i32`.
//!
//! Decoding is total: text outside the grammar decodes to `None`; it never
//! fails in any other way.

use vstd::prelude::*;

verus! {

/// Whitespace accepted around tokens: space, tab, line feed, carriage return.
pub open spec fn is_ws(b: u8) -> bool {
    b == 32 || b == 9 || b == 10 || b == 13
}

/// A decimal digit.
pub open spec fn is_digit(b: u8) -> bool {
    48 <= b && b <= 57
}

/// The first index at or after `i` holding a byte that is not whitespace.
pub open spec fn skip_ws(s: Seq<u8>, i: int) -> int
    decreases s.len() - i,
{
    if 0 <= i && i < s.len() && is_ws(s[i]) {
        skip_ws(s, i + 1)
    } else {
        i
    }
}

/// The run of digits starting at `i`, folded onto the accumulator `acc`:
/// the value read so far and the index one past the last digit.
pub open spec fn take_digits(s: Seq<u8>, i: int, acc: int) -> (int, int)
    decreases s.len() - i,
{
    if 0 <= i && i < s.len() && is_digit(s[i]) {
        take_digits(s, i + 1, acc * 10 + (s[i] - 48))
    } else {
        (acc, i)
    }
}

/// The integer literal starting exactly at `i`: an optional minus sign and
/// at least one digit, with no superfluous leading zero. Yields the value
/// (unbounded here; the range check is made where a list is assembled) and
/// the index one past the literal.
pub open spec fn parse_int_at(s: Seq<u8>, i: int) -> Option<(int, int)> {
    let j = if 0 <= i && i < s.len() && s[i] == 45 {
        i + 1
    } else {
        i
    };
    if 0 <= j && j < s.len() && is_digit(s[j]) {
        let (mag, end) = take_digits(s, j, 0);
        if s[j] == 48 && end != j + 1 {
            None
        } else {
            Some(((if j != i { -mag } else { mag }), end))
        }
    } else {
        None
    }
}

/// Everything of a list after its opening bracket, starting at the first
/// item: an integer at `i`, then either the closing bracket and trailing
/// whitespace, or a comma and further items. Each integer must fit in an
/// `i32`; `acc` carries the items already read.
pub open spec fn parse_items(s: Seq<u8>, i: int, acc: Seq<int>) -> Option<Seq<int>>
    decreases s.len() - i,
    when 0 <= i && i <= s.len()
    via parse_items_decreases
{
    match parse_int_at(s, i) {
        None => None,
        Some((v, e)) => {
            if v < -0x8000_0000 || 0x7fff_ffff < v {
                None
            } else {
                let j = skip_ws(s, e);
                if j < s.len() && s[j] == 93 {
                    if skip_ws(s, j + 1) == s.len() {
                        Some(acc.push(v))
                    } else {
                        None
                    }
                } else if j < s.len() && s[j] == 44 {
                    parse_items(s, skip_ws(s, j + 1), acc.push(v))
                } else {
                    None
                }
            }
        },
    }
}

/// The whole grammar: whitespace, `[`, either nothing or items, `]`,
/// whitespace, with the entire text consumed. `None` for any text that
/// does not match.
pub open spec fn parse_int_list(s: Seq<u8>) -> Option<Seq<int>> {
    let i = skip_ws(s, 0);
    if i < s.len() && s[i] == 91 {
        let j = skip_ws(s, i + 1);
        if j < s.len() && s[j] == 93 {
            if skip_ws(s, j + 1) == s.len() {
                Some(Seq::empty())
            } else {
                None
            }
        } else {
            parse_items(s, j, Seq::empty())
        }
    } else {
        None
    }
}

/// A sequence of `i32` values read as mathematical integers.
pub open spec fn ints_of(v: Seq<i32>) -> Seq<int> {
    v.map_values(|x: i32| x as int)
}

/// `skip_ws` moves forward and never past the end.
proof fn lemma_skip_ws_bounds(s: Seq<u8>, i: int)
    requires
        0 <= i && i <= s.len(),
    ensures
        i <= skip_ws(s, i) && skip_ws(s, i) <= s.len(),
    decreases s.len() - i,
{
    if i < s.len() && is_ws(s[i]) {
        lemma_skip_ws_bounds(s, i + 1);
    }
}

/// `take_digits` moves forward and never past the end.
proof fn lemma_take_digits_bounds(s: Seq<u8>, i: int, acc: int)
    requires
        0 <= i && i <= s.len(),
    ensures
        i <= take_digits(s, i, acc).1 && take_digits(s, i, acc).1 <= s.len(),
    decreases s.len() - i,
{
    if i < s.len() && is_digit(s[i]) {
        lemma_take_digits_bounds(s, i + 1, acc * 10 + (s[i] - 48));
    }
}

/// A parsed integer occupies at least one byte and ends within the text.
proof fn lemma_parse_int_at_bounds(s: Seq<u8>, i: int)
    requires
        0 <= i && i <= s.len(),
        parse_int_at(s, i) is Some,
    ensures
        i < parse_int_at(s, i).unwrap().1 && parse_int_at(s, i).unwrap().1 <= s.len(),
{
    let j = if i < s.len() && s[i] == 45 {
        i + 1
    } else {
        i
    };
    assert(j < s.len() && is_digit(s[j]));
    assert(take_digits(s, j, 0) == take_digits(s, j + 1, (s[j] - 48) as int));
    lemma_take_digits_bounds(s, j + 1, (s[j] - 48) as int);
}

#[via_fn]
proof fn parse_items_decreases(s: Seq<u8>, i: int, acc: Seq<int>) {
    match parse_int_at(s, i) {
        None => {},
        Some((v, e)) => {
            lemma_parse_int_at_bounds(s, i);
            lemma_skip_ws_bounds(s, e);
            let j = skip_ws(s, e);
            if j < s.len() && s[j] == 44 {
                lemma_skip_ws_bounds(s, j + 1);
            }
        },
    }
}

fn is_ws_byte(b: u8) -> (r: bool)
    ensures
        r == is_ws(b),
{
    b == 32 || b == 9 || b == 10 || b == 13
}

fn is_digit_byte(b: u8) -> (r: bool)
    ensures
        r == is_digit(b),
{
    48 <= b && b <= 57
}

fn skip_ws_bytes(s: &[u8], i: usize) -> (j: usize)
    requires
        i <= s.len(),
    ensures
        j as int == skip_ws(s@, i as int),
        i <= j && j <= s.len(),
{
    let mut j: usize = i;
    while j < s.len() && is_ws_byte(s[j])
        invariant
            i <= j && j <= s.len(),
            skip_ws(s@, j as int) == skip_ws(s@, i as int),
        decreases s.len() - j,
    {
        j = j + 1;
    }
    j
}

/// Reads the digit run starting at `i`; the magnitude is exact up to
/// `0x8000_0000` and clamped to stay above it beyond that, which is all the
/// range check needs.
fn take_digit_bytes(s: &[u8], i: usize) -> (res: (u64, usize))
    requires
        i <= s.len(),
    ensures
        res.1 as int == take_digits(s@, i as int, 0).1,
        take_digits(s@, i as int, 0).0 <= 0x8000_0000 ==> res.0 == take_digits(
            s@,
            i as int,
            0,
        ).0,
        take_digits(s@, i as int, 0).0 > 0x8000_0000 ==> res.0 > 0x8000_0000,
        take_digits(s@, i as int, 0).0 >= 0,
{
    let ghost full = take_digits(s@, i as int, 0);
    let mut j: usize = i;
    let mut mag: u64 = 0;
    let ghost mut exact: int = 0int;
    proof {
        lemma_take_digits_nonneg(s@, i as int, 0);
    }
    while j < s.len() && is_digit_byte(s[j])
        invariant
            i <= j && j <= s.len(),
            take_digits(s@, j as int, exact) == take_digits(s@, i as int, 0),
            0 <= exact,
            exact <= 0x8000_0000 ==> mag == exact,
            exact > 0x8000_0000 ==> mag > 0x8000_0000,
            mag <= 0x5_0000_000a,
        decreases s.len() - j,
    {
        let d = s[j] - 48;
        if mag <= 0x8000_0000 {
            mag = mag * 10 + (d as u64);
        }
        proof {
            exact = exact * 10 + d;
        }
        j = j + 1;
    }
    (mag, j)
}

/// Nonnegative accumulators stay nonnegative through a digit run.
proof fn lemma_take_digits_nonneg(s: Seq<u8>, i: int, acc: int)
    requires
        0 <= acc,
    ensures
        take_digits(s, i, acc).0 >= acc,
    decreases s.len() - i,
{
    if 0 <= i && i < s.len() && is_digit(s[i]) {
        lemma_take_digits_nonneg(s, i + 1, acc * 10 + (s[i] - 48));
    }
}

/// Reads the integer literal at `i` and checks the `i32` range: the literal
/// as written, or `None` when the text there is not an in-range integer.
fn parse_int_bytes(s: &[u8], i: usize) -> (r: Option<(i32, usize)>)
    requires
        i <= s.len(),
    ensures
        parse_int_at(s@, i as int) is None ==> r is None,
        parse_int_at(s@, i as int) matches Some((v, e)) ==> {
            &&& (-0x8000_0000 <= v && v <= 0x7fff_ffff) ==> r == Some(
                (v as i32, e as usize),
            )
            &&& (v < -0x8000_0000 || 0x7fff_ffff < v) ==> r is None
            &&& i < e && e <= s.len()
        },
{
    let neg = i < s.len() && s[i] == 45;
    let j: usize = if neg {
        i + 1
    } else {
        i
    };
    if !(j < s.len() && is_digit_byte(s[j])) {
        return None;
    }
    let (mag, end) = take_digit_bytes(s, j);
    proof {
        if parse_int_at(s@, i as int) is Some {
            lemma_parse_int_at_bounds(s@, i as int);
        }
        lemma_take_digits_nonneg(s@, j as int, 0);
    }
    if s[j] == 48 && end != j + 1 {
        return None;
    }
    if neg {
        if mag > 0x8000_0000 {
            None
        } else {
            Some(((-(mag as i64)) as i32, end))
        }
    } else {
        if mag > 0x7fff_ffff {
            None
        } else {
            Some((mag as i32, end))
        }
    }
}

/// Decodes the UTF-8 bytes of an attribute value as a bracketed integer
/// list. Exactly the texts of the grammar decode to `Some`; on every
/// other text this function degrades to `None` rather than failing.
pub fn decode_int_list(s: &[u8]) -> (r: Option<Vec<i32>>)
    ensures
        r matches Some(v) ==> parse_int_list(s@) == Some(ints_of(v@)),
        r is None ==> parse_int_list(s@) is None,
{
    let i0 = skip_ws_bytes(s, 0);
    if !(i0 < s.len() && s[i0] == 91) {
        return None;
    }
    let j0 = skip_ws_bytes(s, i0 + 1);
    if j0 < s.len() && s[j0] == 93 {
        if skip_ws_bytes(s, j0 + 1) == s.len() {
            let empty: Vec<i32> = Vec::new();
            proof {
                assert(ints_of(empty@) =~= Seq::<int>::empty());
            }
            return Some(empty);
        } else {
            return None;
        }
    }
    let mut acc: Vec<i32> = Vec::new();
    let mut i: usize = j0;
    proof {
        assert(ints_of(acc@) =~= Seq::<int>::empty());
    }
    loop
        invariant
            i <= s.len(),
            parse_items(s@, i as int, ints_of(acc@)) == parse_int_list(s@),
        decreases s.len() - i,
    {
        match parse_int_bytes(s, i) {
            None => {
                return None;
            },
            Some((v, e)) => {
                let ghost prev = acc@;
                acc.push(v);
                proof {
                    assert(ints_of(acc@) =~= ints_of(prev).push(v as int));
                }
                let j = skip_ws_bytes(s, e);
                if j < s.len() && s[j] == 93 {
                    if skip_ws_bytes(s, j + 1) == s.len() {
                        return Some(acc);
                    } else {
                        return None;
                    }
                } else if j < s.len() && s[j] == 44 {
                    i = skip_ws_bytes(s, j + 1);
                } else {
                    return None;
                }
            },
        }
    }
}

} // verus!

