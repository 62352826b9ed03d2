//! The first FPSGO frame data source: frame times from `fbt_info`, frame
//! rates from SurfaceFlinger's frame counter (`service call SurfaceFlinger
//! 1013`).
use vstd::prelude::*;

use crate::misc::{cut_chars, cut_spec, nth_line};
use crate::text::{chars_of, drop_sign, lines, parse_unsigned, pieces, word_spans, words};

verus! {

/// The frame time counter on `fbt_info`, word 6 of line 8, when both exist
/// and it is a `usize`.
pub open spec fn frametime_strict_spec(info: Seq<char>) -> Option<usize> {
    let ls = lines(info);
    if 8 < ls.len() && 6 < words(ls[8]).len() {
        match parse_unsigned(words(ls[8])[6], usize::MAX as nat) {
            Some(n) => Some(n as usize),
            None => None,
        }
    } else {
        None
    }
}

pub open spec fn hex_digit_value(c: char) -> Option<nat> {
    let u = c as u32;
    if 48 <= u <= 57 {
        Some((u - 48) as nat)
    } else if 97 <= u <= 102 {
        Some((u - 87) as nat)
    } else if 65 <= u <= 70 {
        Some((u - 55) as nat)
    } else {
        None
    }
}

pub open spec fn all_hex(d: Seq<char>) -> bool {
    forall|i: int| 0 <= i < d.len() ==> (#[trigger] hex_digit_value(d[i])) is Some
}

/// The value of the hexadecimal numeral `d`.
pub open spec fn hex_value(d: Seq<char>) -> nat
    decreases d.len(),
{
    if d.len() == 0 {
        0
    } else {
        hex_value(d.drop_last()) * 16 + hex_digit_value(d.last())->0
    }
}

/// `u64::from_str_radix(s, 16)`: an optional `+`, then at least one
/// hexadecimal digit, with the value in range.
pub open spec fn parse_hex_spec(s: Seq<char>) -> Option<u64> {
    let d = drop_sign(s, '+');
    if d.len() > 0 && all_hex(d) && hex_value(d) <= u64::MAX {
        Some(hex_value(d) as u64)
    } else {
        None
    }
}

/// The frame counter in a reply of `service call SurfaceFlinger 1013`
/// (`Result: Parcel(0000abcd '....')`): the hexadecimal number after `(`
/// and before `'`.
pub open spec fn frame_counter_spec(reply: Seq<char>) -> Option<u64> {
    parse_hex_spec(cut_spec(cut_spec(reply, "("@, 1), "'"@, 0))
}

pub proof fn lemma_hex_prefix(d: Seq<char>, k: int)
    requires
        0 <= k <= d.len(),
    ensures
        hex_value(d.take(k)) <= hex_value(d),
    decreases d.len() - k,
{
    if k < d.len() {
        lemma_hex_prefix(d, k + 1);
        assert(d.take(k + 1).drop_last() =~= d.take(k));
    } else {
        assert(d.take(k) =~= d);
    }
}

/// `u64::from_str_radix(s, 16)` on a character vector.
pub fn parse_hex(v: &Vec<char>) -> (r: Option<u64>)
    ensures
        r == parse_hex_spec(v@),
{
    let start: usize = if v.len() > 0 && v[0] == '+' {
        1
    } else {
        0
    };
    let ghost d = v@.subrange(start as int, v.len() as int);
    assert(drop_sign(v@, '+') =~= d);
    if start == v.len() {
        return None;
    }
    let mut acc: u64 = 0;
    let mut i = start;
    while i < v.len()
        invariant
            start <= i <= v.len(),
            d == v@.subrange(start as int, v.len() as int),
            drop_sign(v@, '+') == d,
            d.len() > 0,
            all_hex(v@.subrange(start as int, i as int)),
            acc == hex_value(v@.subrange(start as int, i as int)),
        decreases v.len() - i,
    {
        let c = v[i];
        let u: u32 = c as u32;
        let dv: u64 = if 48 <= u && u <= 57 {
            (u - 48) as u64
        } else if 97 <= u && u <= 102 {
            (u - 87) as u64
        } else if 65 <= u && u <= 70 {
            (u - 55) as u64
        } else {
            assert(hex_digit_value(d[i - start]) is None);
            return None;
        };
        assert(v@.subrange(start as int, i + 1).drop_last() =~= v@.subrange(start as int, i as int));
        let next: u128 = acc as u128 * 16 + dv as u128;
        if next > u64::MAX as u128 {
            proof {
                assert(d.take(i + 1 - start) =~= v@.subrange(start as int, i + 1));
                if all_hex(d) {
                    lemma_hex_prefix(d, i + 1 - start);
                }
            }
            return None;
        }
        acc = next as u64;
        i = i + 1;
    }
    assert(v@.subrange(start as int, i as int) =~= d);
    Some(acc)
}

/// The first FPSGO frame data source.
pub struct FBTWatcher;

impl FBTWatcher {
    /// The frame time counter, from the contents of `fbt_info`; `None` where
    /// the line, the word or the number is missing.
    pub fn parse_ft(info: &str) -> (r: Option<usize>)
        ensures
            r == frametime_strict_spec(info@),
    {
        let v = chars_of(info);
        match nth_line(&v, 8) {
            None => None,
            Some(line) => {
                let sp = word_spans(&line);
                if 6 < sp.len() {
                    let (a, b) = sp[6];
                    assert(pieces(line@, sp@)[6] == line@.subrange(a as int, b as int));
                    match crate::text::parse_unsigned_span(&line, a, b, usize::MAX as u64) {
                        Some(n) => Some(n as usize),
                        None => None,
                    }
                } else {
                    None
                }
            },
        }
    }

    /// The frame counter in a reply of SurfaceFlinger's call 1013.
    pub fn parse_frame_counter(reply: &str) -> (r: Option<u64>)
        ensures
            r == frame_counter_spec(reply@),
    {
        let v = chars_of(reply);
        let open = chars_of("(");
        let quote = chars_of("'");
        let a = cut_chars(&v, &open, 1);
        let b = cut_chars(&a, &quote, 0);
        parse_hex(&b)
    }

    /// Frames per second from two readings of the frame counter taken
    /// `elapsed_ms` ms apart.
    pub fn fps_between(first: u64, second: u64, elapsed_ms: u64) -> (r: u64)
        requires
            first <= second,
            elapsed_ms > 0,
            (second - first) * 1000 <= u64::MAX,
        ensures
            r == (second - first) * 1000 / elapsed_ms as int,
    {
        (second - first) * 1000 / elapsed_ms
    }
}

} // verus!
