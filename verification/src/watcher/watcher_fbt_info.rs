//! Frame data from MediaTek's FPSGO (`/sys/kernel/fpsgo`).
use vstd::prelude::*;

use crate::misc::{cut_whitespace_chars, cut_whitespace_spec, nth_line, slice_vec};
use crate::text::{
    chars_of, contains, contains_exec, line_spans, lines, parse_unsigned, parse_unsigned_span,
    pieces, spans_in, trim, trim_span, word_spans, words,
};

verus! {

/// The frame time counter on `fbt_info`: word 6 of line 8; `Some(0)` when
/// the line or the word is missing, `None` when the word is not a `usize`.
pub open spec fn frametime_spec(info: Seq<char>) -> Option<usize> {
    let ls = lines(info);
    if 8 < ls.len() && 6 < words(ls[8]).len() {
        match parse_unsigned(words(ls[8])[6], usize::MAX as nat) {
            Some(n) => Some(n as usize),
            None => None,
        }
    } else {
        Some(0)
    }
}

/// The frame rate on one line of `fpsgo_status`, if the line is about the
/// app in front: word 2 names an app (a nonempty part of `top_app`) and word
/// 3 is its frame rate.
pub open spec fn fps_of_line(line: Seq<char>, top_app: Seq<char>) -> Option<u64> {
    let app = cut_whitespace_spec(line, 2);
    match parse_unsigned(trim(cut_whitespace_spec(line, 3)), u64::MAX as nat) {
        Some(f) => if contains(top_app, app) && app.len() > 0 {
            Some(f as u64)
        } else {
            None
        },
        None => None,
    }
}

/// The best frame rate of the app in front among `ls`, 0 when none.
pub open spec fn best_fps(ls: Seq<Seq<char>>, top_app: Seq<char>) -> u64
    decreases ls.len(),
{
    if ls.len() == 0 {
        0
    } else {
        let m = best_fps(ls.drop_last(), top_app);
        match fps_of_line(ls.last(), top_app) {
            Some(f) => if f > m {
                f
            } else {
                m
            },
            None => m,
        }
    }
}

/// The sum of the samples.
pub open spec fn sum(s: Seq<u64>) -> nat
    decreases s.len(),
{
    if s.len() == 0 {
        0
    } else {
        sum(s.drop_last()) + s.last() as nat
    }
}

/// The mean of the samples, rounded down; 0 when there are none.
pub open spec fn average_spec(s: Seq<u64>) -> u64 {
    if s.len() == 0 {
        0
    } else {
        (sum(s) / s.len()) as u64
    }
}

/// The frame rate found is the best rate of the lines about the app in
/// front: at least that of each such line, and 0 or that of one of them.
pub proof fn law_best_fps_is_best(ls: Seq<Seq<char>>, top_app: Seq<char>)
    ensures
        forall|k: int|
            0 <= k < ls.len() ==> (#[trigger] fps_of_line(ls[k], top_app) matches Some(f) ==> f
                <= best_fps(ls, top_app)),
        best_fps(ls, top_app) == 0 || exists|k: int|
            0 <= k < ls.len() && #[trigger] fps_of_line(ls[k], top_app) == Some(best_fps(ls, top_app)),
    decreases ls.len(),
{
    if ls.len() > 0 {
        let init = ls.drop_last();
        law_best_fps_is_best(init, top_app);
        assert forall|k: int| 0 <= k < ls.len() implies (#[trigger] fps_of_line(ls[k], top_app) matches Some(f)
            ==> f <= best_fps(ls, top_app)) by {
            if k < ls.len() - 1 {
                assert(ls[k] == init[k]);
                assert(fps_of_line(init[k], top_app) == fps_of_line(ls[k], top_app));
            }
        }
        let b = best_fps(ls, top_app);
        if b != 0 {
            if fps_of_line(ls.last(), top_app) == Some(b) {
                assert(fps_of_line(ls[ls.len() - 1], top_app) == Some(b));
            } else {
                let k = choose|k: int|
                    0 <= k < init.len() && #[trigger] fps_of_line(init[k], top_app) == Some(
                        best_fps(init, top_app),
                    );
                assert(ls[k] == init[k]);
                assert(fps_of_line(ls[k], top_app) == Some(b));
            }
        }
    }
}

/// A line whose word 2 is a nonempty part of the name of the app in front
/// (found in it at position `i`) and whose word 3 is the frame rate `f`
/// counts with `f`: the frame rate found is at least `f`.
pub proof fn law_lines_naming_part_of_top_app_count(
    ls: Seq<Seq<char>>,
    top_app: Seq<char>,
    k: int,
    i: int,
    f: u64,
)
    requires
        0 <= k < ls.len(),
        cut_whitespace_spec(ls[k], 2).len() > 0,
        0 <= i,
        i + cut_whitespace_spec(ls[k], 2).len() <= top_app.len(),
        top_app.subrange(i, i + cut_whitespace_spec(ls[k], 2).len()) == cut_whitespace_spec(ls[k], 2),
        parse_unsigned(trim(cut_whitespace_spec(ls[k], 3)), u64::MAX as nat) == Some(f as nat),
    ensures
        fps_of_line(ls[k], top_app) == Some(f),
        f <= best_fps(ls, top_app),
{
    let w2 = cut_whitespace_spec(ls[k], 2);
    assert(crate::text::occurs_at(top_app, w2, i));
    assert(contains(top_app, w2));
    law_best_fps_is_best(ls, top_app);
}

/// A line whose word 2 is empty or found nowhere in the name of the app in
/// front does not count.
pub proof fn law_other_lines_do_not_count(line: Seq<char>, top_app: Seq<char>)
    requires
        cut_whitespace_spec(line, 2).len() == 0 || forall|i: int|
            0 <= i && i + cut_whitespace_spec(line, 2).len() <= top_app.len() ==> #[trigger] top_app.subrange(
                i,
                i + cut_whitespace_spec(line, 2).len(),
            ) != cut_whitespace_spec(line, 2),
    ensures
        fps_of_line(line, top_app) is None,
{
    let w2 = cut_whitespace_spec(line, 2);
    if contains(top_app, w2) && w2.len() > 0 {
        let i = choose|i: int| crate::text::occurs_at(top_app, w2, i);
        assert(top_app.subrange(i, i + w2.len()) == w2);
    }
}

/// The frame data source of FPSGO.
pub struct FBTWatcher;

impl FBTWatcher {
    /// The frame time counter, from the contents of `fbt_info`.
    pub fn parse_ft(info: &str) -> (r: Option<usize>)
        ensures
            r == frametime_spec(info@),
    {
        let v = chars_of(info);
        match nth_line(&v, 8) {
            None => Some(0),
            Some(line) => {
                let sp = word_spans(&line);
                if 6 < sp.len() {
                    let (a, b) = sp[6];
                    assert(pieces(line@, sp@)[6] == line@.subrange(a as int, b as int));
                    match parse_unsigned_span(&line, a, b, usize::MAX as u64) {
                        Some(n) => Some(n as usize),
                        None => None,
                    }
                } else {
                    Some(0)
                }
            },
        }
    }

    /// The frame rate of the app in front, from the contents of
    /// `fpsgo_status`: the best rate of the lines about it, 0 when none.
    pub fn parse_fps(status: &str, top_app: &str) -> (r: u64)
        ensures
            r == best_fps(lines(status@), top_app@),
    {
        let v = chars_of(status);
        let top = chars_of(top_app);
        let sp = line_spans(&v);
        let ghost ls = lines(v@);
        let mut r: u64 = 0;
        let mut k: usize = 0;
        while k < sp.len()
            invariant
                k <= sp.len(),
                spans_in(v@, sp@),
                pieces(v@, sp@) == ls,
                ls == lines(v@),
                v@ == status@,
                top@ == top_app@,
                r == best_fps(ls.take(k as int), top@),
            decreases sp.len() - k,
        {
            let (a, b) = sp[k];
            assert(pieces(v@, sp@)[k as int] == v@.subrange(a as int, b as int));
            let line = slice_vec(&v, a, b);
            assert(ls.take(k + 1).drop_last() =~= ls.take(k as int));
            assert(ls.take(k + 1).last() == ls[k as int]);
            let app = cut_whitespace_chars(&line, 2);
            let fps = cut_whitespace_chars(&line, 3);
            let (x, y) = trim_span(&fps, 0, fps.len(), false);
            assert(fps@.subrange(0, fps.len() as int) =~= fps@);
            match parse_unsigned_span(&fps, x, y, u64::MAX) {
                Some(f) => {
                    if contains_exec(&top, &app) && app.len() > 0 {
                        if f > r {
                            r = f;
                        }
                    }
                },
                None => {},
            }
            k = k + 1;
        }
        assert(ls.take(k as int) =~= ls);
        r
    }

    /// The frame time between two readings of the frame time counter:
    /// `None` while the counter has not moved, the difference once it has.
    pub fn frame_time(prev: usize, cur: usize) -> (r: Option<usize>)
        requires
            prev <= cur,
        ensures
            r == (if cur == prev {
                None
            } else {
                Some((cur - prev) as usize)
            }),
    {
        if cur == prev {
            None
        } else {
            Some(cur - prev)
        }
    }

    /// The mean frame rate of the samples taken over a window, 0 when none
    /// was taken.
    pub fn average_fps(samples: &Vec<u64>) -> (r: u64)
        requires
            sum(samples@) <= u64::MAX,
        ensures
            r == average_spec(samples@),
    {
        let n = samples.len();
        if n == 0 {
            return 0;
        }
        let mut total: u64 = 0;
        let mut i: usize = 0;
        while i < n
            invariant
                n == samples.len(),
                i <= n,
                total == sum(samples@.take(i as int)),
                sum(samples@) <= u64::MAX,
            decreases n - i,
        {
            assert(samples@.take(i + 1).drop_last() =~= samples@.take(i as int));
            proof {
                lemma_sum_prefix(samples@, i + 1);
            }
            total = total + samples[i];
            i = i + 1;
        }
        assert(samples@.take(i as int) =~= samples@);
        total / (n as u64)
    }
}

pub proof fn lemma_sum_prefix(s: Seq<u64>, k: int)
    requires
        0 <= k <= s.len(),
    ensures
        sum(s.take(k)) <= sum(s),
    decreases s.len() - k,
{
    if k < s.len() {
        lemma_sum_prefix(s, k + 1);
        assert(s.take(k + 1).drop_last() =~= s.take(k));
    } else {
        assert(s.take(k) =~= s);
    }
}

} // verus!
