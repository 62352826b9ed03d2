//! A CPU cluster, driven through the highest frequency that its cpufreq
//! policy allows (`scaling_max_freq`), stepped along the table of the
//! frequencies it offers.
use vstd::prelude::*;

use crate::text::{
    chars_of, parse_i32, parse_i32_spec, pieces, spans_in, string_of, word_spans, words,
};

verus! {

broadcast use vstd::seq_lib::group_to_multiset_ensures;

/// Which neighbour in the frequency table to move to.
#[derive(PartialEq, Eq, Structural, Clone, Copy, Debug)]
pub enum NextOrLast {
    Next,
    Last,
}

/// The values are in ascending order.
pub open spec fn sorted(s: Seq<i32>) -> bool {
    forall|i: int, j: int| 0 <= i <= j < s.len() ==> s[i] <= s[j]
}

/// The values are in strictly ascending order.
pub open spec fn strictly_sorted(s: Seq<i32>) -> bool {
    forall|i: int, j: int| 0 <= i < j < s.len() ==> s[i] < s[j]
}

/// The frequencies listed in `scaling_available_frequencies`, if every word
/// is an `i32`.
pub open spec fn freqs_spec(text: Seq<char>) -> Option<Seq<i32>> {
    let ws = words(text);
    if forall|k: int| 0 <= k < ws.len() ==> (#[trigger] parse_i32_spec(ws[k])) is Some {
        Some(ws.map_values(|w: Seq<char>| parse_i32_spec(w)->0))
    } else {
        None
    }
}

/// The distance between two frequencies.
pub open spec fn dist(a: i32, x: i32) -> int {
    if a >= x {
        a - x
    } else {
        x - a
    }
}

/// `i` is the first index of `t` whose value is nearest to `x`.
pub open spec fn is_closest_index(t: Seq<i32>, x: i32, i: int) -> bool {
    &&& 0 <= i < t.len()
    &&& forall|j: int| 0 <= j < t.len() ==> dist(t[i], x) <= dist(#[trigger] t[j], x)
    &&& forall|j: int| 0 <= j < i ==> dist(#[trigger] t[j], x) > dist(t[i], x)
}

/// Every distance to `x` fits an `i32`, as the table search computes it.
pub open spec fn distances_fit(t: Seq<i32>, x: i32) -> bool {
    forall|j: int| 0 <= j < t.len() ==> i32::MIN < #[trigger] t[j] - x <= i32::MAX
}

/// What the table search may be asked for: a nonempty table whose distances
/// to `x` fit, unless `x` is in it.
pub open spec fn refine_ok(t: Seq<i32>, x: i32) -> bool {
    &&& t.len() > 0
    &&& !t.contains(x) ==> distances_fit(t, x)
}

/// The index that the table search returns for `x`, and the table after it:
/// the first index holding `x`, table unchanged; otherwise the first index
/// of a nearest value, which is replaced by `x`.
pub open spec fn refine_spec(t: Seq<i32>, x: i32, r: int, t2: Seq<i32>) -> bool {
    if t.contains(x) {
        &&& 0 <= r < t.len()
        &&& t[r] == x
        &&& forall|j: int| 0 <= j < r ==> t[j] != x
        &&& t2 == t
    } else {
        &&& is_closest_index(t, x, r)
        &&& t2 == t.update(r, x)
    }
}

/// The frequency read from `scaling_max_freq`, or the last of the table when
/// the text is not an `i32`.
pub open spec fn read_freq_spec(t: Seq<i32>, text: Seq<char>) -> i32 {
    match parse_i32_spec(text) {
        Some(x) => x,
        None => t.last(),
    }
}

/// The neighbour of index `cur` in `t`: the next one (the last one past the
/// end), or the previous one (the first one before the start).
pub open spec fn neighbour_spec(t: Seq<i32>, cur: int, option: NextOrLast) -> i32 {
    match option {
        NextOrLast::Next => if cur + 1 < t.len() {
            t[cur + 1]
        } else {
            t.last()
        },
        NextOrLast::Last => if cur >= 1 {
            t[cur - 1]
        } else {
            t[0]
        },
    }
}

/// A CPU cluster: its frequency table and its cpufreq policy directory.
pub struct Cpu {
    pub freq_table: Vec<i32>,
    pub path: String,
}

/// `v` with `x` inserted before its first value greater than `x`.
pub fn insert_sorted(v: &mut Vec<i32>, x: i32)
    requires
        sorted(old(v)@),
    ensures
        sorted(final(v)@),
        final(v)@.to_multiset() == old(v)@.to_multiset().insert(x),
{
    let mut pos: usize = 0;
    while pos < v.len() && v[pos] <= x
        invariant
            pos <= v.len(),
            forall|k: int| 0 <= k < pos ==> v@[k] <= x,
        decreases v.len() - pos,
    {
        pos = pos + 1;
    }
    let ghost before = v@;
    v.insert(pos, x);
    proof {
        assert(v@ == before.insert(pos as int, x));
        vstd::seq_lib::to_multiset_insert(before, pos as int, x);
        assert forall|i: int, j: int| 0 <= i <= j < v@.len() implies v@[i] <= v@[j] by {
            if j < pos {
            } else if i > pos {
            } else if i == pos && j == pos {
            } else if i == pos {
                assert(v@[j] == before[j - 1]);
                assert(before[pos as int] > x);
            } else if j == pos {
            } else {
                assert(v@[j] == before[j - 1]);
            }
        }
    }
}

/// The values of `v` in ascending order.
pub fn sort_freqs(v: &Vec<i32>) -> (r: Vec<i32>)
    ensures
        sorted(r@),
        r@.to_multiset() == v@.to_multiset(),
{
    let mut r: Vec<i32> = Vec::new();
    let mut k: usize = 0;
    while k < v.len()
        invariant
            k <= v.len(),
            sorted(r@),
            r@.to_multiset() == v@.take(k as int).to_multiset(),
        decreases v.len() - k,
    {
        insert_sorted(&mut r, v[k]);
        assert(v@.take(k + 1) =~= v@.take(k as int).push(v@[k as int]));
        k = k + 1;
    }
    assert(v@.take(k as int) =~= v@);
    r
}

impl Cpu {
    /// The cluster at `path` with the frequencies listed in the text of its
    /// `scaling_available_frequencies`, in ascending order; `None` when a
    /// word of it is not an `i32`.
    pub fn make(path: &str, table_text: &str) -> (r: Option<Cpu>)
        ensures
            r is Some <==> freqs_spec(table_text@) is Some,
            r matches Some(c) ==> {
                &&& c.path@ == path@
                &&& sorted(c.freq_table@)
                &&& c.freq_table@.to_multiset() == freqs_spec(table_text@)->0.to_multiset()
            },
    {
        let v = chars_of(table_text);
        let sp = word_spans(&v);
        let ghost ws = words(v@);
        let mut parsed: Vec<i32> = Vec::new();
        let mut k: usize = 0;
        while k < sp.len()
            invariant
                k <= sp.len(),
                spans_in(v@, sp@),
                pieces(v@, sp@) == ws,
                ws == words(table_text@),
                v@ == table_text@,
                parsed@.len() == k,
                forall|j: int| 0 <= j < k ==> (#[trigger] parse_i32_spec(ws[j])) == Some(parsed@[j]),
            decreases sp.len() - k,
        {
            let (a, b) = sp[k];
            assert(pieces(v@, sp@)[k as int] == v@.subrange(a as int, b as int));
            match parse_i32(&v, a, b) {
                Some(f) => {
                    parsed.push(f);
                },
                None => {
                    assert(parse_i32_spec(ws[k as int]) is None);
                    return None;
                },
            }
            k = k + 1;
        }
        assert(parsed@ =~= ws.map_values(|w: Seq<char>| parse_i32_spec(w)->0));
        let freq_table = sort_freqs(&parsed);
        let pv = chars_of(path);
        let path = string_of(&pv, 0, pv.len());
        Some(Cpu { freq_table, path })
    }

    /// Whether a cpufreq policy directory named `name` is the little
    /// cluster (`policy0`), which gets no controller.
    pub fn is_little_cluster(name: &str) -> (b: bool)
        ensures
            b == (name@ == "policy0"@),
    {
        let v = chars_of(name);
        let p = chars_of("policy0");
        crate::misc::chars_eq(&v, &p)
    }

    /// The cluster stays out of daily use.
    pub fn d_support(&self) -> (r: bool)
        ensures
            !r,
    {
        false
    }

    /// The index of `x` in the table; when `x` is not in it, the first index
    /// of the frequency nearest to `x`, which then takes the value `x`.
    pub fn find_or_refine(&mut self, x: i32) -> (r: usize)
        requires
            refine_ok(old(self).freq_table@, x),
        ensures
            refine_spec(old(self).freq_table@, x, r as int, final(self).freq_table@),
            final(self).path == old(self).path,
    {
        let n = self.freq_table.len();
        let mut i: usize = 0;
        while i < n
            invariant
                n == self.freq_table.len(),
                i <= n,
                forall|j: int| 0 <= j < i ==> self.freq_table@[j] != x,
            decreases n - i,
        {
            if self.freq_table[i] == x {
                return i;
            }
            i = i + 1;
        }
        assert(!self.freq_table@.contains(x));
        let mut best: usize = 0;
        let mut best_d: i64 = {
            let d = self.freq_table[0] as i64 - x as i64;
            if d < 0 {
                -d
            } else {
                d
            }
        };
        let mut j: usize = 1;
        while j < n
            invariant
                n == self.freq_table.len(),
                0 < n,
                best < j <= n,
                best_d == dist(self.freq_table@[best as int], x),
                forall|k: int| 0 <= k < j ==> best_d <= dist(#[trigger] self.freq_table@[k], x),
                forall|k: int| 0 <= k < best ==> dist(#[trigger] self.freq_table@[k], x) > best_d,
            decreases n - j,
        {
            let d = self.freq_table[j] as i64 - x as i64;
            let d = if d < 0 {
                -d
            } else {
                d
            };
            if d < best_d {
                best = j;
                best_d = d;
            }
            j = j + 1;
        }
        self.freq_table.set(best, x);
        best
    }

    /// The frequency to write for `option`: the frequency read from the text
    /// of `scaling_max_freq` is found in (or refined into) the table, and its
    /// neighbour is returned.
    pub fn get_freq(&mut self, option: NextOrLast, max_freq_text: &str) -> (r: i32)
        requires
            refine_ok(
                old(self).freq_table@,
                read_freq_spec(old(self).freq_table@, max_freq_text@),
            ),
        ensures
            exists|cur: int|
                refine_spec(
                    old(self).freq_table@,
                    read_freq_spec(old(self).freq_table@, max_freq_text@),
                    cur,
                    final(self).freq_table@,
                ) && r == neighbour_spec(final(self).freq_table@, cur, option),
            final(self).path == old(self).path,
    {
        let v = chars_of(max_freq_text);
        let x = match parse_i32(&v, 0, v.len()) {
            Some(x) => x,
            None => self.freq_table[self.freq_table.len() - 1],
        };
        assert(v@.subrange(0, v.len() as int) =~= v@);
        let ghost t0 = self.freq_table@;
        assert(x == read_freq_spec(t0, max_freq_text@));
        let cur = self.find_or_refine(x);
        let n = self.freq_table.len();
        let r = match option {
            NextOrLast::Next => {
                if cur + 1 < n {
                    self.freq_table[cur + 1]
                } else {
                    self.freq_table[n - 1]
                }
            },
            NextOrLast::Last => {
                if cur >= 1 {
                    self.freq_table[cur - 1]
                } else {
                    self.freq_table[0]
                }
            },
        };
        assert(refine_spec(t0, x, cur as int, self.freq_table@) && r == neighbour_spec(
            self.freq_table@,
            cur as int,
            option,
        ));
        r
    }

    /// Whether `get_freq` can step from the text of `scaling_max_freq`: the
    /// table is not empty, and the frequency read is in it or its distance to
    /// every frequency of the table fits an `i32`.
    pub fn step_ok(&self, max_freq_text: &str) -> (b: bool)
        ensures
            b == refine_ok(self.freq_table@, read_freq_spec(self.freq_table@, max_freq_text@)),
    {
        let n = self.freq_table.len();
        if n == 0 {
            return false;
        }
        let v = chars_of(max_freq_text);
        let x = match parse_i32(&v, 0, v.len()) {
            Some(x) => x,
            None => self.freq_table[n - 1],
        };
        assert(v@.subrange(0, v.len() as int) =~= v@);
        assert(x == read_freq_spec(self.freq_table@, max_freq_text@));
        let mut found = false;
        let mut fits = true;
        let mut i: usize = 0;
        while i < n
            invariant
                n == self.freq_table.len(),
                i <= n,
                found == exists|j: int| 0 <= j < i && self.freq_table@[j] == x,
                fits == forall|j: int|
                    0 <= j < i ==> i32::MIN < #[trigger] self.freq_table@[j] - x <= i32::MAX,
            decreases n - i,
        {
            let y = self.freq_table[i];
            if y == x {
                found = true;
            }
            let d = y as i64 - x as i64;
            if !((i32::MIN as i64) < d && d <= i32::MAX as i64) {
                fits = false;
            }
            i = i + 1;
        }
        assert(found == self.freq_table@.contains(x));
        found || fits
    }

    /// The frequency to write on a reset: the highest in the table.
    pub fn reset_freq(&self) -> (r: i32)
        requires
            self.freq_table.len() > 0,
        ensures
            r == self.freq_table@.last(),
    {
        self.freq_table[self.freq_table.len() - 1]
    }
}

/// Refining a strictly ascending table keeps it strictly ascending, and the
/// index returned then holds the frequency asked for.
pub proof fn law_refine_keeps_order(t: Seq<i32>, x: i32, r: int, t2: Seq<i32>)
    requires
        strictly_sorted(t),
        refine_spec(t, x, r, t2),
    ensures
        strictly_sorted(t2),
        t2.len() == t.len(),
        t2[r] == x,
{
    if !t.contains(x) {
        assert forall|i: int, j: int| 0 <= i < j < t2.len() implies t2[i] < t2[j] by {
            if i == r {
                assert(t[j] != x) by {
                    if t[j] == x {
                        assert(t.contains(x));
                    }
                }
                if t[j] < x {
                    assert(dist(t[j], x) < dist(t[r], x));
                }
            } else if j == r {
                assert(t[i] != x) by {
                    if t[i] == x {
                        assert(t.contains(x));
                    }
                }
                if t[i] > x {
                    assert(dist(t[i], x) < dist(t[r], x));
                }
            }
        }
    }
}

/// In a strictly ascending table, the next frequency is never below the one
/// read, and the previous one never above it.
pub proof fn law_neighbours_bracket(t: Seq<i32>, x: i32, cur: int, t2: Seq<i32>)
    requires
        strictly_sorted(t),
        refine_spec(t, x, cur, t2),
    ensures
        neighbour_spec(t2, cur, NextOrLast::Next) >= x,
        neighbour_spec(t2, cur, NextOrLast::Last) <= x,
{
    law_refine_keeps_order(t, x, cur, t2);
}

/// Stepping in a strictly ascending table: after refining it with the
/// frequency `x` read, the next frequency is the least frequency of the
/// table above `x` (no frequency of the table lies strictly between them),
/// or the top of the table when none is above `x`; the previous frequency is
/// the greatest frequency below `x`, or the bottom when none is below.
pub proof fn law_steps_are_adjacent(t: Seq<i32>, x: i32, cur: int, t2: Seq<i32>)
    requires
        strictly_sorted(t),
        refine_spec(t, x, cur, t2),
    ensures
        (exists|j: int| 0 <= j < t2.len() && t2[j] > x) ==> {
            let y = neighbour_spec(t2, cur, NextOrLast::Next);
            &&& y > x
            &&& t2.contains(y)
            &&& forall|j: int| 0 <= j < t2.len() ==> !(x < #[trigger] t2[j] < y)
        },
        !(exists|j: int| 0 <= j < t2.len() && t2[j] > x) ==> neighbour_spec(
            t2,
            cur,
            NextOrLast::Next,
        ) == t2.last(),
        (exists|j: int| 0 <= j < t2.len() && t2[j] < x) ==> {
            let y = neighbour_spec(t2, cur, NextOrLast::Last);
            &&& y < x
            &&& t2.contains(y)
            &&& forall|j: int| 0 <= j < t2.len() ==> !(y < #[trigger] t2[j] < x)
        },
        !(exists|j: int| 0 <= j < t2.len() && t2[j] < x) ==> neighbour_spec(
            t2,
            cur,
            NextOrLast::Last,
        ) == t2[0],
{
    law_refine_keeps_order(t, x, cur, t2);
    let n = t2.len();
    if cur + 1 < n {
        assert(t2[cur + 1] > x);
        assert(t2.contains(t2[cur + 1]));
    } else {
        assert forall|j: int| 0 <= j < n implies !(t2[j] > x) by {
            if j < cur {
            }
        }
    }
    if cur >= 1 {
        assert(t2[cur - 1] < x);
        assert(t2.contains(t2[cur - 1]));
    } else {
        assert forall|j: int| 0 <= j < n implies !(t2[j] < x) by {
            if j > cur {
            }
        }
    }
}

} // verus!
