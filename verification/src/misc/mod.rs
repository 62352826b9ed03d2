//! Text helpers for the outputs of `dumpsys`, `/proc` and `/sys` files, and
//! the rounding of frame rates.
use vstd::prelude::*;
use vstd::string::StrSliceExecFns;

use crate::text::{
    is_ws, law_trim_by_trims, strip_pred, chars_of, line_spans, lines, parse_unsigned, parse_unsigned_span, pieces, spans_in, split,
    split_spans, string_of, trim, trim_span, word_spans, words,
};

pub mod android_utils;

verus! {

/// The characters `v[lo..hi]` as a vector of their own.
pub fn slice_vec(v: &Vec<char>, lo: usize, hi: usize) -> (r: Vec<char>)
    requires
        lo <= hi <= v.len(),
    ensures
        r@ == v@.subrange(lo as int, hi as int),
{
    let mut r: Vec<char> = Vec::new();
    let mut i = lo;
    while i < hi
        invariant
            lo <= i <= hi <= v.len(),
            r@ == v@.subrange(lo as int, i as int),
        decreases hi - i,
    {
        r.push(v[i]);
        assert(v@.subrange(lo as int, i + 1) =~= v@.subrange(lo as int, i as int).push(v@[i as int]));
        i = i + 1;
    }
    r
}

/// Whether two character sequences are equal.
pub fn chars_eq(a: &Vec<char>, b: &Vec<char>) -> (r: bool)
    ensures
        r == (a@ == b@),
{
    if a.len() != b.len() {
        return false;
    }
    let mut i: usize = 0;
    while i < a.len()
        invariant
            a.len() == b.len(),
            i <= a.len(),
            forall|k: int| 0 <= k < i ==> a@[k] == b@[k],
        decreases a.len() - i,
    {
        if a[i] != b[i] {
            return false;
        }
        i = i + 1;
    }
    assert(a@ =~= b@);
    true
}

/// The `f`-th piece of `s` split at `sym`, trimmed; empty when there is no
/// such piece.
pub open spec fn cut_spec(s: Seq<char>, sym: Seq<char>, f: int) -> Seq<char> {
    if 0 <= f < split(s, sym).len() {
        trim(split(s, sym)[f])
    } else {
        Seq::empty()
    }
}

/// The `f`-th whitespace-separated word of `s`, trimmed; empty when there
/// is no such word.
pub open spec fn cut_whitespace_spec(s: Seq<char>, f: int) -> Seq<char> {
    if 0 <= f < words(s).len() {
        trim(words(s)[f])
    } else {
        Seq::empty()
    }
}

/// `cut` on character vectors.
pub fn cut_chars(v: &Vec<char>, sym: &Vec<char>, f: usize) -> (r: Vec<char>)
    ensures
        r@ == cut_spec(v@, sym@, f as int),
{
    let sp = split_spans(v, sym);
    if f < sp.len() {
        let (a, b) = sp[f];
        assert(pieces(v@, sp@)[f as int] == v@.subrange(a as int, b as int));
        let (x, y) = trim_span(v, a, b, false);
        slice_vec(v, x, y)
    } else {
        Vec::new()
    }
}

/// `cut_whitespace` on character vectors.
pub fn cut_whitespace_chars(v: &Vec<char>, f: usize) -> (r: Vec<char>)
    ensures
        r@ == cut_whitespace_spec(v@, f as int),
{
    let sp = word_spans(v);
    if f < sp.len() {
        let (a, b) = sp[f];
        assert(pieces(v@, sp@)[f as int] == v@.subrange(a as int, b as int));
        let (x, y) = trim_span(v, a, b, false);
        slice_vec(v, x, y)
    } else {
        Vec::new()
    }
}

/// Splits `str` at each `sym` and returns the `f`-th piece with surrounding
/// whitespace removed, or an empty string when there are fewer pieces.
pub fn cut(str: &str, sym: &str, f: usize) -> (r: String)
    ensures
        r@ == cut_spec(str@, sym@, f as int),
{
    let v = chars_of(str);
    let p = chars_of(sym);
    let r = cut_chars(&v, &p, f);
    string_of(&r, 0, r.len())
}

/// The `f`-th whitespace-separated word of `str`, or an empty string when
/// there are fewer words.
pub fn cut_whitespace(str: &str, f: usize) -> (r: String)
    ensures
        r@ == cut_whitespace_spec(str@, f as int),
{
    let v = chars_of(str);
    let r = cut_whitespace_chars(&v, f);
    string_of(&r, 0, r.len())
}

/// `s` without surrounding whitespace.
pub fn trimmed(s: &str) -> (r: String)
    ensures
        r@ == trim(s@),
{
    let v = chars_of(s);
    let (a, b) = trim_span(&v, 0, v.len(), false);
    assert(v@.subrange(0, v.len() as int) =~= v@);
    string_of(&v, a, b)
}

/// Line `h` of `v`, as a vector of its own.
pub fn nth_line(v: &Vec<char>, h: usize) -> (r: Option<Vec<char>>)
    ensures
        h < lines(v@).len() <==> r is Some,
        r matches Some(l) ==> l@ == lines(v@)[h as int],
{
    let sp = line_spans(v);
    if h < sp.len() {
        let (a, b) = sp[h];
        assert(pieces(v@, sp@)[h as int] == v@.subrange(a as int, b as int));
        Some(slice_vec(v, a, b))
    } else {
        None
    }
}

/// The last line of `v`, as a vector of its own.
pub fn last_line(v: &Vec<char>) -> (r: Option<Vec<char>>)
    ensures
        lines(v@).len() > 0 <==> r is Some,
        r matches Some(l) ==> l@ == lines(v@).last(),
{
    let sp = line_spans(v);
    if sp.len() > 0 {
        let k = sp.len() - 1;
        let (a, b) = sp[k];
        assert(pieces(v@, sp@)[k as int] == v@.subrange(a as int, b as int));
        Some(slice_vec(v, a, b))
    } else {
        None
    }
}

/// Line `h` of `s` (counting from 0), if it has that many lines.
pub fn look_for_head(s: &str, h: usize) -> (r: Option<&str>)
    ensures
        h < lines(s@).len() <==> r is Some,
        r matches Some(l) ==> l@ == lines(s@)[h as int],
{
    let v = chars_of(s);
    let sp = line_spans(&v);
    if h < sp.len() {
        let (a, b) = sp[h];
        assert(pieces(v@, sp@)[h as int] == v@.subrange(a as int, b as int));
        Some(s.substring_char(a, b))
    } else {
        None
    }
}

/// Line `t` of `s` counting from the last line backwards (the last line is
/// 0), if it has that many lines.
pub fn look_for_tail(s: &str, t: usize) -> (r: Option<&str>)
    ensures
        t < lines(s@).len() <==> r is Some,
        r matches Some(l) ==> l@ == lines(s@)[lines(s@).len() - 1 - t],
{
    let v = chars_of(s);
    let sp = line_spans(&v);
    if t < sp.len() {
        let k = sp.len() - 1 - t;
        let (a, b) = sp[k];
        assert(pieces(v@, sp@)[k as int] == v@.subrange(a as int, b as int));
        Some(s.substring_char(a, b))
    } else {
        None
    }
}

/// The multiple of `m` nearest to `x`; when `x` lies exactly half way, the
/// lower one.
pub open spec fn nearest_multiple(x: nat, m: nat) -> nat {
    let r = x % m;
    if r > m - r {
        (x - r + m) as nat
    } else {
        (x - r) as nat
    }
}

/// Rounds `input_num` to the nearest multiple of `multiple` (ties round
/// down).
pub fn next_multiple(input_num: u64, multiple: u64) -> (r: u64)
    requires
        multiple > 0,
        input_num - input_num % multiple + multiple <= u64::MAX,
    ensures
        r == nearest_multiple(input_num as nat, multiple as nat),
{
    let remainder = input_num % multiple;
    assert(remainder <= input_num && remainder < multiple) by (nonlinear_arith)
        requires
            multiple > 0,
            remainder == input_num % multiple,
    ;
    let low = input_num - remainder;
    let high = low + multiple;
    if input_num - low > high - input_num {
        high
    } else {
        low
    }
}

/// The app in front, from the output of `dumpsys activity activities`.
pub fn get_top_app(activities: &str) -> (r: String)
    ensures
        r@ == android_utils::top_app_spec(lines(activities@)),
{
    android_utils::get_top_app(activities)
}

/// Whether the app in front is a game, from the output of
/// `dumpsys SurfaceFlinger --list` and the app's name.
pub fn ask_is_game(surface_list: &str, top_app: &str) -> (r: bool)
    ensures
        r == android_utils::is_game_spec(surface_list@, top_app@),
{
    android_utils::ask_is_game(surface_list, top_app)
}

/// The display refresh rate, from the output of `dumpsys SurfaceFlinger`.
pub fn get_refresh_rate(dump: &str) -> (r: u64)
    ensures
        r == android_utils::refresh_rate_spec(dump@),
{
    android_utils::get_refresh_rate(dump)
}

/// The file that holds the locked copy of `value`.
pub open spec fn mount_mask_spec(value: Seq<char>) -> Seq<char> {
    "/cache/mount_mask_"@ + value
}

/// The path of the file that `lock_value` bind-mounts over its target.
pub fn mount_mask_path(value: &str) -> (r: String)
    ensures
        r@ == mount_mask_spec(value@),
{
    let prefix = chars_of("/cache/mount_mask_");
    let v = chars_of(value);
    let mut all = prefix;
    let mut i: usize = 0;
    while i < v.len()
        invariant
            i <= v.len(),
            all@ == "/cache/mount_mask_"@ + v@.take(i as int),
        decreases v.len() - i,
    {
        all.push(v[i]);
        assert(v@.take(i + 1) =~= v@.take(i as int).push(v@[i as int]));
        assert(all@ =~= "/cache/mount_mask_"@ + v@.take(i + 1));
        i = i + 1;
    }
    assert(v@.take(i as int) =~= v@);
    string_of(&all, 0, all.len())
}

/// What `cut` and `cut_whitespace` return neither start nor end with
/// whitespace.
pub proof fn law_cut_is_trimmed(s: Seq<char>, sym: Seq<char>, f: int)
    ensures
        cut_spec(s, sym, f).len() > 0 ==> !is_ws(cut_spec(s, sym, f)[0]) && !is_ws(
            cut_spec(s, sym, f).last(),
        ),
        cut_whitespace_spec(s, f).len() > 0 ==> !is_ws(cut_whitespace_spec(s, f)[0]) && !is_ws(
            cut_whitespace_spec(s, f).last(),
        ),
{
    if 0 <= f < split(s, sym).len() {
        law_trim_by_trims(split(s, sym)[f], strip_pred(false));
    }
    if 0 <= f < words(s).len() {
        law_trim_by_trims(words(s)[f], strip_pred(false));
    }
}

/// What `next_multiple` returns is a multiple of `m`.
pub proof fn law_next_multiple_is_multiple(x: nat, m: nat)
    requires
        m > 0,
    ensures
        nearest_multiple(x, m) % m == 0,
{
    let q = x / m;
    let r = x % m;
    assert(x == q * m + r && 0 <= r < m) by (nonlinear_arith)
        requires
            m > 0,
            q == x / m,
            r == x % m,
    ;
    assert((q * m) % m == 0 && (q * m + m) % m == 0) by (nonlinear_arith)
        requires
            m > 0,
    ;
    assert(q * m + m == (q + 1) * m) by (nonlinear_arith);
}

/// No multiple of `m` is nearer to `x` than what `next_multiple` returns.
pub proof fn law_next_multiple_is_nearest(x: nat, m: nat, k: nat)
    requires
        m > 0,
    ensures
        abs_diff(nearest_multiple(x, m), x) <= abs_diff(k * m, x),
{
    let q = x / m;
    let r = x % m;
    assert(x == q * m + r && 0 <= r < m) by (nonlinear_arith)
        requires
            m > 0,
            q == x / m,
            r == x % m,
    ;
    if k <= q {
        assert(k * m <= q * m) by (nonlinear_arith)
            requires
                k <= q,
        ;
    } else {
        assert(k * m >= q * m + m) by (nonlinear_arith)
            requires
                k >= q + 1,
        ;
    }
}

/// A multiple of `m` is left as it is.
pub proof fn law_next_multiple_keeps_multiples(x: nat, m: nat)
    requires
        m > 0,
        x % m == 0,
    ensures
        nearest_multiple(x, m) == x,
{
}

/// `|a - b|`.
pub open spec fn abs_diff(a: nat, b: nat) -> nat {
    if a >= b {
        (a - b) as nat
    } else {
        (b - a) as nat
    }
}

/// The CPU numbers listed in a `related_cpus` file; a word that is not a
/// number counts as CPU 0.
pub open spec fn cpu_list_spec(s: Seq<char>) -> Seq<usize> {
    words(s).map_values(
        |w: Seq<char>|
            match parse_unsigned(trim(w), usize::MAX as nat) {
                Some(n) => n as usize,
                None => 0usize,
            },
    )
}

/// Parses the contents of a `related_cpus` file into CPU numbers.
pub fn parse_cpu_list(s: &str) -> (r: Vec<usize>)
    ensures
        r@ == cpu_list_spec(s@),
{
    let v = chars_of(s);
    let sp = word_spans(&v);
    let mut r: Vec<usize> = Vec::new();
    let mut k: usize = 0;
    while k < sp.len()
        invariant
            k <= sp.len(),
            spans_in(v@, sp@),
            pieces(v@, sp@) == words(v@),
            v@ == s@,
            r@ == cpu_list_spec(v@).take(k as int),
        decreases sp.len() - k,
    {
        let (a, b) = sp[k];
        assert(pieces(v@, sp@)[k as int] == v@.subrange(a as int, b as int));
        let (x, y) = trim_span(&v, a, b, false);
        let n = match parse_unsigned_span(&v, x, y, usize::MAX as u64) {
            Some(n) => n as usize,
            None => 0usize,
        };
        r.push(n);
        assert(cpu_list_spec(v@).take(k + 1) =~= cpu_list_spec(v@).take(k as int).push(n));
        k = k + 1;
    }
    assert(cpu_list_spec(v@).take(k as int) =~= cpu_list_spec(v@));
    r
}

} // verus!
