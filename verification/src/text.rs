//! A model of the handful of `str` operations that the framework's parsers
//! are written with (`split`, `lines`, `split_whitespace`, `trim`,
//! `contains`, `parse`), stated over `Seq<char>` and implemented on
//! character vectors.
use vstd::prelude::*;

verus! {

// ---------------------------------------------------------------------------
// Characters
// ---------------------------------------------------------------------------

/// Unicode `White_Space`, the set that `char::is_whitespace` tests.
pub open spec fn is_ws(c: char) -> bool {
    ||| c == '\t'
    ||| c == '\n'
    ||| c == '\x0B'
    ||| c == '\x0C'
    ||| c == '\r'
    ||| c == ' '
    ||| c == '\u{85}'
    ||| c == '\u{A0}'
    ||| c == '\u{1680}'
    ||| ('\u{2000}' as u32 <= c as u32 && c as u32 <= '\u{200A}' as u32)
    ||| c == '\u{2028}'
    ||| c == '\u{2029}'
    ||| c == '\u{202F}'
    ||| c == '\u{205F}'
    ||| c == '\u{3000}'
}

pub fn is_whitespace(c: char) -> (b: bool)
    ensures
        b == is_ws(c),
{
    let u: u32 = c as u32;
    c == '\t' || c == '\n' || c == '\x0B' || c == '\x0C' || c == '\r' || c == ' ' || c == '\u{85}'
        || c == '\u{A0}' || c == '\u{1680}' || (0x2000u32 <= u && u <= 0x200Au32) || c
        == '\u{2028}' || c == '\u{2029}' || c == '\u{202F}' || c == '\u{205F}' || c == '\u{3000}'
}

/// The characters of `s`, in order.
pub fn chars_of(s: &str) -> (v: Vec<char>)
    ensures
        v@ == s@,
{
    let mut v: Vec<char> = Vec::new();
    for c in it: s.chars()
        invariant
            v@ == it.seq().take(it.index() as int),
    {
        v.push(c);
    }
    v
}

/// Calls `String::push`. Its contract claims what std documents of it: the
/// string afterwards is the string before with `c` appended.
#[verifier::external_body]
fn push_char(s: &mut String, c: char)
    ensures
        final(s)@ == old(s)@.push(c),
{
    s.push(c);
}

/// The string made of the characters `v[lo..hi]`.
pub fn string_of(v: &Vec<char>, lo: usize, hi: usize) -> (s: String)
    requires
        lo <= hi <= v.len(),
    ensures
        s@ == v@.subrange(lo as int, hi as int),
{
    let mut s = String::new();
    let mut i = lo;
    while i < hi
        invariant
            lo <= i <= hi <= v.len(),
            s@ == v@.subrange(lo as int, i as int),
        decreases hi - i,
    {
        push_char(&mut s, v[i]);
        assert(v@.subrange(lo as int, i + 1) == v@.subrange(lo as int, i as int).push(v@[i as int]));
        i = i + 1;
    }
    s
}

// ---------------------------------------------------------------------------
// Occurrences of a pattern
// ---------------------------------------------------------------------------

/// `p` occurs in `s` at position `i`.
pub open spec fn occurs_at(s: Seq<char>, p: Seq<char>, i: int) -> bool {
    0 <= i && i + p.len() <= s.len() && s.subrange(i, i + p.len()) == p
}

/// `p` occurs somewhere in `s` (`str::contains`).
pub open spec fn contains(s: Seq<char>, p: Seq<char>) -> bool {
    exists|i: int| occurs_at(s, p, i)
}

/// The first position at or after `i` at which `p` occurs in `s`.
pub open spec fn find_from(s: Seq<char>, p: Seq<char>, i: int) -> Option<int>
    decreases s.len() + 1 - i,
{
    if i < 0 || i + p.len() > s.len() {
        None
    } else if occurs_at(s, p, i) {
        Some(i)
    } else {
        find_from(s, p, i + 1)
    }
}

pub proof fn lemma_find_from(s: Seq<char>, p: Seq<char>, i: int)
    requires
        0 <= i,
    ensures
        find_from(s, p, i) matches Some(j) ==> i <= j && j + p.len() <= s.len() && occurs_at(
            s,
            p,
            j,
        ) && (forall|k: int| i <= k < j ==> !occurs_at(s, p, k)),
        find_from(s, p, i) is None ==> forall|k: int| i <= k ==> !occurs_at(s, p, k),
    decreases s.len() + 1 - i,
{
    if i + p.len() > s.len() {
    } else if occurs_at(s, p, i) {
    } else {
        lemma_find_from(s, p, i + 1);
    }
}

/// Whether `p` occurs in `v` at position `i`.
pub fn occurs_at_exec(v: &Vec<char>, p: &Vec<char>, i: usize) -> (b: bool)
    ensures
        b == occurs_at(v@, p@, i as int),
{
    if i > v.len() || p.len() > v.len() - i {
        return false;
    }
    let mut k: usize = 0;
    while k < p.len()
        invariant
            i + p.len() <= v.len(),
            k <= p.len(),
            forall|m: int| 0 <= m < k ==> v@[i + m] == p@[m],
        decreases p.len() - k,
    {
        if v[i + k] != p[k] {
            assert(v@.subrange(i as int, i + p.len())[k as int] != p@[k as int]);
            return false;
        }
        k = k + 1;
    }
    assert(v@.subrange(i as int, i + p.len()) =~= p@);
    true
}

/// Whether `p` occurs anywhere in `v` (`str::contains`).
pub fn contains_exec(v: &Vec<char>, p: &Vec<char>) -> (b: bool)
    ensures
        b == contains(v@, p@),
{
    let mut i: usize = 0;
    loop
        invariant
            i <= v.len(),
            forall|k: int| 0 <= k < i ==> !occurs_at(v@, p@, k),
        ensures
            i == v.len(),
            forall|k: int| 0 <= k <= i ==> !occurs_at(v@, p@, k),
        decreases v.len() - i,
    {
        if occurs_at_exec(v, p, i) {
            return true;
        }
        if i == v.len() {
            break;
        }
        i = i + 1;
    }
    assert forall|k: int| !occurs_at(v@, p@, k) by {
        if 0 <= k && k <= i {
        }
    }
    false
}

// ---------------------------------------------------------------------------
// Splitting at a pattern
// ---------------------------------------------------------------------------

/// The pieces of `s[start..]` between the leftmost non-overlapping occurrences
/// of the nonempty pattern `p`.
pub open spec fn split_from(s: Seq<char>, p: Seq<char>, start: int) -> Seq<Seq<char>>
    decreases s.len() - start,
{
    if start < 0 || start > s.len() || p.len() == 0 {
        seq![]
    } else {
        match find_from(s, p, start) {
            None => seq![s.subrange(start, s.len() as int)],
            Some(i) => {
                proof {
                    lemma_find_from(s, p, start);
                }
                seq![s.subrange(start, i)] + split_from(s, p, i + p.len())
            },
        }
    }
}

/// `str::split` with a string pattern: for a nonempty pattern the pieces
/// between its leftmost non-overlapping occurrences; for the empty pattern
/// an empty piece, each character on its own, and an empty piece.
pub open spec fn split(s: Seq<char>, p: Seq<char>) -> Seq<Seq<char>> {
    if p.len() == 0 {
        Seq::new(
            (s.len() + 2) as nat,
            |k: int|
                if k == 0 || k == s.len() + 1 {
                    Seq::<char>::empty()
                } else {
                    seq![s[k - 1]]
                },
        )
    } else {
        split_from(s, p, 0)
    }
}

/// The pieces of `s` that the spans `sp` delimit.
pub open spec fn pieces(s: Seq<char>, sp: Seq<(usize, usize)>) -> Seq<Seq<char>> {
    sp.map_values(|ab: (usize, usize)| s.subrange(ab.0 as int, ab.1 as int))
}

/// Every span lies within `s` and is well ordered.
pub open spec fn spans_in(s: Seq<char>, sp: Seq<(usize, usize)>) -> bool {
    forall|k: int| 0 <= k < sp.len() ==> #[trigger] sp[k].0 <= sp[k].1 && sp[k].1 <= s.len()
}

/// The spans of the pieces of `str::split(v, p)`.
pub fn split_spans(v: &Vec<char>, p: &Vec<char>) -> (sp: Vec<(usize, usize)>)
    ensures
        spans_in(v@, sp@),
        pieces(v@, sp@) == split(v@, p@),
{
    let n = v.len();
    let mut sp: Vec<(usize, usize)> = Vec::new();
    if p.len() == 0 {
        sp.push((0, 0));
        let mut k: usize = 0;
        while k < n
            invariant
                n == v.len(),
                k <= n,
                sp@.len() == k + 1,
                sp@[0] == (0usize, 0usize),
                forall|m: int| 1 <= m < sp@.len() ==> #[trigger] sp@[m] == ((m - 1) as usize, m as usize),
            decreases n - k,
        {
            sp.push((k, k + 1));
            k = k + 1;
        }
        sp.push((n, n));
        proof {
            let s = v@;
            assert forall|m: int| 0 <= m < sp@.len() implies #[trigger] pieces(s, sp@)[m] == split(s, p@)[m] by {
                if m == 0 || m == n + 1 {
                    assert(s.subrange(sp@[m].0 as int, sp@[m].1 as int) =~= Seq::<char>::empty());
                } else {
                    assert(s.subrange(m - 1, m) =~= seq![s[m - 1]]);
                }
            }
            assert(pieces(s, sp@) =~= split(s, p@));
        }
        return sp;
    }
    let mut start: usize = 0;
    let mut i: usize = 0;
    while i < n
        invariant
            n == v.len(),
            p.len() > 0,
            start <= i <= n,
            find_from(v@, p@, start as int) == find_from(v@, p@, i as int),
            spans_in(v@, sp@),
            pieces(v@, sp@) + split_from(v@, p@, start as int) == split(v@, p@),
        decreases n - i,
    {
        if occurs_at_exec(v, p, i) {
            proof {
                assert(find_from(v@, p@, i as int) == Some(i as int));
                let next = i + p.len();
                assert(split_from(v@, p@, start as int) == seq![v@.subrange(start as int, i as int)]
                    + split_from(v@, p@, next as int));
            }
            let ghost old_sp = sp@;
            sp.push((start, i));
            proof {
                let next = i + p.len();
                assert(pieces(v@, sp@) =~= pieces(v@, old_sp).push(
                    v@.subrange(start as int, i as int),
                ));
                assert(pieces(v@, sp@) + split_from(v@, p@, next as int) =~= pieces(v@, old_sp)
                    + split_from(v@, p@, start as int));
            }
            start = i + p.len();
            i = start;
        } else {
            proof {
                if i + p.len() > n {
                    assert(find_from(v@, p@, i as int) is None);
                    lemma_find_from(v@, p@, (i + 1) as int);
                    assert(find_from(v@, p@, (i + 1) as int) is None);
                }
            }
            i = i + 1;
        }
    }
    let ghost old_sp = sp@;
    sp.push((start, n));
    proof {
        assert(find_from(v@, p@, n as int) is None);
        assert(split_from(v@, p@, start as int) == seq![v@.subrange(start as int, n as int)]);
        assert(pieces(v@, sp@) =~= pieces(v@, old_sp).push(v@.subrange(start as int, n as int)));
        assert(pieces(v@, sp@) =~= pieces(v@, old_sp) + split_from(v@, p@, start as int));
    }
    sp
}


/// The pieces `ps` with `sep` between each two.
pub open spec fn join(ps: Seq<Seq<char>>, sep: Seq<char>) -> Seq<char>
    decreases ps.len(),
{
    if ps.len() == 0 {
        Seq::empty()
    } else if ps.len() == 1 {
        ps[0]
    } else {
        ps[0] + sep + join(ps.drop_first(), sep)
    }
}

proof fn lemma_join_split_from(s: Seq<char>, p: Seq<char>, start: int)
    requires
        p.len() > 0,
        0 <= start <= s.len(),
    ensures
        join(split_from(s, p, start), p) == s.subrange(start, s.len() as int),
    decreases s.len() - start,
{
    lemma_find_from(s, p, start);
    match find_from(s, p, start) {
        None => {},
        Some(i) => {
            let next = i + p.len();
            lemma_join_split_from(s, p, next);
            lemma_split_nonempty(s, p, next);
            let ps = split_from(s, p, start);
            let rest = split_from(s, p, next);
            assert(ps == seq![s.subrange(start, i)] + rest);
            assert(ps.drop_first() =~= rest);
            assert(ps[0] == s.subrange(start, i));
            assert(s.subrange(start, s.len() as int) =~= s.subrange(start, i) + s.subrange(i, next)
                + s.subrange(next, s.len() as int));
        },
    }
}

proof fn lemma_join_singles(s: Seq<char>, k: int)
    requires
        1 <= k <= s.len() + 1,
    ensures
        join(split(s, Seq::empty()).subrange(k, s.len() as int + 2), Seq::empty()) == s.subrange(
            k - 1,
            s.len() as int,
        ),
    decreases s.len() + 1 - k,
{
    let q = split(s, Seq::empty());
    let n = s.len() as int;
    let t = q.subrange(k, n + 2);
    if k == n + 1 {
        assert(t.len() == 1);
        assert(t[0] =~= s.subrange(n, n));
    } else {
        lemma_join_singles(s, k + 1);
        assert(t.drop_first() =~= q.subrange(k + 1, n + 2));
        assert(t[0] == seq![s[k - 1]]);
        assert(s.subrange(k - 1, n) =~= seq![s[k - 1]] + Seq::<char>::empty() + s.subrange(k, n));
    }
}

/// Joining the pieces that `split` cuts `s` into, with the pattern between
/// them, gives `s` back.
pub proof fn law_split_join(s: Seq<char>, p: Seq<char>)
    ensures
        join(split(s, p), p) == s,
{
    if p.len() > 0 {
        lemma_join_split_from(s, p, 0);
        assert(s.subrange(0, s.len() as int) =~= s);
    } else {
        let q = split(s, p);
        let n = s.len() as int;
        lemma_join_singles(s, 1);
        assert(p =~= Seq::<char>::empty());
        assert(q.drop_first() =~= q.subrange(1, n + 2));
        assert(q[0] =~= Seq::<char>::empty());
        assert(s.subrange(0, n) =~= s);
        assert(join(q, p) =~= Seq::<char>::empty() + p + s);
    }
}

// ---------------------------------------------------------------------------
// Trimming
// ---------------------------------------------------------------------------

/// The characters that `trim` (whitespace) or `trim_matches('\0')` (NUL) drop.
pub open spec fn strip_pred(nul: bool) -> spec_fn(char) -> bool {
    |c: char| if nul { c == '\0' } else { is_ws(c) }
}

/// The first position at or after `i` whose character fails `pred`
/// (or the end of `s`).
pub open spec fn skip_while(s: Seq<char>, pred: spec_fn(char) -> bool, i: int) -> int
    decreases s.len() - i,
{
    if 0 <= i < s.len() && pred(s[i]) {
        skip_while(s, pred, i + 1)
    } else {
        i
    }
}

/// The position just after the last character in `s[lo..j]` that fails `pred`
/// (or `lo`).
pub open spec fn back_while(s: Seq<char>, pred: spec_fn(char) -> bool, lo: int, j: int) -> int
    decreases j - lo,
{
    if lo < j <= s.len() && pred(s[j - 1]) {
        back_while(s, pred, lo, j - 1)
    } else {
        j
    }
}

/// `s` without its leading and trailing characters that satisfy `pred`.
pub open spec fn trim_by(s: Seq<char>, pred: spec_fn(char) -> bool) -> Seq<char> {
    let a = skip_while(s, pred, 0);
    s.subrange(a, back_while(s, pred, a, s.len() as int))
}

/// `str::trim`.
pub open spec fn trim(s: Seq<char>) -> Seq<char> {
    trim_by(s, strip_pred(false))
}

pub proof fn lemma_skip_while(s: Seq<char>, pred: spec_fn(char) -> bool, i: int)
    requires
        0 <= i <= s.len(),
    ensures
        i <= skip_while(s, pred, i) <= s.len(),
        forall|k: int| i <= k < skip_while(s, pred, i) ==> pred(#[trigger] s[k]),
        skip_while(s, pred, i) < s.len() ==> !pred(s[skip_while(s, pred, i)]),
    decreases s.len() - i,
{
    if i < s.len() && pred(s[i]) {
        lemma_skip_while(s, pred, i + 1);
    }
}

pub proof fn lemma_back_while(s: Seq<char>, pred: spec_fn(char) -> bool, lo: int, j: int)
    requires
        0 <= lo <= j <= s.len(),
    ensures
        lo <= back_while(s, pred, lo, j) <= j,
        forall|k: int| back_while(s, pred, lo, j) <= k < j ==> pred(#[trigger] s[k]),
        back_while(s, pred, lo, j) > lo ==> !pred(s[back_while(s, pred, lo, j) - 1]),
    decreases j - lo,
{
    if lo < j && pred(s[j - 1]) {
        lemma_back_while(s, pred, lo, j - 1);
    }
}

/// Whether `trim` (or `trim_matches('\0')` when `nul`) drops `c`.
pub fn strips(c: char, nul: bool) -> (b: bool)
    ensures
        b == strip_pred(nul)(c),
{
    if nul {
        c == '\0'
    } else {
        is_whitespace(c)
    }
}

/// The span of `v[lo..hi]` with the characters of `strip_pred(nul)`
/// removed at both ends.
pub fn trim_span(v: &Vec<char>, lo: usize, hi: usize, nul: bool) -> (r: (usize, usize))
    requires
        lo <= hi <= v.len(),
    ensures
        lo <= r.0 <= r.1 <= hi,
        v@.subrange(r.0 as int, r.1 as int) == trim_by(v@.subrange(lo as int, hi as int), strip_pred(nul)),
{
    let ghost t = v@.subrange(lo as int, hi as int);
    let ghost pred = strip_pred(nul);
    let mut i = lo;
    while i < hi && strips(v[i], nul)
        invariant
            lo <= i <= hi <= v.len(),
            t == v@.subrange(lo as int, hi as int),
            pred == strip_pred(nul),
            skip_while(t, pred, 0) == skip_while(t, pred, i - lo),
        decreases hi - i,
    {
        assert(pred(t[i - lo]));
        i = i + 1;
    }
    assert(skip_while(t, pred, i - lo) == i - lo);
    let mut j = hi;
    while j > i && strips(v[j - 1], nul)
        invariant
            lo <= i <= j <= hi <= v.len(),
            t == v@.subrange(lo as int, hi as int),
            pred == strip_pred(nul),
            back_while(t, pred, i - lo, hi - lo) == back_while(t, pred, i - lo, j - lo),
        decreases j - i,
    {
        assert(pred(t[j - 1 - lo]));
        j = j - 1;
    }
    assert(back_while(t, pred, i - lo, j - lo) == j - lo);
    assert(v@.subrange(i as int, j as int) =~= t.subrange(i - lo, j - lo));
    (i, j)
}

/// A trimmed text neither starts nor ends with a character of `pred`.
pub proof fn law_trim_by_trims(s: Seq<char>, pred: spec_fn(char) -> bool)
    ensures
        trim_by(s, pred).len() > 0 ==> !pred(trim_by(s, pred)[0]) && !pred(trim_by(s, pred).last()),
{
    let a = skip_while(s, pred, 0);
    lemma_skip_while(s, pred, 0);
    let b = back_while(s, pred, a, s.len() as int);
    lemma_back_while(s, pred, a, s.len() as int);
}

// ---------------------------------------------------------------------------
// Words (`split_whitespace`)
// ---------------------------------------------------------------------------

/// The maximal runs of non-whitespace characters of `s[i..]`, in order.
pub open spec fn words_from(s: Seq<char>, i: int) -> Seq<Seq<char>>
    decreases s.len() - i,
{
    if i < 0 || i >= s.len() {
        seq![]
    } else if is_ws(s[i]) {
        words_from(s, i + 1)
    } else {
        let j = skip_while(s, |c: char| !is_ws(c), i);
        proof {
            lemma_skip_while(s, |c: char| !is_ws(c), i + 1);
        }
        seq![s.subrange(i, j)] + words_from(s, j)
    }
}

/// `str::split_whitespace`.
pub open spec fn words(s: Seq<char>) -> Seq<Seq<char>> {
    words_from(s, 0)
}

/// The spans of the words of `v`.
pub fn word_spans(v: &Vec<char>) -> (sp: Vec<(usize, usize)>)
    ensures
        spans_in(v@, sp@),
        pieces(v@, sp@) == words(v@),
{
    let n = v.len();
    let ghost s = v@;
    let ghost nonws = |c: char| !is_ws(c);
    let mut sp: Vec<(usize, usize)> = Vec::new();
    let mut i: usize = 0;
    while i < n
        invariant
            n == v.len(),
            s == v@,
            i <= n,
            nonws == (|c: char| !is_ws(c)),
            spans_in(s, sp@),
            pieces(s, sp@) + words_from(s, i as int) == words(s),
        decreases n - i,
    {
        if is_whitespace(v[i]) {
            i = i + 1;
        } else {
            let mut j = i + 1;
            while j < n && !is_whitespace(v[j])
                invariant
                    n == v.len(),
                    s == v@,
                    i < j <= n,
                    nonws == (|c: char| !is_ws(c)),
                    !is_ws(s[i as int]),
                    skip_while(s, nonws, i as int) == skip_while(s, nonws, j as int),
                decreases n - j,
            {
                j = j + 1;
            }
            assert(skip_while(s, nonws, j as int) == j);
            let ghost old_sp = sp@;
            sp.push((i, j));
            assert(pieces(s, sp@) =~= pieces(s, old_sp).push(s.subrange(i as int, j as int)));
            assert(pieces(s, sp@) + words_from(s, j as int) =~= pieces(s, old_sp) + words_from(
                s,
                i as int,
            ));
            i = j;
        }
    }
    assert(pieces(s, sp@) =~= pieces(s, sp@) + words_from(s, i as int));
    sp
}

// ---------------------------------------------------------------------------
// Lines
// ---------------------------------------------------------------------------

/// A line with the carriage return of its `\r\n` ending removed.
pub open spec fn strip_cr(t: Seq<char>) -> Seq<char> {
    if t.len() > 0 && t.last() == '\r' {
        t.drop_last()
    } else {
        t
    }
}

/// `str::lines`: the pieces between `\n`s, each without the `\r` of a
/// `\r\n`; a final empty piece (after a last `\n`, or of the empty string)
/// is not a line.
pub open spec fn lines(s: Seq<char>) -> Seq<Seq<char>> {
    let ps = split(s, seq!['\n']);
    let body = ps.drop_last().map_values(|t: Seq<char>| strip_cr(t));
    if ps.last().len() == 0 {
        body
    } else {
        body.push(ps.last())
    }
}

/// The spans of the lines of `v`.
pub fn line_spans(v: &Vec<char>) -> (sp: Vec<(usize, usize)>)
    ensures
        spans_in(v@, sp@),
        pieces(v@, sp@) == lines(v@),
{
    let nl: Vec<char> = vec!['\n'];
    let ps = split_spans(v, &nl);
    let ghost s = v@;
    let ghost all = split(s, seq!['\n']);
    assert(nl@ =~= seq!['\n']);
    assert(all.len() > 0) by {
        lemma_split_nonempty(s, seq!['\n'], 0);
    }
    let last = ps.len() - 1;
    let mut sp: Vec<(usize, usize)> = Vec::new();
    let mut k: usize = 0;
    while k < last
        invariant
            s == v@,
            all == split(s, seq!['\n']),
            spans_in(s, ps@),
            pieces(s, ps@) == all,
            last + 1 == ps@.len(),
            k <= last,
            spans_in(s, sp@),
            pieces(s, sp@) == all.take(k as int).map_values(|t: Seq<char>| strip_cr(t)),
        decreases last - k,
    {
        let (a, b) = ps[k];
        assert(pieces(s, ps@)[k as int] == s.subrange(a as int, b as int));
        let ghost old_sp = sp@;
        if b > a && v[b - 1] == '\r' {
            sp.push((a, b - 1));
            assert(s.subrange(a as int, b - 1) =~= s.subrange(a as int, b as int).drop_last());
        } else {
            sp.push((a, b));
        }
        assert(all.take(k + 1).map_values(|t: Seq<char>| strip_cr(t)) =~= all.take(
            k as int,
        ).map_values(|t: Seq<char>| strip_cr(t)).push(strip_cr(all[k as int])));
        assert(pieces(s, sp@) =~= pieces(s, old_sp).push(strip_cr(all[k as int])));
        k = k + 1;
    }
    assert(all.take(last as int) =~= all.drop_last());
    let (a, b) = ps[last];
    assert(pieces(s, ps@)[last as int] == s.subrange(a as int, b as int));
    if b > a {
        let ghost old_sp = sp@;
        sp.push((a, b));
        assert(pieces(s, sp@) =~= pieces(s, old_sp).push(all.last()));
    }
    sp
}

pub proof fn lemma_split_nonempty(s: Seq<char>, p: Seq<char>, start: int)
    requires
        p.len() > 0,
        0 <= start <= s.len(),
    ensures
        split_from(s, p, start).len() > 0,
    decreases s.len() - start,
{
    lemma_find_from(s, p, start);
}

proof fn lemma_split_from_no_char(s: Seq<char>, c: char, start: int)
    requires
        0 <= start <= s.len(),
    ensures
        forall|k: int, j: int|
            0 <= k < split_from(s, seq![c], start).len() && 0 <= j < split_from(
                s,
                seq![c],
                start,
            )[k].len() ==> #[trigger] split_from(s, seq![c], start)[k][j] != c,
    decreases s.len() - start,
{
    let p = seq![c];
    lemma_find_from(s, p, start);
    let ps = split_from(s, p, start);
    match find_from(s, p, start) {
        None => {
            assert forall|k: int, j: int| 0 <= k < ps.len() && 0 <= j < ps[k].len() implies #[trigger] ps[k][j]
                != c by {
                assert(ps[k] == s.subrange(start, s.len() as int));
                if s[start + j] == c {
                    assert(s.subrange(start + j, start + j + 1) =~= p);
                    assert(occurs_at(s, p, start + j));
                }
            }
        },
        Some(i) => {
            lemma_split_from_no_char(s, c, i + 1);
            let rest = split_from(s, p, i + 1);
            assert(ps == seq![s.subrange(start, i)] + rest);
            assert forall|k: int, j: int| 0 <= k < ps.len() && 0 <= j < ps[k].len() implies #[trigger] ps[k][j]
                != c by {
                if k == 0 {
                    if s[start + j] == c {
                        assert(s.subrange(start + j, start + j + 1) =~= p);
                        assert(occurs_at(s, p, start + j));
                    }
                } else {
                    assert(ps[k] == rest[k - 1]);
                    assert(rest[k - 1][j] != c);
                }
            }
        },
    }
}

/// No line contains a newline.
pub proof fn law_lines_have_no_newline(s: Seq<char>)
    ensures
        forall|k: int, j: int|
            0 <= k < lines(s).len() && 0 <= j < lines(s)[k].len() ==> #[trigger] lines(s)[k][j]
                != '\n',
{
    let ps = split(s, seq!['\n']);
    lemma_split_from_no_char(s, '\n', 0);
    lemma_split_nonempty(s, seq!['\n'], 0);
    let ls = lines(s);
    assert forall|k: int, j: int| 0 <= k < ls.len() && 0 <= j < ls[k].len() implies #[trigger] ls[k][j]
        != '\n' by {
        if k < ps.len() - 1 {
            assert(ls[k] == strip_cr(ps[k]));
            if ps[k].len() > 0 && ps[k].last() == '\r' {
                assert(ls[k][j] == ps[k][j]);
            }
            assert(ps[k][j] != '\n');
        } else {
            assert(ls[k] == ps.last());
            assert(ps[ps.len() - 1][j] != '\n');
        }
    }
}

// ---------------------------------------------------------------------------
// Decimal integers (`str::parse`)
// ---------------------------------------------------------------------------

pub open spec fn is_digit(c: char) -> bool {
    '0' as u32 <= c as u32 && c as u32 <= '9' as u32
}

pub open spec fn digit_value(c: char) -> nat {
    (c as u32 - '0' as u32) as nat
}

pub open spec fn all_digits(d: Seq<char>) -> bool {
    forall|i: int| 0 <= i < d.len() ==> is_digit(#[trigger] d[i])
}

/// The value of the decimal numeral `d`.
pub open spec fn decimal(d: Seq<char>) -> nat
    decreases d.len(),
{
    if d.len() == 0 {
        0
    } else {
        decimal(d.drop_last()) * 10 + digit_value(d.last())
    }
}

/// `s` without one leading `c`, if it starts with one.
pub open spec fn drop_sign(s: Seq<char>, c: char) -> Seq<char> {
    if s.len() > 0 && s[0] == c {
        s.drop_first()
    } else {
        s
    }
}

/// Parsing of an unsigned integer type whose largest value is `max`:
/// an optional `+`, then at least one decimal digit, and nothing else.
pub open spec fn parse_unsigned(s: Seq<char>, max: nat) -> Option<nat> {
    let d = drop_sign(s, '+');
    if d.len() > 0 && all_digits(d) && decimal(d) <= max {
        Some(decimal(d))
    } else {
        None
    }
}

/// Parsing of `i32`: an optional `+` or `-`, then at least one decimal
/// digit, with the value in range.
pub open spec fn parse_i32_spec(s: Seq<char>) -> Option<i32> {
    let neg = s.len() > 0 && s[0] == '-';
    let d = if neg { s.drop_first() } else { drop_sign(s, '+') };
    if d.len() == 0 || !all_digits(d) {
        None
    } else if neg && decimal(d) <= 0x8000_0000 {
        Some((0 - decimal(d)) as i32)
    } else if !neg && decimal(d) <= 0x7fff_ffff {
        Some(decimal(d) as i32)
    } else {
        None
    }
}

pub proof fn lemma_decimal_prefix(d: Seq<char>, k: int)
    requires
        0 <= k <= d.len(),
    ensures
        decimal(d.take(k)) <= decimal(d),
    decreases d.len() - k,
{
    if k < d.len() {
        lemma_decimal_prefix(d, k + 1);
        assert(d.take(k + 1).drop_last() =~= d.take(k));
    } else {
        assert(d.take(k) =~= d);
    }
}

/// The value of the digits `v[lo..hi]`, if they are all digits, there is at
/// least one, and the value is at most `bound`.
pub fn parse_digits(v: &Vec<char>, lo: usize, hi: usize, bound: u64) -> (r: Option<u64>)
    requires
        lo <= hi <= v.len(),
    ensures
        ({
            let d = v@.subrange(lo as int, hi as int);
            r == (if d.len() > 0 && all_digits(d) && decimal(d) <= bound {
                Some(decimal(d) as u64)
            } else {
                None::<u64>
            })
        }),
{
    let ghost d = v@.subrange(lo as int, hi as int);
    if lo == hi {
        return None;
    }
    let mut acc: u64 = 0;
    let mut i = lo;
    while i < hi
        invariant
            lo <= i <= hi <= v.len(),
            d == v@.subrange(lo as int, hi as int),
            all_digits(v@.subrange(lo as int, i as int)),
            acc == decimal(v@.subrange(lo as int, i as int)),
            acc <= bound,
        decreases hi - i,
    {
        let c = v[i];
        let u: u32 = c as u32;
        if !(48 <= u && u <= 57) {
            assert(!is_digit(d[i - lo]));
            return None;
        }
        let dv: u64 = (u - 48) as u64;
        assert(v@.subrange(lo as int, i + 1).drop_last() =~= v@.subrange(lo as int, i as int));
        let next: u128 = acc as u128 * 10 + dv as u128;
        if next > bound as u128 {
            proof {
                assert(d.take(i + 1 - lo) =~= v@.subrange(lo as int, i + 1));
                if all_digits(d) {
                    lemma_decimal_prefix(d, i + 1 - lo);
                }
            }
            return None;
        }
        acc = next as u64;
        i = i + 1;
    }
    assert(v@.subrange(lo as int, i as int) =~= d);
    Some(acc)
}

/// `u64::from_str` on `v[lo..hi]`.
pub fn parse_u64(v: &Vec<char>, lo: usize, hi: usize) -> (r: Option<u64>)
    requires
        lo <= hi <= v.len(),
    ensures
        r == (match parse_unsigned(v@.subrange(lo as int, hi as int), u64::MAX as nat) {
            Some(x) => Some(x as u64),
            None => None::<u64>,
        }),
{
    parse_unsigned_span(v, lo, hi, u64::MAX)
}

/// Unsigned parsing of `v[lo..hi]` with the largest value `max`.
pub fn parse_unsigned_span(v: &Vec<char>, lo: usize, hi: usize, max: u64) -> (r: Option<u64>)
    requires
        lo <= hi <= v.len(),
    ensures
        r == (match parse_unsigned(v@.subrange(lo as int, hi as int), max as nat) {
            Some(x) => Some(x as u64),
            None => None::<u64>,
        }),
{
    let ghost s = v@.subrange(lo as int, hi as int);
    if lo < hi && v[lo] == '+' {
        assert(drop_sign(s, '+') =~= v@.subrange(lo + 1, hi as int));
        parse_digits(v, lo + 1, hi, max)
    } else {
        assert(drop_sign(s, '+') =~= s);
        parse_digits(v, lo, hi, max)
    }
}

/// `i32::from_str` on `v[lo..hi]`.
pub fn parse_i32(v: &Vec<char>, lo: usize, hi: usize) -> (r: Option<i32>)
    requires
        lo <= hi <= v.len(),
    ensures
        r == parse_i32_spec(v@.subrange(lo as int, hi as int)),
{
    let ghost s = v@.subrange(lo as int, hi as int);
    if lo < hi && v[lo] == '-' {
        assert(s.drop_first() =~= v@.subrange(lo + 1, hi as int));
        match parse_digits(v, lo + 1, hi, 0x8000_0000) {
            Some(x) => Some((0 - (x as i64)) as i32),
            None => None,
        }
    } else {
        let start = if lo < hi && v[lo] == '+' { lo + 1 } else { lo };
        assert(drop_sign(s, '+') =~= v@.subrange(start as int, hi as int));
        match parse_digits(v, start, hi, 0x7fff_ffff) {
            Some(x) => Some(x as i32),
            None => None,
        }
    }
}

} // verus!
