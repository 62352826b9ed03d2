//! What the framework reads off Android: the app in front, whether it draws
//! a game surface, and the display refresh rate.
use vstd::prelude::*;

use crate::misc::{chars_eq, cut_chars, cut_spec, slice_vec};
use crate::text::{
    chars_of, contains, contains_exec, line_spans, lines, parse_unsigned, parse_u64, pieces,
    spans_in, string_of, strip_pred, trim, trim_by, trim_span,
};

verus! {

/// The marker of the line of `dumpsys activity activities` that names the
/// resumed activity.
pub open spec fn top_app_marker() -> Seq<char> {
    "topResumedActivity="@
}

/// The package named in a `topResumedActivity=` line: the text after `{`,
/// before `/`, third space-separated field.
pub open spec fn app_of_activity_line(line: Seq<char>) -> Seq<char> {
    cut_spec(cut_spec(cut_spec(line, "{"@, 1), "/"@, 0), " "@, 2)
}

/// The package named by the last `topResumedActivity=` line among `ls`, or
/// empty when there is none.
pub open spec fn top_app_spec(ls: Seq<Seq<char>>) -> Seq<char>
    decreases ls.len(),
{
    if ls.len() == 0 {
        Seq::empty()
    } else if contains(ls.last(), top_app_marker()) {
        app_of_activity_line(ls.last())
    } else {
        top_app_spec(ls.drop_last())
    }
}

/// The app in front, from the output of `dumpsys activity activities`.
pub fn get_top_app(activities: &str) -> (r: String)
    ensures
        r@ == top_app_spec(lines(activities@)),
{
    let v = chars_of(activities);
    let sp = line_spans(&v);
    let marker = chars_of("topResumedActivity=");
    let brace = chars_of("{");
    let slash = chars_of("/");
    let space = chars_of(" ");
    let ghost ls = lines(v@);
    let mut top: Vec<char> = Vec::new();
    let mut k: usize = 0;
    while k < sp.len()
        invariant
            k <= sp.len(),
            spans_in(v@, sp@),
            pieces(v@, sp@) == ls,
            ls == lines(v@),
            v@ == activities@,
            marker@ == top_app_marker(),
            brace@ == "{"@,
            slash@ == "/"@,
            space@ == " "@,
            top@ == top_app_spec(ls.take(k as int)),
        decreases sp.len() - k,
    {
        let (a, b) = sp[k];
        assert(pieces(v@, sp@)[k as int] == v@.subrange(a as int, b as int));
        let line = slice_vec(&v, a, b);
        assert(ls.take(k + 1).drop_last() =~= ls.take(k as int));
        assert(ls.take(k + 1).last() == ls[k as int]);
        if contains_exec(&line, &marker) {
            let t1 = cut_chars(&line, &brace, 1);
            let t2 = cut_chars(&t1, &slash, 0);
            top = cut_chars(&t2, &space, 2);
        }
        k = k + 1;
    }
    assert(ls.take(k as int) =~= ls);
    string_of(&top, 0, top.len())
}

/// The package name in a `/proc/<pid>/cmdline` file: its contents without
/// the NUL characters at either end.
pub fn app_of_cmdline(cmdline: &str) -> (r: String)
    ensures
        r@ == trim_by(cmdline@, strip_pred(true)),
{
    let v = chars_of(cmdline);
    let (a, b) = trim_span(&v, 0, v.len(), true);
    assert(v@.subrange(0, v.len() as int) =~= v@);
    string_of(&v, a, b)
}

/// Apps that draw a surface view but are not games.
pub open spec fn ignored_apps() -> Seq<Seq<char>> {
    seq![
        "tv.danmaku.bili"@,
        "com.perol.pixez"@,
        "jp.pxv.android"@,
        "com.lemurbrowser.exts"@,
        "mark.via"@,
        "com.tencent.mm"@,
        "com.tencent.mobileqq"@,
        "com.miui.gallery"@,
    ]
}

/// Whether `app` is one of `ignored_apps()`.
pub fn is_ignored(app: &Vec<char>) -> (r: bool)
    ensures
        r == ignored_apps().contains(app@),
{
    let names: [&str; 8] = [
        "tv.danmaku.bili",
        "com.perol.pixez",
        "jp.pxv.android",
        "com.lemurbrowser.exts",
        "mark.via",
        "com.tencent.mm",
        "com.tencent.mobileqq",
        "com.miui.gallery",
    ];
    assert(ignored_apps() =~= seq![
        names[0]@,
        names[1]@,
        names[2]@,
        names[3]@,
        names[4]@,
        names[5]@,
        names[6]@,
        names[7]@,
    ]);
    let mut k: usize = 0;
    while k < 8
        invariant
            k <= 8,
            ignored_apps() == seq![
                names[0]@,
                names[1]@,
                names[2]@,
                names[3]@,
                names[4]@,
                names[5]@,
                names[6]@,
                names[7]@,
            ],
            forall|j: int| 0 <= j < k ==> ignored_apps()[j] != app@,
        decreases 8 - k,
    {
        let name = chars_of(names[k]);
        if chars_eq(&name, app) {
            assert(ignored_apps()[k as int] == app@);
            return true;
        }
        k = k + 1;
    }
    assert(!ignored_apps().contains(app@)) by {
        if ignored_apps().contains(app@) {
            let j = choose|j: int| 0 <= j < ignored_apps().len() && ignored_apps()[j] == app@;
        }
    }
    false
}

/// A line of `dumpsys SurfaceFlinger --list` that is a surface view drawn
/// for `app`.
pub open spec fn is_game_surface(line: Seq<char>, app: Seq<char>) -> bool {
    (contains(line, "SurfaceView["@) && contains(line, "BLAST"@) || contains(line, "SurfaceView -"@))
        && contains(line, app)
}

/// Whether the app in front counts as a game.
pub open spec fn is_game_spec(surfaces: Seq<char>, app: Seq<char>) -> bool {
    &&& app.len() > 0
    &&& !ignored_apps().contains(app)
    &&& exists|k: int| 0 <= k < lines(surfaces).len() && is_game_surface(#[trigger] lines(surfaces)[k], app)
}

/// Decides from the output of `dumpsys SurfaceFlinger --list` and the app
/// in front whether a game is running: the app must be known, not one of
/// the ignored apps, and own a surface view.
pub fn ask_is_game(surface_list: &str, top_app: &str) -> (r: bool)
    ensures
        r == is_game_spec(surface_list@, top_app@),
{
    let app = chars_of(top_app);
    if app.len() == 0 {
        return false;
    }
    if is_ignored(&app) {
        return false;
    }
    let v = chars_of(surface_list);
    let sp = line_spans(&v);
    let view1 = chars_of("SurfaceView[");
    let blast = chars_of("BLAST");
    let view2 = chars_of("SurfaceView -");
    let ghost ls = lines(v@);
    let mut k: usize = 0;
    while k < sp.len()
        invariant
            k <= sp.len(),
            spans_in(v@, sp@),
            pieces(v@, sp@) == ls,
            ls == lines(v@),
            v@ == surface_list@,
            app@ == top_app@,
            app@.len() > 0,
            !ignored_apps().contains(app@),
            view1@ == "SurfaceView["@,
            blast@ == "BLAST"@,
            view2@ == "SurfaceView -"@,
            forall|j: int| 0 <= j < k ==> !is_game_surface(#[trigger] ls[j], app@),
        decreases sp.len() - k,
    {
        let (a, b) = sp[k];
        assert(pieces(v@, sp@)[k as int] == v@.subrange(a as int, b as int));
        let line = slice_vec(&v, a, b);
        if (contains_exec(&line, &view1) && contains_exec(&line, &blast) || contains_exec(
            &line,
            &view2,
        )) && contains_exec(&line, &app) {
            assert(is_game_surface(ls[k as int], app@));
            assert(is_game_surface(lines(surface_list@)[k as int], top_app@));
            return true;
        }
        k = k + 1;
    }
    false
}

/// An unknown app in front, or one of the ignored apps, is never a game.
pub proof fn law_unknown_or_ignored_is_not_game(surfaces: Seq<char>, app: Seq<char>)
    requires
        app.len() == 0 || ignored_apps().contains(app),
    ensures
        !is_game_spec(surfaces, app),
{
}

/// The first of `ls` that contains `p`.
pub open spec fn first_containing(ls: Seq<Seq<char>>, p: Seq<char>) -> Option<Seq<char>>
    decreases ls.len(),
{
    if ls.len() == 0 {
        None
    } else if contains(ls[0], p) {
        Some(ls[0])
    } else {
        first_containing(ls.drop_first(), p)
    }
}

/// The refresh rate on a `refresh-rate` line: the integer part of the number
/// after the colon, or 0 when it does not parse.
pub open spec fn refresh_rate_of_line(line: Seq<char>) -> u64 {
    match parse_unsigned(trim(cut_spec(cut_spec(line, "."@, 0), ":"@, 1)), u64::MAX as nat) {
        Some(n) => n as u64,
        None => 0,
    }
}

/// The refresh rate named in a `dumpsys SurfaceFlinger` report, or 0.
pub open spec fn refresh_rate_spec(dump: Seq<char>) -> u64 {
    match first_containing(lines(dump), "refresh-rate"@) {
        Some(line) => refresh_rate_of_line(line),
        None => 0,
    }
}

/// The display refresh rate, from the output of `dumpsys SurfaceFlinger`.
pub fn get_refresh_rate(dump: &str) -> (r: u64)
    ensures
        r == refresh_rate_spec(dump@),
{
    let v = chars_of(dump);
    let sp = line_spans(&v);
    let key = chars_of("refresh-rate");
    let ghost ls = lines(v@);
    assert(ls.skip(0) =~= ls);
    let mut k: usize = 0;
    while k < sp.len()
        invariant
            k <= sp.len(),
            spans_in(v@, sp@),
            pieces(v@, sp@) == ls,
            ls == lines(v@),
            v@ == dump@,
            key@ == "refresh-rate"@,
            first_containing(ls, key@) == first_containing(ls.skip(k as int), key@),
        decreases sp.len() - k,
    {
        let (a, b) = sp[k];
        assert(pieces(v@, sp@)[k as int] == v@.subrange(a as int, b as int));
        let line = slice_vec(&v, a, b);
        assert(ls.skip(k as int)[0] == ls[k as int]);
        if contains_exec(&line, &key) {
            let dot = chars_of(".");
            let colon = chars_of(":");
            let c = cut_chars(&line, &dot, 0);
            let n = cut_chars(&c, &colon, 1);
            let (x, y) = trim_span(&n, 0, n.len(), false);
            assert(n@.subrange(0, n.len() as int) =~= n@);
            return match parse_u64(&n, x, y) {
                Some(r) => r,
                None => 0,
            };
        }
        assert(ls.skip(k as int).drop_first() =~= ls.skip(k + 1));
        k = k + 1;
    }
    assert(ls.skip(k as int).len() == 0);
    0
}

} // verus!
