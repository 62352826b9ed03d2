use fas_framework::misc::android_utils::app_of_cmdline;
use fas_framework::misc::{
    ask_is_game, cut, cut_whitespace, get_refresh_rate, get_top_app, look_for_head, look_for_tail,
    mount_mask_path, next_multiple, parse_cpu_list, trimmed,
};

#[test]
fn cut_takes_trimmed_piece() {
    assert_eq!(cut("a: b :c", ":", 1), "b");
    assert_eq!(cut("a: b :c", ":", 0), "a");
    assert_eq!(cut("a: b :c", ":", 2), "c");
}

#[test]
fn cut_missing_piece_is_empty() {
    assert_eq!(cut("a:b", ":", 2), "");
    assert_eq!(cut("", ":", 1), "");
}

#[test]
fn cut_multichar_and_empty_pattern() {
    assert_eq!(cut("x--y--z", "--", 1), "y");
    assert_eq!(cut("x---y", "--", 1), "-y");
    // an empty pattern cuts before and after every character
    assert_eq!(cut("ab", "", 0), "");
    assert_eq!(cut("ab", "", 1), "a");
    assert_eq!(cut("ab", "", 2), "b");
    assert_eq!(cut("ab", "", 3), "");
}

#[test]
fn cut_whitespace_words() {
    assert_eq!(cut_whitespace("  one\t two  three ", 0), "one");
    assert_eq!(cut_whitespace("  one\t two  three ", 2), "three");
    assert_eq!(cut_whitespace("  one\t two  three ", 3), "");
    assert_eq!(cut_whitespace("", 0), "");
}

#[test]
fn lines_head_and_tail() {
    let s = "l0\r\nl1\nl2\n";
    assert_eq!(look_for_head(s, 0), Some("l0"));
    assert_eq!(look_for_head(s, 2), Some("l2"));
    assert_eq!(look_for_head(s, 3), None);
    assert_eq!(look_for_tail(s, 0), Some("l2"));
    assert_eq!(look_for_tail(s, 2), Some("l0"));
    assert_eq!(look_for_tail(s, 3), None);
    assert_eq!(look_for_head("", 0), None);
    assert_eq!(look_for_head("\n", 0), Some(""));
    assert_eq!(look_for_tail("a\r", 0), Some("a\r"));
}

#[test]
fn next_multiple_rounds_to_nearest() {
    assert_eq!(next_multiple(62, 5), 60);
    assert_eq!(next_multiple(63, 5), 65);
    assert_eq!(next_multiple(60, 5), 60);
    assert_eq!(next_multiple(0, 5), 0);
    // half way goes down
    assert_eq!(next_multiple(5, 10), 0);
    assert_eq!(next_multiple(119, 5), 120);
    assert_eq!(next_multiple(7, 1), 7);
}

#[test]
fn next_multiple_is_nearest_law_values() {
    for x in 0u64..200 {
        for m in 1u64..13 {
            let r = next_multiple(x, m);
            assert_eq!(r % m, 0);
            let d = if r > x { r - x } else { x - r };
            assert!(2 * d <= m);
            assert_eq!(next_multiple(r, m), r);
        }
    }
}

#[test]
fn refresh_rate_from_dump() {
    let dump = "Display 0\n  refresh-rate              : 120.000000 fps\nvsync";
    assert_eq!(get_refresh_rate(dump), 120);
    assert_eq!(get_refresh_rate("no rate here"), 0);
    assert_eq!(get_refresh_rate("refresh-rate : abc.0"), 0);
    // the first line that names the rate counts
    assert_eq!(get_refresh_rate("refresh-rate: 60.0\nrefresh-rate: 90.0"), 60);
}

#[test]
fn top_app_from_activities() {
    let dump = "  mResumed\n  topResumedActivity=ActivityRecord{4a1b u0 com.miHoYo.Yuanshen/.MainActivity t42}\n";
    assert_eq!(get_top_app(dump), "com.miHoYo.Yuanshen");
    let two = "topResumedActivity=ActivityRecord{1 u0 a.b/.M t1}\ntopResumedActivity=ActivityRecord{2 u0 c.d/.M t2}";
    assert_eq!(get_top_app(two), "c.d");
    assert_eq!(get_top_app("nothing"), "");
}

#[test]
fn game_detection() {
    let list = "SurfaceView[com.game.x/com.game.x.Main]#0(BLAST Consumer)#1\nStatusBar#2";
    assert!(ask_is_game(list, "com.game.x"));
    assert!(!ask_is_game(list, "com.other"));
    assert!(!ask_is_game(list, ""));
    let old_style = "SurfaceView - com.game.y/com.game.y.Main#0";
    assert!(ask_is_game(old_style, "com.game.y"));
    // a surface view without BLAST in the new naming is not a game
    assert!(!ask_is_game("SurfaceView[com.game.z]", "com.game.z"));
    // ignored apps are never games
    let bili = "SurfaceView[tv.danmaku.bili/x]#0(BLAST Consumer)";
    assert!(!ask_is_game(bili, "tv.danmaku.bili"));
}

#[test]
fn cmdline_and_trimming() {
    assert_eq!(app_of_cmdline("com.game\0\0\0"), "com.game");
    assert_eq!(app_of_cmdline("\0com.game"), "com.game");
    assert_eq!(trimmed("  1234\n"), "1234");
    assert_eq!(trimmed(" \u{3000}x\u{A0} "), "x");
}

#[test]
fn cpu_list_parsing() {
    assert_eq!(parse_cpu_list("0 1 2 3\n"), vec![0, 1, 2, 3]);
    assert_eq!(parse_cpu_list("4 x 6"), vec![4, 0, 6]);
    assert_eq!(parse_cpu_list(""), Vec::<usize>::new());
    assert_eq!(parse_cpu_list("+5 -1"), vec![5, 0]);
}

#[test]
fn mount_mask_file() {
    assert_eq!(mount_mask_path("1"), "/cache/mount_mask_1");
    assert_eq!(mount_mask_path(""), "/cache/mount_mask_");
}

#[test]
fn pieces_join_back() {
    let s = "x:y::z:";
    let mut pieces = Vec::new();
    let mut f = 0;
    loop {
        let p = cut(s, ":", f);
        if p.is_empty() && f >= 5 {
            break;
        }
        pieces.push(p);
        f += 1;
    }
    assert_eq!(pieces.join(":"), s);
}

#[test]
fn lines_hold_no_newline() {
    let s = "a\r\nb\n\nc";
    let mut k = 0;
    while let Some(l) = look_for_head(s, k) {
        assert!(!l.contains('\n'));
        k += 1;
    }
    assert_eq!(k, 4);
    assert_eq!(look_for_head(s, 2), Some(""));
}
