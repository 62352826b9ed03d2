use fas_framework::watcher_fbt_info::FBTWatcher;

#[test]
fn frame_counter_reply() {
    assert_eq!(FBTWatcher::parse_frame_counter("Result: Parcel(0000abcd '....')"), Some(0xabcd));
    assert_eq!(FBTWatcher::parse_frame_counter("Result: Parcel(00FF 'x')"), Some(255));
    assert_eq!(FBTWatcher::parse_frame_counter("Result: Parcel(zz '..')"), None);
    assert_eq!(FBTWatcher::parse_frame_counter("no parcel"), None);
    assert_eq!(FBTWatcher::parse_frame_counter("Parcel(1ffffffffffffffff 'x')"), None);
}

#[test]
fn fps_from_counts() {
    assert_eq!(FBTWatcher::fps_between(100, 160, 1000), 60);
    assert_eq!(FBTWatcher::fps_between(0, 59, 500), 118);
    assert_eq!(FBTWatcher::fps_between(5, 5, 3), 0);
}

#[test]
fn strict_frame_time() {
    let mut info = String::new();
    for i in 0..8 {
        info.push_str(&format!("line {}\n", i));
    }
    info.push_str("a b c d e f 987 g\n");
    assert_eq!(FBTWatcher::parse_ft(&info), Some(987));
    assert_eq!(FBTWatcher::parse_ft("few lines"), None);
    assert_eq!(FBTWatcher::parse_ft(&info.replace("987 g", "")), None);
}
