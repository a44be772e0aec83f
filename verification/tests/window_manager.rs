use edges::border::Border;
use edges::skylight::{TAG_ATTACHED, TAG_DOCUMENT, TAG_FLOATING, TAG_IGNORES_CYCLE, TAG_MODAL};
use edges::window_manager::{
    border_matches_destroy, first_suitable, window_suitable, BorderEntry, BorderTable, WindowInfo,
};

fn entry(target: u32, border_wid: u32, sid: u64) -> BorderEntry<String> {
    BorderEntry { border: Border::new(1, border_wid, target, sid, false), payload: format!("g{}", target) }
}

fn table() -> BorderTable<String> {
    let mut t = BorderTable::new();
    t.insert(entry(10, 110, 1));
    t.insert(entry(20, 120, 1));
    t.insert(entry(30, 130, 2));
    t
}

#[test]
fn suitable_windows() {
    assert!(window_suitable(TAG_DOCUMENT, 0x2, 0));
    assert!(!window_suitable(TAG_DOCUMENT, 0, 0));
    assert!(window_suitable(TAG_DOCUMENT | (1u64 << 58), 0, 0));
    assert!(!window_suitable(TAG_DOCUMENT, 0x2, 5));
    assert!(!window_suitable(TAG_DOCUMENT | TAG_ATTACHED, 0x2, 0));
    assert!(!window_suitable(TAG_DOCUMENT | TAG_IGNORES_CYCLE, 0x2, 0));
    assert!(window_suitable(TAG_FLOATING | TAG_MODAL, 0x2, 0));
    assert!(!window_suitable(TAG_FLOATING, 0x2, 0));
    assert!(!window_suitable(0, 0x2, 0));
}

#[test]
fn suitable_needs_standard_or_listed() {
    assert!(!window_suitable(TAG_DOCUMENT, 0x1, 0));
}

#[test]
fn first_suitable_picks_first() {
    let ws = vec![
        WindowInfo { wid: 1, tags: TAG_FLOATING, attributes: 2, parent_wid: 0 },
        WindowInfo { wid: 2, tags: TAG_DOCUMENT, attributes: 2, parent_wid: 0 },
        WindowInfo { wid: 3, tags: TAG_DOCUMENT, attributes: 2, parent_wid: 0 },
    ];
    assert_eq!(first_suitable(&ws), 2);
    assert_eq!(first_suitable(&ws[..1].to_vec()), 0);
    assert_eq!(first_suitable(&Vec::new()), 0);
}

#[test]
fn table_insert_get_take() {
    let mut t = table();
    assert_eq!(t.len(), 3);
    assert!(t.contains(20));
    assert!(!t.contains(120));
    assert_eq!(t.get(20).unwrap().border.wid, 120);
    assert_eq!(t.get(20).unwrap().payload, "g20");
    let e = t.take(20).unwrap();
    assert_eq!(e.border.target_wid, 20);
    assert!(!t.contains(20));
    assert!(t.take(20).is_none());
    t.insert(e);
    assert!(t.contains(20));
}

#[test]
fn close_and_destroy_remove_exactly_one() {
    let mut t = table();
    assert!(t.window_closed(10));
    assert!(!t.window_closed(10));
    assert!(t.window_destroyed(30, 999));
    assert!(!t.window_destroyed(30, 2));
    assert_eq!(t.len(), 1);
    assert!(t.contains(20));
    assert!(border_matches_destroy(&Border::new(1, 2, 3, 4, false), 77));
}

#[test]
fn own_border_windows_are_recognised() {
    let t = table();
    assert!(t.has_border_window(130));
    assert!(!t.has_border_window(30));
}

#[test]
fn keys_lists_each_window_once() {
    let t = table();
    let mut ks = t.keys();
    ks.sort();
    assert_eq!(ks, vec![10, 20, 30]);
}

#[test]
fn focus_goes_to_front_only() {
    let mut t = table();
    let mut changed = t.focus_on(20);
    changed.sort();
    assert_eq!(changed, vec![20]);
    assert!(t.get(20).unwrap().border.focused);
    assert!(!t.get(10).unwrap().border.focused);
    let mut changed = t.focus_on(30);
    changed.sort();
    assert_eq!(changed, vec![20, 30]);
    assert!(t.get(30).unwrap().border.focused);
    assert!(!t.get(20).unwrap().border.focused);
    assert!(t.focus_on(30).is_empty());
    let mut changed = t.focus_on(999);
    changed.sort();
    assert_eq!(changed, vec![30]);
}

#[test]
fn remove_all_drops_dead_borders() {
    let mut t = table();
    assert!(t.remove_all(&vec![10, 55]));
    assert!(!t.contains(10));
    assert!(t.contains(20));
    assert!(!t.remove_all(&vec![55, 66]));
    assert!(!t.remove_all(&Vec::new()));
    assert_eq!(t.len(), 2);
}

#[test]
fn stale_borders_on_current_spaces() {
    let t = table();
    let mut s = t.stale(&vec![1], &vec![10]);
    s.sort();
    assert_eq!(s, vec![20]);
    let mut s = t.stale(&vec![1, 2], &vec![]);
    s.sort();
    assert_eq!(s, vec![10, 20, 30]);
    assert!(t.stale(&vec![3], &vec![]).is_empty());
}
