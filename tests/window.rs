use longpress::position::Position;
use longpress::window::{Window, WindowQuery};

fn units(s: &str) -> Vec<u16> {
    let mut v: Vec<u16> = s.encode_utf16().collect();
    v.resize(1024, 0);
    v
}

fn query(hwnd: usize, title: &str, class_name: &str) -> WindowQuery {
    WindowQuery {
        hwnd,
        title_copied: title.encode_utf16().count() as i32,
        title_units: units(title),
        class_copied: class_name.encode_utf16().count() as i32,
        class_units: units(class_name),
        left: 10,
        top: 20,
        right: 310,
        bottom: 220,
        visible: 1,
        iconic: 0,
        enabled: 1,
    }
}

#[test]
fn decode_stops_at_first_zero() {
    let buf = [0x48u16, 0x69, 0, 0x78, 0x79];
    assert_eq!(Window::decode(&buf), "Hi");
}

#[test]
fn decode_empty_buffer() {
    assert_eq!(Window::decode(&[]), "");
    assert_eq!(Window::decode(&[0, 0x41]), "");
}

#[test]
fn decode_without_terminator_takes_all() {
    assert_eq!(Window::decode(&[0x41, 0x42]), "AB");
}

#[test]
fn decode_unpaired_high_surrogate() {
    let buf = [0x61u16, 0xD800, 0x62, 0];
    assert_eq!(Window::decode(&buf), "a\u{FFFD}b");
}

#[test]
fn decode_unpaired_low_surrogate() {
    let buf = [0xDC00u16, 0x63];
    assert_eq!(Window::decode(&buf), "\u{FFFD}c");
}

#[test]
fn decode_high_surrogate_before_terminator() {
    let buf = [0x61u16, 0xD83D, 0, 0xDE00];
    assert_eq!(Window::decode(&buf), "a\u{FFFD}");
}

#[test]
fn decode_surrogate_pair() {
    let buf = [0xD83Du16, 0xDE00, 0x21, 0];
    assert_eq!(Window::decode(&buf), "\u{1F600}!");
}

#[test]
fn query_text_failed_query_is_empty() {
    assert_eq!(Window::query_text(0, &units("stale")), "");
    assert_eq!(Window::query_text(-1, &units("stale")), "");
    assert_eq!(Window::query_text(5, &units("Title")), "Title");
}

#[test]
fn from_fills_every_field() {
    let mut q = query(42, "Notepad", "NotepadClass");
    q.iconic = 1;
    q.enabled = 0;
    let w = Window::from(&q);
    assert_eq!(w.hwnd, 42);
    assert_eq!(w.title, "Notepad");
    assert_eq!(w.class_name, "NotepadClass");
    assert_eq!((w.position.x, w.position.y), (10, 20));
    assert_eq!((w.position.width, w.position.height), (300, 200));
    assert!(w.visible);
    assert!(w.minimized);
    assert!(!w.can_input);
}

#[test]
fn from_reads_bool_true_only_as_one() {
    let mut q = query(1, "", "");
    q.visible = 2;
    q.iconic = -1;
    q.enabled = 0;
    let w = Window::from(&q);
    assert!(!w.visible && !w.minimized && !w.can_input);
    assert_eq!(w.title, "");
}

#[test]
fn positioned_to_on_success_replaces_position() {
    let w = Window::from(&query(7, "Editor", "Cls"));
    let moved = w.positioned_to(Position::new(1, 2, 3, 4), 1);
    assert_eq!(moved.hwnd, 7);
    assert_eq!(moved.title, "Editor");
    assert_eq!(moved.class_name, "Cls");
    assert_eq!(
        (moved.position.x, moved.position.y, moved.position.width, moved.position.height),
        (1, 2, 3, 4)
    );
}

#[test]
fn positioned_to_on_failure_keeps_snapshot() {
    let w = Window::from(&query(7, "Editor", "Cls"));
    let kept = w.positioned_to(Position::new(1, 2, 3, 4), 0);
    assert_eq!(kept.hwnd, 7);
    assert_eq!(
        (kept.position.x, kept.position.y, kept.position.width, kept.position.height),
        (10, 20, 300, 200)
    );
}

#[test]
fn enumerate_gives_one_snapshot_per_handle_in_order() {
    let queries = vec![query(11, "a", "A"), query(22, "", "B"), query(33, "c", "C")];
    let windows = Window::enumerate(&queries);
    assert_eq!(windows.len(), 3);
    let handles: Vec<usize> = windows.iter().map(|w| w.hwnd).collect();
    assert_eq!(handles, vec![11, 22, 33]);
    assert_eq!(windows[1].title, "");
    assert_eq!(windows[2].class_name, "C");
}

#[test]
fn enumerate_nothing() {
    assert!(Window::enumerate(&Vec::new()).is_empty());
}
