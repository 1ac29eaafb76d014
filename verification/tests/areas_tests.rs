use sanzu::areas::{area_changes, ServerWindowEvent, client_area, first_app_child, name_order, region_rects, Area, AreaRegistry, ClientArea};
use std::cmp::Ordering;

fn area(drawable: u32) -> Area {
    Area {
        drawable,
        position: (0, 0),
        size: (10, 10),
        mapped: false,
        is_app: true,
        name: format!("win{drawable}"),
    }
}

#[test]
fn first_free_identifiers() {
    let mut r = AreaRegistry::new();
    assert!(r.should_create(1, 100));
    assert!(!r.should_create(100, 100));
    assert_eq!(r.insert_first_free(area(100)), 0);
    assert_eq!(r.insert_first_free(area(101)), 1);
    assert_eq!(r.insert_first_free(area(102)), 2);
    assert!(!r.should_create(1, 101));
    assert!(r.destroy_area(101));
    assert!(!r.destroy_area(101));
    assert!(r.get(1).is_none());
    assert_eq!(r.insert_first_free(area(103)), 1);
    assert_eq!(r.find_window(103), Some(1));
    assert_eq!(r.find_window(102), Some(2));
    assert_eq!(r.slot_count(), 3);
}

#[test]
fn map_and_move() {
    let mut r = AreaRegistry::new();
    r.insert_first_free(area(7));
    assert!(r.map_area(7, true));
    assert!(r.get(0).unwrap().mapped);
    assert!(r.update_area(7, -3, 4, 640, 480));
    let a = r.get(0).unwrap();
    assert_eq!((a.position, a.size, a.mapped), ((-3, 4), (640, 480), true));
    assert_eq!(a.name, "win7");
    assert!(!r.map_area(8, true));
    assert!(!r.update_area(8, 0, 0, 1, 1));
}

#[test]
fn reparenting_removes_the_child() {
    let mut r = AreaRegistry::new();
    r.insert_first_free(area(1));
    r.insert_first_free(area(2));
    assert!(!r.reparent_window(1, 3));
    assert!(r.reparent_window(2, 1));
    assert!(r.find_window(2).is_none());
    assert_eq!(r.find_window(1), Some(0));
}

fn named(drawable: u32, name: &str) -> Area {
    Area {
        drawable,
        position: (0, 0),
        size: (10, 10),
        mapped: false,
        is_app: true,
        name: name.to_string(),
    }
}

#[test]
fn areas_ordered_by_window_first() {
    let a = named(1, "zz");
    let b = named(2, "aa");
    assert_eq!(a.cmp(&b), Ordering::Less);
    assert_eq!(b.cmp(&a), Ordering::Greater);
    assert_eq!(a.partial_cmp(&b), Some(Ordering::Less));
}

#[test]
fn areas_ordered_by_size_then_position() {
    let mut a = named(1, "x");
    let mut b = named(1, "x");
    a.size = (10, 20);
    b.size = (10, 30);
    b.position = (-5, -5);
    assert_eq!(a.cmp(&b), Ordering::Less);
    b.size = (10, 20);
    assert_eq!(a.cmp(&b), Ordering::Greater);
    a.position = (-5, -6);
    assert_eq!(a.cmp(&b), Ordering::Less);
}

#[test]
fn areas_ordered_by_flags_then_name() {
    let mut a = named(1, "abc");
    let b = named(1, "abd");
    assert_eq!(a.cmp(&b), Ordering::Less);
    a.mapped = true;
    assert_eq!(a.cmp(&b), Ordering::Greater);
    a.mapped = false;
    a.is_app = false;
    assert_eq!(a.cmp(&b), Ordering::Less);
    let c = named(1, "abc");
    let d = named(1, "abc");
    assert_eq!(c.cmp(&d), Ordering::Equal);
}

#[test]
fn names_ordered_like_std_strings() {
    let cases = [("", ""), ("", "a"), ("ab", "abc"), ("b", "abc"), ("é", "z"), ("z", "é"), ("Ab", "ab")];
    for (x, y) in cases {
        assert_eq!(name_order(x, y), x.cmp(y), "{x} vs {y}");
        assert_eq!(name_order(y, x), y.cmp(x), "{y} vs {x}");
    }
}

#[test]
fn shape_of_mapped_areas_by_identifier() {
    let mut r = AreaRegistry::new();
    let mut a = named(1, "a");
    a.mapped = true;
    a.position = (-3, 4);
    a.size = (100, 50);
    let b = named(2, "b");
    let mut c = named(3, "c");
    c.mapped = true;
    c.position = (10, 20);
    c.size = (30, 40);
    r.insert_first_free(a);
    r.insert_first_free(b);
    r.insert_first_free(c);
    assert_eq!(r.mapped_rectangles(), vec![(-3, 4, 100, 50), (10, 20, 30, 40)]);
}

#[test]
fn clip_region_has_border() {
    let mut a = named(1, "a");
    a.mapped = true;
    a.position = (-10, 5);
    a.size = (100, 50);
    let b = named(2, "b");
    assert_eq!(region_rects(&[a, b]), vec![(-7, 8, 93, 58)]);
    assert!(region_rects(&[]).is_empty());
}

#[test]
fn updates_list_every_area_by_identifier() {
    let mut r = AreaRegistry::new();
    let mut a = named(5, "first");
    a.position = (-2, 3);
    a.size = (40, 30);
    a.mapped = true;
    r.insert_first_free(a);
    r.insert_first_free(named(6, "second"));
    r.insert_first_free(named(7, "third"));
    assert!(r.destroy_area(6));
    let u = r.updates();
    assert_eq!(u.len(), 2);
    assert_eq!((u[0].id, u[0].x, u[0].y, u[0].width, u[0].height), (0, -2, 3, 40, 30));
    assert!(u[0].mapped && u[0].is_app);
    assert_eq!(u[0].name, "first");
    assert_eq!(u[1].id, 2);
    assert_eq!(u[1].name, "third");
}

#[test]
fn client_knows_server_areas() {
    let mut r = AreaRegistry::new();
    let mut a = named(5, "first");
    a.position = (-32768, 32767);
    a.size = (65535, 1);
    a.mapped = true;
    r.insert_first_free(a);
    let u = r.updates();
    assert_eq!(
        client_area(&u[0]),
        ClientArea { id: 0, size: (65535, 1), position: (-32768, 32767), mapped: true }
    );
}

fn carea(id: usize, mapped: bool) -> ClientArea {
    ClientArea { id, size: (10, 10), position: (0, 0), mapped }
}

#[test]
fn area_changes_by_identifier() {
    let cur = [carea(1, true), carea(2, true), carea(3, false)];
    assert_eq!(area_changes(&cur, &cur), None);
    let new = [carea(2, false), carea(3, false), carea(4, true), carea(5, true)];
    assert_eq!(area_changes(&cur, &new), Some((vec![4, 5], vec![1])));
    // A change of an existing area only: nothing to create or delete.
    let moved = [carea(1, true), carea(2, false), carea(3, false)];
    assert_eq!(area_changes(&cur, &moved), Some((vec![], vec![])));
    assert_eq!(area_changes(&[], &[]), None);
}

#[test]
fn application_child_is_the_first_listed() {
    assert_eq!(first_app_child(&[5, 7, 9], &[9, 7]), Some(7));
    assert_eq!(first_app_child(&[5, 6], &[9, 7]), None);
    assert_eq!(first_app_child(&[], &[1]), None);
}

#[test]
fn window_events_drive_the_areas() {
    let root = 1;
    let mut r = AreaRegistry::new();
    // The root window never gets an area; a new window needs its attributes.
    assert_eq!(r.area_needed(root, &ServerWindowEvent::Created { window: root }), None);
    let created = ServerWindowEvent::Created { window: 10 };
    assert_eq!(r.area_needed(root, &created), Some(10));
    assert_eq!(r.on_event(root, &created, Some(named(10, "ten"))), (true, false));
    assert_eq!(r.area_needed(root, &created), None);
    // Mapping a known window maps its area.
    assert_eq!(r.on_event(root, &ServerWindowEvent::Mapped { window: 10 }, None), (true, false));
    assert!(r.get(0).unwrap().mapped);
    // Mapping an unknown window whose attributes could not be read changes nothing.
    let mapped = ServerWindowEvent::Mapped { window: 11 };
    assert_eq!(r.area_needed(root, &mapped), Some(11));
    assert_eq!(r.on_event(root, &mapped, None), (false, false));
    // With its attributes, it gets the next identifier, mapped.
    assert_eq!(r.on_event(root, &mapped, Some(named(11, "eleven"))), (true, false));
    assert!(r.get(1).unwrap().mapped);
    let configured = ServerWindowEvent::Configured { window: 11, x: -5, y: 6, width: 70, height: 80 };
    assert_eq!(r.on_event(root, &configured, None), (true, false));
    assert_eq!((r.get(1).unwrap().position, r.get(1).unwrap().size), ((-5, 6), (70, 80)));
    assert_eq!(r.on_event(root, &ServerWindowEvent::Unmapped { window: 11 }, None), (true, false));
    assert!(!r.get(1).unwrap().mapped);
    assert_eq!(r.on_event(root, &ServerWindowEvent::Reparented { window: 10, parent: 99 }, None), (false, false));
    assert_eq!(r.on_event(root, &ServerWindowEvent::Reparented { window: 10, parent: 11 }, None), (true, false));
    assert!(r.get(0).is_none());
    assert_eq!(r.on_event(root, &ServerWindowEvent::Destroyed { window: 11 }, None), (true, false));
    assert_eq!(r.on_event(root, &ServerWindowEvent::Destroyed { window: 11 }, None), (false, false));
    assert_eq!(r.on_event(root, &ServerWindowEvent::Damage, None), (false, true));
    assert_eq!(r.on_event(root, &ServerWindowEvent::ClientMessage, None), (true, false));
    assert_eq!(r.on_event(root, &ServerWindowEvent::Other, None), (false, false));
}

#[test]
fn screen_scan_at_start() {
    let mut r = AreaRegistry::new();
    let apps = [10u32, 20];
    assert!(r.scan_wants_app(&apps, 10, 11));
    assert!(!r.scan_wants_app(&apps, 30, 31));
    let mut tiny = area(11);
    tiny.size = (1, 50);
    assert_eq!(r.add_scanned_app(tiny), None);
    assert_eq!(r.add_scanned_app(area(11)), Some(0));
    assert!(!r.scan_wants_app(&apps, 10, 11));
    assert_eq!(r.add_scanned_app(area(11)), None);
    assert!(r.scan_wants_child(40, true, true));
    assert!(!r.scan_wants_child(40, false, true));
    assert!(!r.scan_wants_child(40, true, false));
    assert!(!r.scan_wants_child(11, true, true));
    let mut small = area(40);
    small.size = (1, 1);
    assert_eq!(r.add_scanned_child(small), Some(1));
    assert_eq!(r.add_scanned_child(area(40)), None);
    assert_eq!(r.find_window(40), Some(1));
}

#[test]
fn created_window_takes_least_free_identifier() {
    let root = 1;
    let mut r = AreaRegistry::new();
    for w in [10u32, 11, 12] {
        assert_eq!(r.on_event(root, &ServerWindowEvent::Created { window: w }, Some(area(w))), (true, false));
    }
    assert_eq!(r.on_event(root, &ServerWindowEvent::Destroyed { window: 11 }, None), (true, false));
    // root, known window and unreadable attributes: nothing made
    assert_eq!(r.on_event(root, &ServerWindowEvent::Created { window: root }, None), (false, false));
    assert_eq!(r.on_event(root, &ServerWindowEvent::Created { window: 12 }, None), (false, false));
    assert_eq!(r.on_event(root, &ServerWindowEvent::Created { window: 20 }, None), (false, false));
    assert!(r.get(1).is_none());
    // the hole left by window 11 is the least free identifier
    assert_eq!(r.on_event(root, &ServerWindowEvent::Created { window: 20 }, Some(area(20))), (true, false));
    assert_eq!(r.find_window(20), Some(1));
    assert_eq!(r.on_event(root, &ServerWindowEvent::Created { window: 21 }, Some(area(21))), (true, false));
    assert_eq!(r.find_window(21), Some(3));
}
