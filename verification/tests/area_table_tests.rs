use sanzu::area_table::AreaTable;
use sanzu::areas::ClientArea;

fn area(id: usize, w: u16) -> ClientArea {
    ClientArea { id, size: (w, 10), position: (0, 0), mapped: true }
}

#[test]
fn last_update_per_id_sorted_by_id() {
    let mut t = AreaTable::new();
    t.update_all(&[area(5, 1), area(2, 1), area(5, 7), area(9, 3)]);
    assert_eq!(t.sorted(), &[area(2, 1), area(5, 7), area(9, 3)]);
    t.update(area(2, 4));
    t.update(area(0, 8));
    assert_eq!(t.sorted(), &[area(0, 8), area(2, 4), area(5, 7), area(9, 3)]);
}

#[test]
fn window_changes_of_the_table() {
    let mut t = AreaTable::new();
    assert!(t.changes_from(&[]).is_none());
    t.update_all(&[area(3, 1), area(1, 1)]);
    let shown = [area(1, 1), area(4, 1)];
    let (added, removed) = t.changes_from(&shown).unwrap();
    assert_eq!(added, vec![3]);
    assert_eq!(removed, vec![4]);
    assert!(t.changes_from(&[area(1, 1), area(3, 1)]).is_none());
}
