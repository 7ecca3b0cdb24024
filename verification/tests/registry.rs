use fae::InvalidHandle;
use fae::Model;

fn empty() -> Model<u32, u64> {
    Model::new(Vec::new(), Vec::new())
}

#[test]
fn insert_three_visible_then_remove_middle() {
    let mut m = empty();
    let h0 = m.insert_visibly(10);
    let h1 = m.insert_visibly(11);
    let h2 = m.insert_visibly(12);
    assert_eq!((h0, h1, h2), (0, 1, 2));
    assert_eq!(m.len(), 3);
    assert_eq!(m.first_invisible(), 3);

    assert_eq!(m.remove(1), Ok(11));

    assert_eq!(m.len(), 2);
    assert_eq!(m.first_invisible(), 2);
    assert_eq!(m.is_visible(0), Ok(true));
    assert_eq!(m.is_visible(2), Ok(true));
    assert_eq!(m.is_visible(1), Err(InvalidHandle));
    assert_eq!(m.get(0), Some(&10));
    assert_eq!(m.get(2), Some(&12));
    assert_eq!(m.get(1), None);
}

#[test]
fn insert_starts_invisible() {
    let mut m = empty();
    let h = m.insert(42);
    assert_eq!(h, 0);
    assert_eq!(m.len(), 1);
    assert_eq!(m.first_invisible(), 0);
    assert_eq!(m.is_visible(h), Ok(false));
    assert_eq!(m.get(h), Some(&42));
}

#[test]
fn visibility_round_trip_restores_state() {
    let mut m = empty();
    let a = m.insert_visibly(1);
    let b = m.insert(2);
    let c = m.insert(3);
    let fi = m.first_invisible();
    assert_eq!(fi, 1);
    assert_eq!(m.is_visible(b), Ok(false));

    assert_eq!(m.make_visible(b), Ok(()));
    assert_eq!(m.first_invisible(), 2);
    assert_eq!(m.is_visible(b), Ok(true));

    assert_eq!(m.make_invisible(b), Ok(()));
    assert_eq!(m.first_invisible(), fi);
    assert_eq!(m.is_visible(a), Ok(true));
    assert_eq!(m.is_visible(b), Ok(false));
    assert_eq!(m.is_visible(c), Ok(false));
    assert_eq!(m.get(a), Some(&1));
    assert_eq!(m.get(b), Some(&2));
    assert_eq!(m.get(c), Some(&3));
}

#[test]
fn make_visible_is_noop_when_already_visible() {
    let mut m = empty();
    let h = m.insert_visibly(9);
    assert_eq!(m.make_visible(h), Ok(()));
    assert_eq!(m.first_invisible(), 1);
    assert_eq!(m.is_visible(h), Ok(true));
}

#[test]
fn make_invisible_is_noop_when_already_invisible() {
    let mut m = empty();
    let h = m.insert(9);
    assert_eq!(m.make_invisible(h), Ok(()));
    assert_eq!(m.first_invisible(), 0);
    assert_eq!(m.is_visible(h), Ok(false));
}

#[test]
fn unknown_handles_are_reported() {
    let mut m = empty();
    assert_eq!(m.get(0), None);
    assert_eq!(m.is_visible(0), Err(InvalidHandle));
    assert_eq!(m.make_visible(7), Err(InvalidHandle));
    assert_eq!(m.make_invisible(7), Err(InvalidHandle));
    assert_eq!(m.remove(7), Err(InvalidHandle));
    assert_eq!(m.update_record(7, 1), Err(InvalidHandle));
    assert_eq!(m.swap_by_handle(0, 1), Err(InvalidHandle));
}

#[test]
fn handles_are_never_reused() {
    let mut m = empty();
    let h0 = m.insert(5);
    assert_eq!(h0, 0);
    assert_eq!(m.remove(h0), Ok(5));
    let h1 = m.insert(6);
    assert_eq!(h1, 1);
    assert_eq!(m.next_handle(), 2);
    assert_eq!(m.get(h0), None);
    assert_eq!(m.get(h1), Some(&6));
}

#[test]
fn removing_one_handle_leaves_the_others_alone() {
    let mut m = empty();
    let a = m.insert_visibly(100);
    let b = m.insert(200);
    let c = m.insert_visibly(300);
    let d = m.insert(400);
    assert_eq!(m.remove(c), Ok(300));
    assert_eq!(m.is_visible(a), Ok(true));
    assert_eq!(m.is_visible(b), Ok(false));
    assert_eq!(m.is_visible(d), Ok(false));
    assert_eq!(m.get(a), Some(&100));
    assert_eq!(m.get(b), Some(&200));
    assert_eq!(m.get(d), Some(&400));
    assert_eq!(m.first_invisible(), 1);
    assert_eq!(m.len(), 3);
}

#[test]
fn update_record_changes_only_its_handle() {
    let mut m = empty();
    let a = m.insert_visibly(1);
    let b = m.insert(2);
    assert_eq!(m.update_record(b, 20), Ok(()));
    assert_eq!(m.get(a), Some(&1));
    assert_eq!(m.get(b), Some(&20));
    assert_eq!(m.is_visible(b), Ok(false));
}

#[test]
fn swap_by_handle_trades_visibility_and_keeps_records() {
    let mut m = empty();
    let a = m.insert_visibly(1);
    let b = m.insert(2);
    assert_eq!(m.swap_by_handle(a, b), Ok(()));
    assert_eq!(m.is_visible(a), Ok(false));
    assert_eq!(m.is_visible(b), Ok(true));
    assert_eq!(m.get(a), Some(&1));
    assert_eq!(m.get(b), Some(&2));
    assert_eq!(m.first_invisible(), 1);
}

#[test]
fn records_expose_the_visible_prefix() {
    let mut m = empty();
    let _a = m.insert_visibly(1);
    let b = m.insert(2);
    let _c = m.insert_visibly(3);
    // slots: the two visible records first, then the invisible one
    let fi = m.first_invisible();
    assert_eq!(fi, 2);
    let records = m.records();
    assert_eq!(records.len(), 3);
    for r in &records[..fi] {
        assert!(*r == 1 || *r == 3);
    }
    assert_eq!(records[fi], 2);
    let _ = b;
}

#[test]
fn geometry_is_kept() {
    let m: Model<u32, u64> = Model::new(vec![7, 8, 9], vec![0, 1, 2, 0]);
    assert_eq!(m.vertex_data().as_slice(), &[7, 8, 9]);
    assert_eq!(m.index_data().as_slice(), &[0, 1, 2, 0]);
}
