use passwords::navigation::{SelectedEntry, SelectedField};

#[test]
fn entry_increment_walks_down_then_wraps() {
    let mut s = SelectedEntry::Entry(0);
    s.increment(2);
    assert_eq!(s, SelectedEntry::Entry(1));
    s.increment(2);
    assert_eq!(s, SelectedEntry::New);
    s.increment(2);
    assert_eq!(s, SelectedEntry::Entry(0));
}

#[test]
fn entry_decrement_walks_up_then_wraps() {
    let mut s = SelectedEntry::Entry(1);
    s.decriment(2);
    assert_eq!(s, SelectedEntry::Entry(0));
    s.decriment(2);
    assert_eq!(s, SelectedEntry::New);
    s.decriment(2);
    assert_eq!(s, SelectedEntry::Entry(1));
}

#[test]
fn entry_moves_in_empty_vault_stay_on_new() {
    let mut s = SelectedEntry::New;
    s.increment(0);
    assert_eq!(s, SelectedEntry::New);
    s.decriment(0);
    assert_eq!(s, SelectedEntry::New);
}

#[test]
fn entry_moves_undo_each_other_on_every_row() {
    let n = 4;
    let mut rows: Vec<SelectedEntry> = (0..n).map(SelectedEntry::Entry).collect();
    rows.push(SelectedEntry::New);
    for start in rows {
        let mut s = start;
        s.increment(n);
        s.decriment(n);
        assert_eq!(s, start);
        s.decriment(n);
        s.increment(n);
        assert_eq!(s, start);
    }
}

#[test]
fn entry_list_cycle_has_one_row_per_entry_and_new() {
    let n = 3;
    let mut s = SelectedEntry::Entry(1);
    for _ in 0..(n + 1) {
        s.increment(n);
    }
    assert_eq!(s, SelectedEntry::Entry(1));
}

#[test]
fn unwrap_entry_gives_index() {
    assert_eq!(SelectedEntry::Entry(7).unwrap_entry(), 7);
}

#[test]
fn field_increment_order() {
    let mut s = SelectedField::Password;
    s.increment(2);
    assert_eq!(s, SelectedField::Field(0));
    s.increment(2);
    assert_eq!(s, SelectedField::Field(1));
    s.increment(2);
    assert_eq!(s, SelectedField::New);
    s.increment(2);
    assert_eq!(s, SelectedField::Password);
}

#[test]
fn field_increment_without_fields() {
    let mut s = SelectedField::Password;
    s.increment(0);
    assert_eq!(s, SelectedField::New);
    s.increment(0);
    assert_eq!(s, SelectedField::Password);
}

#[test]
fn field_decrement_order() {
    let mut s = SelectedField::Password;
    s.decriment(2);
    assert_eq!(s, SelectedField::New);
    s.decriment(2);
    assert_eq!(s, SelectedField::Field(1));
    s.decriment(2);
    assert_eq!(s, SelectedField::Field(0));
    s.decriment(2);
    assert_eq!(s, SelectedField::Password);
    let mut e = SelectedField::New;
    e.decriment(0);
    assert_eq!(e, SelectedField::Password);
}

#[test]
fn field_moves_undo_each_other_on_every_row() {
    let n = 3;
    let mut rows = vec![SelectedField::Password, SelectedField::New];
    rows.extend((0..n).map(SelectedField::Field));
    for start in rows {
        let mut s = start;
        s.increment(n);
        s.decriment(n);
        assert_eq!(s, start);
        s.decriment(n);
        s.increment(n);
        assert_eq!(s, start);
    }
}

#[test]
fn unwrap_field_gives_index() {
    assert_eq!(SelectedField::Field(3).unwrap_field(), 3);
}
