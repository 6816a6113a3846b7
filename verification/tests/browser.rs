use passwords::browser::{Key, KeyDecoder, KeyOutcome, Selection, TuiState};
use passwords::navigation::{SelectedEntry, SelectedField};
use passwords::vault::Entry;

fn feed_all(d: &mut KeyDecoder, bytes: &[u8]) -> Vec<Key> {
    bytes.iter().filter_map(|b| d.feed(*b)).collect()
}

#[test]
fn decoder_reads_arrows_and_plain_keys() {
    let mut d = KeyDecoder::Ground;
    let keys = feed_all(&mut d, b"\x1b[A\x1b[B\x1b[C\x1b[Dz\n\x7f\x01\x1b[Z ");
    assert_eq!(
        keys,
        vec![
            Key::Up,
            Key::Down,
            Key::Right,
            Key::Left,
            Key::Char(b'z'),
            Key::Enter,
            Key::Delete
        ]
    );
    assert_eq!(d, KeyDecoder::Ground);
}

#[test]
fn decoder_uses_third_byte_of_escape_sequence() {
    let mut d = KeyDecoder::Ground;
    assert_eq!(d.feed(0x1b), None);
    assert_eq!(d, KeyDecoder::AfterEscape);
    assert_eq!(d.feed(b'O'), None);
    assert_eq!(d, KeyDecoder::AwaitingArrow);
    assert_eq!(d.feed(b'B'), Some(Key::Down));
}

#[test]
fn new_state_selects_first_entry_or_new() {
    assert_eq!(TuiState::new(0).selected_entry(), SelectedEntry::New);
    assert_eq!(TuiState::new(3).selected_entry(), SelectedEntry::Entry(0));
    assert!(TuiState::new(3).search().is_none());
    assert!(TuiState::new(3).open_entry().is_none());
}

#[test]
fn search_line_typing_and_deleting() {
    let mut s = TuiState::new(1);
    assert_eq!(s.apply_key(Key::Char(b'/'), 1), KeyOutcome::Redraw);
    s.apply_key(Key::Char(b'e'), 1);
    assert_eq!(s.search(), Some(&b"/e".to_vec()));
    s.apply_key(Key::Delete, 1);
    assert_eq!(s.search(), Some(&b"/".to_vec()));
    s.apply_key(Key::Delete, 1);
    assert!(s.search().is_none());
    s.apply_key(Key::Delete, 1);
    assert!(s.search().is_none());
}

#[test]
fn arrows_move_entry_selection() {
    let mut s = TuiState::new(2);
    s.apply_key(Key::Down, 2);
    assert_eq!(s.selected_entry(), SelectedEntry::Entry(1));
    s.apply_key(Key::Down, 2);
    assert_eq!(s.selected_entry(), SelectedEntry::New);
    s.apply_key(Key::Up, 2);
    assert_eq!(s.selected_entry(), SelectedEntry::Entry(1));
    assert_eq!(s.apply_key(Key::Right, 2), KeyOutcome::Select);
    assert_eq!(s.apply_key(Key::Enter, 2), KeyOutcome::Select);
}

fn typed(s: &mut TuiState, text: &[u8], n: usize) {
    for b in text {
        s.apply_key(Key::Char(*b), n);
    }
}

#[test]
fn choosing_rows_without_an_open_entry() {
    let mut s = TuiState::new(2);
    assert_eq!(s.plan_select(2), Selection::OpenEntry(0));
    typed(&mut s, b"/edit", 2);
    assert_eq!(s.plan_select(2), Selection::RenameEntry(0));
    assert!(s.search().is_none());
    typed(&mut s, b"/edi", 2);
    assert_eq!(s.plan_select(2), Selection::OpenEntry(0));
    assert_eq!(s.search(), Some(&b"/edi".to_vec()));
    s.apply_key(Key::Up, 2);
    assert_eq!(s.selected_entry(), SelectedEntry::New);
    typed(&mut s, b"t", 2);
    assert_eq!(s.plan_select(2), Selection::CreateEntry);
    assert_eq!(s.search(), Some(&b"/edit".to_vec()));
}

fn opened_state() -> TuiState {
    let mut s = TuiState::new(2);
    s.apply_key(Key::Down, 2);
    assert_eq!(s.plan_select(2), Selection::OpenEntry(1));
    let mut e = Entry::new("secret".to_string());
    e.push_field("user".to_string(), "abe".to_string());
    s.open(e);
    s
}

#[test]
fn choosing_rows_of_an_open_entry() {
    let mut s = opened_state();
    assert_eq!(s.selected_field(), Some(SelectedField::Password));
    assert_eq!(s.plan_select(2), Selection::Reveal(SelectedField::Password));
    s.apply_key(Key::Down, 2);
    assert_eq!(s.selected_field(), Some(SelectedField::Field(0)));
    assert_eq!(s.selected_entry(), SelectedEntry::Entry(1));
    typed(&mut s, b"/edit", 2);
    assert_eq!(
        s.plan_select(2),
        Selection::EditField { entry: 1, field: SelectedField::Field(0) }
    );
    assert!(s.search().is_none());
    s.apply_key(Key::Down, 2);
    assert_eq!(s.selected_field(), Some(SelectedField::New));
    assert_eq!(s.plan_select(2), Selection::AddField { entry: 1 });
    s.apply_key(Key::Left, 2);
    assert!(s.open_entry().is_none());
    assert_eq!(s.selected_field(), None);
    assert_eq!(s.selected_entry(), SelectedEntry::Entry(1));
}

#[test]
fn editing_the_open_entry() {
    let mut s = opened_state();
    assert!(!s.field_name_editable());
    assert!(!s.set_field_name("x".to_string()));
    assert!(s.set_field_value("hunter2".to_string()));
    assert_eq!(s.open_entry().unwrap().password(), "hunter2");
    assert!(!s.set_field_value(String::new()));
    s.apply_key(Key::Down, 2);
    assert!(s.field_name_editable());
    assert!(!s.set_field_name(String::new()));
    assert!(s.set_field_name("login".to_string()));
    assert!(s.set_field_value("bob".to_string()));
    assert_eq!(
        *s.open_entry().unwrap().fields(),
        vec![("login".to_string(), "bob".to_string())]
    );
    s.apply_key(Key::Down, 2);
    assert!(!s.set_field_value("v".to_string()));
    assert!(!s.add_field(String::new(), "x".to_string()));
    assert!(s.add_field("site".to_string(), "x.org".to_string()));
    assert_eq!(s.open_entry().unwrap().fields().len(), 2);
    assert_eq!(s.selected_field(), Some(SelectedField::New));
    let mut again = Entry::new("hunter2".to_string());
    again.push_field("a".to_string(), "b".to_string());
    again.push_field("c".to_string(), "d".to_string());
    s.replace_open_entry(again);
    assert_eq!(s.open_entry().unwrap().fields()[1].0, "c");
    assert_eq!(s.selected_field(), Some(SelectedField::New));
}

#[test]
fn answers_must_not_be_empty() {
    assert!(passwords::browser::answer_given(&"x".to_string()));
    assert!(!passwords::browser::answer_given(&String::new()));
}

#[test]
fn one_step_applies_key_and_plans_choice() {
    let mut s = TuiState::new(2);
    assert_eq!(s.step(Key::Down, 2), None);
    assert_eq!(s.selected_entry(), SelectedEntry::Entry(1));
    for b in b"/edit" {
        assert_eq!(s.step(Key::Char(*b), 2), None);
    }
    assert_eq!(s.step(Key::Enter, 2), Some(Selection::RenameEntry(1)));
    assert!(s.search().is_none());
    assert_eq!(s.step(Key::Right, 2), Some(Selection::OpenEntry(1)));
    s.open(Entry::new("pw".to_string()));
    assert_eq!(s.step(Key::Down, 2), None);
    assert_eq!(s.selected_field(), Some(SelectedField::New));
    assert_eq!(s.step(Key::Enter, 2), Some(Selection::AddField { entry: 1 }));
    assert_eq!(s.step(Key::Left, 2), None);
    assert!(s.open_entry().is_none());
}

#[test]
fn replacement_entry_must_hold_the_selected_field() {
    let mut s = opened_state();
    s.apply_key(Key::Down, 2);
    assert_eq!(s.selected_field(), Some(SelectedField::Field(0)));
    assert!(!s.fits_open_entry(&Entry::new("x".to_string())));
    let mut e = Entry::new("x".to_string());
    e.push_field("a".to_string(), "b".to_string());
    assert!(s.fits_open_entry(&e));
    assert!(!TuiState::new(2).fits_open_entry(&e));
}
