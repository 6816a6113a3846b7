use passwords::browser::{Key, TuiState};
use passwords::screen::{render, Palette};
use passwords::vault::{Data, Entry};

fn palette() -> Palette {
    Palette {
        new_entry_selected: b"[NS]".to_vec(),
        new_entry: b"[N]".to_vec(),
        selected: b"[S]".to_vec(),
        password_selected: b"[PS]".to_vec(),
        password: b"[P]".to_vec(),
        new_field_selected: b"[FS]".to_vec(),
        new_field: b"[F]".to_vec(),
    }
}

fn vault(names: &[&str]) -> Data {
    let mut d = Data::new([0; 64]);
    for n in names {
        d.push_entry(n.to_string(), vec![0; 16]);
    }
    d
}

fn text(bytes: Vec<u8>) -> String {
    String::from_utf8(bytes).unwrap()
}

#[test]
fn empty_vault_screen() {
    let d = vault(&[]);
    let s = TuiState::new(0);
    let out = text(render(&s, &d, 3, 2, &palette()));
    assert_eq!(
        out,
        "\x1b[H\x1b[0J\x1b[H/edit to edit\x1b[2;0H---\n[NS]new\x1b[0m\n\x1b[0;0H"
    );
}

#[test]
fn list_with_selected_first_entry() {
    let d = vault(&["a", "b"]);
    let s = TuiState::new(2);
    let out = text(render(&s, &d, 4, 10, &palette()));
    assert_eq!(
        out,
        "\x1b[H\x1b[0J\x1b[H/edit to edit\x1b[2;0H----\n[S]a\x1b[0m\nb\n[N]new\x1b[0m\n\x1b[0;0H"
    );
}

#[test]
fn selected_new_row_and_search_line() {
    let d = vault(&["é"]);
    let mut s = TuiState::new(1);
    s.apply_key(Key::Up, 1);
    s.apply_key(Key::Char(b'q'), 1);
    let out = text(render(&s, &d, 0, 24, &palette()));
    assert_eq!(
        out,
        "\x1b[H\x1b[0J\x1b[Hq\x1b[2;0H\né\n[NS]new\x1b[0m\n\x1b[0;2H"
    );
}

#[test]
fn opened_entry_pane() {
    let d = vault(&["a", "b"]);
    let mut s = TuiState::new(2);
    s.plan_select(2);
    let mut e = Entry::new("pw".to_string());
    e.push_field("user".to_string(), "u".to_string());
    s.open(e);
    s.apply_key(Key::Down, 2);
    s.apply_key(Key::Char(b'x'), 2);
    let out = text(render(&s, &d, 10, 10, &palette()));
    assert_eq!(
        out,
        "\x1b[H\x1b[0J\x1b[Hx\x1b[2;0H----------\n[S]a\x1b[0m\nb\n[N]new\x1b[0m\n\
         \x1b[3;5H[P]Password\x1b[0m\n\x1b[5G[S]user\x1b[0m\n\x1b[5G[F]new\x1b[0m\n\x1b[0;2H"
    );
}

fn long_vault() -> Data {
    let names: Vec<String> = (0..20).map(|i| i.to_string()).collect();
    let refs: Vec<&str> = names.iter().map(|s| s.as_str()).collect();
    vault(&refs)
}

#[test]
fn window_of_a_long_list_keeps_the_selection_in_view() {
    let d = long_vault();
    let mut s = TuiState::new(20);
    for _ in 0..7 {
        s.apply_key(Key::Down, 20);
    }
    let out = text(render(&s, &d, 1, 10, &palette()));
    // Five rows fit; the usual window (from entry 2) would end before entry 7, so it moves
    // down just enough to end with it.
    assert_eq!(
        out,
        "\x1b[H\x1b[0J\x1b[H/edit to edit\x1b[2;0H-\n3\n4\n5\n6\n[S]7\x1b[0m\n\x1b[0;0H"
    );
}

#[test]
fn window_ends_with_new_when_new_is_selected() {
    let d = long_vault();
    let mut s = TuiState::new(20);
    s.apply_key(Key::Up, 20);
    let out = text(render(&s, &d, 1, 10, &palette()));
    assert_eq!(
        out,
        "\x1b[H\x1b[0J\x1b[H/edit to edit\x1b[2;0H-\n16\n17\n18\n19\n[NS]new\x1b[0m\n\x1b[0;0H"
    );
}

#[test]
fn one_row_window_shows_the_selected_entry() {
    let d = vault(&["a", "b", "c"]);
    let mut s = TuiState::new(3);
    s.apply_key(Key::Down, 3);
    let out = text(render(&s, &d, 0, 6, &palette()));
    assert_eq!(
        out,
        "\x1b[H\x1b[0J\x1b[H/edit to edit\x1b[2;0H\n[S]b\x1b[0m\n\x1b[0;0H"
    );
}

#[test]
fn every_selection_is_drawn_on_a_short_screen() {
    let d = long_vault();
    let mut s = TuiState::new(20);
    for step in 0..21 {
        let out = text(render(&s, &d, 0, 8, &palette()));
        let shown = if step < 20 { format!("[S]{step}\x1b[0m\n") } else { "[NS]new".to_string() };
        assert!(out.contains(&shown), "{step}: {out:?}");
        s.apply_key(Key::Down, 20);
    }
}

#[test]
fn usual_window_kept_when_it_shows_the_selection() {
    let d = vault(&["a", "b", "c", "d", "e"]);
    let mut s = TuiState::new(5);
    for _ in 0..4 {
        s.apply_key(Key::Down, 5);
    }
    let out = text(render(&s, &d, 0, 24, &palette()));
    assert_eq!(
        out,
        "\x1b[H\x1b[0J\x1b[H/edit to edit\x1b[2;0H\na\nb\nc\nd\n[S]e\x1b[0m\n[N]new\x1b[0m\n\x1b[0;0H"
    );
}

#[test]
fn usual_window_starts_at_the_top_while_the_selection_is_near_it() {
    let d = long_vault();
    let mut s = TuiState::new(20);
    for _ in 0..4 {
        s.apply_key(Key::Down, 20);
    }
    let out = text(render(&s, &d, 0, 10, &palette()));
    assert_eq!(
        out,
        "\x1b[H\x1b[0J\x1b[H/edit to edit\x1b[2;0H\n0\n1\n2\n3\n[S]4\x1b[0m\n\x1b[0;0H"
    );
}
