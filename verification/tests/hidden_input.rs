use passwords::hidden_input::{HiddenLine, KeyEffect};

#[test]
fn line_mode_keys() {
    let mut line = HiddenLine::new();
    assert_eq!(line.feed_line(0x7f), KeyEffect::Ignored);
    assert_eq!(line.feed_line(b'a'), KeyEffect::Echoed);
    assert_eq!(line.feed_line(b' '), KeyEffect::Echoed);
    assert_eq!(line.feed_line(b'b'), KeyEffect::Echoed);
    assert_eq!(line.feed_line(0x7f), KeyEffect::Erased);
    assert_eq!(line.feed_line(0x07), KeyEffect::Ignored);
    assert_eq!(line.feed_line(0xc3), KeyEffect::Ignored);
    assert_eq!(line.bytes(), &b"a ".to_vec());
    assert_eq!(line.feed_line(0x1b), KeyEffect::Escaped);
    assert_eq!(line.feed_line(b'\n'), KeyEffect::Finished);
    assert_eq!(line.bytes(), &b"a ".to_vec());
}

#[test]
fn prompt_mode_keys() {
    let mut line = HiddenLine::new();
    assert_eq!(line.feed_prompt(0x7f), KeyEffect::Ignored);
    assert_eq!(line.feed_prompt(b'x'), KeyEffect::Echoed);
    assert_eq!(line.feed_prompt(b' '), KeyEffect::Ignored);
    assert_eq!(line.feed_prompt(b'y'), KeyEffect::Echoed);
    assert_eq!(line.feed_prompt(0x7f), KeyEffect::Erased);
    assert_eq!(line.bytes(), &b"x".to_vec());
    assert_eq!(line.feed_prompt(0x1b), KeyEffect::Escaped);
    assert_eq!(line.feed_prompt(b'\n'), KeyEffect::Finished);
}

#[test]
fn delete_undoes_last_character() {
    let mut a = HiddenLine::new();
    let mut b = HiddenLine::new();
    for k in b"pass" {
        a.feed_line(*k);
        b.feed_line(*k);
    }
    b.feed_line(b'!');
    b.feed_line(0x7f);
    assert_eq!(a.bytes(), b.bytes());
}
