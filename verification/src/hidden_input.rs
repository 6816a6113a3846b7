//! Typing a secret without showing it: each key press either adds a character (shown as
//! `*`), removes the last one, finishes the line, or is ignored. The main menu and the
//! browser each have their own rules for which keys do what.
use vstd::prelude::*;

verus! {

/// What a key press does to a hidden line, and so what the screen shows for it.
#[derive(Clone, Copy, Debug, PartialEq, Eq, Structural)]
pub enum KeyEffect {
    /// The line is complete.
    Finished,
    /// The last character was removed: the last `*` is wiped.
    Erased,
    /// A character was added: a `*` is shown.
    Echoed,
    /// Nothing happens.
    Ignored,
    /// The escape key: the main menu gives up on the program, the browser cancels the input.
    Escaped,
}

/// `b` is a printable ASCII character other than space.
pub open spec fn is_graphic(b: u8) -> bool {
    0x21 <= b <= 0x7e
}

/// The bytes a line may hold in the main menu: printable ASCII and space.
pub open spec fn line_byte(b: u8) -> bool {
    is_graphic(b) || b == 0x20
}

/// One key press in the main menu: newline finishes; delete removes the last character if
/// there is one; escape gives up; a printable character or space is added; anything else,
/// delete on an empty line included, is ignored.
pub open spec fn line_step(text: Seq<u8>, b: u8) -> (Seq<u8>, KeyEffect) {
    if b == 0x0a {
        (text, KeyEffect::Finished)
    } else if b == 0x7f && text.len() > 0 {
        (text.drop_last(), KeyEffect::Erased)
    } else if b == 0x1b {
        (text, KeyEffect::Escaped)
    } else if line_byte(b) {
        (text.push(b), KeyEffect::Echoed)
    } else {
        (text, KeyEffect::Ignored)
    }
}

/// One key press in the browser: escape cancels; delete removes the last character if
/// there is one and is ignored otherwise; newline finishes; a printable character other
/// than space is added; anything else is ignored.
pub open spec fn prompt_step(text: Seq<u8>, b: u8) -> (Seq<u8>, KeyEffect) {
    if b == 0x1b {
        (text, KeyEffect::Escaped)
    } else if b == 0x7f {
        if text.len() == 0 {
            (text, KeyEffect::Ignored)
        } else {
            (text.drop_last(), KeyEffect::Erased)
        }
    } else if b == 0x0a {
        (text, KeyEffect::Finished)
    } else if is_graphic(b) {
        (text.push(b), KeyEffect::Echoed)
    } else {
        (text, KeyEffect::Ignored)
    }
}

/// The line that a run of key presses in the main menu types, from an empty line, when
/// none of them finishes or escapes.
pub open spec fn typed_line(keys: Seq<u8>) -> Seq<u8>
    decreases keys.len(),
{
    if keys.len() == 0 {
        Seq::empty()
    } else {
        line_step(typed_line(keys.drop_last()), keys.last()).0
    }
}

/// A secret being typed.
pub struct HiddenLine {
    typed: Vec<u8>,
}

impl HiddenLine {
    /// The characters typed so far, as bytes.
    pub closed spec fn text(&self) -> Seq<u8> {
        self.typed@
    }

    /// An empty line.
    pub fn new() -> (h: HiddenLine)
        ensures
            h.text() == Seq::<u8>::empty(),
    {
        HiddenLine { typed: Vec::new() }
    }

    /// The characters typed so far.
    pub fn bytes(&self) -> (b: &Vec<u8>)
        ensures
            b@ == self.text(),
    {
        &self.typed
    }

    /// Applies one key press with the rules of the main menu.
    pub fn feed_line(&mut self, b: u8) -> (e: KeyEffect)
        ensures
            (final(self).text(), e) == line_step(old(self).text(), b),
    {
        if b == 0x0a {
            KeyEffect::Finished
        } else if b == 0x7f && self.typed.len() > 0 {
            self.typed.pop();
            KeyEffect::Erased
        } else if b == 0x1b {
            KeyEffect::Escaped
        } else if (0x21 <= b && b <= 0x7e) || b == 0x20 {
            self.typed.push(b);
            KeyEffect::Echoed
        } else {
            KeyEffect::Ignored
        }
    }

    /// Applies one key press with the rules of the browser.
    pub fn feed_prompt(&mut self, b: u8) -> (e: KeyEffect)
        ensures
            (final(self).text(), e) == prompt_step(old(self).text(), b),
    {
        if b == 0x1b {
            KeyEffect::Escaped
        } else if b == 0x7f {
            if self.typed.len() == 0 {
                KeyEffect::Ignored
            } else {
                self.typed.pop();
                KeyEffect::Erased
            }
        } else if b == 0x0a {
            KeyEffect::Finished
        } else if 0x21 <= b && b <= 0x7e {
            self.typed.push(b);
            KeyEffect::Echoed
        } else {
            KeyEffect::Ignored
        }
    }
}

/// Whatever keys are pressed, a hidden line only ever holds printable ASCII (and, in the
/// main menu, spaces), and the number of `*` on the screen, one more for each echo and
/// one less for each erase, stays equal to the number of characters typed.
pub proof fn hidden_line_keeps_printable(text: Seq<u8>, b: u8)
    requires
        forall|i: int| 0 <= i < text.len() ==> line_byte(#[trigger] text[i]),
    ensures
        forall|i: int|
            0 <= i < line_step(text, b).0.len() ==> line_byte(#[trigger] line_step(text, b).0[i]),
        line_step(text, b).1 == KeyEffect::Echoed ==> line_step(text, b).0.len() == text.len() + 1,
        line_step(text, b).1 == KeyEffect::Erased ==> line_step(text, b).0.len() == text.len() - 1,
        line_step(text, b).1 != KeyEffect::Echoed && line_step(text, b).1 != KeyEffect::Erased
            ==> line_step(text, b).0 == text,
        (forall|i: int| 0 <= i < text.len() ==> is_graphic(#[trigger] text[i])) ==> forall|i: int|
            0 <= i < prompt_step(text, b).0.len() ==> is_graphic(
                #[trigger] prompt_step(text, b).0[i],
            ),
        prompt_step(text, b).1 == KeyEffect::Echoed ==> prompt_step(text, b).0.len() == text.len()
            + 1,
        prompt_step(text, b).1 == KeyEffect::Erased ==> prompt_step(text, b).0.len() == text.len()
            - 1,
        prompt_step(text, b).1 != KeyEffect::Echoed && prompt_step(text, b).1 != KeyEffect::Erased
            ==> prompt_step(text, b).0 == text,
{
    let l = line_step(text, b).0;
    assert forall|i: int| 0 <= i < l.len() implies line_byte(#[trigger] l[i]) by {
        if i < text.len() {
            assert(l[i] == text[i]);
        }
    }
    let p = prompt_step(text, b).0;
    if forall|i: int| 0 <= i < text.len() ==> is_graphic(#[trigger] text[i]) {
        assert forall|i: int| 0 <= i < p.len() implies is_graphic(#[trigger] p[i]) by {
            if i < text.len() {
                assert(p[i] == text[i]);
            }
        }
    }
}

/// A printable key adds exactly that byte to the line and echoes a `*`: any character
/// other than space in the browser's prompts, and space too in the main menu. So a run of
/// such keys types exactly those bytes.
pub proof fn printable_keys_type_themselves(text: Seq<u8>, b: u8, keys: Seq<u8>)
    ensures
        0x21 <= b <= 0x7e ==> prompt_step(text, b) == (text.push(b), KeyEffect::Echoed),
        0x20 <= b <= 0x7e ==> line_step(text, b) == (text.push(b), KeyEffect::Echoed),
        (forall|i: int| 0 <= i < keys.len() ==> 0x20 <= #[trigger] keys[i] <= 0x7e) ==> typed_line(
            keys,
        ) == keys,
    decreases keys.len(),
{
    if keys.len() > 0 && forall|i: int| 0 <= i < keys.len() ==> 0x20 <= #[trigger] keys[i] <= 0x7e {
        let front = keys.drop_last();
        assert forall|i: int| 0 <= i < front.len() implies 0x20 <= #[trigger] front[i] <= 0x7e by {
            assert(front[i] == keys[i]);
        }
        printable_keys_type_themselves(text, b, front);
        assert(keys.last() == keys[keys.len() - 1]);
        assert(front.push(keys.last()) =~= keys);
    }
}

/// Typing a run of keys that neither finishes nor escapes, and then deleting one
/// character, leaves the line typed by the run without its last character: delete undoes
/// the last key that added one.
pub proof fn delete_undoes_last_character(keys: Seq<u8>, b: u8)
    requires
        line_byte(b),
    ensures
        typed_line(keys.push(b).push(0x7f)) == typed_line(keys),
{
    let with_b = keys.push(b);
    let with_del = with_b.push(0x7f);
    assert(with_del.drop_last() =~= with_b);
    assert(with_b.drop_last() =~= keys);
    assert(with_del.last() == 0x7f);
    assert(with_b.last() == b);
    assert(typed_line(with_b) == typed_line(keys).push(b));
    assert(typed_line(keys).push(b).drop_last() =~= typed_line(keys));
    assert(typed_line(with_del) == line_step(typed_line(with_b), 0x7f).0);
}

} // verus!
