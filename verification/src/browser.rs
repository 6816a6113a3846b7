//! The full-screen browser: turning raw key bytes into keys, and what each key does to the
//! browser's state (the search line, the selected entry, and the opened entry with its
//! selected field). Choosing a row is planned here; the prompts, the key derivation and
//! the encryption that carry a plan out happen outside.
use vstd::prelude::*;
use crate::navigation::{
    SelectedEntry, SelectedField, entry_row, field_row, entry_moves_undo_each_other,
    entry_moves_wrap_around, field_moves_undo_each_other, field_moves_wrap_around,
};
use crate::vault::{Entry, field_names, field_values};

verus! {

/// A key of the browser.
#[derive(Clone, Copy, Debug, PartialEq, Eq, Structural)]
pub enum Key {
    Up,
    Down,
    Right,
    Left,
    Enter,
    Delete,
    /// A printable character other than space.
    Char(u8),
}

/// Where the decoder is in an escape sequence: not in one, after the escape byte, or
/// waiting for the byte that names the arrow.
#[derive(Clone, Copy, Debug, PartialEq, Eq, Structural)]
pub enum KeyDecoder {
    Ground,
    AfterEscape,
    AwaitingArrow,
}

/// One byte of input to the decoder: the state that follows and the key completed, if any.
/// An escape byte starts a three-byte sequence whose last byte `A`, `B`, `C` or `D` is an
/// arrow; other sequences, and bytes that are neither newline, delete nor printable, give
/// no key.
pub open spec fn decode_step(d: KeyDecoder, b: u8) -> (KeyDecoder, Option<Key>) {
    match d {
        KeyDecoder::Ground => if b == 0x1b {
            (KeyDecoder::AfterEscape, None)
        } else if b == 0x0a {
            (KeyDecoder::Ground, Some(Key::Enter))
        } else if b == 0x7f {
            (KeyDecoder::Ground, Some(Key::Delete))
        } else if 0x21 <= b <= 0x7e {
            (KeyDecoder::Ground, Some(Key::Char(b)))
        } else {
            (KeyDecoder::Ground, None)
        },
        KeyDecoder::AfterEscape => (KeyDecoder::AwaitingArrow, None),
        KeyDecoder::AwaitingArrow => (
            KeyDecoder::Ground,
            if b == 0x41 {
                Some(Key::Up)
            } else if b == 0x42 {
                Some(Key::Down)
            } else if b == 0x43 {
                Some(Key::Right)
            } else if b == 0x44 {
                Some(Key::Left)
            } else {
                None
            },
        ),
    }
}

impl KeyDecoder {
    /// Feeds one byte to the decoder.
    pub fn feed(&mut self, b: u8) -> (k: Option<Key>)
        ensures
            (*final(self), k) == decode_step(*old(self), b),
    {
        match *self {
            KeyDecoder::Ground => {
                if b == 0x1b {
                    *self = KeyDecoder::AfterEscape;
                    None
                } else if b == 0x0a {
                    Some(Key::Enter)
                } else if b == 0x7f {
                    Some(Key::Delete)
                } else if 0x21 <= b && b <= 0x7e {
                    Some(Key::Char(b))
                } else {
                    None
                }
            },
            KeyDecoder::AfterEscape => {
                *self = KeyDecoder::AwaitingArrow;
                None
            },
            KeyDecoder::AwaitingArrow => {
                *self = KeyDecoder::Ground;
                if b == 0x41 {
                    Some(Key::Up)
                } else if b == 0x42 {
                    Some(Key::Down)
                } else if b == 0x43 {
                    Some(Key::Right)
                } else if b == 0x44 {
                    Some(Key::Left)
                } else {
                    None
                }
            },
        }
    }
}

/// Outside an escape sequence every printable byte other than space is a character key
/// of that very byte, newline is enter and delete is delete; an escape byte, any byte,
/// and then `A`, `B`, `C` or `D` make the four arrows and leave the decoder outside a
/// sequence again.
pub proof fn decoding_keeps_printable_bytes(b: u8, any: u8)
    ensures
        0x21 <= b <= 0x7e ==> decode_step(KeyDecoder::Ground, b) == (
            KeyDecoder::Ground,
            Some(Key::Char(b)),
        ),
        decode_step(KeyDecoder::Ground, 0x0a) == (KeyDecoder::Ground, Some(Key::Enter)),
        decode_step(KeyDecoder::Ground, 0x7f) == (KeyDecoder::Ground, Some(Key::Delete)),
        decode_step(decode_step(decode_step(KeyDecoder::Ground, 0x1b).0, any).0, 0x41) == (
            KeyDecoder::Ground,
            Some(Key::Up),
        ),
        decode_step(decode_step(decode_step(KeyDecoder::Ground, 0x1b).0, any).0, 0x42) == (
            KeyDecoder::Ground,
            Some(Key::Down),
        ),
        decode_step(decode_step(decode_step(KeyDecoder::Ground, 0x1b).0, any).0, 0x43) == (
            KeyDecoder::Ground,
            Some(Key::Right),
        ),
        decode_step(decode_step(decode_step(KeyDecoder::Ground, 0x1b).0, any).0, 0x44) == (
            KeyDecoder::Ground,
            Some(Key::Left),
        ),
{
}

/// What a key asks of the browser once its state is updated.
#[derive(Clone, Copy, Debug, PartialEq, Eq, Structural)]
pub enum KeyOutcome {
    /// Only the screen needs drawing again.
    Redraw,
    /// The selected row was chosen: carry out [`TuiState::plan_select`].
    Select,
}

/// What choosing the selected row does.
#[derive(Clone, Copy, Debug, PartialEq, Eq, Structural)]
pub enum Selection {
    /// Ask for a new field of the opened entry, which is entry `entry`, then store it.
    AddField { entry: usize },
    /// Edit the selected field (the password or a field) of the opened entry `entry`.
    EditField { entry: usize, field: SelectedField },
    /// Show the selected field (the password or a field) of the opened entry.
    Reveal(SelectedField),
    /// Ask for a new name for entry `entry`.
    RenameEntry(usize),
    /// Decrypt entry `entry` and open it.
    OpenEntry(usize),
    /// Ask for a name and a password and add a new entry.
    CreateEntry,
}

/// The search line after `key`: delete removes its last character and drops a line that
/// becomes empty, a character is added at its end (starting a line if there is none), and
/// other keys leave it.
pub open spec fn search_after(search: Option<Seq<u8>>, key: Key) -> Option<Seq<u8>> {
    match key {
        Key::Delete => match search {
            Some(s) => if s.len() <= 1 {
                None
            } else {
                Some(s.drop_last())
            },
            None => None,
        },
        Key::Char(b) => Some(
            match search {
                Some(s) => s,
                None => Seq::<u8>::empty(),
            }.push(b),
        ),
        _ => search,
    }
}

/// A character key adds exactly that byte at the end of the search line, starting the line
/// when there is none; delete shortens a line of two or more by its last byte; the arrows
/// and enter leave the line as it is.
pub proof fn search_line_follows_keys(search: Option<Seq<u8>>, b: u8)
    ensures
        search_after(search, Key::Char(b)) matches Some(t) && t.len() > 0 && t.last() == b && t.drop_last()
            == (match search {
            Some(s) => s,
            None => Seq::<u8>::empty(),
        }),
        (search matches Some(s) && s.len() >= 2) ==> search_after(search, Key::Delete) == Some(
            search.unwrap().take(search.unwrap().len() - 1),
        ),
        (search matches Some(s) && s.len() <= 1) ==> (search_after(search, Key::Delete) is None),
        search_after(search, Key::Up) == search,
        search_after(search, Key::Down) == search,
        search_after(search, Key::Left) == search,
        search_after(search, Key::Right) == search,
        search_after(search, Key::Enter) == search,
{
    match search {
        Some(s) => {
            assert(s.push(b).drop_last() =~= s);
            assert(s.drop_last() =~= s.take(s.len() - 1));
        },
        None => {
            assert(Seq::<u8>::empty().push(b).drop_last() =~= Seq::<u8>::empty());
        },
    }
}

/// Typing a character on the search line and then deleting gives back the search line one
/// started from.
pub proof fn delete_undoes_typing(search: Option<Seq<u8>>, b: u8)
    requires
        search matches Some(s) ==> s.len() > 0,
    ensures
        search_after(search_after(search, Key::Char(b)), Key::Delete) == search,
{
    match search {
        Some(s) => {
            assert(s.push(b).drop_last() =~= s);
        },
        None => {},
    }
}

/// The number of fields of the opened entry, or 0 when none is open.
pub open spec fn open_field_count(opened: Option<Entry>) -> nat {
    match opened {
        Some(e) => e.field_seq().len(),
        None => 0,
    }
}

/// The entry selection after `key`: up and down move it while no entry is open.
pub open spec fn entry_sel_after(
    key: Key,
    field: Option<SelectedField>,
    entry: SelectedEntry,
    num_entries: nat,
) -> SelectedEntry {
    match (key, field) {
        (Key::Up, None) => entry.prev(num_entries),
        (Key::Down, None) => entry.next(num_entries),
        _ => entry,
    }
}

/// The field selection after `key`: up and down move it within the opened entry, left
/// closes the entry.
pub open spec fn field_sel_after(key: Key, field: Option<SelectedField>, num_fields: nat) -> Option<
    SelectedField,
> {
    match (key, field) {
        (Key::Up, Some(f)) => Some(f.prev(num_fields)),
        (Key::Down, Some(f)) => Some(f.next(num_fields)),
        (Key::Left, _) => None,
        _ => field,
    }
}

/// Up and down in the entry list, while no entry is open, step the selected row back and
/// forward by one, wrapping around over the entries and "new", and each undoes the other;
/// while an entry is open they leave the entry selection alone.
pub proof fn entry_keys_move_one_row(entry: SelectedEntry, num_entries: usize, f: SelectedField)
    requires
        entry.in_range(num_entries as nat),
    ensures
        entry_sel_after(Key::Up, None, entry, num_entries as nat).in_range(num_entries as nat),
        entry_sel_after(Key::Down, None, entry, num_entries as nat).in_range(num_entries as nat),
        entry_row(entry_sel_after(Key::Up, None, entry, num_entries as nat), num_entries as nat)
            == (entry_row(entry, num_entries as nat) + num_entries as nat) % (num_entries as nat
            + 1),
        entry_row(entry_sel_after(Key::Down, None, entry, num_entries as nat), num_entries as nat)
            == (entry_row(entry, num_entries as nat) + 1) % (num_entries as nat + 1),
        entry_sel_after(
            Key::Down,
            None,
            entry_sel_after(Key::Up, None, entry, num_entries as nat),
            num_entries as nat,
        ) == entry,
        entry_sel_after(
            Key::Up,
            None,
            entry_sel_after(Key::Down, None, entry, num_entries as nat),
            num_entries as nat,
        ) == entry,
        entry_sel_after(Key::Up, Some(f), entry, num_entries as nat) == entry,
        entry_sel_after(Key::Down, Some(f), entry, num_entries as nat) == entry,
{
    entry_moves_undo_each_other(entry, num_entries);
    entry_moves_wrap_around(entry, num_entries);
}

/// Up and down in an opened entry step the selected row back and forward by one, wrapping
/// around over the password, the fields and "new", and each undoes the other; left closes
/// the entry, and the other keys leave the field selection alone.
pub proof fn field_keys_move_one_row(f: SelectedField, num_fields: usize)
    requires
        f.in_range(num_fields as nat),
    ensures
        field_sel_after(Key::Up, Some(f), num_fields as nat) matches Some(g) && g.in_range(
            num_fields as nat,
        ) && field_row(g, num_fields as nat) == (field_row(f, num_fields as nat)
            + num_fields as nat + 1) % (num_fields as nat + 2),
        field_sel_after(Key::Down, Some(f), num_fields as nat) matches Some(g) && g.in_range(
            num_fields as nat,
        ) && field_row(g, num_fields as nat) == (field_row(f, num_fields as nat) + 1) % (
        num_fields as nat + 2),
        field_sel_after(
            Key::Down,
            field_sel_after(Key::Up, Some(f), num_fields as nat),
            num_fields as nat,
        ) == Some(f),
        field_sel_after(
            Key::Up,
            field_sel_after(Key::Down, Some(f), num_fields as nat),
            num_fields as nat,
        ) == Some(f),
        field_sel_after(Key::Left, Some(f), num_fields as nat) is None,
        field_sel_after(Key::Right, Some(f), num_fields as nat) == Some(f),
        field_sel_after(Key::Enter, Some(f), num_fields as nat) == Some(f),
        field_sel_after(Key::Delete, Some(f), num_fields as nat) == Some(f),
        forall|b: u8| field_sel_after(Key::Char(b), Some(f), num_fields as nat) == Some(f),
{
    field_moves_undo_each_other(f, num_fields);
    field_moves_wrap_around(f, num_fields);
}

/// What choosing the selected row does. With an entry open: the "new" row adds a field;
/// otherwise a search line of `/edit` edits the selected field and any other search line
/// shows it. With no entry open: `/edit` on a selected entry renames it; otherwise a
/// selected entry is opened and "new" creates an entry.
pub open spec fn selection_for(
    field: Option<SelectedField>,
    entry: SelectedEntry,
    search: Option<Seq<u8>>,
) -> Selection {
    let i = match entry {
        SelectedEntry::Entry(i) => i,
        SelectedEntry::New => 0,
    };
    match field {
        Some(f) => if f is New {
            Selection::AddField { entry: i }
        } else if search == Some(edit_command()) {
            Selection::EditField { entry: i, field: f }
        } else {
            Selection::Reveal(f)
        },
        None => if entry is Entry && search == Some(edit_command()) {
            Selection::RenameEntry(i)
        } else if entry is Entry {
            Selection::OpenEntry(i)
        } else {
            Selection::CreateEntry
        },
    }
}

/// The search line after choosing a row: editing a field or renaming an entry uses up the
/// `/edit` line; any other choice keeps it.
pub open spec fn search_after_select(
    field: Option<SelectedField>,
    entry: SelectedEntry,
    search: Option<Seq<u8>>,
) -> Option<Seq<u8>> {
    match selection_for(field, entry, search) {
        Selection::EditField { .. } => None,
        Selection::RenameEntry(_) => None,
        _ => search,
    }
}

/// The search line text that turns choosing a row into editing it.
pub open spec fn edit_command() -> Seq<u8> {
    seq![0x2fu8, 0x65u8, 0x64u8, 0x69u8, 0x74u8]
}

/// Choosing a row acts on that row. In an opened entry, the "new" row adds a field to it;
/// the password or a field is edited exactly when the search line reads `/edit`, which is
/// then used up, and is shown otherwise, with the search line kept. With no entry open, a
/// selected entry is renamed exactly when the search line reads `/edit`, which is then used
/// up, and is opened otherwise; "new" creates an entry.
pub proof fn selection_acts_on_selected_row(
    i: usize,
    f: SelectedField,
    search: Option<Seq<u8>>,
)
    ensures
        selection_for(Some(SelectedField::New), SelectedEntry::Entry(i), search) == (
        Selection::AddField { entry: i }),
        (f != SelectedField::New && search == Some(seq![0x2fu8, 0x65u8, 0x64u8, 0x69u8, 0x74u8]))
            ==> (selection_for(Some(f), SelectedEntry::Entry(i), search) == (Selection::EditField {
            entry: i,
            field: f,
        }) && (search_after_select(Some(f), SelectedEntry::Entry(i), search) is None)),
        (f != SelectedField::New && search != Some(seq![0x2fu8, 0x65u8, 0x64u8, 0x69u8, 0x74u8]))
            ==> (selection_for(Some(f), SelectedEntry::Entry(i), search) == Selection::Reveal(f)
            && search_after_select(Some(f), SelectedEntry::Entry(i), search) == search),
        (search == Some(seq![0x2fu8, 0x65u8, 0x64u8, 0x69u8, 0x74u8])) ==> (selection_for(
            None,
            SelectedEntry::Entry(i),
            search,
        ) == Selection::RenameEntry(i) && (search_after_select(
            None,
            SelectedEntry::Entry(i),
            search,
        ) is None)),
        (search != Some(seq![0x2fu8, 0x65u8, 0x64u8, 0x69u8, 0x74u8])) ==> (selection_for(
            None,
            SelectedEntry::Entry(i),
            search,
        ) == Selection::OpenEntry(i) && search_after_select(None, SelectedEntry::Entry(i), search)
            == search),
        selection_for(None, SelectedEntry::New, search) == Selection::CreateEntry,
        search_after_select(None, SelectedEntry::New, search) == search,
{
    assert(edit_command() =~= seq![0x2fu8, 0x65u8, 0x64u8, 0x69u8, 0x74u8]);
}

/// A prompt was answered: an empty answer to the name of a new field or entry, to a new
/// name, or to the password of a new entry cancels the action.
pub fn answer_given(text: &String) -> (r: bool)
    ensures
        r == (text@.len() > 0),
{
    !text.as_str().is_empty()
}

/// The state of the browser.
pub struct TuiState {
    search: Option<Vec<u8>>,
    selected_entry: SelectedEntry,
    selected_field: Option<(SelectedField, Entry)>,
}

impl TuiState {
    /// The search line, if one is being typed.
    pub closed spec fn search_text(&self) -> Option<Seq<u8>> {
        match self.search {
            Some(s) => Some(s@),
            None => None,
        }
    }

    /// The selected row of the entry list.
    pub closed spec fn entry_selection(&self) -> SelectedEntry {
        self.selected_entry
    }

    /// The selected row of the opened entry, if an entry is open.
    pub closed spec fn field_selection(&self) -> Option<SelectedField> {
        match self.selected_field {
            Some((f, _)) => Some(f),
            None => None,
        }
    }

    /// The opened entry, if any.
    pub closed spec fn opened(&self) -> Option<Entry> {
        match self.selected_field {
            Some((_, e)) => Some(e),
            None => None,
        }
    }

    /// The state fits a vault of `num_entries` entries: a search line is never empty and
    /// holds printable characters, the selections name existing rows, and an entry is open
    /// only while an entry (not "new") is selected.
    pub open spec fn wf(&self, num_entries: nat) -> bool {
        &&& self.search_text() matches Some(s) ==> s.len() > 0 && forall|i: int|
            0 <= i < s.len() ==> 0x21 <= #[trigger] s[i] <= 0x7e
        &&& self.entry_selection().in_range(num_entries)
        &&& self.fits()
        &&& self.field_selection() is Some ==> self.entry_selection() is Entry
    }

    /// An entry is open exactly when a row of it is selected, and that row exists.
    pub open spec fn fits(&self) -> bool {
        &&& self.field_selection() is Some <==> self.opened() is Some
        &&& self.field_selection() matches Some(f) ==> f.in_range(
            self.opened().unwrap().field_seq().len(),
        )
    }

    /// The browser as it starts: no search, the first entry selected (or "new" in an empty
    /// vault), and nothing open.
    pub fn new(num_entries: usize) -> (s: TuiState)
        ensures
            s.wf(num_entries as nat),
            s.search_text() is None,
            s.opened() is None,
            s.entry_selection() == (if num_entries == 0 {
                SelectedEntry::New
            } else {
                SelectedEntry::Entry(0)
            }),
    {
        TuiState {
            search: None,
            selected_entry: if num_entries == 0 {
                SelectedEntry::New
            } else {
                SelectedEntry::Entry(0)
            },
            selected_field: None,
        }
    }

    /// A state that fits a vault keeps fitting it when entries are added.
    pub proof fn lemma_wf_more_entries(&self, n: nat, m: nat)
        requires
            self.wf(n),
            n <= m,
        ensures
            self.wf(m),
    {
    }

    /// The search line, if one is being typed.
    pub fn search(&self) -> (s: Option<&Vec<u8>>)
        ensures
            match self.search_text() {
                Some(t) => s matches Some(v) && v@ == t,
                None => s is None,
            },
    {
        match &self.search {
            Some(v) => Some(v),
            None => None,
        }
    }

    /// The selected row of the entry list.
    pub fn selected_entry(&self) -> (s: SelectedEntry)
        ensures
            s == self.entry_selection(),
    {
        self.selected_entry
    }

    /// The selected row of the opened entry.
    pub fn selected_field(&self) -> (s: Option<SelectedField>)
        ensures
            s == self.field_selection(),
    {
        match &self.selected_field {
            Some((f, _)) => Some(*f),
            None => None,
        }
    }

    /// The opened entry.
    pub fn open_entry(&self) -> (e: Option<&Entry>)
        ensures
            match self.opened() {
                Some(o) => e matches Some(x) && *x == o,
                None => e is None,
            },
    {
        match &self.selected_field {
            Some((_, e)) => Some(e),
            None => None,
        }
    }

    /// Applies one key. Up and down move the field selection while an entry is open and
    /// the entry selection otherwise; left closes the opened entry; right and enter ask
    /// for the selected row to be chosen; delete removes the last character of the search
    /// line and drops the line when it becomes empty; a character extends the search line.
    pub fn apply_key(&mut self, key: Key, num_entries: usize) -> (o: KeyOutcome)
        requires
            old(self).wf(num_entries as nat),
            key matches Key::Char(b) ==> 0x21 <= b <= 0x7e,
        ensures
            final(self).wf(num_entries as nat),
            o == (if key is Right || key is Enter {
                KeyOutcome::Select
            } else {
                KeyOutcome::Redraw
            }),
            final(self).opened() == (if key is Left {
                None
            } else {
                old(self).opened()
            }),
            final(self).entry_selection() == entry_sel_after(
                key,
                old(self).field_selection(),
                old(self).entry_selection(),
                num_entries as nat,
            ),
            final(self).field_selection() == field_sel_after(
                key,
                old(self).field_selection(),
                open_field_count(old(self).opened()),
            ),
            final(self).search_text() == search_after(old(self).search_text(), key),
    {
        match key {
            Key::Up => {
                match &mut self.selected_field {
                    Some((f, e)) => {
                        let n = e.fields().len();
                        f.decriment(n);
                    },
                    None => {
                        self.selected_entry.decriment(num_entries);
                    },
                }
                KeyOutcome::Redraw
            },
            Key::Down => {
                match &mut self.selected_field {
                    Some((f, e)) => {
                        let n = e.fields().len();
                        f.increment(n);
                    },
                    None => {
                        self.selected_entry.increment(num_entries);
                    },
                }
                KeyOutcome::Redraw
            },
            Key::Right => KeyOutcome::Select,
            Key::Enter => KeyOutcome::Select,
            Key::Left => {
                self.selected_field = None;
                KeyOutcome::Redraw
            },
            Key::Delete => {
                let taken = self.search.take();
                match taken {
                    Some(mut s) => {
                        s.pop();
                        if s.len() > 0 {
                            self.search = Some(s);
                        }
                    },
                    None => {},
                }
                KeyOutcome::Redraw
            },
            Key::Char(b) => {
                let taken = self.search.take();
                let mut s = match taken {
                    Some(s) => s,
                    None => Vec::new(),
                };
                s.push(b);
                self.search = Some(s);
                KeyOutcome::Redraw
            },
        }
    }

    /// The search line is exactly `/edit`.
    fn search_is_edit(&self) -> (r: bool)
        ensures
            r == (self.search_text() == Some(edit_command())),
    {
        match &self.search {
            Some(s) => {
                if s.len() == 5 && s[0] == 0x2f && s[1] == 0x65 && s[2] == 0x64 && s[3] == 0x69
                    && s[4] == 0x74 {
                    assert(s@ =~= edit_command());
                    true
                } else {
                    false
                }
            },
            None => false,
        }
    }

    /// Decides what choosing the selected row does. With an entry open: the "new" row adds
    /// a field; otherwise a search line of `/edit` edits the selected field (and the search
    /// line is dropped), and any other search line shows it. With no entry open: `/edit` on
    /// a selected entry renames it (and the search line is dropped); otherwise a selected
    /// entry is opened and "new" creates an entry.
    pub fn plan_select(&mut self, num_entries: usize) -> (p: Selection)
        requires
            old(self).wf(num_entries as nat),
        ensures
            final(self).wf(num_entries as nat),
            final(self).entry_selection() == old(self).entry_selection(),
            final(self).field_selection() == old(self).field_selection(),
            final(self).opened() == old(self).opened(),
            p == selection_for(
                old(self).field_selection(),
                old(self).entry_selection(),
                old(self).search_text(),
            ),
            final(self).search_text() == search_after_select(
                old(self).field_selection(),
                old(self).entry_selection(),
                old(self).search_text(),
            ),
    {
        let is_edit = self.search_is_edit();
        match &self.selected_field {
            Some((f, _)) => {
                let f = *f;
                let entry = self.selected_entry.unwrap_entry();
                if f == SelectedField::New {
                    Selection::AddField { entry }
                } else if is_edit {
                    self.search = None;
                    Selection::EditField { entry, field: f }
                } else {
                    Selection::Reveal(f)
                }
            },
            None => {
                match self.selected_entry {
                    SelectedEntry::Entry(i) => {
                        if is_edit {
                            self.search = None;
                            Selection::RenameEntry(i)
                        } else {
                            Selection::OpenEntry(i)
                        }
                    },
                    SelectedEntry::New => Selection::CreateEntry,
                }
            },
        }
    }

    /// Opens `entry`, just decrypted, with its password selected.
    pub fn open(&mut self, entry: Entry)
        requires
            old(self).entry_selection() is Entry,
        ensures
            forall|n: nat| old(self).wf(n) ==> final(self).wf(n),
            final(self).opened() == Some(entry),
            final(self).field_selection() == Some(SelectedField::Password),
            final(self).entry_selection() == old(self).entry_selection(),
            final(self).search_text() == old(self).search_text(),
    {
        self.selected_field = Some((SelectedField::Password, entry));
    }

    /// Adds a field to the opened entry; the selection stays where it is. An empty name is
    /// refused: nothing changes and the result is `false`.
    pub fn add_field(&mut self, name: String, value: String) -> (done: bool)
        requires
            old(self).opened() is Some,
        ensures
            forall|n: nat| old(self).wf(n) ==> final(self).wf(n),
            done == (name@.len() > 0),
            !done ==> final(self).opened() == old(self).opened(),
            done ==> (final(self).opened() matches Some(e) && field_names(e.field_seq()) == field_names(
                old(self).opened().unwrap().field_seq(),
            ).push(name@) && field_values(e.field_seq()) == field_values(
                old(self).opened().unwrap().field_seq(),
            ).push(value@) && e.secret() == old(self).opened().unwrap().secret()
                && e.rule() == old(self).opened().unwrap().rule()),
            final(self).field_selection() == old(self).field_selection(),
            final(self).entry_selection() == old(self).entry_selection(),
            final(self).search_text() == old(self).search_text(),
    {
        if name.as_str().is_empty() {
            return false;
        }
        match &mut self.selected_field {
            Some((_, e)) => {
                e.push_field(name, value);
            },
            None => {},
        }
        true
    }

    /// The name of the selected row of the opened entry can be edited: it is a field, not
    /// the password or "new".
    pub fn field_name_editable(&self) -> (r: bool)
        ensures
            r == (self.field_selection() matches Some(SelectedField::Field(_))),
    {
        match &self.selected_field {
            Some((SelectedField::Field(_), _)) => true,
            _ => false,
        }
    }

    /// Renames the selected field of the opened entry. An empty name, or a selection that
    /// is not a field, changes nothing and gives `false`.
    pub fn set_field_name(&mut self, name: String) -> (done: bool)
        requires
            old(self).fits(),
        ensures
            forall|n: nat| old(self).wf(n) ==> final(self).wf(n),
            done == (name@.len() > 0 && old(self).field_selection() matches Some(
                SelectedField::Field(_),
            )),
            !done ==> final(self).opened() == old(self).opened(),
            done ==> (final(self).opened() matches Some(e) && old(self).field_selection() matches Some(
                SelectedField::Field(i),
            ) && field_names(e.field_seq()) == field_names(
                old(self).opened().unwrap().field_seq(),
            ).update(i as int, name@) && field_values(e.field_seq()) == field_values(
                old(self).opened().unwrap().field_seq(),
            ) && e.secret() == old(self).opened().unwrap().secret() && e.rule() == old(self).opened().unwrap().rule()),
            final(self).field_selection() == old(self).field_selection(),
            final(self).entry_selection() == old(self).entry_selection(),
            final(self).search_text() == old(self).search_text(),
    {
        if name.as_str().is_empty() {
            return false;
        }
        match &mut self.selected_field {
            Some((SelectedField::Field(i), e)) => {
                if *i < e.fields().len() {
                    e.set_field_name(*i, name);
                    true
                } else {
                    false
                }
            },
            _ => false,
        }
    }

    /// Replaces the value of the selected row of the opened entry: the password or a
    /// field's value. An empty value, or no selected password or field, changes nothing and
    /// gives `false`.
    pub fn set_field_value(&mut self, value: String) -> (done: bool)
        requires
            old(self).fits(),
        ensures
            forall|n: nat| old(self).wf(n) ==> final(self).wf(n),
            done == (value@.len() > 0 && old(self).field_selection() is Some && !(old(self).field_selection().unwrap() is New)),
            !done ==> final(self).opened() == old(self).opened(),
            done && old(self).field_selection() == Some(SelectedField::Password) ==> (final(
                self).opened() matches Some(e) && e.secret() == value@ && e.field_seq() == old(self).opened().unwrap().field_seq() && e.rule() == old(self).opened().unwrap().rule()),
            done ==> (old(self).field_selection() matches Some(SelectedField::Field(i)) ==> (final(
                self).opened() matches Some(e) && e.secret() == old(self).opened().unwrap().secret()
                && field_names(e.field_seq()) == field_names(old(self).opened().unwrap().field_seq())
                && field_values(e.field_seq()) == field_values(old(self).opened().unwrap().field_seq()).update(i as int, value@)
                && e.rule() == old(self).opened().unwrap().rule())),
            final(self).field_selection() == old(self).field_selection(),
            final(self).entry_selection() == old(self).entry_selection(),
            final(self).search_text() == old(self).search_text(),
    {
        if value.as_str().is_empty() {
            return false;
        }
        match &mut self.selected_field {
            Some((f, e)) => {
                let f = *f;
                if f == SelectedField::New {
                    false
                } else {
                    e.set_value(f, value);
                    true
                }
            },
            None => false,
        }
    }

    /// Puts `entry`, decrypted again after saving, in place of the opened entry; the
    /// selected row stays.
    pub fn replace_open_entry(&mut self, entry: Entry)
        requires
            old(self).opened() is Some,
            old(self).field_selection() matches Some(f) && f.in_range(entry.field_seq().len()),
        ensures
            forall|n: nat| old(self).wf(n) ==> final(self).wf(n),
            final(self).opened() == Some(entry),
            final(self).field_selection() == old(self).field_selection(),
            final(self).entry_selection() == old(self).entry_selection(),
            final(self).search_text() == old(self).search_text(),
    {
        let taken = self.selected_field.take();
        match taken {
            Some((f, _)) => {
                self.selected_field = Some((f, entry));
            },
            None => {},
        }
    }

    /// Whether `entry`, decrypted again after saving, can take the place of the opened
    /// entry: an entry is open and its selected row exists in `entry`.
    pub fn fits_open_entry(&self, entry: &Entry) -> (r: bool)
        ensures
            r == (self.opened() is Some && self.field_selection() is Some
                && self.field_selection().unwrap().in_range(entry.field_seq().len())),
    {
        match &self.selected_field {
            Some((f, _)) => match *f {
                SelectedField::Field(i) => i < entry.fields().len(),
                _ => true,
            },
            None => false,
        }
    }

    /// One whole step of the browser for one key: the key is applied, and when it chooses
    /// the selected row the choice is planned. The state fits the vault before and after.
    pub fn step(&mut self, key: Key, num_entries: usize) -> (r: Option<Selection>)
        requires
            old(self).wf(num_entries as nat),
            key matches Key::Char(b) ==> 0x21 <= b <= 0x7e,
        ensures
            final(self).wf(num_entries as nat),
            final(self).opened() == (if key is Left {
                None
            } else {
                old(self).opened()
            }),
            (key is Right || key is Enter) ==> r == Some(
                selection_for(
                    old(self).field_selection(),
                    old(self).entry_selection(),
                    old(self).search_text(),
                ),
            ) && final(self).search_text() == search_after_select(
                old(self).field_selection(),
                old(self).entry_selection(),
                old(self).search_text(),
            ) && final(self).entry_selection() == old(self).entry_selection()
                && final(self).field_selection() == old(self).field_selection(),
            !(key is Right || key is Enter) ==> r is None && final(self).search_text()
                == search_after(old(self).search_text(), key) && final(self).entry_selection()
                == entry_sel_after(
                key,
                old(self).field_selection(),
                old(self).entry_selection(),
                num_entries as nat,
            ) && final(self).field_selection() == field_sel_after(
                key,
                old(self).field_selection(),
                open_field_count(old(self).opened()),
            ),
    {
        match self.apply_key(key, num_entries) {
            KeyOutcome::Select => Some(self.plan_select(num_entries)),
            KeyOutcome::Redraw => None,
        }
    }
}

} // verus!
