//! The screen of the browser, as the bytes sent to the terminal: the search line, a
//! divider, a window of the entry list around the selection, the opened entry's rows in
//! the right half, and the cursor put back on the search line.
use vstd::prelude::*;
use vstd::utf8::encode_utf8;
use crate::browser::TuiState;
use crate::navigation::{SelectedEntry, SelectedField};
use crate::text::{decimal_bytes, push_decimal};
use crate::vault::{Data, Entry, field_names};

verus! {

/// The escape codes that colour the rows, as the terminal-style library writes them.
pub struct Palette {
    /// Yellow on red: the "new" row of the entry list, selected.
    pub new_entry_selected: Vec<u8>,
    /// Yellow: the "new" row of the entry list.
    pub new_entry: Vec<u8>,
    /// Red background: a selected entry or field.
    pub selected: Vec<u8>,
    /// Cyan on red: the selected password row.
    pub password_selected: Vec<u8>,
    /// Cyan: the password row.
    pub password: Vec<u8>,
    /// Red background and cyan: the selected "new" row of an opened entry.
    pub new_field_selected: Vec<u8>,
    /// Cyan: the "new" row of an opened entry.
    pub new_field: Vec<u8>,
}

/// `ESC [ H ESC [ 0 J`: cursor home and clear the screen.
pub open spec fn clear_code() -> Seq<u8> {
    seq![27u8, 91, 72, 27, 91, 48, 74]
}

/// `ESC [ H`: cursor home.
pub open spec fn home_code() -> Seq<u8> {
    seq![27u8, 91, 72]
}

/// The hint on the search line when nothing is typed: `/edit to edit`.
pub open spec fn search_hint() -> Seq<u8> {
    seq![47u8, 101, 100, 105, 116, 32, 116, 111, 32, 101, 100, 105, 116]
}

/// `ESC [ 2 ; 0 H`: start of the second line.
pub open spec fn divider_code() -> Seq<u8> {
    seq![27u8, 91, 50, 59, 48, 72]
}

/// `ESC [ 0 m`: back to plain text.
pub open spec fn reset_code() -> Seq<u8> {
    seq![27u8, 91, 48, 109]
}

/// `new`.
pub open spec fn new_word() -> Seq<u8> {
    seq![110u8, 101, 119]
}

/// `Password`.
pub open spec fn password_word() -> Seq<u8> {
    seq![80u8, 97, 115, 115, 119, 111, 114, 100]
}

/// A newline.
pub open spec fn newline() -> Seq<u8> {
    seq![10u8]
}

/// `ESC [ 3 ; <column> H`: the third line at the given column.
pub open spec fn third_line_at(column: nat) -> Seq<u8> {
    seq![27u8, 91, 51, 59] + decimal_bytes(column) + seq![72u8]
}

/// `ESC [ <column> G`: the given column of the current line.
pub open spec fn column_at(column: nat) -> Seq<u8> {
    seq![27u8, 91] + decimal_bytes(column) + seq![71u8]
}

/// `ESC [ 0 ; <column> H`: the first line at the given column.
pub open spec fn first_line_at(column: nat) -> Seq<u8> {
    seq![27u8, 91, 48, 59] + decimal_bytes(column) + seq![72u8]
}

/// The row of entry `index`: its name, highlighted when it is the selected entry.
pub open spec fn name_row(names: Seq<Seq<char>>, sel: SelectedEntry, index: nat, p: &Palette) -> Seq<u8> {
    if sel == SelectedEntry::Entry(index as usize) {
        p.selected@ + encode_utf8(names[index as int]) + reset_code() + newline()
    } else {
        encode_utf8(names[index as int]) + newline()
    }
}

/// The rows of the entries `from` up to (not including) `to`.
pub open spec fn name_rows(names: Seq<Seq<char>>, sel: SelectedEntry, from: nat, to: nat, p: &Palette) -> Seq<u8>
    decreases to,
{
    if to <= from {
        Seq::empty()
    } else {
        name_rows(names, sel, from, (to - 1) as nat, p) + name_row(names, sel, (to - 1) as nat, p)
    }
}

/// How many rows of the entry list fit: the screen height less five, and at most one row
/// for each entry and one for "new".
pub open spec fn visible_rows(n: nat, height: nat) -> nat {
    let room = (height - 5) as nat;
    if room < n + 1 { room } else { n + 1 }
}

/// Where the window would start by the usual rule: for a selected entry, the selection
/// less the larger of half the window and the screen height less five; for "new", the
/// last entry less the window; never before the first entry.
pub open spec fn usual_start(n: nat, height: nat, sel: SelectedEntry) -> nat {
    let visible = visible_rows(n, height);
    let room = (height - 5) as nat;
    match sel {
        SelectedEntry::Entry(i) => {
            let back = if visible / 2 > room { visible / 2 } else { room };
            if i >= back { (i - back) as nat } else { 0 }
        },
        SelectedEntry::New => if n >= 1 + visible { (n - 1 - visible) as nat } else { 0 },
    }
}

/// The first entry of the window: where the usual rule starts it, unless that window would
/// leave out the selection while a row fits. Then the window moves down just enough: a
/// selected entry becomes its last row, and with "new" selected the window ends with the
/// "new" row.
pub open spec fn window_start(n: nat, height: nat, sel: SelectedEntry) -> nat {
    let visible = visible_rows(n, height);
    let usual = usual_start(n, height, sel);
    match sel {
        SelectedEntry::Entry(i) => if visible > 0 && i >= usual + visible {
            (i + 1 - visible) as nat
        } else {
            usual
        },
        SelectedEntry::New => if visible > 0 && usual + visible <= n {
            (n + 1 - visible) as nat
        } else {
            usual
        },
    }
}

/// The left column shows which entry is chosen: whenever at least one row fits (the screen
/// is six lines or more), the window of the entry list holds the selected row. A selected
/// entry lies between the window's first row and its last entry row, and is the only row
/// drawn highlighted; with "new" selected the window reaches past the last entry, so the
/// highlighted "new" row is drawn.
pub proof fn selection_in_view(n: nat, height: nat, sel: SelectedEntry)
    requires
        n > 0,
        height >= 6,
        sel.in_range(n),
    ensures
        ({
            let start = window_start(n, height, sel);
            let end = start + visible_rows(n, height);
            &&& sel matches SelectedEntry::Entry(i) ==> start <= i && i < end && i < n
            &&& sel is New ==> end > n
        }),
{
}

/// The entry list: with entries, the window of rows from `window_start` on, closed by the
/// "new" row when the window reaches past the last entry; with none, only the "new" row,
/// highlighted.
pub open spec fn entry_list(names: Seq<Seq<char>>, sel: SelectedEntry, height: nat, p: &Palette) -> Seq<u8> {
    let n = names.len();
    if n > 0 {
        let start = window_start(n, height, sel);
        let end = start + visible_rows(n, height);
        name_rows(names, sel, start, if end < n { end } else { n }, p) + if end > n {
            (if sel == SelectedEntry::New { p.new_entry_selected@ } else { p.new_entry@ }) + new_word()
                + reset_code() + newline()
        } else {
            Seq::empty()
        }
    } else {
        p.new_entry_selected@ + new_word() + reset_code() + newline()
    }
}

/// The entry list ends with the "new" row drawn in its selected style whenever "new" is
/// selected and a row fits (or the vault is empty); while an entry is selected, a "new" row
/// that the window reaches is drawn plain.
pub proof fn entry_list_marks_new_row(names: Seq<Seq<char>>, sel: SelectedEntry, height: nat, p: &Palette)
    requires
        sel.in_range(names.len()),
    ensures
        (sel is New && (names.len() == 0 || height >= 6)) ==> entry_list(names, sel, height, p).skip(
            entry_list(names, sel, height, p).len() - (p.new_entry_selected@ + new_word()
                + reset_code() + newline()).len(),
        ) == p.new_entry_selected@ + new_word() + reset_code() + newline(),
        (sel is Entry && names.len() > 0 && window_start(names.len(), height, sel) + visible_rows(
            names.len(),
            height,
        ) > names.len()) ==> entry_list(names, sel, height, p).skip(
            entry_list(names, sel, height, p).len() - (p.new_entry@ + new_word() + reset_code()
                + newline()).len(),
        ) == p.new_entry@ + new_word() + reset_code() + newline(),
{
    let n = names.len();
    let list = entry_list(names, sel, height, p);
    if n > 0 {
        if sel is New && height >= 6 {
            selection_in_view(n, height, sel);
        }
        let start = window_start(n, height, sel);
        let end = start + visible_rows(n, height);
        let rows = name_rows(names, sel, start, if end < n { end } else { n }, p);
        if end > n {
            let tail = (if sel == SelectedEntry::New { p.new_entry_selected@ } else { p.new_entry@ })
                + new_word() + reset_code() + newline();
            assert(list =~= rows + tail);
            assert((rows + tail).skip((rows + tail).len() - tail.len()) =~= tail);
        }
    } else {
        let tail = p.new_entry_selected@ + new_word() + reset_code() + newline();
        assert(list.skip(list.len() - tail.len()) =~= tail);
    }
}

/// The row of field `index` of the opened entry, in the given column.
pub open spec fn field_row(fnames: Seq<Seq<char>>, sel: SelectedField, index: nat, column: nat, p: &Palette) -> Seq<u8> {
    if sel == SelectedField::Field(index as usize) {
        column_at(column) + p.selected@ + encode_utf8(fnames[index as int]) + reset_code() + newline()
    } else {
        column_at(column) + encode_utf8(fnames[index as int]) + newline()
    }
}

/// The rows of the first `count` fields of the opened entry.
pub open spec fn field_rows(fnames: Seq<Seq<char>>, sel: SelectedField, count: nat, column: nat, p: &Palette) -> Seq<u8>
    decreases count,
{
    if count == 0 {
        Seq::empty()
    } else {
        field_rows(fnames, sel, (count - 1) as nat, column, p) + field_row(fnames, sel, (count - 1) as nat, column, p)
    }
}

/// The opened entry in the right half of the screen: the password row on the third line,
/// then a row for each field, then the "new" row, with the selected one highlighted.
pub open spec fn entry_pane(e: Entry, sel: SelectedField, width: nat, p: &Palette) -> Seq<u8> {
    let column = width / 2;
    let fnames = field_names(e.field_seq());
    third_line_at(column) + (if sel == SelectedField::Password { p.password_selected@ } else { p.password@ })
        + password_word() + reset_code() + newline()
        + field_rows(fnames, sel, fnames.len(), column, p)
        + column_at(column) + (if sel == SelectedField::New { p.new_field_selected@ } else { p.new_field@ })
        + new_word() + reset_code() + newline()
}

/// In the drawn entry pane the password row comes first and the "new" row last, and each
/// of them is drawn in its selected style exactly when it is the selected row.
pub proof fn entry_pane_marks_selected_row(e: Entry, sel: SelectedField, width: nat, p: &Palette)
    ensures
        sel == SelectedField::New ==> entry_pane(e, sel, width, p).skip(
            entry_pane(e, sel, width, p).len() - (column_at(width / 2) + p.new_field_selected@
                + new_word() + reset_code() + newline()).len(),
        ) == column_at(width / 2) + p.new_field_selected@ + new_word() + reset_code() + newline(),
        sel != SelectedField::New ==> entry_pane(e, sel, width, p).skip(
            entry_pane(e, sel, width, p).len() - (column_at(width / 2) + p.new_field@ + new_word()
                + reset_code() + newline()).len(),
        ) == column_at(width / 2) + p.new_field@ + new_word() + reset_code() + newline(),
        sel == SelectedField::Password ==> entry_pane(e, sel, width, p).take(
            (third_line_at(width / 2) + p.password_selected@ + password_word() + reset_code()
                + newline()).len() as int,
        ) == third_line_at(width / 2) + p.password_selected@ + password_word() + reset_code()
            + newline(),
        sel != SelectedField::Password ==> entry_pane(e, sel, width, p).take(
            (third_line_at(width / 2) + p.password@ + password_word() + reset_code()
                + newline()).len() as int,
        ) == third_line_at(width / 2) + p.password@ + password_word() + reset_code() + newline(),
{
    let column = width / 2;
    let fnames = field_names(e.field_seq());
    let pane = entry_pane(e, sel, width, p);
    let first = third_line_at(column) + (if sel == SelectedField::Password {
        p.password_selected@
    } else {
        p.password@
    }) + password_word() + reset_code() + newline();
    let middle = field_rows(fnames, sel, fnames.len(), column, p);
    let last = column_at(column) + (if sel == SelectedField::New {
        p.new_field_selected@
    } else {
        p.new_field@
    }) + new_word() + reset_code() + newline();
    assert(pane =~= first + middle + last);
    assert((first + middle + last).take(first.len() as int) =~= first);
    assert((first + middle + last).skip((first + middle + last).len() - last.len()) =~= last);
}

/// The whole screen.
pub open spec fn screen(
    search: Option<Seq<u8>>,
    sel: SelectedEntry,
    opened: Option<(SelectedField, Entry)>,
    names: Seq<Seq<char>>,
    width: nat,
    height: nat,
    p: &Palette,
) -> Seq<u8> {
    clear_code() + home_code() + (match search { Some(s) => s, None => search_hint() })
        + divider_code() + Seq::new(width, |i: int| 45u8) + newline()
        + entry_list(names, sel, height, p)
        + (match opened { Some((f, e)) => entry_pane(e, f, width, p), None => Seq::empty() })
        + first_line_at(match search { Some(s) => (s.len() + 1) as nat, None => 0 })
}

fn push_bytes(out: &mut Vec<u8>, bytes: &[u8])
    ensures
        final(out)@ == old(out)@ + bytes@,
{
    out.extend_from_slice(bytes);
    assert(out@ =~= old(out)@ + bytes@);
}

fn push_string(out: &mut Vec<u8>, s: &String)
    ensures
        final(out)@ == old(out)@ + encode_utf8(s@),
{
    push_bytes(out, s.as_str().as_bytes());
}

fn push_reset_newline(out: &mut Vec<u8>)
    ensures
        final(out)@ == old(out)@ + reset_code() + newline(),
{
    let code: [u8; 5] = [27, 91, 48, 109, 10];
    push_bytes(out, &code);
    assert(old(out)@ + code@ =~= old(out)@ + reset_code() + newline());
}

fn push_new_row(out: &mut Vec<u8>, style: &Vec<u8>)
    ensures
        final(out)@ == old(out)@ + style@ + new_word() + reset_code() + newline(),
{
    push_bytes(out, style.as_slice());
    let word: [u8; 3] = [110, 101, 119];
    push_bytes(out, &word);
    assert(word@ =~= new_word());
    push_reset_newline(out);
}

fn push_column(out: &mut Vec<u8>, column: usize)
    ensures
        final(out)@ == old(out)@ + column_at(column as nat),
{
    let start: [u8; 2] = [27, 91];
    push_bytes(out, &start);
    push_decimal(out, column);
    out.push(71);
    assert(out@ =~= old(out)@ + column_at(column as nat));
}

fn push_header(out: &mut Vec<u8>, state: &TuiState, width: usize) -> (cursor: usize)
    requires
        state.search_text() matches Some(s) ==> s.len() < usize::MAX,
    ensures
        final(out)@ == old(out)@ + clear_code() + home_code() + (match state.search_text() {
            Some(s) => s,
            None => search_hint(),
        }) + divider_code() + Seq::new(width as nat, |i: int| 45u8) + newline(),
        cursor == (match state.search_text() {
            Some(s) => (s.len() + 1) as nat,
            None => 0,
        }),
{
    let ghost start = out@;
    let clear: [u8; 10] = [27, 91, 72, 27, 91, 48, 74, 27, 91, 72];
    push_bytes(out, &clear);
    assert(out@ =~= start + clear_code() + home_code());
    let cursor: usize = match state.search() {
        Some(s) => {
            push_bytes(out, s.as_slice());
            s.len() + 1
        },
        None => {
            let hint: [u8; 13] = [47, 101, 100, 105, 116, 32, 116, 111, 32, 101, 100, 105, 116];
            push_bytes(out, &hint);
            assert(hint@ =~= search_hint());
            0
        },
    };
    let divider: [u8; 6] = [27, 91, 50, 59, 48, 72];
    push_bytes(out, &divider);
    assert(divider@ =~= divider_code());
    let ghost before_dashes = out@;
    let mut k: usize = 0;
    while k < width
        invariant
            k <= width,
            out@ == before_dashes + Seq::new(k as nat, |i: int| 45u8),
        decreases width - k,
    {
        out.push(45);
        k += 1;
        assert(out@ =~= before_dashes + Seq::new(k as nat, |i: int| 45u8));
    }
    out.push(10);
    cursor
}

fn push_entry_list(out: &mut Vec<u8>, sel: SelectedEntry, data: &Data, height: usize, p: &Palette)
    requires
        sel.in_range(data.names().len()),
        data.names().len() < usize::MAX,
        data.names().len() > 0 ==> height >= 5,
    ensures
        final(out)@ == old(out)@ + entry_list(data.names(), sel, height as nat, p),
{
    let ghost before_list = out@;
    let ghost names = data.names();
    let n = data.len();
    if n > 0 {
        let room = height - 5;
        let visible = if room < n + 1 { room } else { n + 1 };
        let half = visible / 2;
        let back = if half > room { half } else { room };
        let start = match sel {
            SelectedEntry::Entry(i) => {
                let usual = if i >= back { i - back } else { 0 };
                if visible > 0 && i - usual >= visible {
                    i + 1 - visible
                } else {
                    usual
                }
            },
            SelectedEntry::New => {
                let usual = if n - 1 >= visible { n - 1 - visible } else { 0 };
                if visible > 0 && visible <= n - usual {
                    n + 1 - visible
                } else {
                    usual
                }
            },
        };
        assert(start == window_start(n as nat, height as nat, sel));
        assert(visible == visible_rows(n as nat, height as nat));
        let stop = if visible < n - start { start + visible } else { n };
        let mut index = start;
        while index < stop
            invariant
                start <= stop <= n,
                n == names.len(),
                start <= index <= stop,
                names == data.names(),
                out@ == before_list + name_rows(names, sel, start as nat, index as nat, p),
            decreases stop - index,
        {
            let is_sel = match sel {
                SelectedEntry::Entry(e) => e == index,
                SelectedEntry::New => false,
            };
            if is_sel {
                push_bytes(out, p.selected.as_slice());
                push_string(out, data.name(index));
                push_reset_newline(out);
            } else {
                push_string(out, data.name(index));
                out.push(10);
            }
            index += 1;
            assert(out@ =~= before_list + name_rows(names, sel, start as nat, index as nat, p));
        }
        if visible > n - start {
            let style = if sel == SelectedEntry::New { &p.new_entry_selected } else { &p.new_entry };
            push_new_row(out, style);
        }
        assert(out@ =~= before_list + entry_list(names, sel, height as nat, p));
    } else {
        push_new_row(out, &p.new_entry_selected);
        assert(out@ =~= before_list + entry_list(names, sel, height as nat, p));
    }
}

fn push_password_row(out: &mut Vec<u8>, f: SelectedField, column: usize, p: &Palette)
    ensures
        final(out)@ == old(out)@ + third_line_at(column as nat) + (if f == SelectedField::Password {
            p.password_selected@
        } else {
            p.password@
        }) + password_word() + reset_code() + newline(),
{
    let ghost start = out@;
    let third: [u8; 4] = [27, 91, 51, 59];
    push_bytes(out, &third);
    push_decimal(out, column);
    out.push(72);
    assert(out@ =~= start + third_line_at(column as nat));
    if f == SelectedField::Password {
        push_bytes(out, p.password_selected.as_slice());
    } else {
        push_bytes(out, p.password.as_slice());
    }
    let word: [u8; 8] = [80, 97, 115, 115, 119, 111, 114, 100];
    push_bytes(out, &word);
    assert(word@ =~= password_word());
    push_reset_newline(out);
}

fn push_field_rows(out: &mut Vec<u8>, e: &Entry, f: SelectedField, column: usize, p: &Palette)
    ensures
        final(out)@ == old(out)@ + field_rows(field_names(e.field_seq()), f, e.field_seq().len(), column as nat, p),
{
    let ghost fnames = field_names(e.field_seq());
    let ghost before_fields = out@;
    let mut i: usize = 0;
    while i < e.fields().len()
        invariant
            i <= e.field_seq().len(),
            fnames == field_names(e.field_seq()),
            out@ == before_fields + field_rows(fnames, f, i as nat, column as nat, p),
        decreases e.field_seq().len() - i,
    {
        push_column(out, column);
        if f == SelectedField::Field(i) {
            push_bytes(out, p.selected.as_slice());
            push_string(out, &e.fields()[i].0);
            push_reset_newline(out);
        } else {
            push_string(out, &e.fields()[i].0);
            out.push(10);
        }
        i += 1;
        assert(out@ =~= before_fields + field_rows(fnames, f, i as nat, column as nat, p));
    }
}

fn push_entry_pane(out: &mut Vec<u8>, e: &Entry, f: SelectedField, width: usize, p: &Palette)
    ensures
        final(out)@ == old(out)@ + entry_pane(*e, f, width as nat, p),
{
    let ghost before_pane = out@;
    let column = width / 2;
    push_password_row(out, f, column, p);
    push_field_rows(out, e, f, column, p);
    push_column(out, column);
    let style = if f == SelectedField::New { &p.new_field_selected } else { &p.new_field };
    push_new_row(out, style);
    assert(out@ =~= before_pane + entry_pane(*e, f, width as nat, p));
}

/// Draws the screen of the browser for a terminal of the given size.
pub fn render(state: &TuiState, data: &Data, width: usize, height: usize, p: &Palette) -> (out: Vec<u8>)
    requires
        state.wf(data.names().len()),
        data.names().len() < usize::MAX,
        data.names().len() > 0 ==> height >= 5,
        state.search_text() matches Some(s) ==> s.len() < usize::MAX,
    ensures
        out@ == screen(
            state.search_text(),
            state.entry_selection(),
            match state.opened() {
                Some(e) => Some((state.field_selection().unwrap(), e)),
                None => None,
            },
            data.names(),
            width as nat,
            height as nat,
            p,
        ),
{
    let mut out: Vec<u8> = Vec::new();
    let cursor = push_header(&mut out, state, width);
    let ghost after_header = out@;
    push_entry_list(&mut out, state.selected_entry(), data, height, p);
    let ghost after_list = out@;
    match state.open_entry() {
        Some(e) => {
            let f = match state.selected_field() {
                Some(f) => f,
                None => SelectedField::Password,
            };
            push_entry_pane(&mut out, e, f, width, p);
        },
        None => {},
    }
    let ghost before_cursor = out@;
    let first: [u8; 4] = [27, 91, 48, 59];
    push_bytes(&mut out, &first);
    push_decimal(&mut out, cursor);
    out.push(72);
    assert(out@ =~= before_cursor + first_line_at(cursor as nat));
    assert(out@ =~= screen(
        state.search_text(),
        state.entry_selection(),
        match state.opened() {
            Some(e) => Some((state.field_selection().unwrap(), e)),
            None => None,
        },
        data.names(),
        width as nat,
        height as nat,
        p,
    ));
    out
}

} // verus!
