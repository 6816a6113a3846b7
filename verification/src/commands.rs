//! The line commands of the plain menus: the main menu of the vault and the menu of an
//! opened entry, and the answer to "name or value" when a field is edited.
use vstd::prelude::*;
use crate::text::{chars_equal, parse_usize, usize_parse};

verus! {

/// The index of the first space in `s`.
pub open spec fn space_index(s: Seq<char>) -> Option<int>
    decreases s.len(),
{
    if s.len() == 0 {
        None
    } else if s[0] == ' ' {
        Some(0)
    } else {
        match space_index(s.drop_first()) {
            Some(p) => Some(p + 1),
            None => None,
        }
    }
}

/// The first word of `s`, as the first item that splitting `s` at every space gives.
pub open spec fn first_token(s: Seq<char>) -> Seq<char> {
    match space_index(s) {
        Some(p) => s.take(p),
        None => s,
    }
}

/// The second item that splitting `s` at every space gives, if `s` has a space.
pub open spec fn second_token(s: Seq<char>) -> Option<Seq<char>> {
    match space_index(s) {
        Some(p) => Some(first_token(s.skip(p + 1))),
        None => None,
    }
}

/// What a line typed in the main menu asks for.
#[derive(Clone, Copy, Debug, PartialEq, Eq, Structural)]
pub enum MenuCommand {
    Help,
    List,
    /// Open the entry with this index.
    Select(usize),
    New,
    Quit,
    /// Anything else, which the menu ignores.
    Nothing,
}

/// What a line typed in the menu of an opened entry asks for.
#[derive(Clone, Copy, Debug, PartialEq, Eq, Structural)]
pub enum EntryCommand {
    Help,
    ShowPassword,
    /// Show the field with this index.
    ShowField(usize),
    List,
    NewField,
    Back,
    /// Anything else, which the menu ignores.
    Nothing,
}

/// Which part of a field an edit changes.
#[derive(Clone, Copy, Debug, PartialEq, Eq, Structural)]
pub enum EditChoice {
    Name,
    Value,
    /// Anything else, which cancels the edit.
    Neither,
}

/// The index that the word `t` names, if it is a number below `limit`.
pub open spec fn index_below(t: Option<Seq<char>>, limit: nat) -> Option<usize> {
    match t {
        Some(w) => match usize_parse(w) {
            Some(id) => if id < limit {
                Some(id)
            } else {
                None
            },
            None => None,
        },
        None => None,
    }
}

/// The main-menu command that the line `s` gives, with `n` entries in the vault.
pub open spec fn menu_command(s: Seq<char>, n: nat) -> MenuCommand {
    let t = first_token(s);
    if t == Seq::<char>::empty() || t == seq!['h', 'e', 'l', 'p'] || t == seq!['h'] {
        MenuCommand::Help
    } else if t == seq!['l', 'i', 's', 't'] || t == seq!['l'] {
        MenuCommand::List
    } else if t == seq!['s', 'e', 'l', 'e', 'c', 't'] || t == seq!['s'] {
        match index_below(second_token(s), n) {
            Some(id) => MenuCommand::Select(id),
            None => MenuCommand::Nothing,
        }
    } else if t == seq!['n', 'e', 'w'] || t == seq!['n'] {
        MenuCommand::New
    } else if t == seq!['q', 'u', 'i', 't'] || t == seq!['q'] {
        MenuCommand::Quit
    } else {
        MenuCommand::Nothing
    }
}

/// The entry-menu command that the line `s` gives, for an entry with `n` fields.
pub open spec fn entry_command(s: Seq<char>, n: nat) -> EntryCommand {
    let t = first_token(s);
    if t == Seq::<char>::empty() || t == seq!['h', 'e', 'l', 'p'] || t == seq!['h'] {
        EntryCommand::Help
    } else if t == seq!['s', 'h', 'o', 'w'] {
        if second_token(s) == Some(seq!['p', 'a', 's', 's', 'w', 'o', 'r', 'd']) {
            EntryCommand::ShowPassword
        } else {
            match index_below(second_token(s), n) {
                Some(id) => EntryCommand::ShowField(id),
                None => EntryCommand::Nothing,
            }
        }
    } else if t == seq!['s', 'h', 'o', 'w', 'p', 'a', 's', 's'] || t == seq!['s', 'p'] {
        EntryCommand::ShowPassword
    } else if t == seq!['l', 'i', 's', 't'] || t == seq!['l'] {
        EntryCommand::List
    } else if t == seq!['s', 'h', 'o', 'w', 'f', 'i', 'e', 'l', 'd'] || t == seq!['s', 'f'] {
        match index_below(second_token(s), n) {
            Some(id) => EntryCommand::ShowField(id),
            None => EntryCommand::Nothing,
        }
    } else if t == seq!['n', 'e', 'w'] || t == seq!['n'] {
        EntryCommand::NewField
    } else if t == seq!['b', 'a', 'c', 'k'] || t == seq!['c', 'a', 'n', 'c', 'e', 'l'] || t
        == seq!['b'] || t == seq!['c'] || t == seq!['l', 'e', 'a', 'v', 'e'] || t == seq![
        'e',
        'x',
        'i',
        't',
    ] {
        EntryCommand::Back
    } else {
        EntryCommand::Nothing
    }
}

/// `c` with an ASCII capital letter made small.
pub open spec fn ascii_lower(c: char) -> char {
    if 'A' <= c <= 'Z' {
        ((c as u32) + 32) as char
    } else {
        c
    }
}

/// The answer to "name or value", compared without regard to case: lower-casing the answer
/// changes only ASCII capitals as far as these words are concerned.
pub open spec fn edit_choice(s: Seq<char>) -> EditChoice {
    let l = s.map_values(|c: char| ascii_lower(c));
    if l == seq!['n', 'a', 'm', 'e'] || l == seq!['n'] {
        EditChoice::Name
    } else if l == seq!['v', 'a', 'l', 'u', 'e'] || l == seq!['v', 'a', 'l'] || l == seq!['v'] {
        EditChoice::Value
    } else {
        EditChoice::Neither
    }
}

/// The index of the first space in `s`, if any.
fn find_space(s: &[char]) -> (r: Option<usize>)
    ensures
        r is Some <==> space_index(s@) is Some,
        r matches Some(p) ==> space_index(s@) == Some(p as int),
{
    let mut i: usize = 0;
    while i < s.len()
        invariant
            i <= s.len(),
            forall|j: int| 0 <= j < i ==> s@[j] != ' ',
        decreases s.len() - i,
    {
        if s[i] == ' ' {
            proof {
                lemma_space_index_at(s@, i as int);
            }
            return Some(i);
        }
        i += 1;
    }
    proof {
        lemma_space_index_none(s@);
    }
    None
}

proof fn lemma_space_index_at(s: Seq<char>, i: int)
    requires
        0 <= i < s.len(),
        s[i] == ' ',
        forall|j: int| 0 <= j < i ==> s[j] != ' ',
    ensures
        space_index(s) == Some(i),
    decreases i,
{
    if i > 0 {
        lemma_space_index_at(s.drop_first(), i - 1);
    }
}

proof fn lemma_space_index_none(s: Seq<char>)
    requires
        forall|j: int| 0 <= j < s.len() ==> s[j] != ' ',
    ensures
        space_index(s) is None,
    decreases s.len(),
{
    if s.len() > 0 {
        lemma_space_index_none(s.drop_first());
    }
}

proof fn lemma_space_index_bound(s: Seq<char>)
    ensures
        space_index(s) matches Some(p) ==> 0 <= p < s.len() && s[p] == ' ',
    decreases s.len(),
{
    if s.len() > 0 {
        lemma_space_index_bound(s.drop_first());
    }
}

/// The first and the second word of a line, as splitting it at every space gives them.
fn tokens(s: &[char]) -> (r: (&[char], Option<&[char]>))
    ensures
        r.0@ == first_token(s@),
        match second_token(s@) {
            Some(t) => r.1 matches Some(w) && w@ == t,
            None => r.1 is None,
        },
{
    proof {
        lemma_space_index_bound(s@);
    }
    match find_space(s) {
        Some(p) => {
            assert(space_index(s@) is Some);
            let ghost sp = space_index(s@).unwrap();
            assert(0 <= sp < s@.len());
            assert(p as int == sp);
            let first = vstd::slice::slice_subrange(s, 0, p);
            let len = s.len();
            assert(p < len);
            let rest = vstd::slice::slice_subrange(s, p + 1, len);
            assert(rest@ =~= s@.skip(p + 1));
            proof {
                lemma_space_index_bound(rest@);
            }
            let second = match find_space(rest) {
                Some(q) => vstd::slice::slice_subrange(rest, 0, q),
                None => rest,
            };
            assert(first@ =~= s@.take(p as int));
            (first, Some(second))
        },
        None => (s, None),
    }
}

fn index_below_exec(t: Option<&[char]>, limit: usize) -> (r: Option<usize>)
    ensures
        r == index_below(
            match t {
                Some(w) => Some(w@),
                None => None,
            },
            limit as nat,
        ),
{
    match t {
        Some(w) => match parse_usize(w) {
            Some(id) => if id < limit {
                Some(id)
            } else {
                None
            },
            None => None,
        },
        None => None,
    }
}

/// Reads a main-menu line, for a vault with `num_entries` entries.
pub fn parse_menu_command(line: &[char], num_entries: usize) -> (c: MenuCommand)
    ensures
        c == menu_command(line@, num_entries as nat),
{
    let (t, second) = tokens(line);
    assert((match second {
        Some(w) => Some(w@),
        None => None::<Seq<char>>,
    }) == second_token(line@));
    assert(t.len() == 0 ==> t@ =~= Seq::<char>::empty());
    let help: [char; 4] = ['h', 'e', 'l', 'p'];
    let h: [char; 1] = ['h'];
    let list: [char; 4] = ['l', 'i', 's', 't'];
    let l: [char; 1] = ['l'];
    let select: [char; 6] = ['s', 'e', 'l', 'e', 'c', 't'];
    let s: [char; 1] = ['s'];
    let new: [char; 3] = ['n', 'e', 'w'];
    let n: [char; 1] = ['n'];
    let quit: [char; 4] = ['q', 'u', 'i', 't'];
    let q: [char; 1] = ['q'];
    assert(help@ =~= seq!['h', 'e', 'l', 'p']);
    assert(h@ =~= seq!['h']);
    assert(list@ =~= seq!['l', 'i', 's', 't']);
    assert(l@ =~= seq!['l']);
    assert(select@ =~= seq!['s', 'e', 'l', 'e', 'c', 't']);
    assert(s@ =~= seq!['s']);
    assert(new@ =~= seq!['n', 'e', 'w']);
    assert(n@ =~= seq!['n']);
    assert(quit@ =~= seq!['q', 'u', 'i', 't']);
    assert(q@ =~= seq!['q']);
    if t.len() == 0 || chars_equal(t, &help) || chars_equal(t, &h) {
        MenuCommand::Help
    } else if chars_equal(t, &list) || chars_equal(t, &l) {
        MenuCommand::List
    } else if chars_equal(t, &select) || chars_equal(t, &s) {
        match index_below_exec(second, num_entries) {
            Some(id) => MenuCommand::Select(id),
            None => MenuCommand::Nothing,
        }
    } else if chars_equal(t, &new) || chars_equal(t, &n) {
        MenuCommand::New
    } else if chars_equal(t, &quit) || chars_equal(t, &q) {
        MenuCommand::Quit
    } else {
        MenuCommand::Nothing
    }
}

/// Reads a line of the menu of an opened entry that has `num_fields` fields.
pub fn parse_entry_command(line: &[char], num_fields: usize) -> (c: EntryCommand)
    ensures
        c == entry_command(line@, num_fields as nat),
{
    let (t, second) = tokens(line);
    assert((match second {
        Some(w) => Some(w@),
        None => None::<Seq<char>>,
    }) == second_token(line@));
    assert(t.len() == 0 ==> t@ =~= Seq::<char>::empty());
    let help: [char; 4] = ['h', 'e', 'l', 'p'];
    let h: [char; 1] = ['h'];
    let show: [char; 4] = ['s', 'h', 'o', 'w'];
    let password: [char; 8] = ['p', 'a', 's', 's', 'w', 'o', 'r', 'd'];
    let showpass: [char; 8] = ['s', 'h', 'o', 'w', 'p', 'a', 's', 's'];
    let sp: [char; 2] = ['s', 'p'];
    let list: [char; 4] = ['l', 'i', 's', 't'];
    let l: [char; 1] = ['l'];
    let showfield: [char; 9] = ['s', 'h', 'o', 'w', 'f', 'i', 'e', 'l', 'd'];
    let sf: [char; 2] = ['s', 'f'];
    let new: [char; 3] = ['n', 'e', 'w'];
    let n: [char; 1] = ['n'];
    let back: [char; 4] = ['b', 'a', 'c', 'k'];
    let cancel: [char; 6] = ['c', 'a', 'n', 'c', 'e', 'l'];
    let b: [char; 1] = ['b'];
    let c: [char; 1] = ['c'];
    let leave: [char; 5] = ['l', 'e', 'a', 'v', 'e'];
    let exit: [char; 4] = ['e', 'x', 'i', 't'];
    assert(help@ =~= seq!['h', 'e', 'l', 'p']);
    assert(h@ =~= seq!['h']);
    assert(show@ =~= seq!['s', 'h', 'o', 'w']);
    assert(password@ =~= seq!['p', 'a', 's', 's', 'w', 'o', 'r', 'd']);
    assert(showpass@ =~= seq!['s', 'h', 'o', 'w', 'p', 'a', 's', 's']);
    assert(sp@ =~= seq!['s', 'p']);
    assert(list@ =~= seq!['l', 'i', 's', 't']);
    assert(l@ =~= seq!['l']);
    assert(showfield@ =~= seq!['s', 'h', 'o', 'w', 'f', 'i', 'e', 'l', 'd']);
    assert(sf@ =~= seq!['s', 'f']);
    assert(new@ =~= seq!['n', 'e', 'w']);
    assert(n@ =~= seq!['n']);
    assert(back@ =~= seq!['b', 'a', 'c', 'k']);
    assert(cancel@ =~= seq!['c', 'a', 'n', 'c', 'e', 'l']);
    assert(b@ =~= seq!['b']);
    assert(c@ =~= seq!['c']);
    assert(leave@ =~= seq!['l', 'e', 'a', 'v', 'e']);
    assert(exit@ =~= seq!['e', 'x', 'i', 't']);
    if t.len() == 0 || chars_equal(t, &help) || chars_equal(t, &h) {
        EntryCommand::Help
    } else if chars_equal(t, &show) {
        let is_password = match second {
            Some(w) => chars_equal(w, &password),
            None => false,
        };
        if is_password {
            EntryCommand::ShowPassword
        } else {
            match index_below_exec(second, num_fields) {
                Some(id) => EntryCommand::ShowField(id),
                None => EntryCommand::Nothing,
            }
        }
    } else if chars_equal(t, &showpass) || chars_equal(t, &sp) {
        EntryCommand::ShowPassword
    } else if chars_equal(t, &list) || chars_equal(t, &l) {
        EntryCommand::List
    } else if chars_equal(t, &showfield) || chars_equal(t, &sf) {
        match index_below_exec(second, num_fields) {
            Some(id) => EntryCommand::ShowField(id),
            None => EntryCommand::Nothing,
        }
    } else if chars_equal(t, &new) || chars_equal(t, &n) {
        EntryCommand::NewField
    } else if chars_equal(t, &back) || chars_equal(t, &cancel) || chars_equal(t, &b)
        || chars_equal(t, &c) || chars_equal(t, &leave) || chars_equal(t, &exit) {
        EntryCommand::Back
    } else {
        EntryCommand::Nothing
    }
}

/// Reads the answer to "name or value" when a field is edited.
pub fn parse_edit_choice(answer: &[char]) -> (c: EditChoice)
    ensures
        c == edit_choice(answer@),
{
    let mut lower: Vec<char> = Vec::new();
    let mut i: usize = 0;
    while i < answer.len()
        invariant
            i <= answer.len(),
            lower@ =~= answer@.take(i as int).map_values(|c: char| ascii_lower(c)),
        decreases answer.len() - i,
    {
        let c = answer[i];
        let lc = if 'A' <= c && c <= 'Z' {
            char_from_small_letter((c as u32 + 32) as u8)
        } else {
            c
        };
        lower.push(lc);
        i += 1;
    }
    assert(answer@.take(answer@.len() as int) =~= answer@);
    let name: [char; 4] = ['n', 'a', 'm', 'e'];
    let n: [char; 1] = ['n'];
    let value: [char; 5] = ['v', 'a', 'l', 'u', 'e'];
    let val: [char; 3] = ['v', 'a', 'l'];
    let v: [char; 1] = ['v'];
    assert(name@ =~= seq!['n', 'a', 'm', 'e']);
    assert(n@ =~= seq!['n']);
    assert(value@ =~= seq!['v', 'a', 'l', 'u', 'e']);
    assert(val@ =~= seq!['v', 'a', 'l']);
    assert(v@ =~= seq!['v']);
    let l = lower.as_slice();
    if chars_equal(l, &name) || chars_equal(l, &n) {
        EditChoice::Name
    } else if chars_equal(l, &value) || chars_equal(l, &val) || chars_equal(l, &v) {
        EditChoice::Value
    } else {
        EditChoice::Neither
    }
}

fn char_from_small_letter(b: u8) -> (c: char)
    requires
        97 <= b <= 122,
    ensures
        c as u32 == b as u32,
{
    b as char
}

} // verus!
