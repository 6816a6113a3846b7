//! Which entry of the vault, and which field of an opened entry, is selected.
use vstd::prelude::*;

verus! {

/// The selected row of the entry list: an existing entry or the "new" row.
#[derive(Clone, Copy, Debug, PartialEq, Eq, Hash, Structural)]
pub enum SelectedEntry {
    Entry(usize),
    New,
}

/// The selected row of an opened entry: its password, one of its fields, or the "new" row.
#[derive(Clone, Copy, Debug, PartialEq, Eq, Hash, Structural)]
pub enum SelectedField {
    Password,
    Field(usize),
    New,
}

impl SelectedEntry {
    /// The selection names a row that exists in a list of `num_entries` entries.
    pub open spec fn in_range(self, num_entries: nat) -> bool {
        match self {
            SelectedEntry::Entry(i) => i < num_entries,
            SelectedEntry::New => true,
        }
    }

    /// The row below `self`; after the last entry comes "new", after "new" the first entry.
    pub open spec fn next(self, num_entries: nat) -> SelectedEntry {
        match self {
            SelectedEntry::Entry(i) => if i + 1 < num_entries {
                SelectedEntry::Entry((i + 1) as usize)
            } else {
                SelectedEntry::New
            },
            SelectedEntry::New => if num_entries > 0 {
                SelectedEntry::Entry(0)
            } else {
                SelectedEntry::New
            },
        }
    }

    /// The row above `self`; above the first entry is "new", above "new" the last entry.
    pub open spec fn prev(self, num_entries: nat) -> SelectedEntry {
        match self {
            SelectedEntry::Entry(i) => if i > 0 {
                SelectedEntry::Entry((i - 1) as usize)
            } else {
                SelectedEntry::New
            },
            SelectedEntry::New => if num_entries > 0 {
                SelectedEntry::Entry((num_entries - 1) as usize)
            } else {
                SelectedEntry::New
            },
        }
    }

    /// Moves the selection one row down.
    pub fn increment(&mut self, num_entries: usize)
        requires
            *old(self) matches SelectedEntry::Entry(i) ==> i < usize::MAX,
        ensures
            *final(self) == old(self).next(num_entries as nat),
    {
        *self = match *self {
            SelectedEntry::Entry(entry) => {
                if entry + 1 < num_entries {
                    SelectedEntry::Entry(entry + 1)
                } else {
                    SelectedEntry::New
                }
            },
            SelectedEntry::New => {
                if num_entries > 0 {
                    SelectedEntry::Entry(0)
                } else {
                    SelectedEntry::New
                }
            },
        };
    }

    /// Moves the selection one row up.
    pub fn decriment(&mut self, num_entries: usize)
        ensures
            *final(self) == old(self).prev(num_entries as nat),
    {
        *self = match *self {
            SelectedEntry::Entry(entry) => {
                if entry > 0 {
                    SelectedEntry::Entry(entry - 1)
                } else {
                    SelectedEntry::New
                }
            },
            SelectedEntry::New => {
                if num_entries > 0 {
                    SelectedEntry::Entry(num_entries - 1)
                } else {
                    SelectedEntry::New
                }
            },
        };
    }

    /// The index of the selected entry; the "new" row has none.
    pub fn unwrap_entry(self) -> (entry: usize)
        requires
            self is Entry,
        ensures
            self == SelectedEntry::Entry(entry),
    {
        match self {
            SelectedEntry::Entry(entry) => entry,
            SelectedEntry::New => 0,
        }
    }
}

impl SelectedField {
    /// The selection names a row that exists in an entry with `num_fields` fields.
    pub open spec fn in_range(self, num_fields: nat) -> bool {
        match self {
            SelectedField::Field(i) => i < num_fields,
            _ => true,
        }
    }

    /// The row below `self`: password, then the fields in order, then "new", then the password again.
    pub open spec fn next(self, num_fields: nat) -> SelectedField {
        match self {
            SelectedField::Password => if num_fields > 0 {
                SelectedField::Field(0)
            } else {
                SelectedField::New
            },
            SelectedField::Field(i) => if i + 1 < num_fields {
                SelectedField::Field((i + 1) as usize)
            } else {
                SelectedField::New
            },
            SelectedField::New => SelectedField::Password,
        }
    }

    /// The row above `self`, the reverse of [`SelectedField::next`].
    pub open spec fn prev(self, num_fields: nat) -> SelectedField {
        match self {
            SelectedField::Password => SelectedField::New,
            SelectedField::Field(i) => if i > 0 {
                SelectedField::Field((i - 1) as usize)
            } else {
                SelectedField::Password
            },
            SelectedField::New => if num_fields > 0 {
                SelectedField::Field((num_fields - 1) as usize)
            } else {
                SelectedField::Password
            },
        }
    }

    /// Moves the selection one row down.
    pub fn increment(&mut self, num_fields: usize)
        requires
            *old(self) matches SelectedField::Field(i) ==> i < usize::MAX,
        ensures
            *final(self) == old(self).next(num_fields as nat),
    {
        *self = match *self {
            SelectedField::Password => {
                if num_fields > 0 {
                    SelectedField::Field(0)
                } else {
                    SelectedField::New
                }
            },
            SelectedField::Field(field) => {
                if field + 1 < num_fields {
                    SelectedField::Field(field + 1)
                } else {
                    SelectedField::New
                }
            },
            SelectedField::New => SelectedField::Password,
        };
    }

    /// Moves the selection one row up.
    pub fn decriment(&mut self, num_fields: usize)
        ensures
            *final(self) == old(self).prev(num_fields as nat),
    {
        *self = match *self {
            SelectedField::Password => SelectedField::New,
            SelectedField::Field(field) => {
                if field > 0 {
                    SelectedField::Field(field - 1)
                } else {
                    SelectedField::Password
                }
            },
            SelectedField::New => {
                if num_fields > 0 {
                    SelectedField::Field(num_fields - 1)
                } else {
                    SelectedField::Password
                }
            },
        };
    }

    /// The index of the selected field; the password and "new" rows have none.
    pub fn unwrap_field(self) -> (field: usize)
        requires
            self is Field,
        ensures
            self == SelectedField::Field(field),
    {
        match self {
            SelectedField::Field(field) => field,
            _ => 0,
        }
    }
}

/// The row number of an entry selection: entries count from 0 and "new" is the last row.
pub open spec fn entry_row(s: SelectedEntry, num_entries: nat) -> nat {
    match s {
        SelectedEntry::Entry(i) => i as nat,
        SelectedEntry::New => num_entries,
    }
}

/// The row number of a field selection: the password is row 0, field `i` is row `i + 1`,
/// and "new" is the last row.
pub open spec fn field_row(s: SelectedField, num_fields: nat) -> nat {
    match s {
        SelectedField::Password => 0,
        SelectedField::Field(i) => (i + 1) as nat,
        SelectedField::New => num_fields + 1,
    }
}

/// Moving down and then up, or up and then down, in the entry list gives back the
/// selection one started from, and both moves keep the selection on an existing row.
pub proof fn entry_moves_undo_each_other(s: SelectedEntry, num_entries: usize)
    requires
        s.in_range(num_entries as nat),
    ensures
        s.next(num_entries as nat).in_range(num_entries as nat),
        s.prev(num_entries as nat).in_range(num_entries as nat),
        s.next(num_entries as nat).prev(num_entries as nat) == s,
        s.prev(num_entries as nat).next(num_entries as nat) == s,
{
}

/// Moving through the field list is also undone by the opposite move, and keeps the
/// selection on an existing row.
pub proof fn field_moves_undo_each_other(s: SelectedField, num_fields: usize)
    requires
        s.in_range(num_fields as nat),
    ensures
        s.next(num_fields as nat).in_range(num_fields as nat),
        s.prev(num_fields as nat).in_range(num_fields as nat),
        s.next(num_fields as nat).prev(num_fields as nat) == s,
        s.prev(num_fields as nat).next(num_fields as nat) == s,
{
}

/// The entry list wraps around: moving down advances the row number by one modulo the
/// number of rows (the entries and "new"), and moving up steps it back by one.
pub proof fn entry_moves_wrap_around(s: SelectedEntry, num_entries: usize)
    requires
        s.in_range(num_entries as nat),
    ensures
        entry_row(s.next(num_entries as nat), num_entries as nat) == (entry_row(
            s,
            num_entries as nat,
        ) + 1) % (num_entries as nat + 1),
        entry_row(s.prev(num_entries as nat), num_entries as nat) == (entry_row(
            s,
            num_entries as nat,
        ) + num_entries as nat) % (num_entries as nat + 1),
{
    let r = entry_row(s, num_entries as nat);
    let m = num_entries as nat + 1;
    assert(r < m);
    if r + 1 < m {
        assert((r + 1) % m == r + 1) by (nonlinear_arith)
            requires r + 1 < m;
    } else {
        assert((r + 1) % m == 0) by (nonlinear_arith)
            requires r + 1 == m, m > 0;
    }
    if r > 0 {
        assert((r + num_entries as nat) % m == r - 1) by (nonlinear_arith)
            requires r > 0, r < m, m == num_entries as nat + 1;
    } else {
        assert((r + num_entries as nat) % m == num_entries) by (nonlinear_arith)
            requires r == 0, m == num_entries as nat + 1;
    }
}

/// The field list wraps around in the same way, over the password, the fields and "new".
pub proof fn field_moves_wrap_around(s: SelectedField, num_fields: usize)
    requires
        s.in_range(num_fields as nat),
    ensures
        field_row(s.next(num_fields as nat), num_fields as nat) == (field_row(
            s,
            num_fields as nat,
        ) + 1) % (num_fields as nat + 2),
        field_row(s.prev(num_fields as nat), num_fields as nat) == (field_row(
            s,
            num_fields as nat,
        ) + num_fields as nat + 1) % (num_fields as nat + 2),
{
    let r = field_row(s, num_fields as nat);
    let m = num_fields as nat + 2;
    assert(r < m);
    if r + 1 < m {
        assert((r + 1) % m == r + 1) by (nonlinear_arith)
            requires r + 1 < m;
    } else {
        assert((r + 1) % m == 0) by (nonlinear_arith)
            requires r + 1 == m, m > 0;
    }
    if r > 0 {
        assert((r + num_fields as nat + 1) % m == r - 1) by (nonlinear_arith)
            requires r > 0, r < m, m == num_fields as nat + 2;
    } else {
        assert((r + num_fields as nat + 1) % m == num_fields as nat + 1) by (nonlinear_arith)
            requires r == 0, m == num_fields as nat + 2;
    }
}

} // verus!
