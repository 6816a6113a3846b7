//! The vault as the program holds it: the password digest, the entry names and the
//! entries, each encrypted on its own. Also an entry in the clear, its clipboard rule,
//! and the section of the vault file that holds the encrypted entries one after another.
use vstd::prelude::*;
use crate::navigation::SelectedField;

verus! {

/// Whether an entry's password may go to the clipboard, and for how long.
#[derive(Clone, Copy, Debug, PartialEq, Eq, Structural)]
pub enum ClipboardRule {
    Allow,
    Deny,
    /// Allowed for the given time: whole seconds and the nanoseconds past them.
    Timer(u64, u32),
}

/// The variant of a clipboard rule, as its tag byte in the entry encoding names it.
#[derive(Clone, Copy, Debug, PartialEq, Eq, Structural)]
pub enum RuleKind {
    Allow,
    Deny,
    Timer,
}

/// A tag byte that names no clipboard rule.
#[derive(Clone, Copy, Debug, PartialEq, Eq, Structural)]
pub struct InvalidRuleTag(pub u8);

/// The lower-case hex digit for `n < 16`.
pub open spec fn hex_char(n: nat) -> char {
    if n < 10 {
        (n + 48) as char
    } else {
        (n + 87) as char
    }
}

/// The text of the error that reading an entry gives for the tag byte `b`: the byte as
/// two lower-case hex digits inside a fixed sentence.
pub open spec fn invalid_tag_message(b: u8) -> Seq<char> {
    "Got invalid discriminant "@ + seq![hex_char(b as nat / 16), hex_char(b as nat % 16)]
        + " when attempting to get ClipboardRule"@
}

/// The lower-case hex digit for `n < 16`, as a one-character string.
fn hex_digit_str(n: u8) -> (s: &'static str)
    requires
        n < 16,
    ensures
        s@ == seq![hex_char(n as nat)],
{
    if n == 0 {
        proof {
            reveal_strlit("0");
        }
        "0"
    } else if n == 1 {
        proof {
            reveal_strlit("1");
        }
        "1"
    } else if n == 2 {
        proof {
            reveal_strlit("2");
        }
        "2"
    } else if n == 3 {
        proof {
            reveal_strlit("3");
        }
        "3"
    } else if n == 4 {
        proof {
            reveal_strlit("4");
        }
        "4"
    } else if n == 5 {
        proof {
            reveal_strlit("5");
        }
        "5"
    } else if n == 6 {
        proof {
            reveal_strlit("6");
        }
        "6"
    } else if n == 7 {
        proof {
            reveal_strlit("7");
        }
        "7"
    } else if n == 8 {
        proof {
            reveal_strlit("8");
        }
        "8"
    } else if n == 9 {
        proof {
            reveal_strlit("9");
        }
        "9"
    } else if n == 10 {
        proof {
            reveal_strlit("a");
        }
        "a"
    } else if n == 11 {
        proof {
            reveal_strlit("b");
        }
        "b"
    } else if n == 12 {
        proof {
            reveal_strlit("c");
        }
        "c"
    } else if n == 13 {
        proof {
            reveal_strlit("d");
        }
        "d"
    } else if n == 14 {
        proof {
            reveal_strlit("e");
        }
        "e"
    } else {
        proof {
            reveal_strlit("f");
        }
        "f"
    }
}

impl ClipboardRule {
    /// The rule is one that a `Duration` can hold: a timer's nanoseconds are below one
    /// second.
    pub open spec fn valid(self) -> bool {
        match self {
            ClipboardRule::Timer(_, nanos) => nanos < 1_000_000_000,
            _ => true,
        }
    }

    /// A timer rule for the given seconds and nanoseconds; `None` where the nanoseconds
    /// make a second or more.
    pub fn timer(secs: u64, nanos: u32) -> (r: Option<ClipboardRule>)
        ensures
            nanos < 1_000_000_000 ==> r == Some(ClipboardRule::Timer(secs, nanos)),
            nanos >= 1_000_000_000 ==> r is None,
            r matches Some(rule) ==> rule.valid(),
    {
        if nanos < 1_000_000_000 {
            Some(ClipboardRule::Timer(secs, nanos))
        } else {
            None
        }
    }

    /// The variant of the rule.
    pub open spec fn kind(self) -> RuleKind {
        match self {
            ClipboardRule::Allow => RuleKind::Allow,
            ClipboardRule::Deny => RuleKind::Deny,
            ClipboardRule::Timer(..) => RuleKind::Timer,
        }
    }

    /// The tag byte that starts the rule's encoding: 0 for allow, 1 for deny, 2 for a timer.
    pub open spec fn spec_tag(self) -> u8 {
        match self {
            ClipboardRule::Allow => 0,
            ClipboardRule::Deny => 1,
            ClipboardRule::Timer(..) => 2,
        }
    }

    /// The tag byte that starts the rule's encoding.
    pub fn tag(&self) -> (t: u8)
        ensures
            t == self.spec_tag(),
    {
        match self {
            ClipboardRule::Allow => 0,
            ClipboardRule::Deny => 1,
            ClipboardRule::Timer(..) => 2,
        }
    }
}

/// Which rule a tag byte starts: 0, 1 and 2 name allow, deny and a timer; any other byte
/// is an error that carries it.
pub fn rule_kind_from_tag(b: u8) -> (r: Result<RuleKind, InvalidRuleTag>)
    ensures
        b == 0 ==> r == Ok::<RuleKind, InvalidRuleTag>(RuleKind::Allow),
        b == 1 ==> r == Ok::<RuleKind, InvalidRuleTag>(RuleKind::Deny),
        b == 2 ==> r == Ok::<RuleKind, InvalidRuleTag>(RuleKind::Timer),
        b > 2 ==> r == Err::<RuleKind, InvalidRuleTag>(InvalidRuleTag(b)),
{
    if b == 0 {
        Ok(RuleKind::Allow)
    } else if b == 1 {
        Ok(RuleKind::Deny)
    } else if b == 2 {
        Ok(RuleKind::Timer)
    } else {
        Err(InvalidRuleTag(b))
    }
}

/// Reading back the tag that a rule is written with gives the rule's own variant.
pub proof fn rule_tag_round_trip(rule: ClipboardRule)
    ensures
        rule.spec_tag() <= 2,
        rule.spec_tag() == 0 ==> rule.kind() == RuleKind::Allow,
        rule.spec_tag() == 1 ==> rule.kind() == RuleKind::Deny,
        rule.spec_tag() == 2 ==> rule.kind() == RuleKind::Timer,
{
}

impl InvalidRuleTag {
    /// The error text for the rejected tag byte.
    pub fn message(&self) -> (m: String)
        ensures
            m@ == invalid_tag_message(self.0),
    {
        let mut m = String::from_str("Got invalid discriminant ");
        m.append(hex_digit_str(self.0 / 16));
        m.append(hex_digit_str(self.0 % 16));
        m.append(" when attempting to get ClipboardRule");
        proof {
            reveal_strlit("Got invalid discriminant ");
            reveal_strlit(" when attempting to get ClipboardRule");
        }
        assert(m@ =~= invalid_tag_message(self.0));
        m
    }
}

/// One vault entry in the clear: the stored password, named fields, and its clipboard rule.
pub struct Entry {
    password: String,
    fields: Vec<(String, String)>,
    clipboard_rule: ClipboardRule,
}

/// The names of the fields of `fields`, in order.
pub open spec fn field_names(fields: Seq<(String, String)>) -> Seq<Seq<char>> {
    fields.map_values(|f: (String, String)| f.0@)
}

/// The values of the fields of `fields`, in order.
pub open spec fn field_values(fields: Seq<(String, String)>) -> Seq<Seq<char>> {
    fields.map_values(|f: (String, String)| f.1@)
}

impl Entry {
    /// The stored password.
    pub closed spec fn secret(&self) -> Seq<char> {
        self.password@
    }

    /// The fields, each a name and a value, in order.
    pub closed spec fn field_seq(&self) -> Seq<(String, String)> {
        self.fields@
    }

    /// The entry's clipboard rule.
    pub closed spec fn rule(&self) -> ClipboardRule {
        self.clipboard_rule
    }

    /// The clipboard rule is one a `Duration` can hold.
    pub open spec fn valid(&self) -> bool {
        self.rule().valid()
    }

    /// An entry with the given password, fields and clipboard rule, as reading one gives.
    pub fn from_parts(password: String, fields: Vec<(String, String)>, rule: ClipboardRule) -> (e: Entry)
        requires
            rule.valid(),
        ensures
            e.secret() == password@,
            e.field_seq() == fields@,
            e.rule() == rule,
            e.valid(),
    {
        Entry { password, fields, clipboard_rule: rule }
    }

    /// The stored password.
    pub fn password(&self) -> (p: &String)
        ensures
            p@ == self.secret(),
    {
        &self.password
    }

    /// The fields, each a name and a value, in order.
    pub fn fields(&self) -> (f: &Vec<(String, String)>)
        ensures
            f@ == self.field_seq(),
    {
        &self.fields
    }

    /// The entry's clipboard rule.
    pub fn clipboard_rule(&self) -> (r: ClipboardRule)
        ensures
            r == self.rule(),
    {
        self.clipboard_rule
    }

    /// Replaces the clipboard rule with a valid one.
    pub fn set_clipboard_rule(&mut self, rule: ClipboardRule)
        requires
            rule.valid(),
        ensures
            final(self).rule() == rule,
            final(self).secret() == old(self).secret(),
            final(self).field_seq() == old(self).field_seq(),
    {
        self.clipboard_rule = rule;
    }

    /// A new entry holds only its password and denies the clipboard.
    pub fn new(password: String) -> (e: Entry)
        ensures
            e.secret() == password@,
            e.field_seq().len() == 0,
            e.rule() == ClipboardRule::Deny,
            e.valid(),
    {
        Entry { password, fields: Vec::new(), clipboard_rule: ClipboardRule::Deny }
    }

    /// A new entry for a password being stored; an empty password is refused.
    pub fn from_password(password: String) -> (r: Option<Entry>)
        ensures
            password@.len() == 0 ==> r is None,
            password@.len() > 0 ==> (r matches Some(e) && e.secret() == password@
                && e.field_seq().len() == 0 && e.rule() == ClipboardRule::Deny),
    {
        if password.as_str().is_empty() {
            None
        } else {
            Some(Entry::new(password))
        }
    }

    /// Adds a field after the existing ones.
    pub fn push_field(&mut self, name: String, value: String)
        ensures
            field_names(final(self).field_seq()) == field_names(old(self).field_seq()).push(name@),
            field_values(final(self).field_seq()) == field_values(old(self).field_seq()).push(value@),
            final(self).field_seq().len() == old(self).field_seq().len() + 1,
            final(self).secret() == old(self).secret(),
            final(self).rule() == old(self).rule(),
    {
        let ghost old_fields = self.fields@;
        self.fields.push((name, value));
        assert(field_names(self.fields@) =~= field_names(old_fields).push(name@));
        assert(field_values(self.fields@) =~= field_values(old_fields).push(value@));
    }

    /// Renames field `index`, keeping its value.
    pub fn set_field_name(&mut self, index: usize, name: String)
        requires
            index < old(self).field_seq().len(),
        ensures
            field_names(final(self).field_seq()) == field_names(old(self).field_seq()).update(
                index as int,
                name@,
            ),
            field_values(final(self).field_seq()) == field_values(old(self).field_seq()),
            final(self).field_seq().len() == old(self).field_seq().len(),
            final(self).secret() == old(self).secret(),
            final(self).rule() == old(self).rule(),
    {
        let ghost old_fields = self.fields@;
        let value = self.fields[index].1.clone();
        self.fields.set(index, (name, value));
        assert(field_names(self.fields@) =~= field_names(old_fields).update(index as int, name@));
        assert(field_values(self.fields@) =~= field_values(old_fields));
    }

    /// Replaces the value that `selected` names: the password, or the value of a field.
    pub fn set_value(&mut self, selected: SelectedField, value: String)
        requires
            !(selected is New),
            selected matches SelectedField::Field(i) ==> i < old(self).field_seq().len(),
        ensures
            field_names(final(self).field_seq()) == field_names(old(self).field_seq()),
            final(self).field_seq().len() == old(self).field_seq().len(),
            final(self).rule() == old(self).rule(),
            selected is Password ==> final(self).field_seq() == old(self).field_seq(),
            selected is Password ==> final(self).secret() == value@ && field_values(
                final(self).field_seq(),
            ) == field_values(old(self).field_seq()),
            selected matches SelectedField::Field(i) ==> final(self).secret() == old(self).secret() && field_values(final(self).field_seq()) == field_values(
                old(self).field_seq(),
            ).update(i as int, value@),
    {
        let ghost old_fields = self.fields@;
        match selected {
            SelectedField::Password => {
                self.password = value;
            },
            SelectedField::Field(i) => {
                let name = self.fields[i].0.clone();
                self.fields.set(i, (name, value));
                assert(field_names(self.fields@) =~= field_names(old_fields));
                assert(field_values(self.fields@) =~= field_values(old_fields).update(
                    i as int,
                    value@,
                ));
            },
            SelectedField::New => {},
        }
    }

    /// The text that `selected` names: the password or the value of a field.
    pub fn value_of(&self, selected: SelectedField) -> (v: &String)
        requires
            !(selected is New),
            selected matches SelectedField::Field(i) ==> i < self.field_seq().len(),
        ensures
            selected is Password ==> v@ == self.secret(),
            selected matches SelectedField::Field(i) ==> v@ == self.field_seq()[i as int].1@,
    {
        match selected {
            SelectedField::Field(i) => &self.fields[i].1,
            _ => &self.password,
        }
    }
}

/// The vault: the SHA-512 digest of the master password, and the entries in order, each
/// with its name and its encrypted text.
pub struct Data {
    password_hash: [u8; 64],
    records: Vec<(String, Vec<u8>)>,
}

/// The bytes of the encrypted entries, one after another.
pub open spec fn flatten(entries: Seq<Seq<u8>>) -> Seq<u8>
    decreases entries.len(),
{
    if entries.len() == 0 {
        Seq::empty()
    } else {
        flatten(entries.drop_last()) + entries.last()
    }
}

/// The sum of the lengths in `lens`.
pub open spec fn total(lens: Seq<usize>) -> nat
    decreases lens.len(),
{
    if lens.len() == 0 {
        0
    } else {
        total(lens.drop_last()) + lens.last() as nat
    }
}

/// The lengths of the encrypted entries, in order.
pub open spec fn lengths(entries: Seq<Seq<u8>>) -> Seq<usize> {
    entries.map_values(|e: Seq<u8>| e.len() as usize)
}

/// What reading the entry section gives: the entries of the given lengths, taken one
/// after another from the start of `body`; `None` where `body` is too short. Bytes past
/// the last entry are not read.
pub open spec fn split_spec(lens: Seq<usize>, body: Seq<u8>) -> Option<Seq<Seq<u8>>> {
    if total(lens) <= body.len() {
        Some(
            Seq::new(
                lens.len(),
                |i: int| body.subrange(total(lens.take(i)) as int, total(lens.take(i)) + lens[i]),
            ),
        )
    } else {
        None
    }
}

/// Every encrypted entry is made of whole 16-byte blocks.
pub open spec fn block_aligned(entries: Seq<Seq<u8>>) -> bool {
    forall|i: int| 0 <= i < entries.len() ==> (#[trigger] entries[i]).len() % 16 == 0
}

proof fn lemma_total_take_step(lens: Seq<usize>, i: int)
    requires
        0 <= i < lens.len(),
    ensures
        total(lens.take(i + 1)) == total(lens.take(i)) + lens[i],
{
    assert(lens.take(i + 1).drop_last() =~= lens.take(i));
}

proof fn lemma_total_monotone(lens: Seq<usize>, i: int, j: int)
    requires
        0 <= i <= j <= lens.len(),
    ensures
        total(lens.take(i)) <= total(lens.take(j)),
    decreases j - i,
{
    if i < j {
        lemma_total_monotone(lens, i, j - 1);
        lemma_total_take_step(lens, j - 1);
    }
}

proof fn lemma_flatten_len(entries: Seq<Seq<u8>>)
    requires
        forall|i: int| 0 <= i < entries.len() ==> (#[trigger] entries[i]).len() <= usize::MAX,
    ensures
        flatten(entries).len() == total(lengths(entries)),
    decreases entries.len(),
{
    if entries.len() > 0 {
        lemma_flatten_len(entries.drop_last());
        assert(lengths(entries.drop_last()) =~= lengths(entries).drop_last());
    }
}

proof fn lemma_flatten_prefix(entries: Seq<Seq<u8>>, i: int)
    requires
        0 <= i <= entries.len(),
    ensures
        flatten(entries).len() >= flatten(entries.take(i)).len(),
        flatten(entries).subrange(0, flatten(entries.take(i)).len() as int) == flatten(
            entries.take(i),
        ),
    decreases entries.len(),
{
    if i == entries.len() {
        assert(entries.take(i) =~= entries);
        assert(flatten(entries).subrange(0, flatten(entries).len() as int) =~= flatten(entries));
    } else {
        let shorter = entries.drop_last();
        lemma_flatten_prefix(shorter, i);
        assert(shorter.take(i) =~= entries.take(i));
        assert(flatten(entries).subrange(0, flatten(entries.take(i)).len() as int) =~= flatten(
            shorter,
        ).subrange(0, flatten(entries.take(i)).len() as int));
    }
}

/// Reading back the entry section that was written for `entries` gives `entries` again.
pub proof fn entry_section_round_trip(entries: Seq<Seq<u8>>)
    requires
        forall|i: int| 0 <= i < entries.len() ==> (#[trigger] entries[i]).len() <= usize::MAX,
    ensures
        split_spec(lengths(entries), flatten(entries)) == Some(entries),
{
    let lens = lengths(entries);
    let body = flatten(entries);
    lemma_flatten_len(entries);
    let parts = split_spec(lens, body).unwrap();
    assert forall|i: int| 0 <= i < entries.len() implies #[trigger] parts[i] == entries[i] by {
        let pre = entries.take(i);
        let pre1 = entries.take(i + 1);
        assert forall|j: int| 0 <= j < pre.len() implies (#[trigger] pre[j]).len() <= usize::MAX by {
            assert(pre[j] == entries[j]);
        }
        assert forall|j: int| 0 <= j < pre1.len() implies (#[trigger] pre1[j]).len() <= usize::MAX by {
            assert(pre1[j] == entries[j]);
        }
        assert(lengths(pre) =~= lens.take(i));
        assert(lengths(pre1) =~= lens.take(i + 1));
        lemma_flatten_len(pre);
        lemma_flatten_len(pre1);
        lemma_flatten_prefix(entries, i + 1);
        assert(pre1.drop_last() =~= pre);
        assert(pre1.last() == entries[i]);
        let a = total(lens.take(i)) as int;
        assert(body.subrange(a, a + lens[i]) =~= flatten(pre1).subrange(a, a + lens[i]));
        assert(flatten(pre1).subrange(a, a + lens[i]) =~= entries[i]);
    }
    assert(parts =~= entries);
}

/// Splits the entry section of a vault file into the entries of the given lengths, as
/// loading does; `None` where the section is too short for them.
pub fn split_entries(lens: &[usize], body: &[u8]) -> (r: Option<Vec<Vec<u8>>>)
    ensures
        match split_spec(lens@, body@) {
            Some(parts) => r matches Some(v) && v@.map_values(|e: Vec<u8>| e@) == parts,
            None => r is None,
        },
{
    let mut out: Vec<Vec<u8>> = Vec::new();
    let mut offset: usize = 0;
    let mut i: usize = 0;
    while i < lens.len()
        invariant
            i <= lens.len(),
            offset == total(lens@.take(i as int)),
            offset <= body.len(),
            out@.len() == i,
            forall|j: int|
                0 <= j < i ==> (#[trigger] out@[j])@ == body@.subrange(
                    total(lens@.take(j)) as int,
                    total(lens@.take(j)) + lens@[j],
                ),
        decreases lens.len() - i,
    {
        proof {
            lemma_total_take_step(lens@, i as int);
        }
        let len = lens[i];
        if len > body.len() - offset {
            proof {
                lemma_total_monotone(lens@, i + 1, lens@.len() as int);
                assert(lens@.take(lens@.len() as int) =~= lens@);
            }
            return None;
        }
        let mut piece: Vec<u8> = Vec::new();
        piece.extend_from_slice(slice_subrange(body, offset, offset + len));
        assert(piece@ =~= body@.subrange(offset as int, offset + len));
        out.push(piece);
        offset = offset + len;
        i += 1;
    }
    assert(lens@.take(lens@.len() as int) =~= lens@);
    assert(out@.map_values(|e: Vec<u8>| e@) =~= split_spec(lens@, body@).unwrap());
    Some(out)
}

/// The bytes `s[from..to]`.
fn slice_subrange(s: &[u8], from: usize, to: usize) -> (r: &[u8])
    requires
        from <= to <= s.len(),
    ensures
        r@ == s@.subrange(from as int, to as int),
{
    vstd::slice::slice_subrange(s, from, to)
}

/// Why the parts of a vault file do not make a vault.
#[derive(Clone, Copy, Debug, PartialEq, Eq, Structural)]
pub enum LoadError {
    /// The number of names differs from the number of entry lengths.
    CountMismatch,
    /// The entry section is shorter than the entry lengths say.
    TruncatedEntries,
}

/// The stored digest of the master password equals the digest of the password typed.
pub fn password_hash_matches(stored: &[u8; 64], typed: &[u8; 64]) -> (r: bool)
    ensures
        r == (stored@ == typed@),
{
    let mut i: usize = 0;
    while i < 64
        invariant
            i <= 64,
            forall|j: int| 0 <= j < i ==> stored@[j] == typed@[j],
        decreases 64 - i,
    {
        if stored[i] != typed[i] {
            return false;
        }
        i += 1;
    }
    assert(stored@ =~= typed@);
    true
}

impl Data {
    /// The digest of the master password.
    pub closed spec fn hash(&self) -> Seq<u8> {
        self.password_hash@
    }

    /// The entry names, in order.
    pub closed spec fn names(&self) -> Seq<Seq<char>> {
        self.records@.map_values(|r: (String, Vec<u8>)| r.0@)
    }

    /// The encrypted entries, in order.
    pub closed spec fn entries(&self) -> Seq<Seq<u8>> {
        self.records@.map_values(|r: (String, Vec<u8>)| r.1@)
    }

    /// There is exactly one encrypted entry for each name, and each is no longer than
    /// memory allows.
    pub proof fn lemma_shape(&self)
        ensures
            self.names().len() == self.entries().len(),
            forall|i: int| 0 <= i < self.entries().len() ==> (#[trigger] self.entries()[i]).len() <= usize::MAX,
    {
        assert forall|i: int| 0 <= i < self.entries().len() implies (#[trigger] self.entries()[i]).len()
            <= usize::MAX by {
            assert(self.entries()[i] == self.records@[i].1@);
            assert(self.records@[i].1.len() == self.records@[i].1@.len());
        }
    }

    /// An empty vault for the given password digest, as a first run writes it.
    pub fn new(password_hash: [u8; 64]) -> (d: Data)
        ensures
            d.hash() == password_hash@,
            d.names().len() == 0,
            d.entries().len() == 0,
    {
        let d = Data { password_hash, records: Vec::new() };
        assert(d.names() =~= Seq::<Seq<char>>::empty());
        assert(d.entries() =~= Seq::<Seq<u8>>::empty());
        d
    }

    /// Puts a vault together from what loading reads: the digest, the names, the entry
    /// lengths, and the rest of the file, from which the entries are cut in order.
    pub fn from_parts(password_hash: [u8; 64], names: Vec<String>, entry_lens: &[usize], body: &[u8]) -> (r:
        Result<Data, LoadError>)
        ensures
            names@.len() != entry_lens@.len() ==> r == Err::<Data, LoadError>(
                LoadError::CountMismatch,
            ),
            names@.len() == entry_lens@.len() && split_spec(entry_lens@, body@) is None ==> r
                == Err::<Data, LoadError>(LoadError::TruncatedEntries),
            r matches Ok(d) ==> d.hash() == password_hash@ && d.names() == names@.map_values(
                |s: String| s@,
            ) && d.entries() == split_spec(entry_lens@, body@).unwrap(),
            names@.len() == entry_lens@.len() && split_spec(entry_lens@, body@) is Some ==> r is Ok,
            r is Ok <==> loaded(password_hash@, names@.map_values(|s: String| s@), entry_lens@, body@) is Some,
            r matches Ok(d) ==> loaded(password_hash@, names@.map_values(|s: String| s@), entry_lens@, body@)
                == Some((d.hash(), d.names(), d.entries())),
    {
        if names.len() != entry_lens.len() {
            return Err(LoadError::CountMismatch);
        }
        let entries = match split_entries(entry_lens, body) {
            Some(entries) => entries,
            None => {
                return Err(LoadError::TruncatedEntries);
            },
        };
        let ghost parts = split_spec(entry_lens@, body@).unwrap();
        let ghost name_views = names@.map_values(|s: String| s@);
        assert(entries@.len() == parts.len());
        let mut records: Vec<(String, Vec<u8>)> = Vec::new();
        let mut names = names;
        let mut entries = entries;
        let mut k: usize = names.len();
        let ghost all_names = names@;
        let ghost all_entries = entries@;
        // Pair the names with the entries from the back, then reverse.
        while k > 0
            invariant
                k <= all_names.len(),
                all_names.len() == all_entries.len(),
                names@ == all_names.take(k as int),
                entries@ == all_entries.take(k as int),
                records@.len() == all_names.len() - k,
                forall|j: int|
                    0 <= j < records@.len() ==> (#[trigger] records@[j]).0@ == all_names[all_names.len() - 1 - j]@
                        && records@[j].1@ == all_entries[all_names.len() - 1 - j]@,
            decreases k,
        {
            let n = names.pop().unwrap();
            let e = entries.pop().unwrap();
            records.push((n, e));
            k = k - 1;
            assert(names@ =~= all_names.take(k as int));
            assert(entries@ =~= all_entries.take(k as int));
        }
        let mut ordered: Vec<(String, Vec<u8>)> = Vec::new();
        while records.len() > 0
            invariant
                records@.len() + ordered@.len() == all_names.len(),
                all_names.len() == all_entries.len(),
                forall|j: int|
                    0 <= j < records@.len() ==> (#[trigger] records@[j]).0@ == all_names[all_names.len() - 1 - j]@
                        && records@[j].1@ == all_entries[all_names.len() - 1 - j]@,
                forall|j: int|
                    0 <= j < ordered@.len() ==> (#[trigger] ordered@[j]).0@ == all_names[j]@
                        && ordered@[j].1@ == all_entries[j]@,
            decreases records@.len(),
        {
            let r = records.pop().unwrap();
            ordered.push(r);
        }
        let d = Data { password_hash, records: ordered };
        assert(d.names() =~= name_views);
        assert(d.entries() =~= parts);
        Ok(d)
    }

    /// The number of entries.
    pub fn len(&self) -> (n: usize)
        ensures
            n == self.names().len(),
            n == self.entries().len(),
    {
        self.records.len()
    }

    /// The digest of the master password.
    pub fn password_hash(&self) -> (h: [u8; 64])
        ensures
            h@ == self.hash(),
    {
        self.password_hash
    }

    /// The name of entry `index`.
    pub fn name(&self, index: usize) -> (n: &String)
        requires
            index < self.names().len(),
        ensures
            n@ == self.names()[index as int],
    {
        &self.records[index].0
    }

    /// The encrypted text of entry `index`.
    pub fn entry(&self, index: usize) -> (e: &Vec<u8>)
        requires
            index < self.entries().len(),
        ensures
            e@ == self.entries()[index as int],
    {
        &self.records[index].1
    }

    /// Adds a new entry after the others, with its name.
    pub fn push_entry(&mut self, name: String, encrypted: Vec<u8>)
        ensures
            final(self).names() == old(self).names().push(name@),
            final(self).entries() == old(self).entries().push(encrypted@),
            final(self).hash() == old(self).hash(),
    {
        let ghost old_names = self.names();
        let ghost old_entries = self.entries();
        self.records.push((name, encrypted));
        assert(self.names() =~= old_names.push(name@));
        assert(self.entries() =~= old_entries.push(encrypted@));
    }

    /// Replaces the encrypted text of entry `index`.
    pub fn set_entry(&mut self, index: usize, encrypted: Vec<u8>)
        requires
            index < old(self).entries().len(),
        ensures
            final(self).names() == old(self).names(),
            final(self).entries() == old(self).entries().update(index as int, encrypted@),
            final(self).hash() == old(self).hash(),
    {
        let ghost old_names = self.names();
        let ghost old_entries = self.entries();
        let name = self.records[index].0.clone();
        self.records.set(index, (name, encrypted));
        assert(self.names() =~= old_names);
        assert(self.entries() =~= old_entries.update(index as int, encrypted@));
    }

    /// Renames entry `index`. An empty name is refused: nothing changes and the result is
    /// `false`.
    pub fn rename_entry(&mut self, index: usize, name: String) -> (done: bool)
        requires
            index < old(self).names().len(),
        ensures
            done == (name@.len() > 0),
            done ==> final(self).names() == old(self).names().update(index as int, name@),
            !done ==> final(self).names() == old(self).names(),
            final(self).entries() == old(self).entries(),
            final(self).hash() == old(self).hash(),
    {
        if name.as_str().is_empty() {
            return false;
        }
        let ghost old_names = self.names();
        let ghost old_entries = self.entries();
        let encrypted = self.records[index].1.clone();
        self.records.set(index, (name, encrypted));
        assert(self.names() =~= old_names.update(index as int, name@));
        assert(self.entries() =~= old_entries);
        true
    }

    /// The lengths of the encrypted entries, which the file stores before the entries.
    pub fn entry_lengths(&self) -> (lens: Vec<usize>)
        ensures
            lens@ == lengths(self.entries()),
    {
        let mut lens: Vec<usize> = Vec::new();
        let mut i: usize = 0;
        while i < self.records.len()
            invariant
                i <= self.records@.len(),
                lens@ =~= lengths(self.entries()).take(i as int),
            decreases self.records@.len() - i,
        {
            lens.push(self.records[i].1.len());
            i += 1;
        }
        assert(lens@ =~= lengths(self.entries()));
        lens
    }

    /// The entry section of the vault file: the encrypted entries one after another.
    /// Saving refuses a vault in which an entry is not made of whole 16-byte blocks.
    pub fn entry_section(&self) -> (r: Option<Vec<u8>>)
        ensures
            block_aligned(self.entries()) ==> (r matches Some(s) && s@ == flatten(self.entries())),
            !block_aligned(self.entries()) ==> r is None,
    {
        let mut out: Vec<u8> = Vec::new();
        let mut i: usize = 0;
        while i < self.records.len()
            invariant
                i <= self.records@.len(),
                out@ == flatten(self.entries().take(i as int)),
                forall|j: int| 0 <= j < i ==> (#[trigger] self.entries()[j]).len() % 16 == 0,
            decreases self.records@.len() - i,
        {
            let e = &self.records[i].1;
            if e.len() % 16 != 0 {
                assert(self.entries()[i as int] == e@);
                return None;
            }
            out.extend_from_slice(e.as_slice());
            assert(self.entries().take(i + 1).drop_last() =~= self.entries().take(i as int));
            assert(out@ =~= flatten(self.entries().take(i + 1)));
            i += 1;
        }
        assert(self.entries().take(i as int) =~= self.entries());
        Some(out)
    }
}

/// The vault that loading puts together from the password digest, the names and entry
/// lengths read from the encrypted header, and the rest of the file: `None` where the
/// counts differ or the rest is too short for the entries.
pub open spec fn loaded(hash: Seq<u8>, names: Seq<Seq<char>>, lens: Seq<usize>, body: Seq<u8>) -> Option<
    (Seq<u8>, Seq<Seq<char>>, Seq<Seq<u8>>),
> {
    if names.len() != lens.len() {
        None
    } else {
        match split_spec(lens, body) {
            Some(entries) => Some((hash, names, entries)),
            None => None,
        }
    }
}

/// Saving and then loading gives the vault back: when the header's names and entry
/// lengths come back through the cipher as they were written, the vault put together
/// from them and the written entry section has the vault's digest, names and entries.
pub proof fn save_then_load(d: &Data)
    requires
        block_aligned(d.entries()),
    ensures
        loaded(d.hash(), d.names(), lengths(d.entries()), flatten(d.entries())) == Some(
            (d.hash(), d.names(), d.entries()),
        ),
{
    d.lemma_shape();
    entry_section_round_trip(d.entries());
}

/// What to do at start-up, from whether the vault file and the public-key file exist.
#[derive(Clone, Copy, Debug, PartialEq, Eq, Structural)]
pub enum StartupAction {
    /// No vault yet: set one up.
    FirstRun,
    /// Both files are there: open the vault.
    Open,
    /// The vault exists but the key file is gone, so the vault cannot be decrypted.
    KeyFileMissing,
}

/// Decides what start-up does from which files exist.
pub fn startup_action(vault_exists: bool, key_file_exists: bool) -> (a: StartupAction)
    ensures
        !vault_exists ==> a == StartupAction::FirstRun,
        vault_exists && key_file_exists ==> a == StartupAction::Open,
        vault_exists && !key_file_exists ==> a == StartupAction::KeyFileMissing,
{
    if !vault_exists {
        StartupAction::FirstRun
    } else if !key_file_exists {
        StartupAction::KeyFileMissing
    } else {
        StartupAction::Open
    }
}

/// Why a new master password is refused.
#[derive(Clone, Copy, Debug, PartialEq, Eq, Structural)]
pub enum NewPasswordError {
    Empty,
    Mismatch,
}

/// Checks a new master password and its repetition: it must not be empty, and both must
/// be the same.
pub fn confirm_new_password(first: &[u8], again: &[u8]) -> (r: Result<(), NewPasswordError>)
    ensures
        first@.len() == 0 ==> r == Err::<(), NewPasswordError>(NewPasswordError::Empty),
        first@.len() > 0 && first@ != again@ ==> r == Err::<(), NewPasswordError>(
            NewPasswordError::Mismatch,
        ),
        first@.len() > 0 && first@ == again@ ==> r is Ok,
{
    if first.len() == 0 {
        return Err(NewPasswordError::Empty);
    }
    if first.len() != again.len() {
        return Err(NewPasswordError::Mismatch);
    }
    let mut i: usize = 0;
    while i < first.len()
        invariant
            i <= first.len(),
            first.len() == again.len(),
            forall|j: int| 0 <= j < i ==> first@[j] == again@[j],
        decreases first.len() - i,
    {
        if first[i] != again[i] {
            return Err(NewPasswordError::Mismatch);
        }
        i += 1;
    }
    assert(first@ =~= again@);
    Ok(())
}

} // verus!
