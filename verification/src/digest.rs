//! Turning the hex text that the digest commands print into digest bytes, the block
//! that the password is padded into before key derivation, the split of the derived
//! block into key and IV, and the chain of digests that gives each entry its own IV.
use vstd::prelude::*;
use vstd::utf8::{encode_utf8, encode_utf8_valid_utf8, is_ascii_chars, is_ascii_chars_encode_utf8, valid_utf8};

verus! {

/// The value of `b` as a base-16 digit, upper or lower case.
pub open spec fn hex_digit(b: u8) -> Option<u8> {
    if 48 <= b <= 57 {
        Some((b - 48) as u8)
    } else if 97 <= b <= 102 {
        Some((b - 87) as u8)
    } else if 65 <= b <= 70 {
        Some((b - 55) as u8)
    } else {
        None
    }
}

/// What `u8::from_str_radix(s, 16)` gives for the two-byte text `[hi, lo]`: a leading `+`
/// is allowed before a single digit, otherwise both bytes must be digits.
pub open spec fn hex_pair(hi: u8, lo: u8) -> Option<u8> {
    if hi == 43 {
        hex_digit(lo)
    } else {
        match (hex_digit(hi), hex_digit(lo)) {
            (Some(a), Some(b)) => Some((a * 16 + b) as u8),
            _ => None,
        }
    }
}

/// `b` continues a multi-byte UTF-8 character, so no character starts at it.
pub open spec fn is_utf8_continuation(b: u8) -> bool {
    128 <= b < 192
}

/// The 64-byte digest read from the 128 hex characters that `sha512` prints: byte `i` is
/// the pair at `2 * i`. `None` where the text is not UTF-8 or a pair is not a number.
pub open spec fn sha512_digest(text: Seq<u8>) -> Option<Seq<u8>> {
    if text.len() == 128 && valid_utf8(text) && (forall|i: int|
        0 <= i < 64 ==> (#[trigger] hex_pair(text[2 * i], text[2 * i + 1])) is Some) {
        Some(Seq::new(64, |i: int| hex_pair(text[2 * i], text[2 * i + 1]).unwrap()))
    } else {
        None
    }
}

/// The 16-byte digest made of every other byte of the 64 hex characters that `sha256`
/// prints: byte `i` is the pair at `4 * i`, and the pair must end on a character
/// boundary. `None` where the text is not UTF-8, a pair is not a number, or a pair ends
/// inside a character.
pub open spec fn sha128_digest(text: Seq<u8>) -> Option<Seq<u8>> {
    if text.len() == 64 && valid_utf8(text) && (forall|i: int|
        0 <= i < 16 ==> (#[trigger] hex_pair(text[4 * i], text[4 * i + 1])) is Some
            && !is_utf8_continuation(text[4 * i + 2])) {
        Some(Seq::new(16, |i: int| hex_pair(text[4 * i], text[4 * i + 1]).unwrap()))
    } else {
        None
    }
}

/// `std::str::from_utf8` accepts `bytes`. Its documentation promises `Ok` exactly for
/// well-formed UTF-8, which is what `valid_utf8` of vstd states.
#[verifier::external_body]
fn utf8_accepted(bytes: &[u8]) -> (r: bool)
    ensures
        r == valid_utf8(bytes@),
{
    std::str::from_utf8(bytes).is_ok()
}

/// The value of one base-16 digit.
pub fn parse_hex_digit(b: u8) -> (r: Option<u8>)
    ensures
        r == hex_digit(b),
{
    if 48 <= b && b <= 57 {
        Some(b - 48)
    } else if 97 <= b && b <= 102 {
        Some(b - 87)
    } else if 65 <= b && b <= 70 {
        Some(b - 55)
    } else {
        None
    }
}

/// The value of a two-character base-16 number, as `u8::from_str_radix` reads it.
pub fn parse_hex_pair(hi: u8, lo: u8) -> (r: Option<u8>)
    ensures
        r == hex_pair(hi, lo),
{
    if hi == 43 {
        parse_hex_digit(lo)
    } else {
        match (parse_hex_digit(hi), parse_hex_digit(lo)) {
            (Some(a), Some(b)) => Some(a * 16 + b),
            _ => None,
        }
    }
}

/// Reads the SHA-512 digest out of the 128 bytes that the `sha512` command printed.
pub fn digest_from_sha512_output(text: &[u8]) -> (r: Option<[u8; 64]>)
    requires
        text.len() == 128,
    ensures
        match sha512_digest(text@) {
            Some(d) => r matches Some(out) && out@ == d,
            None => r is None,
        },
{
    if !utf8_accepted(text) {
        return None;
    }
    let mut out = [0u8; 64];
    let mut i: usize = 0;
    while i < 64
        invariant
            i <= 64,
            text.len() == 128,
            valid_utf8(text@),
            forall|j: int| 0 <= j < i ==> (#[trigger] hex_pair(text@[2 * j], text@[2 * j + 1])) is Some
                && out@[j] == hex_pair(text@[2 * j], text@[2 * j + 1]).unwrap(),
        decreases 64 - i,
    {
        match parse_hex_pair(text[2 * i], text[2 * i + 1]) {
            Some(v) => {
                out[i] = v;
            },
            None => {
                return None;
            },
        }
        i += 1;
    }
    assert(out@ =~= sha512_digest(text@).unwrap());
    Some(out)
}

/// Reads the 16-byte digest (every other byte of SHA-256) out of the 64 bytes that the
/// `sha256` command printed.
pub fn digest_from_sha256_output(text: &[u8]) -> (r: Option<[u8; 16]>)
    requires
        text.len() == 64,
    ensures
        match sha128_digest(text@) {
            Some(d) => r matches Some(out) && out@ == d,
            None => r is None,
        },
{
    if !utf8_accepted(text) {
        return None;
    }
    let mut out = [0u8; 16];
    let mut i: usize = 0;
    while i < 16
        invariant
            i <= 16,
            text.len() == 64,
            valid_utf8(text@),
            forall|j: int| 0 <= j < i ==> (#[trigger] hex_pair(text@[4 * j], text@[4 * j + 1])) is Some
                && !is_utf8_continuation(text@[4 * j + 2])
                && out@[j] == hex_pair(text@[4 * j], text@[4 * j + 1]).unwrap(),
        decreases 16 - i,
    {
        let boundary = text[4 * i + 2];
        if 128 <= boundary && boundary < 192 {
            assert(!(hex_pair(text@[4 * i], text@[4 * i + 1]) is Some && !is_utf8_continuation(
                text@[4 * i + 2],
            )));
            return None;
        }
        match parse_hex_pair(text[4 * i], text[4 * i + 1]) {
            Some(v) => {
                out[i] = v;
            },
            None => {
                return None;
            },
        }
        i += 1;
    }
    assert(out@ =~= sha128_digest(text@).unwrap());
    Some(out)
}

/// The 256 bytes handed to the RSA step of key derivation: the password's bytes, cut at
/// 256, and after them the byte `255 - i` at each position `i`.
pub open spec fn key_input_block(password: Seq<u8>) -> Seq<u8> {
    Seq::new(256, |i: int| if i < password.len() { password[i] } else { (255 - i) as u8 })
}

/// Builds the block that the password is padded into before key derivation.
pub fn password_block(password: &[u8]) -> (block: [u8; 256])
    ensures
        block@ == key_input_block(password@),
{
    let mut block = [0u8; 256];
    let mut i: usize = 0;
    while i < 256
        invariant
            i <= 256,
            forall|j: int| 0 <= j < i ==> block@[j] == key_input_block(password@)[j],
        decreases 256 - i,
    {
        if i < password.len() {
            block[i] = password[i];
        } else {
            block[i] = 255 - (i as u8);
        }
        i += 1;
    }
    assert(block@ =~= key_input_block(password@));
    block
}

/// Splits the 256 bytes that the RSA step returns into the 240-byte expanded key (the
/// first bytes) and the 16-byte base IV (the last bytes).
pub fn split_key_material(output: &[u8]) -> (r: ([u8; 240], [u8; 16]))
    requires
        output.len() == 256,
    ensures
        r.0@ == output@.take(240),
        r.1@ == output@.skip(240),
{
    let mut key = [0u8; 240];
    let mut iv = [0u8; 16];
    let mut i: usize = 0;
    while i < 240
        invariant
            i <= 240,
            output.len() == 256,
            forall|j: int| 0 <= j < i ==> key@[j] == output@[j],
        decreases 240 - i,
    {
        key[i] = output[i];
        i += 1;
    }
    let mut k: usize = 0;
    while k < 16
        invariant
            k <= 16,
            output.len() == 256,
            forall|j: int| 0 <= j < 240 ==> key@[j] == output@[j],
            forall|j: int| 0 <= j < k ==> iv@[j] == output@[j + 240],
        decreases 16 - k,
    {
        iv[k] = output[k + 240];
        k += 1;
    }
    assert(key@ =~= output@.take(240));
    assert(iv@ =~= output@.skip(240));
    (key, iv)
}

/// The IV of entry `n` is the base IV hashed `n + 1` times with the 16-byte digest. The
/// hashing runs outside the library; this chain says how many rounds are left, takes each
/// round's digest text in turn, and keeps (as ghost state) the texts it took.
pub struct EntryIvChain {
    iv: [u8; 16],
    rounds_left: usize,
    base: Ghost<Seq<u8>>,
    entry: Ghost<nat>,
    texts: Ghost<Seq<Seq<u8>>>,
}

/// `step` applied `n` times to `v`.
pub open spec fn iterate(step: spec_fn(Seq<u8>) -> Seq<u8>, n: nat, v: Seq<u8>) -> Seq<u8>
    decreases n,
{
    if n == 0 {
        v
    } else {
        step(iterate(step, (n - 1) as nat, v))
    }
}

impl EntryIvChain {
    /// The IV the chain holds now: the next text to hash, or the result once no rounds
    /// are left.
    pub closed spec fn iv(&self) -> Seq<u8> {
        self.iv@
    }

    /// How many digests the chain still needs.
    pub closed spec fn rounds(&self) -> nat {
        self.rounds_left as nat
    }

    /// The base IV the chain started from.
    pub closed spec fn start(&self) -> Seq<u8> {
        self.base@
    }

    /// The entry whose IV the chain computes.
    pub closed spec fn entry(&self) -> nat {
        self.entry@
    }

    /// The digest texts the chain has taken, in order.
    pub closed spec fn history(&self) -> Seq<Seq<u8>> {
        self.texts@
    }

    /// The IV the chain held before it took text `k`: the base IV, then the digest read
    /// from each text taken.
    pub open spec fn iv_at(&self, k: int) -> Seq<u8> {
        if k == 0 {
            self.start()
        } else {
            sha128_digest(self.history()[k - 1]).unwrap()
        }
    }

    /// The chain is consistent: every text taken was a readable digest, the current IV is
    /// the one after the last text, and the rounds left and the texts taken add up to the
    /// entry index plus one.
    pub open spec fn wf(&self) -> bool {
        &&& forall|k: int| 0 <= k < self.history().len() ==> (#[trigger] sha128_digest(self.history()[k])) is Some
        &&& self.iv() == self.iv_at(self.history().len() as int)
        &&& self.rounds() + self.history().len() == self.entry() + 1
    }

    /// A chain for entry `entry` that starts from the base IV.
    pub fn new(base_iv: [u8; 16], entry: usize) -> (c: EntryIvChain)
        requires
            entry < usize::MAX,
        ensures
            c.wf(),
            c.iv() == base_iv@,
            c.start() == base_iv@,
            c.entry() == entry,
            c.history().len() == 0,
            c.rounds() == entry + 1,
    {
        EntryIvChain {
            iv: base_iv,
            rounds_left: entry + 1,
            base: Ghost(base_iv@),
            entry: Ghost(entry as nat),
            texts: Ghost(Seq::empty()),
        }
    }

    /// How many digests the chain still needs.
    pub fn rounds_left(&self) -> (n: usize)
        ensures
            n == self.rounds(),
    {
        self.rounds_left
    }

    /// The IV the chain holds now.
    pub fn current(&self) -> (iv: [u8; 16])
        ensures
            iv@ == self.iv(),
    {
        self.iv
    }

    /// Takes the text that `sha256` printed for the current IV. On a readable digest the
    /// chain moves on to it and needs one round less; otherwise nothing changes and the
    /// result is `false`.
    pub fn absorb(&mut self, sha256_text: &[u8]) -> (ok: bool)
        requires
            old(self).wf(),
            old(self).rounds() > 0,
            sha256_text.len() == 64,
        ensures
            final(self).wf(),
            ok == (sha128_digest(sha256_text@) is Some),
            ok ==> final(self).iv() == sha128_digest(sha256_text@).unwrap() && final(self).rounds()
                == old(self).rounds() - 1 && final(self).history() == old(self).history().push(
                sha256_text@,
            ),
            !ok ==> *final(self) == *old(self),
            final(self).start() == old(self).start(),
            final(self).entry() == old(self).entry(),
    {
        match digest_from_sha256_output(sha256_text) {
            Some(d) => {
                let ghost old_texts = self.texts@;
                self.iv = d;
                self.rounds_left = self.rounds_left - 1;
                self.texts = Ghost(old_texts.push(sha256_text@));
                assert forall|k: int| 0 <= k < self.history().len() implies (#[trigger] sha128_digest(
                    self.history()[k],
                )) is Some by {
                    if k < old_texts.len() {
                        assert(self.history()[k] == old_texts[k]);
                    }
                }
                true
            },
            None => false,
        }
    }
}

/// The IV of an entry is the 16-byte digest applied entry + 1 times: when every text the
/// chain took is what the hash command prints for the IV the chain held at that point,
/// the chain's IV is the base IV with "hash, then read the 16-byte digest" applied once
/// for each text; once no rounds are left that is `entry + 1` times.
pub proof fn chain_iterates_digest(c: &EntryIvChain, hash: spec_fn(Seq<u8>) -> Seq<u8>)
    requires
        c.wf(),
        forall|k: int| 0 <= k < c.history().len() ==> #[trigger] c.history()[k] == hash(c.iv_at(k)),
    ensures
        c.iv() == iterate(
            |v: Seq<u8>| sha128_digest(hash(v)).unwrap(),
            c.history().len(),
            c.start(),
        ),
        c.rounds() == 0 ==> c.history().len() == c.entry() + 1,
{
    lemma_iv_at_iterates(c, hash, c.history().len() as int);
}

proof fn lemma_iv_at_iterates(c: &EntryIvChain, hash: spec_fn(Seq<u8>) -> Seq<u8>, k: int)
    requires
        0 <= k <= c.history().len(),
        forall|j: int| 0 <= j < c.history().len() ==> #[trigger] c.history()[j] == hash(c.iv_at(j)),
    ensures
        c.iv_at(k) == iterate(|v: Seq<u8>| sha128_digest(hash(v)).unwrap(), k as nat, c.start()),
    decreases k,
{
    if k > 0 {
        lemma_iv_at_iterates(c, hash, k - 1);
        assert(c.history()[k - 1] == hash(c.iv_at(k - 1)));
    }
}

/// The lower-case hex digit for `n < 16`, as a byte.
pub open spec fn hex_digit_byte(n: nat) -> u8 {
    if n < 10 {
        (n + 48) as u8
    } else {
        (n + 87) as u8
    }
}

/// The lower-case hex text of `d`, two characters for each byte, as the digest commands
/// print a digest.
pub open spec fn hex_text(d: Seq<u8>) -> Seq<u8> {
    Seq::new(
        2 * d.len(),
        |i: int|
            if i % 2 == 0 {
                hex_digit_byte(d[i / 2] as nat / 16)
            } else {
                hex_digit_byte(d[i / 2] as nat % 16)
            },
    )
}

proof fn lemma_ascii_is_utf8(b: Seq<u8>)
    requires
        forall|i: int| 0 <= i < b.len() ==> #[trigger] b[i] < 128,
    ensures
        valid_utf8(b),
{
    let chars = Seq::new(b.len(), |i: int| b[i] as char);
    assert(is_ascii_chars(chars));
    is_ascii_chars_encode_utf8(chars);
    assert forall|i: int| 0 <= i < b.len() implies encode_utf8(chars)[i] == b[i] by {
        assert(chars[i] as u8 == encode_utf8(chars)[i]);
        assert((b[i] as char) as u8 == b[i]);
    }
    assert(encode_utf8(chars) =~= b);
    encode_utf8_valid_utf8(chars);
}

proof fn lemma_hex_pair_of_byte(x: u8)
    ensures
        hex_pair(hex_digit_byte(x as nat / 16), hex_digit_byte(x as nat % 16)) == Some(x),
        hex_digit_byte(x as nat / 16) < 128,
        hex_digit_byte(x as nat % 16) < 128,
{
    let hi = x as nat / 16;
    let lo = x as nat % 16;
    assert(hi < 16 && lo < 16);
    assert(hi * 16 + lo == x);
}

/// Reading the text that `sha512` prints for a digest gives the digest back.
pub proof fn sha512_reads_printed_digest(d: Seq<u8>)
    requires
        d.len() == 64,
    ensures
        sha512_digest(hex_text(d)) == Some(d),
{
    let t = hex_text(d);
    assert forall|i: int| 0 <= i < t.len() implies #[trigger] t[i] < 128 by {
        lemma_hex_pair_of_byte(d[i / 2]);
    }
    lemma_ascii_is_utf8(t);
    assert forall|i: int| 0 <= i < 64 implies (#[trigger] hex_pair(t[2 * i], t[2 * i + 1])) == Some(d[i]) by {
        lemma_hex_pair_of_byte(d[i]);
        assert((2 * i) / 2 == i);
        assert((2 * i + 1) / 2 == i);
    }
    assert(sha512_digest(t).unwrap() =~= d);
}

/// The 16-byte digest is every other byte of SHA-256: reading the text that `sha256`
/// prints for a 32-byte digest gives its bytes 0, 2, 4, and so on.
pub proof fn sha128_is_every_other_byte(d: Seq<u8>)
    requires
        d.len() == 32,
    ensures
        sha128_digest(hex_text(d)) == Some(Seq::new(16, |i: int| d[2 * i])),
{
    let t = hex_text(d);
    assert forall|i: int| 0 <= i < t.len() implies #[trigger] t[i] < 128 by {
        lemma_hex_pair_of_byte(d[i / 2]);
    }
    lemma_ascii_is_utf8(t);
    assert forall|i: int| 0 <= i < 16 implies (#[trigger] hex_pair(t[4 * i], t[4 * i + 1])) == Some(d[2 * i])
        && !is_utf8_continuation(t[4 * i + 2]) by {
        lemma_hex_pair_of_byte(d[2 * i]);
        lemma_hex_pair_of_byte(d[2 * i + 1]);
        assert((4 * i) / 2 == 2 * i);
        assert((4 * i + 1) / 2 == 2 * i);
        assert((4 * i + 2) / 2 == 2 * i + 1);
        assert(t[4 * i + 2] < 128);
    }
    assert(sha128_digest(t).unwrap() =~= Seq::new(16, |i: int| d[2 * i]));
}

} // verus!
