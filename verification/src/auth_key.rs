//! API keys: stored as HMAC-SHA256(salt, key) in hex with a random per-key
//! salt; the plaintext key is never retained.
use hmac::Mac;
use rand::RngCore;
use subtle::ConstantTimeEq;
use vstd::prelude::*;

use crate::text::str_eq;

verus! {

// ---------------------------------------------------------------------------
// Hex encoding
// ---------------------------------------------------------------------------

/// The lower-case hex digit of a nibble.
pub open spec fn spec_hex_digit(n: int) -> char {
    if n < 10 {
        (48 + n) as char
    } else {
        (97 + n - 10) as char
    }
}

/// Lower-case hex encoding: two digits per byte, high nibble first.
pub open spec fn spec_hex_encode(b: Seq<u8>) -> Seq<char> {
    Seq::new(
        2 * b.len(),
        |i: int|
            if i % 2 == 0 {
                spec_hex_digit((b[i / 2] / 16) as int)
            } else {
                spec_hex_digit((b[i / 2] % 16) as int)
            },
    )
}

/// Whether `c` is a hex digit of either case.
pub open spec fn spec_is_hex_char(c: char) -> bool {
    ('0' <= c && c <= '9') || ('a' <= c && c <= 'f') || ('A' <= c && c <= 'F')
}

/// The value of a hex digit.
pub open spec fn spec_hex_val(c: char) -> int {
    if '0' <= c && c <= '9' {
        c as int - 48
    } else if 'a' <= c && c <= 'f' {
        c as int - 97 + 10
    } else {
        c as int - 65 + 10
    }
}

/// Whether `s` is a hex string: an even number of hex digits.
pub open spec fn spec_is_hex(s: Seq<char>) -> bool {
    s.len() % 2 == 0 && forall|i: int| 0 <= i < s.len() ==> spec_is_hex_char(#[trigger] s[i])
}

/// The bytes a hex string stands for.
pub open spec fn spec_hex_decode(s: Seq<char>) -> Seq<u8> {
    Seq::new(s.len() / 2, |i: int| (spec_hex_val(s[2 * i]) * 16 + spec_hex_val(s[2 * i + 1])) as u8)
}

/// `hex::encode`: lower-case hex, two digits per byte.
#[verifier::external_body]
fn hex_encode(bytes: &[u8]) -> (s: String)
    ensures
        s@ == spec_hex_encode(bytes@),
{
    hex::encode(bytes)
}

/// `hex::decode` on the bytes of `s`: `Some` exactly when `s` is an even
/// number of hex digits of either case (a non-ASCII character is never a hex
/// digit), with the bytes they stand for.
#[verifier::external_body]
fn hex_decode(s: &str) -> (r: Option<Vec<u8>>)
    ensures
        match r {
            Some(v) => spec_is_hex(s@) && v@ == spec_hex_decode(s@),
            None => !spec_is_hex(s@),
        },
{
    match hex::decode(s) {
        Ok(v) => Some(v),
        Err(_) => None,
    }
}

// ---------------------------------------------------------------------------
// HMAC-SHA256, randomness, constant-time comparison
// ---------------------------------------------------------------------------

/// HMAC-SHA256 of the UTF-8 bytes of `msg` under `key`.
pub uninterp spec fn spec_hmac_sha256(key: Seq<u8>, msg: Seq<char>) -> Seq<u8>;

/// `hmac::Hmac::<sha2::Sha256>`: `new_from_slice(key)` (which accepts keys
/// of any length), `update(msg.as_bytes())`, `finalize().into_bytes()`.
/// Claimed: the 32-byte tag is a function of the key and the message.
#[verifier::external_body]
fn hmac_sha256(key: &[u8; 16], msg: &str) -> (tag: Vec<u8>)
    ensures
        tag@ == spec_hmac_sha256(key@, msg@),
        tag@.len() == 32,
{
    let mut mac = hmac::Hmac::<sha2::Sha256>::new_from_slice(key).expect("HMAC takes keys of any size");
    mac.update(msg.as_bytes());
    mac.finalize().into_bytes().to_vec()
}

/// `rand::thread_rng().fill_bytes`: 16 random bytes. Nothing is promised of
/// their values.
#[verifier::external_body]
fn random_bytes_16() -> (b: [u8; 16]) {
    let mut buf = [0u8; 16];
    rand::thread_rng().fill_bytes(&mut buf);
    buf
}

/// `subtle::ConstantTimeEq::ct_eq` on the UTF-8 bytes of two strings:
/// true exactly when the strings are equal (UTF-8 encoding is injective).
#[verifier::external_body]
fn ct_eq_str(a: &str, b: &str) -> (r: bool)
    ensures
        r == (a@ == b@),
{
    a.as_bytes().ct_eq(b.as_bytes()).into()
}

// ---------------------------------------------------------------------------
// Salts and entries
// ---------------------------------------------------------------------------

/// Per-key secret salt (16 bytes).
#[derive(Debug, Clone)]
pub struct Salt(pub [u8; 16]);

impl Salt {
    /// A fresh random salt.
    pub fn random() -> (s: Self) {
        Salt(random_bytes_16())
    }

    /// The salt as 32 lower-case hex digits.
    pub fn to_hex(&self) -> (s: String)
        ensures
            s@ == spec_hex_encode(self.0@),
    {
        hex_encode(self.0.as_slice())
    }

    /// Parse a salt from hex. `None` when `s` is not a hex string; a hex
    /// string must then encode exactly 16 bytes.
    pub fn from_hex(s: &str) -> (r: Option<Self>)
        requires
            spec_is_hex(s@) ==> s@.len() == 32,
        ensures
            match r {
                Some(salt) => spec_is_hex(s@) && salt.0@ == spec_hex_decode(s@),
                None => !spec_is_hex(s@),
            },
    {
        let v = match hex_decode(s) {
            Some(v) => v,
            None => {
                return None;
            },
        };
        let out: [u8; 16] = [
            v[0], v[1], v[2], v[3], v[4], v[5], v[6], v[7], v[8], v[9], v[10], v[11], v[12], v[13],
            v[14], v[15],
        ];
        assert(out@ =~= v@);
        Some(Salt(out))
    }
}

/// The stored hash of `key` under `salt`: hex of HMAC-SHA256(salt, key).
pub open spec fn spec_key_hash(salt: Seq<u8>, key: Seq<char>) -> Seq<char> {
    spec_hex_encode(spec_hmac_sha256(salt, key))
}

/// The fingerprint of a hash: `key_` and its first 8 characters.
pub open spec fn spec_key_id(hash: Seq<char>) -> Seq<char> {
    "key_"@ + hash.subrange(0, 8)
}

/// Abstract value of an entry.
pub struct EntryView {
    pub hash: Seq<char>,
    pub salt: Seq<u8>,
    pub tenant_id: Seq<char>,
    pub role: Seq<char>,
    pub key_id: Seq<char>,
}

/// Whether `e` is the record of plaintext key `key` for `tenant` and
/// `role`, under whatever salt it carries.
pub open spec fn spec_made_from(e: EntryView, key: Seq<char>, tenant: Seq<char>, role: Seq<char>) -> bool {
    &&& e.salt.len() == 16
    &&& e.hash == spec_key_hash(e.salt, key)
    &&& e.key_id == spec_key_id(e.hash)
    &&& e.tenant_id == tenant
    &&& e.role == role
}

/// Whether plaintext `key` verifies against entry `e`.
pub open spec fn spec_key_matches(e: EntryView, key: Seq<char>) -> bool {
    spec_key_hash(e.salt, key) == e.hash
}

/// A single key record: stored hash and salt, no plaintext.
#[derive(Debug, Clone)]
pub struct ApiKeyEntry {
    /// HMAC-SHA256(salt, key) as lower-case hex.
    pub hash: String,
    pub salt: Salt,
    /// Tenant the key belongs to.
    pub tenant_id: String,
    /// Role name of the key.
    pub role: String,
    /// Fingerprint: `key_` and the first 8 hex digits of the hash.
    pub key_id: String,
}

impl View for ApiKeyEntry {
    type V = EntryView;

    open spec fn view(&self) -> EntryView {
        EntryView {
            hash: self.hash@,
            salt: self.salt.0@,
            tenant_id: self.tenant_id@,
            role: self.role@,
            key_id: self.key_id@,
        }
    }
}

/// A hex encoding is ASCII and twice as long as its input.
proof fn lemma_hex_ascii(b: Seq<u8>)
    ensures
        spec_hex_encode(b).len() == 2 * b.len(),
        vstd::utf8::is_ascii_chars(spec_hex_encode(b)),
{
    let s = spec_hex_encode(b);
    assert forall|i: int| 0 <= i < s.len() implies '\0' <= #[trigger] s[i] <= '\u{7f}' by {
        let byte = b[i / 2];
        assert(byte / 16 < 16 && byte % 16 < 16);
    }
}

impl ApiKeyEntry {
    /// Record plaintext key `plaintext_key` for `tenant_id` and `role`
    /// under a fresh random salt.
    pub fn new(plaintext_key: &str, tenant_id: &str, role: &str) -> (e: Self)
        ensures
            spec_made_from(e@, plaintext_key@, tenant_id@, role@),
            e@.hash.len() == 64,
            e@.key_id.len() == 12,
    {
        let salt = Salt::random();
        let hash = Self::compute_hash(&salt, plaintext_key);
        let mut key_id = "key_".to_owned();
        key_id.append(hash.as_str().substring_ascii(0, 8));
        proof {
            reveal_strlit("key_");
        }
        ApiKeyEntry { hash, salt, tenant_id: tenant_id.to_owned(), role: role.to_owned(), key_id }
    }

    /// Hex of HMAC-SHA256(salt, key).
    pub fn compute_hash(salt: &Salt, key: &str) -> (h: String)
        ensures
            h@ == spec_key_hash(salt.0@, key@),
            h@.len() == 64,
            vstd::utf8::is_ascii_chars(h@),
    {
        let tag = hmac_sha256(&salt.0, key);
        proof {
            lemma_hex_ascii(tag@);
        }
        hex_encode(tag.as_slice())
    }

    /// Whether `plaintext_key` is the key this entry records (constant-time
    /// comparison of the hashes).
    pub fn verify(&self, plaintext_key: &str) -> (r: bool)
        ensures
            r == spec_key_matches(self@, plaintext_key@),
    {
        let computed = Self::compute_hash(&self.salt, plaintext_key);
        ct_eq_str(computed.as_str(), self.hash.as_str())
    }
}

} // verus!

verus! {

// ---------------------------------------------------------------------------
// The key store
// ---------------------------------------------------------------------------

/// The views of a list of entries.
pub open spec fn spec_entries_view(v: Seq<ApiKeyEntry>) -> Seq<EntryView> {
    Seq::new(v.len(), |i: int| v[i]@)
}

/// Position of the first entry that `key` verifies against.
pub open spec fn spec_first_match(s: Seq<EntryView>, key: Seq<char>) -> Option<int> {
    if exists|i: int| 0 <= i < s.len() && spec_key_matches(#[trigger] s[i], key) {
        let i = choose|i: int|
            0 <= i < s.len() && spec_key_matches(#[trigger] s[i], key) && forall|j: int|
                0 <= j < i ==> !spec_key_matches(#[trigger] s[j], key);
        Some(i)
    } else {
        None
    }
}

/// The entries left after revoking fingerprint `key_id`.
pub open spec fn spec_without_id(s: Seq<EntryView>, key_id: Seq<char>) -> Seq<EntryView> {
    s.filter(spec_id_differs(key_id))
}

/// Whether an entry's fingerprint differs from `key_id`.
pub open spec fn spec_id_differs(key_id: Seq<char>) -> spec_fn(EntryView) -> bool {
    |e: EntryView| e.key_id != key_id
}

/// In-memory store of API key records, in insertion order.
pub struct ApiKeyStore {
    entries: Vec<ApiKeyEntry>,
}

impl View for ApiKeyStore {
    type V = Seq<EntryView>;

    closed spec fn view(&self) -> Seq<EntryView> {
        spec_entries_view(self.entries@)
    }
}

impl ApiKeyStore {
    /// An empty store.
    pub fn new() -> (s: Self)
        ensures
            s@ == Seq::<EntryView>::empty(),
    {
        ApiKeyStore { entries: Vec::new() }
    }

    /// A store holding exactly `entries`, in order.
    pub fn from_entries(entries: Vec<ApiKeyEntry>) -> (s: Self)
        ensures
            s@ == spec_entries_view(entries@),
    {
        ApiKeyStore { entries }
    }

    /// Record each plaintext key for tenant `default` with role `developer`.
    pub fn from_plaintext_keys(keys: &[String]) -> (s: Self)
        ensures
            s@.len() == keys@.len(),
            forall|i: int| 0 <= i < keys@.len() ==> spec_made_from(#[trigger] s@[i], keys@[i]@, "default"@, "developer"@),
    {
        let mut entries: Vec<ApiKeyEntry> = Vec::new();
        let mut i: usize = 0;
        while i < keys.len()
            invariant
                i <= keys@.len(),
                entries@.len() == i,
                forall|j: int| 0 <= j < i ==> spec_made_from(#[trigger] entries@[j]@, keys@[j]@, "default"@, "developer"@),
            decreases keys@.len() - i,
        {
            let e = ApiKeyEntry::new(keys[i].as_str(), "default", "developer");
            entries.push(e);
            i = i + 1;
        }
        Self::from_entries(entries)
    }

    /// Record each `(key, tenant, role)` triple.
    pub fn from_structured_keys(keys: &[(String, String, String)]) -> (s: Self)
        ensures
            s@.len() == keys@.len(),
            forall|i: int| 0 <= i < keys@.len() ==> spec_made_from(#[trigger] s@[i], keys@[i].0@, keys@[i].1@, keys@[i].2@),
    {
        let mut entries: Vec<ApiKeyEntry> = Vec::new();
        let mut i: usize = 0;
        while i < keys.len()
            invariant
                i <= keys@.len(),
                entries@.len() == i,
                forall|j: int| 0 <= j < i ==> spec_made_from(#[trigger] entries@[j]@, keys@[j].0@, keys@[j].1@, keys@[j].2@),
            decreases keys@.len() - i,
        {
            let t = &keys[i];
            let e = ApiKeyEntry::new(t.0.as_str(), t.1.as_str(), t.2.as_str());
            entries.push(e);
            i = i + 1;
        }
        Self::from_entries(entries)
    }

    /// Append an entry.
    pub fn add(&mut self, entry: ApiKeyEntry)
        ensures
            final(self)@ == old(self)@.push(entry@),
    {
        self.entries.push(entry);
        assert(self@ =~= old(self)@.push(entry@));
    }

    /// The first entry that `plaintext_key` verifies against, if any.
    pub fn verify(&self, plaintext_key: &str) -> (r: Option<&ApiKeyEntry>)
        ensures
            match r {
                Some(e) => spec_first_match(self@, plaintext_key@) matches Some(i) && e@ == self@[i],
                None => spec_first_match(self@, plaintext_key@) is None,
            },
    {
        let mut i: usize = 0;
        while i < self.entries.len()
            invariant
                i <= self.entries@.len(),
                forall|j: int| 0 <= j < i ==> !spec_key_matches(#[trigger] self@[j], plaintext_key@),
            decreases self.entries@.len() - i,
        {
            if self.entries[i].verify(plaintext_key) {
                assert(spec_key_matches(self@[i as int], plaintext_key@));
                proof {
                    let k = choose|k: int|
                        0 <= k < self@.len() && spec_key_matches(#[trigger] self@[k], plaintext_key@) && forall|j: int|
                            0 <= j < k ==> !spec_key_matches(#[trigger] self@[j], plaintext_key@);
                    assert(k == i);
                }
                return Some(&self.entries[i]);
            }
            i = i + 1;
        }
        None
    }

    /// The entry with fingerprint `key_id`; when several share it, the one
    /// added last.
    pub fn verify_by_id(&self, key_id: &str) -> (r: Option<&ApiKeyEntry>)
        ensures
            match r {
                Some(e) => exists|i: int|
                    0 <= i < self@.len() && e@ == self@[i] && self@[i].key_id == key_id@ && forall|j: int|
                        i < j < self@.len() ==> #[trigger] self@[j].key_id != key_id@,
                None => forall|i: int| 0 <= i < self@.len() ==> #[trigger] self@[i].key_id != key_id@,
            },
    {
        let mut i: usize = self.entries.len();
        while i > 0
            invariant
                i <= self.entries@.len(),
                forall|j: int| i <= j < self@.len() ==> #[trigger] self@[j].key_id != key_id@,
            decreases i,
        {
            i = i - 1;
            if str_eq(self.entries[i].key_id.as_str(), key_id) {
                assert(self@[i as int].key_id == key_id@);
                return Some(&self.entries[i]);
            }
        }
        None
    }

    /// Revoke every entry with fingerprint `key_id`; the others keep their
    /// order.
    pub fn remove_by_id(&mut self, key_id: &str)
        ensures
            final(self)@ == spec_without_id(old(self)@, key_id@),
    {
        let mut old_entries: Vec<ApiKeyEntry> = Vec::new();
        std::mem::swap(&mut old_entries, &mut self.entries);
        let ghost orig = spec_entries_view(old_entries@);
        assert(orig == old(self)@);
        let mut kept: Vec<ApiKeyEntry> = Vec::new();
        let mut rest = old_entries;
        let ghost n = orig.len();
        while rest.len() > 0
            invariant
                n == orig.len(),
                rest@.len() <= n,
                forall|j: int| 0 <= j < rest@.len() ==> #[trigger] rest@[j]@ == orig[n - rest@.len() + j],
                spec_entries_view(kept@) == spec_without_id(orig.take(n - rest@.len()), key_id@),
            decreases rest@.len(),
        {
            let ghost k = n - rest@.len();
            let e = rest.remove(0);
            assert(e@ == orig[k]);
            assert(orig.take(k + 1) == orig.take(k).push(e@));
            proof {
                orig.take(k).lemma_filter_push(e@, spec_id_differs(key_id@));
            }
            if !str_eq(e.key_id.as_str(), key_id) {
                let ghost before = kept@;
                kept.push(e);
                assert(spec_entries_view(kept@) =~= spec_entries_view(before).push(kept@[kept@.len() - 1]@));
            }
        }
        assert(orig.take(n as int) == orig);
        self.entries = kept;
    }

    /// Fingerprints of all entries, in order.
    pub fn list_ids(&self) -> (ids: Vec<String>)
        ensures
            ids@.len() == self@.len(),
            forall|i: int| 0 <= i < ids@.len() ==> #[trigger] ids@[i]@ == self@[i].key_id,
    {
        let mut ids: Vec<String> = Vec::new();
        let mut i: usize = 0;
        while i < self.entries.len()
            invariant
                i <= self.entries@.len(),
                ids@.len() == i,
                forall|j: int| 0 <= j < i ==> #[trigger] ids@[j]@ == self@[j].key_id,
            decreases self.entries@.len() - i,
        {
            ids.push(self.entries[i].key_id.clone());
            i = i + 1;
        }
        ids
    }

    /// All entries, in order.
    pub fn list_entries(&self) -> (v: &Vec<ApiKeyEntry>)
        ensures
            spec_entries_view(v@) == self@,
    {
        &self.entries
    }
}

/// A key recorded in the store always verifies: after adding an entry made
/// from `key`, looking `key` up finds an entry (this one, or an earlier one
/// that `key` also verifies against).
pub proof fn lemma_added_key_verifies(s: Seq<EntryView>, e: EntryView, key: Seq<char>, tenant: Seq<char>, role: Seq<char>)
    requires
        spec_made_from(e, key, tenant, role),
    ensures
        spec_first_match(s.push(e), key) is Some,
        spec_first_match(s, key) is None ==> spec_first_match(s.push(e), key) == Some(s.len() as int),
{
    let t = s.push(e);
    assert(spec_key_matches(t[s.len() as int], key));
    if spec_first_match(s, key) is None {
        assert forall|j: int| 0 <= j < s.len() implies !spec_key_matches(#[trigger] t[j], key) by {
            assert(t[j] == s[j]);
        }
    }
}

/// Revoking a fingerprint leaves no entry with it, and keeps every other
/// entry.
pub proof fn lemma_revoked_id_gone(s: Seq<EntryView>, key_id: Seq<char>)
    ensures
        forall|i: int| 0 <= i < spec_without_id(s, key_id).len() ==> #[trigger] spec_without_id(s, key_id)[i].key_id != key_id,
        forall|e: EntryView| s.contains(e) && e.key_id != key_id ==> #[trigger] spec_without_id(s, key_id).contains(e),
{
    broadcast use vstd::seq_lib::group_filter_ensures;
    assert forall|i: int| 0 <= i < spec_without_id(s, key_id).len() implies #[trigger] spec_without_id(s, key_id)[i].key_id != key_id by {
        s.lemma_filter_pred(spec_id_differs(key_id), i);
    }
    assert forall|e: EntryView| s.contains(e) && e.key_id != key_id implies #[trigger] spec_without_id(s, key_id).contains(e) by {
        let i = choose|i: int| 0 <= i < s.len() && s[i] == e;
        s.lemma_filter_contains(spec_id_differs(key_id), i);
    }
}

/// Looking a key up finds the first record it verifies against: the
/// position found holds a record the key verifies against and no earlier
/// record does; nothing is found exactly when no record does.
pub proof fn lemma_first_match_is_first(s: Seq<EntryView>, key: Seq<char>)
    ensures
        spec_first_match(s, key) is None <==> forall|j: int| 0 <= j < s.len() ==> !spec_key_matches(#[trigger] s[j], key),
        spec_first_match(s, key) matches Some(i) ==> 0 <= i < s.len() && spec_key_matches(s[i], key) && forall|j: int|
            0 <= j < i ==> !spec_key_matches(#[trigger] s[j], key),
{
    if exists|i: int| 0 <= i < s.len() && spec_key_matches(#[trigger] s[i], key) {
        let w = choose|i: int| 0 <= i < s.len() && spec_key_matches(#[trigger] s[i], key);
        lemma_least_match(s, key, w);
    }
}

/// Below any record a key verifies against there is a least one.
proof fn lemma_least_match(s: Seq<EntryView>, key: Seq<char>, w: int)
    requires
        0 <= w < s.len(),
        spec_key_matches(s[w], key),
    ensures
        exists|i: int|
            0 <= i < s.len() && spec_key_matches(#[trigger] s[i], key) && forall|j: int|
                0 <= j < i ==> !spec_key_matches(#[trigger] s[j], key),
    decreases w,
{
    if exists|j: int| 0 <= j < w && spec_key_matches(#[trigger] s[j], key) {
        let j = choose|j: int| 0 <= j < w && spec_key_matches(#[trigger] s[j], key);
        lemma_least_match(s, key, j);
    }
}

/// Hex encoding round-trips: the encoding of any bytes is a hex string
/// twice as long, and decoding it gives the bytes back; so a salt written
/// out with `to_hex` reads back with `from_hex` unchanged.
pub proof fn lemma_hex_roundtrip(b: Seq<u8>)
    ensures
        spec_is_hex(spec_hex_encode(b)),
        spec_hex_encode(b).len() == 2 * b.len(),
        spec_hex_decode(spec_hex_encode(b)) == b,
{
    let e = spec_hex_encode(b);
    assert forall|i: int| 0 <= i < e.len() implies spec_is_hex_char(#[trigger] e[i]) by {
        let v = if i % 2 == 0 { (b[i / 2] / 16) as int } else { (b[i / 2] % 16) as int };
        assert(0 <= v < 16);
    }
    assert forall|i: int| 0 <= i < b.len() implies #[trigger] spec_hex_decode(e)[i] == b[i] by {
        let hi = (b[i] / 16) as int;
        let lo = (b[i] % 16) as int;
        assert((2 * i) % 2 == 0 && (2 * i) / 2 == i);
        assert((2 * i + 1) % 2 == 1 && (2 * i + 1) / 2 == i);
        assert(spec_hex_val(spec_hex_digit(hi)) == hi);
        assert(spec_hex_val(spec_hex_digit(lo)) == lo);
        assert(hi * 16 + lo == b[i]);
    }
    assert(spec_hex_decode(e) =~= b);
}

} // verus!
