//! Typed values in the node's embedded key-value database: strings and
//! 32-bit integers, stored in their bincode form under text keys.
use vstd::prelude::*;
use vstd::utf8::*;
use crate::msgpack::{byte_power, lemma_byte_powers};

verus! {

/// A handle on a sled database. Clones of a handle share one tree, so a
/// handle's contents are modelled only where one handle is the only one
/// written through: see [`Database`].
#[verifier::external_type_specification]
#[verifier::external_body]
pub struct ExDb(sled::Db);

/// An error of a sled operation (I/O, corruption, ...).
#[verifier::external_type_specification]
#[verifier::external_body]
pub struct ExSledError(sled::Error);

/// The key-value pairs of the tree that a sled handle reads and writes.
pub uninterp spec fn db_contents(db: sled::Db) -> Map<Seq<u8>, Seq<u8>>;

/// Stores `value` under `key` with `sled::Tree::insert`. When the call
/// succeeds the tree holds the pair in place of any earlier value of `key`;
/// when it fails (an I/O error) nothing is said of the contents. sled writes
/// through a shared handle; the handle is taken by `&mut` here so that a
/// write shows in the contents of the handle it went through, the only one
/// that [`Database`] keeps.
#[verifier::external_body]
fn db_insert(db: &mut sled::Db, key: &[u8], value: &[u8]) -> (res: Result<(), sled::Error>)
    ensures
        res is Ok ==> db_contents(*final(db)) == db_contents(*old(db)).insert(key@, value@),
{
    match db.insert(key, value) {
        Ok(_) => Ok(()),
        Err(e) => Err(e),
    }
}

/// Reads the value of `key` with `sled::Tree::get`: `Some` with the value the
/// tree holds, or `None` where it holds no value of `key`. The call may fail
/// (an I/O error).
#[verifier::external_body]
fn db_get(db: &sled::Db, key: &[u8]) -> (res: Result<Option<Vec<u8>>, sled::Error>)
    ensures
        res matches Ok(v) ==> match v {
            Some(v) => db_contents(*db).dom().contains(key@) && db_contents(*db)[key@] == v@,
            None => !db_contents(*db).dom().contains(key@),
        },
{
    match db.get(key) {
        Ok(Some(v)) => Ok(Some(v.to_vec())),
        Ok(None) => Ok(None),
        Err(e) => Err(e),
    }
}

/// The node's database: the one handle on its sled tree that is written
/// through. It cannot be cloned, so every write that its contents reflect
/// goes through it; whoever hands it a handle keeps no other handle to write
/// with. Besides the contents, it keeps the record of the reads and writes
/// made through it since it was built, each with whether it succeeded.
pub struct Database {
    db: sled::Db,
    reads: Ghost<Seq<(Seq<u8>, bool)>>,
    writes: Ghost<Seq<(Seq<u8>, Seq<u8>, bool)>>,
}

impl Database {
    /// The key-value pairs of the tree.
    pub closed spec fn contents(&self) -> Map<Seq<u8>, Seq<u8>> {
        db_contents(self.db)
    }

    /// The keys read through [`Database::read`], in order, each with whether
    /// the read succeeded.
    pub closed spec fn reads(&self) -> Seq<(Seq<u8>, bool)> {
        self.reads@
    }

    /// The key-value pairs written, in order, each with whether the write
    /// succeeded.
    pub closed spec fn writes(&self) -> Seq<(Seq<u8>, Seq<u8>, bool)> {
        self.writes@
    }

    /// Takes the handle `db` as the database's only handle.
    pub fn new(db: sled::Db) -> (res: Database)
        ensures
            res.contents() == db_contents(db),
            res.reads().len() == 0,
            res.writes().len() == 0,
    {
        Database { db, reads: Ghost(Seq::empty()), writes: Ghost(Seq::empty()) }
    }

    /// Stores `value` under `key`. When the write succeeds the database holds
    /// the pair in place of any earlier value of `key`; when it fails (an I/O
    /// error) nothing is said of the contents. The write is recorded.
    pub fn insert(&mut self, key: &[u8], value: &[u8]) -> (res: Result<(), sled::Error>)
        ensures
            res is Ok ==> final(self).contents() == old(self).contents().insert(key@, value@),
            final(self).writes() == old(self).writes().push((key@, value@, res is Ok)),
            final(self).reads() == old(self).reads(),
    {
        let res = db_insert(&mut self.db, key, value);
        proof {
            self.writes@ = self.writes@.push((key@, value@, res is Ok));
        }
        res
    }

    /// Reads the value of `key`: `Some` with the value the database holds, or
    /// `None` where it holds none. The read may fail (an I/O error).
    pub fn get(&self, key: &[u8]) -> (res: Result<Option<Vec<u8>>, sled::Error>)
        ensures
            res matches Ok(v) ==> match v {
                Some(v) => self.contents().dom().contains(key@) && self.contents()[key@] == v@,
                None => !self.contents().dom().contains(key@),
            },
    {
        db_get(&self.db, key)
    }

    /// Reads the value of `key` as [`Database::get`] does, and records the
    /// read with whether it succeeded.
    pub fn read(&mut self, key: &[u8]) -> (res: Result<Option<Vec<u8>>, sled::Error>)
        ensures
            res matches Ok(v) ==> match v {
                Some(v) => old(self).contents().dom().contains(key@) && old(self).contents()[key@]
                    == v@,
                None => !old(self).contents().dom().contains(key@),
            },
            final(self).contents() == old(self).contents(),
            final(self).reads() == old(self).reads().push((key@, res is Ok)),
            final(self).writes() == old(self).writes(),
    {
        let res = db_get(&self.db, key);
        proof {
            self.reads@ = self.reads@.push((key@, res is Ok));
        }
        res
    }
}

/// The `w` bytes that denote `n` modulo `256^w` in little-endian order.
pub open spec fn le_bytes(n: nat, w: nat) -> Seq<u8>
    decreases w,
{
    if w == 0 {
        seq![]
    } else {
        seq![(n % 256) as u8] + le_bytes(n / 256, (w - 1) as nat)
    }
}

/// The natural number that `b` denotes in little-endian order.
pub open spec fn le_value(b: Seq<u8>) -> nat
    decreases b.len(),
{
    if b.len() == 0 {
        0
    } else {
        b[0] as nat + 256 * le_value(b.drop_first())
    }
}

/// The 32-bit two's-complement form of `v`.
pub open spec fn i32_bits(v: i32) -> nat {
    if v >= 0 {
        v as nat
    } else {
        (v + 0x1_0000_0000) as nat
    }
}

/// The `i32` whose two's-complement form the first four bytes of `b` give in
/// little-endian order.
pub open spec fn i32_of_le(b: Seq<u8>) -> i32 {
    let u = le_value(b.subrange(0, 4));
    if u >= 0x8000_0000 {
        (u - 0x1_0000_0000) as i32
    } else {
        u as i32
    }
}

/// The bincode form of an `i32`: four bytes, little-endian.
pub open spec fn bincode_i32(v: i32) -> Seq<u8> {
    le_bytes(i32_bits(v), 4)
}

/// The bincode form of a text: the length of its UTF-8 form as eight
/// little-endian bytes, then that form.
pub open spec fn bincode_string(s: Seq<char>) -> Seq<u8> {
    le_bytes(encode_utf8(s).len(), 8) + encode_utf8(s)
}

/// The text that bincode reads from `b`: a little-endian length in eight
/// bytes, then that many bytes of valid UTF-8 (more bytes may follow);
/// `None` where `b` has no such text.
pub open spec fn bincode_string_value(b: Seq<u8>) -> Option<Seq<char>> {
    if b.len() < 8 {
        None
    } else {
        let len = le_value(b.subrange(0, 8));
        if b.len() < 8 + len {
            None
        } else {
            let payload = b.subrange(8, 8 + len as int);
            if valid_utf8(payload) {
                Some(decode_utf8(payload))
            } else {
                None
            }
        }
    }
}

/// `le_bytes` gives `w` bytes.
pub proof fn lemma_le_bytes_len(n: nat, w: nat)
    ensures
        le_bytes(n, w).len() == w,
    decreases w,
{
    if w > 0 {
        lemma_le_bytes_len(n / 256, (w - 1) as nat);
    }
}

/// Reading back the `w` little-endian bytes of a number below `256^w`
/// gives the number.
pub proof fn lemma_le_value_of_le_bytes(n: nat, w: nat)
    requires
        n < byte_power(w),
    ensures
        le_value(le_bytes(n, w)) == n,
    decreases w,
{
    if w > 0 {
        let p = byte_power((w - 1) as nat);
        assert(n / 256 < p) by (nonlinear_arith)
            requires
                n < 256 * p,
        ;
        lemma_le_value_of_le_bytes(n / 256, (w - 1) as nat);
        let b = le_bytes(n, w);
        assert(b.drop_first() =~= le_bytes(n / 256, (w - 1) as nat));
        assert(n % 256 + 256 * (n / 256) == n) by (nonlinear_arith);
    }
}

/// The bincode form of an `i32` reads back as the same `i32`.
pub proof fn lemma_i32_round_trip(v: i32)
    ensures
        bincode_i32(v).len() == 4,
        i32_of_le(bincode_i32(v)) == v,
{
    lemma_byte_powers();
    lemma_le_bytes_len(i32_bits(v), 4);
    lemma_le_value_of_le_bytes(i32_bits(v), 4);
    assert(bincode_i32(v).subrange(0, 4) =~= bincode_i32(v));
}

/// The bincode form of a text reads back as the same text, for a text whose
/// UTF-8 form has fewer than `2^64` bytes.
pub proof fn lemma_string_round_trip(s: Seq<char>)
    requires
        encode_utf8(s).len() < 0x1_0000_0000_0000_0000,
    ensures
        bincode_string_value(bincode_string(s)) == Some(s),
{
    let e = encode_utf8(s);
    let b = bincode_string(s);
    lemma_byte_powers();
    assert(byte_power(8) == 0x1_0000_0000_0000_0000) by {
        assert(byte_power(5) == 0x100_0000_0000);
        assert(byte_power(6) == 0x1_0000_0000_0000);
        assert(byte_power(7) == 0x100_0000_0000_0000);
    }
    lemma_le_bytes_len(e.len(), 8);
    lemma_le_value_of_le_bytes(e.len(), 8);
    assert(b.subrange(0, 8) =~= le_bytes(e.len(), 8));
    assert(b.subrange(8, 8 + e.len() as int) =~= e);
    encode_utf8_valid_utf8(s);
    encode_utf8_decode_utf8(s);
}

/// Distinct text keys have distinct bytes.
pub proof fn lemma_key_bytes_injective(a: Seq<char>, b: Seq<char>)
    ensures
        key_bytes(a) == key_bytes(b) ==> a == b,
{
    encode_utf8_decode_utf8(a);
    encode_utf8_decode_utf8(b);
}

/// Law: once an `i32` is stored under a key, the key holds a value that
/// [`SledWrappings::get_i32`] accepts, and that value is the stored `i32`;
/// the `i32` stored under any other key is unchanged.
pub proof fn law_get_i32_after_set_i32(
    contents: Map<Seq<u8>, Seq<u8>>,
    key: Seq<char>,
    v: i32,
    other: Seq<char>,
)
    ensures
        ({
            let after = contents.insert(key_bytes(key), bincode_i32(v));
            &&& after.dom().contains(key_bytes(key))
            &&& after[key_bytes(key)].len() >= 4
            &&& stored_i32(after, key) == v
            &&& (other != key ==> (after.dom().contains(key_bytes(other)) == contents.dom().contains(
                key_bytes(other),
            ) && stored_i32(after, other) == stored_i32(contents, other)))
        }),
{
    lemma_i32_round_trip(v);
    lemma_key_bytes_injective(key, other);
}

/// Law: once a text is stored under a key, the key holds a value that
/// [`SledWrappings::get_string`] accepts, and that value is the stored text;
/// the text stored under any other key is unchanged.
pub proof fn law_get_string_after_set_string(
    contents: Map<Seq<u8>, Seq<u8>>,
    key: Seq<char>,
    s: Seq<char>,
    other: Seq<char>,
)
    requires
        encode_utf8(s).len() < 0x1_0000_0000_0000_0000,
    ensures
        ({
            let after = contents.insert(key_bytes(key), bincode_string(s));
            &&& after.dom().contains(key_bytes(key))
            &&& bincode_string_value(after[key_bytes(key)]) is Some
            &&& stored_string(after, key) == s
            &&& (other != key ==> (after.dom().contains(key_bytes(other)) == contents.dom().contains(
                key_bytes(other),
            ) && stored_string(after, other) == stored_string(contents, other)))
        }),
{
    lemma_string_round_trip(s);
    lemma_key_bytes_injective(key, other);
}

/// The bincode form of `v`, from `bincode::serialize`, which cannot fail
/// for an `i32`.
#[verifier::external_body]
fn serialize_i32(v: i32) -> (res: Option<Vec<u8>>)
    ensures
        res is Some,
        res matches Some(b) ==> b@ == bincode_i32(v),
{
    bincode::serialize(&v).ok()
}

/// The bincode form of the text `s`, from `bincode::serialize`, which cannot
/// fail for a string.
#[verifier::external_body]
fn serialize_string(s: &String) -> (res: Option<Vec<u8>>)
    ensures
        res is Some,
        res matches Some(b) ==> b@ == bincode_string(s@),
{
    bincode::serialize(s).ok()
}

/// Reads an `i32` with `bincode::deserialize`: the first four bytes,
/// little-endian; it fails on fewer bytes and ignores bytes that follow.
#[verifier::external_body]
fn deserialize_i32(b: &[u8]) -> (res: Option<i32>)
    ensures
        res == (if b@.len() >= 4 {
            Some(i32_of_le(b@))
        } else {
            None
        }),
{
    bincode::deserialize::<i32>(b).ok()
}

/// Reads a text with `bincode::deserialize`; it fails where `b` holds no
/// complete length and UTF-8 text, and ignores bytes that follow.
#[verifier::external_body]
fn deserialize_string(b: &[u8]) -> (res: Option<String>)
    ensures
        match res {
            Some(s) => bincode_string_value(b@) == Some(s@),
            None => bincode_string_value(b@) is None,
        },
{
    bincode::deserialize::<String>(b).ok()
}

/// The bytes of the text key `key`: its UTF-8 form.
pub open spec fn key_bytes(key: Seq<char>) -> Seq<u8> {
    encode_utf8(key)
}

/// The `i32` stored under `key` in `contents`.
pub open spec fn stored_i32(contents: Map<Seq<u8>, Seq<u8>>, key: Seq<char>) -> i32 {
    i32_of_le(contents[key_bytes(key)])
}

/// The text stored under `key` in `contents`.
pub open spec fn stored_string(contents: Map<Seq<u8>, Seq<u8>>, key: Seq<char>) -> Seq<char> {
    bincode_string_value(contents[key_bytes(key)]).unwrap()
}

/// Whether the outcome of reading a stored `i32` can be read as one: a
/// failed read, or a value of at least four bytes.
pub open spec fn i32_read_readable(read: Result<Option<Vec<u8>>, sled::Error>) -> bool {
    match read {
        Ok(Some(b)) => b@.len() >= 4,
        Ok(None) => false,
        Err(_) => true,
    }
}

/// Whether the outcome of reading a stored text can be read as one: a
/// failed read, or the bincode form of a text.
pub open spec fn string_read_readable(read: Result<Option<Vec<u8>>, sled::Error>) -> bool {
    match read {
        Ok(Some(b)) => bincode_string_value(b@) is Some,
        Ok(None) => false,
        Err(_) => true,
    }
}

/// Typed access to the node's database.
pub struct SledWrappings {}

impl SledWrappings {
    /// The `i32` that the outcome of a read gives: the value in its bincode
    /// form, or `-1` where the read failed. The outcome must be readable.
    pub fn i32_of_read(read: Result<Option<Vec<u8>>, sled::Error>) -> (v: i32)
        requires
            i32_read_readable(read),
        ensures
            v == match read {
                Ok(Some(b)) => i32_of_le(b@),
                _ => -1i32,
            },
    {
        match read {
            Ok(Some(byte_vec)) => match deserialize_i32(byte_vec.as_slice()) {
                Some(v) => v,
                None => -1,  // not reached: the value has four bytes
            },
            _ => -1,
        }
    }

    /// The text that the outcome of a read gives: the text in its bincode
    /// form, or the empty text where the read failed. The outcome must be
    /// readable.
    pub fn string_of_read(read: Result<Option<Vec<u8>>, sled::Error>) -> (res: String)
        requires
            string_read_readable(read),
        ensures
            res@ == match read {
                Ok(Some(b)) => bincode_string_value(b@).unwrap(),
                _ => Seq::<char>::empty(),
            },
    {
        match read {
            Ok(Some(byte_vec)) => match deserialize_string(byte_vec.as_slice()) {
                Some(s) => s,
                None => String::new(),  // not reached: the value is a text
            },
            _ => String::new(),
        }
    }

    /// Stores `val` in its bincode form under `key`; `true` when the database
    /// took it. (The caller reports the change.)
    pub fn set_string(key: String, val: String, sled: &mut Database) -> (stored: bool)
        ensures
            stored ==> final(sled).contents() == old(sled).contents().insert(
                key_bytes(key@),
                bincode_string(val@),
            ),
            final(sled).writes() == old(sled).writes().push(
                (key_bytes(key@), bincode_string(val@), stored),
            ),
            final(sled).reads() == old(sled).reads(),
    {
        match serialize_string(&val) {
            Some(bin_val) => sled.insert(key.as_str().as_bytes(), bin_val.as_slice()).is_ok(),
            None => false,
        }
    }

    /// The text stored under `key`, or the empty text when the database
    /// cannot be read. A value must be stored under `key`, and be the bincode
    /// form of a text.
    pub fn get_string(key: String, sled: &Database) -> (res: String)
        requires
            sled.contents().dom().contains(key_bytes(key@)),
            bincode_string_value(sled.contents()[key_bytes(key@)]) is Some,
        ensures
            res@ == stored_string(sled.contents(), key@) || res@ == Seq::<char>::empty(),
    {
        Self::string_of_read(sled.get(key.as_str().as_bytes()))
    }

    /// The text stored under `key`, or `None` where the database holds no
    /// text there (where it cannot be read, the empty text).
    pub fn try_get_string(key: String, sled: &Database) -> (res: Option<String>)
        ensures
            res is None ==> !(sled.contents().dom().contains(key_bytes(key@)) && bincode_string_value(
                sled.contents()[key_bytes(key@)],
            ) is Some),
            res matches Some(s) ==> s@ == stored_string(sled.contents(), key@) || s@ == Seq::<
                char,
            >::empty(),
    {
        match sled.get(key.as_str().as_bytes()) {
            Ok(Some(b)) => {
                if deserialize_string(b.as_slice()).is_some() {
                    Some(Self::get_string(key, sled))
                } else {
                    None
                }
            },
            Ok(None) => None,
            Err(_) => Some(String::new()),
        }
    }

    /// Stores `val` in its bincode form under `key`; `true` when the database
    /// took it. (The caller reports the change.)
    pub fn set_i32(key: String, val: i32, sled: &mut Database) -> (stored: bool)
        ensures
            stored ==> final(sled).contents() == old(sled).contents().insert(
                key_bytes(key@),
                bincode_i32(val),
            ),
            final(sled).writes() == old(sled).writes().push(
                (key_bytes(key@), bincode_i32(val), stored),
            ),
            final(sled).reads() == old(sled).reads(),
    {
        match serialize_i32(val) {
            Some(bin_val) => sled.insert(key.as_str().as_bytes(), bin_val.as_slice()).is_ok(),
            None => false,
        }
    }

    /// The `i32` stored under `key`, or `-1` when the database cannot be
    /// read. A value of at least four bytes must be stored under `key`.
    pub fn get_i32(key: String, sled: &Database) -> (res: i32)
        requires
            sled.contents().dom().contains(key_bytes(key@)),
            sled.contents()[key_bytes(key@)].len() >= 4,
        ensures
            res == stored_i32(sled.contents(), key@) || res == -1,
    {
        Self::i32_of_read(sled.get(key.as_str().as_bytes()))
    }

    /// The `i32` stored under `key`, or `None` where the database holds no
    /// value of four bytes or more there (where it cannot be read, `-1`).
    pub fn try_get_i32(key: String, sled: &Database) -> (res: Option<i32>)
        ensures
            res is None ==> !(sled.contents().dom().contains(key_bytes(key@))
                && sled.contents()[key_bytes(key@)].len() >= 4),
            res matches Some(v) ==> v == stored_i32(sled.contents(), key@) || v == -1,
    {
        match sled.get(key.as_str().as_bytes()) {
            Ok(Some(b)) => {
                if b.len() >= 4 {
                    Some(Self::get_i32(key, sled))
                } else {
                    None
                }
            },
            Ok(None) => None,
            Err(_) => Some(-1),
        }
    }
}

} // verus!
