//! The keystore: the public keys that tokens are verified against, by key id.
//!
//! A keystore text holds one record per line, `<id> <algorithm> <key>`, its words
//! set apart by spaces: the id is a decimal number of at most 32 bits, the
//! algorithm is `ed25519`, and the key is the 32 bytes of the public key in
//! URL-safe base64 without padding. Lines without words and lines that start
//! with `#` are skipped. One malformed record, or an id that occurs twice,
//! rejects the whole text.

use std::collections::HashMap;
use vstd::prelude::*;
use vstd::slice::slice_subrange;

use crate::bindings::{base64url_decode, base64url_decoded};
use crate::error::ZauthError;
use crate::text::{
    decimal_u64, is_ignored, is_ignored_line, optional_bytes, optional_slice, parse_decimal,
    spans_locate,
    spans_locate_split, split, split_spans, word_spans, words, Span, NEWLINE, SPACE,
};

verus! {

broadcast use vstd::std_specs::hash::group_hash_axioms;

/// Length of an Ed25519 public key.
pub const KEY_LEN: usize = 32;

/// The name of the one signature algorithm that records may carry.
pub open spec fn algorithm_name() -> Seq<u8> {
    seq![0x65u8, 0x64u8, 0x32u8, 0x35u8, 0x35u8, 0x31u8, 0x39u8]
}

/// The key id that a record line names, where the line has three words, the
/// first a decimal number of at most 32 bits and the second the algorithm.
pub open spec fn record_id(line: Seq<u8>) -> Option<u32> {
    let w = words(line, SPACE);
    if w.len() == 3 && w[1] == algorithm_name() {
        match decimal_u64(w[0]) {
            Some(n) => if n <= u32::MAX {
                Some(n as u32)
            } else {
                None
            },
            None => None,
        }
    } else {
        None
    }
}

/// The key field of a record line: its third word.
pub open spec fn record_key_text(line: Seq<u8>) -> Seq<u8> {
    words(line, SPACE)[2]
}

/// The keys after one more key is added under `id`, given what the key's text
/// decodes to. A text that is no base64, a key of the wrong length and an id
/// that is taken are refused.
pub open spec fn with_key(keys: Map<u32, Seq<u8>>, id: u32, decoded: Option<Seq<u8>>) -> Result<
    Map<u32, Seq<u8>>,
    ZauthError,
> {
    match decoded {
        Some(key) => if key.len() == KEY_LEN && !keys.contains_key(id) {
            Ok(keys.insert(id, key))
        } else {
            Err(ZauthError::Parse)
        },
        None => Err(ZauthError::Parse),
    }
}

/// The keys after one more line of a keystore text.
pub open spec fn with_line(keys: Map<u32, Seq<u8>>, line: Seq<u8>) -> Result<
    Map<u32, Seq<u8>>,
    ZauthError,
> {
    if is_ignored(line) {
        Ok(keys)
    } else {
        match record_id(line) {
            None => Err(ZauthError::Parse),
            Some(id) => with_key(keys, id, base64url_decoded(record_key_text(line))),
        }
    }
}

/// The keys that the lines of a keystore text hold, or the failure of the first
/// line that is refused.
pub open spec fn keys_of_lines(lines: Seq<Seq<u8>>) -> Result<Map<u32, Seq<u8>>, ZauthError>
    decreases lines.len(),
{
    if lines.len() == 0 {
        Ok(Map::empty())
    } else {
        match keys_of_lines(lines.drop_last()) {
            Err(e) => Err(e),
            Ok(keys) => with_line(keys, lines.last()),
        }
    }
}

/// The keys that a keystore text holds.
pub open spec fn keystore_of(text: Seq<u8>) -> Result<Map<u32, Seq<u8>>, ZauthError> {
    keys_of_lines(split(text, NEWLINE))
}

/// The keys that the contents of a keystore file hold; contents that could not
/// be read are an I/O failure.
pub open spec fn keystore_from(contents: Option<Seq<u8>>) -> Result<Map<u32, Seq<u8>>, ZauthError> {
    match contents {
        Some(text) => keystore_of(text),
        None => Err(ZauthError::Io),
    }
}

/// Every key that a keystore text holds has the length of an Ed25519 public
/// key.
pub proof fn lemma_keys_have_full_length(lines: Seq<Seq<u8>>)
    requires
        keys_of_lines(lines) is Ok,
    ensures
        forall|id: u32| #[trigger]
            keys_of_lines(lines)->Ok_0.contains_key(id) ==> keys_of_lines(lines)->Ok_0[id].len()
                == KEY_LEN,
    decreases lines.len(),
{
    if lines.len() > 0 {
        lemma_keys_have_full_length(lines.drop_last());
    }
}

/// The signature algorithm that a key belongs to.
#[derive(Clone, Copy, Debug, PartialEq, Eq, Structural)]
pub enum Algorithm {
    Ed25519,
}

/// A public key: its algorithm and its raw bytes.
#[derive(Debug)]
pub struct Key {
    algorithm: Algorithm,
    material: Vec<u8>,
}

impl View for Key {
    type V = Seq<u8>;

    closed spec fn view(&self) -> Seq<u8> {
        self.material@
    }
}

impl Key {
    #[verifier::type_invariant]
    spec fn well_formed(self) -> bool {
        self.material.len() == KEY_LEN
    }

    /// The raw bytes of the key.
    pub fn as_bytes(&self) -> (bytes: &[u8])
        ensures
            bytes@ == self@,
            bytes@.len() == KEY_LEN,
    {
        proof {
            use_type_invariant(self);
        }
        self.material.as_slice()
    }

    /// The algorithm that the key belongs to.
    pub fn algorithm(&self) -> (algorithm: Algorithm)
        ensures
            algorithm == Algorithm::Ed25519,
    {
        self.algorithm
    }
}

/// The keys by id. Once built it is only read.
#[derive(Debug)]
pub struct Keystore {
    keys: HashMap<u32, Key>,
}

impl View for Keystore {
    type V = Map<u32, Seq<u8>>;

    closed spec fn view(&self) -> Map<u32, Seq<u8>> {
        self.keys@.map_values(|key: Key| key@)
    }
}

fn is_algorithm_name(word: &[u8]) -> (yes: bool)
    ensures
        yes == (word@ == algorithm_name()),
{
    if word.len() != 7 {
        return false;
    }
    let yes = word[0] == 0x65 && word[1] == 0x64 && word[2] == 0x32 && word[3] == 0x35 && word[4]
        == 0x35 && word[5] == 0x31 && word[6] == 0x39;
    proof {
        if yes {
            assert(word@ =~= algorithm_name());
        }
    }
    yes
}

impl Keystore {
    /// A keystore without keys.
    pub fn new() -> (store: Keystore)
        ensures
            store@ == Map::<u32, Seq<u8>>::empty(),
    {
        let store = Keystore { keys: HashMap::new() };
        assert(store@ =~= Map::<u32, Seq<u8>>::empty());
        store
    }

    /// Adds the key that `decoded` holds under `id`. Where this is refused the
    /// keystore stays as it was.
    pub fn add_key(&mut self, id: u32, decoded: Option<Vec<u8>>) -> (res: Result<(), ZauthError>)
        ensures
            match res {
                Ok(_) => with_key(old(self)@, id, optional_bytes(decoded)) == Ok::<
                    Map<u32, Seq<u8>>,
                    ZauthError,
                >(final(self)@),
                Err(e) => with_key(old(self)@, id, optional_bytes(decoded)) == Err::<
                    Map<u32, Seq<u8>>,
                    ZauthError,
                >(e) && final(self)@ == old(self)@,
            },
    {
        let material = match decoded {
            Some(material) => material,
            None => {
                return Err(ZauthError::Parse);
            },
        };
        if material.len() != KEY_LEN || self.keys.contains_key(&id) {
            return Err(ZauthError::Parse);
        }
        let key = Key { algorithm: Algorithm::Ed25519, material };
        self.keys.insert(id, key);
        assert(self@ =~= old(self)@.insert(id, key@));
        Ok(())
    }

    /// Reads a keystore text.
    pub fn parse(text: &[u8]) -> (res: Result<Keystore, ZauthError>)
        ensures
            match res {
                Ok(store) => keystore_of(text@) == Ok::<Map<u32, Seq<u8>>, ZauthError>(store@),
                Err(e) => keystore_of(text@) == Err::<Map<u32, Seq<u8>>, ZauthError>(e),
            },
    {
        let lines = split_spans(text, NEWLINE);
        let ghost parts = split(text@, NEWLINE);
        let mut store = Keystore::new();
        let mut i: usize = 0;
        assert(parts.take(0) =~= Seq::<Seq<u8>>::empty());
        while i < lines.len()
            invariant
                i <= lines.len(),
                parts == split(text@, NEWLINE),
                spans_locate_split(lines@, text@, NEWLINE),
                keys_of_lines(parts.take(i as int)) == Ok::<Map<u32, Seq<u8>>, ZauthError>(store@),
            decreases lines.len() - i,
        {
            let span = lines[i];
            let line = slice_subrange(text, span.start, span.end);
            proof {
                assert(parts.take(i + 1).drop_last() =~= parts.take(i as int));
                assert(parts.take(i + 1).last() == line@);
            }
            let found = word_spans(line, SPACE);
            if !is_ignored_line(line, &found) {
                let id = match Keystore::read_id(line, &found) {
                    Some(id) => id,
                    None => {
                        proof {
                            lemma_keys_of_lines_fails(parts, i + 1);
                        }
                        return Err(ZauthError::Parse);
                    },
                };
                let key_text = slice_subrange(line, found[2].start, found[2].end);
                let decoded = match base64url_decode(key_text) {
                    Ok(bytes) => Some(bytes),
                    Err(_) => None,
                };
                match store.add_key(id, decoded) {
                    Ok(_) => {},
                    Err(e) => {
                        proof {
                            lemma_keys_of_lines_fails(parts, i + 1);
                        }
                        return Err(e);
                    },
                }
            }
            i += 1;
        }
        proof {
            assert(parts.take(lines.len() as int) =~= parts);
        }
        Ok(store)
    }

    /// Builds a keystore from the contents of its file, `None` where the file
    /// could not be read. Either all records are taken or none.
    pub fn open(contents: Option<&[u8]>) -> (res: Result<Keystore, ZauthError>)
        ensures
            match res {
                Ok(store) => keystore_from(optional_slice(contents)) == Ok::<
                    Map<u32, Seq<u8>>,
                    ZauthError,
                >(store@),
                Err(e) => keystore_from(optional_slice(contents)) == Err::<
                    Map<u32, Seq<u8>>,
                    ZauthError,
                >(e),
            },
    {
        match contents {
            Some(text) => Keystore::parse(text),
            None => Err(ZauthError::Io),
        }
    }

    fn read_id(line: &[u8], found: &Vec<Span>) -> (id: Option<u32>)
        requires
            spans_locate(found@, line@, words(line@, SPACE)),
        ensures
            id == record_id(line@),
    {
        if found.len() != 3 {
            return None;
        }
        let algorithm = slice_subrange(line, found[1].start, found[1].end);
        if !is_algorithm_name(algorithm) {
            return None;
        }
        match parse_decimal(slice_subrange(line, found[0].start, found[0].end)) {
            Some(n) => if n <= 0xffff_ffff {
                Some(n as u32)
            } else {
                None
            },
            None => None,
        }
    }

    /// The key of the given id.
    pub fn lookup(&self, id: u32) -> (res: Result<&Key, ZauthError>)
        ensures
            match res {
                Ok(key) => self@.contains_key(id) && self@[id] == key@,
                Err(e) => !self@.contains_key(id) && e == ZauthError::UnknownKey(id),
            },
    {
        match self.keys.get(&id) {
            Some(key) => Ok(key),
            None => Err(ZauthError::UnknownKey(id)),
        }
    }
}

/// Once a prefix of the lines is refused, so is the whole text, for the same
/// reason.
pub proof fn lemma_keys_of_lines_fails(lines: Seq<Seq<u8>>, n: int)
    requires
        0 <= n <= lines.len(),
        keys_of_lines(lines.take(n)) is Err,
    ensures
        keys_of_lines(lines) == keys_of_lines(lines.take(n)),
    decreases lines.len(),
{
    if n == lines.len() {
        assert(lines.take(n) =~= lines);
    } else {
        assert(lines.drop_last().take(n) =~= lines.take(n));
        lemma_keys_of_lines_fails(lines.drop_last(), n);
    }
}

} // verus!
