//! Content hashing: the BLAKE3 hash of a file's bytes, fed block by
//! block, as lower-case hexadecimal text.

use vstd::prelude::*;
use vstd::string::StringExecFns;

verus! {

/// `blake3::Hasher`, an incremental hash state. Nothing inside it is
/// visible here; the two names below say what the contracts need of it.
#[verifier::external_type_specification]
#[verifier::external_body]
pub struct ExHasher(blake3::Hasher);

/// The bytes that a hasher has taken in so far, in order.
pub uninterp spec fn spec_hasher_input(hasher: blake3::Hasher) -> Seq<u8>;

/// The input offset that a hasher was set to. A hasher hashes a whole
/// input, and can be finalized, only at offset zero.
pub uninterp spec fn spec_hasher_offset(hasher: blake3::Hasher) -> u64;

/// Whether a hasher runs the regular hash function: no key, and no
/// key-derivation context.
pub uninterp spec fn spec_hasher_regular(hasher: blake3::Hasher) -> bool;

/// The 32-byte BLAKE3 hash of `data`.
pub uninterp spec fn spec_blake3(data: Seq<u8>) -> Seq<u8>;

/// Calls `blake3::Hasher::new`, which starts the regular hash function
/// with no input taken in, at offset zero.
#[verifier::external_body]
fn hasher_new() -> (hasher: blake3::Hasher)
    ensures
        spec_hasher_input(hasher) == Seq::<u8>::empty(),
        spec_hasher_offset(hasher) == 0,
        spec_hasher_regular(hasher),
{
    blake3::Hasher::new()
}

/// Calls `blake3::Hasher::update`, which adds `data` to the end of the
/// input taken in so far and leaves the offset and the mode as they are.
/// At an offset other than zero it panics on input beyond a subtree, so
/// only offset zero is admitted.
#[verifier::external_body]
fn hasher_update(hasher: &mut blake3::Hasher, data: &[u8])
    requires
        spec_hasher_offset(*old(hasher)) == 0,
        spec_hasher_regular(*old(hasher)),
    ensures
        spec_hasher_input(*final(hasher)) == spec_hasher_input(*old(hasher)) + data@,
        spec_hasher_offset(*final(hasher)) == 0,
        spec_hasher_regular(*final(hasher)),
{
    hasher.update(data);
}

/// Calls `blake3::Hasher::finalize`, which returns the hash of all the
/// input taken in and leaves the hasher as it was; it panics at an
/// offset other than zero. Only of a hasher in regular mode is the
/// result the plain hash of the input: a keyed or key-deriving one gives
/// another. The hash is handed out as its 32 bytes.
#[verifier::external_body]
fn hasher_finalize(hasher: &blake3::Hasher) -> (digest: [u8; 32])
    requires
        spec_hasher_offset(*hasher) == 0,
        spec_hasher_regular(*hasher),
    ensures
        digest@ == spec_blake3(spec_hasher_input(*hasher)),
{
    *hasher.finalize().as_bytes()
}

/// The lower-case hexadecimal digit of a value below sixteen.
pub open spec fn spec_hex_digit(nibble: int) -> char {
    if nibble == 0 {
        '0'
    } else if nibble == 1 {
        '1'
    } else if nibble == 2 {
        '2'
    } else if nibble == 3 {
        '3'
    } else if nibble == 4 {
        '4'
    } else if nibble == 5 {
        '5'
    } else if nibble == 6 {
        '6'
    } else if nibble == 7 {
        '7'
    } else if nibble == 8 {
        '8'
    } else if nibble == 9 {
        '9'
    } else if nibble == 10 {
        'a'
    } else if nibble == 11 {
        'b'
    } else if nibble == 12 {
        'c'
    } else if nibble == 13 {
        'd'
    } else if nibble == 14 {
        'e'
    } else {
        'f'
    }
}

/// `bytes` in lower-case hexadecimal: two digits for each byte, the high
/// half first.
pub open spec fn spec_hex(bytes: Seq<u8>) -> Seq<char> {
    Seq::new(
        2 * bytes.len(),
        |i: int|
            if i % 2 == 0 {
                spec_hex_digit(bytes[i / 2] as int / 16)
            } else {
                spec_hex_digit(bytes[i / 2] as int % 16)
            },
    )
}

/// The hash of `data` as the text that `FileInfo` carries.
pub open spec fn spec_hash_text(data: Seq<u8>) -> Seq<char> {
    spec_hex(spec_blake3(data))
}

/// The text of one hexadecimal digit.
fn hex_digit(nibble: u8) -> (digit: &'static str)
    requires
        nibble < 16,
    ensures
        digit@ == seq![spec_hex_digit(nibble as int)],
{
    proof {
        reveal_strlit("0");
        reveal_strlit("1");
        reveal_strlit("2");
        reveal_strlit("3");
        reveal_strlit("4");
        reveal_strlit("5");
        reveal_strlit("6");
        reveal_strlit("7");
        reveal_strlit("8");
        reveal_strlit("9");
        reveal_strlit("a");
        reveal_strlit("b");
        reveal_strlit("c");
        reveal_strlit("d");
        reveal_strlit("e");
        reveal_strlit("f");
    }
    let digit: &'static str = match nibble {
        0 => "0",
        1 => "1",
        2 => "2",
        3 => "3",
        4 => "4",
        5 => "5",
        6 => "6",
        7 => "7",
        8 => "8",
        9 => "9",
        10 => "a",
        11 => "b",
        12 => "c",
        13 => "d",
        14 => "e",
        _ => "f",
    };
    assert(digit@ =~= seq![spec_hex_digit(nibble as int)]);
    digit
}

/// Writes `bytes` in lower-case hexadecimal.
pub fn to_hex(bytes: &[u8]) -> (text: String)
    ensures
        text@ == spec_hex(bytes@),
        text@.len() == 2 * bytes@.len(),
{
    let mut text: String = String::new();
    let mut i: usize = 0;
    while i < bytes.len()
        invariant
            i <= bytes@.len(),
            text@ == spec_hex(bytes@.take(i as int)),
        decreases bytes@.len() - i,
    {
        let byte: u8 = bytes[i];
        let ghost before = text@;
        text.append(hex_digit(byte / 16));
        text.append(hex_digit(byte % 16));
        proof {
            let now = bytes@.take(i as int + 1);
            assert(before.len() == 2 * i);
            assert(text@.len() == 2 * i + 2);
            assert forall|k: int| 0 <= k < text@.len() implies text@[k] == spec_hex(now)[k] by {
                if k < 2 * i {
                    assert(text@[k] == before[k]);
                    assert(bytes@.take(i as int)[k / 2] == now[k / 2]);
                } else if k == 2 * i {
                    assert(now[k / 2] == byte);
                } else {
                    assert(now[k / 2] == byte);
                }
            }
            assert(text@ =~= spec_hex(now));
        }
        i += 1;
    }
    assert(bytes@.take(i as int) =~= bytes@);
    text
}

/// A running hash over the content of one file.
pub struct FileHasher {
    inner: blake3::Hasher,
}

impl FileHasher {
    /// The bytes taken in so far.
    pub closed spec fn content(&self) -> Seq<u8> {
        spec_hasher_input(self.inner)
    }

    /// The hasher hashes a whole input, from its first byte, with the
    /// regular hash function.
    pub closed spec fn wf(&self) -> bool {
        spec_hasher_offset(self.inner) == 0 && spec_hasher_regular(self.inner)
    }

    /// A hasher that has taken in nothing.
    pub fn new() -> (hasher: Self)
        ensures
            hasher.wf(),
            hasher.content() == Seq::<u8>::empty(),
    {
        FileHasher { inner: hasher_new() }
    }

    /// Takes in the next block of the file.
    pub fn update(&mut self, block: &[u8])
        requires
            old(self).wf(),
        ensures
            final(self).wf(),
            final(self).content() == old(self).content() + block@,
    {
        hasher_update(&mut self.inner, block);
    }

    /// The hash of everything taken in, as text.
    pub fn finish(&self) -> (text: String)
        requires
            self.wf(),
        ensures
            text@ == spec_hash_text(self.content()),
            text@.len() == 64,
    {
        let digest: [u8; 32] = hasher_finalize(&self.inner);
        to_hex(digest.as_slice())
    }
}

/// All of `blocks`, one after the other.
pub open spec fn spec_concat(blocks: Seq<Vec<u8>>) -> Seq<u8>
    decreases blocks.len(),
{
    if blocks.len() == 0 {
        Seq::empty()
    } else {
        spec_concat(blocks.drop_last()) + blocks.last()@
    }
}

/// The hash of a file whose content is `blocks`, read in that order. How
/// the content is cut into blocks does not matter: the hash is that of
/// the whole.
pub fn hash_file(blocks: &Vec<Vec<u8>>) -> (text: String)
    ensures
        text@ == spec_hash_text(spec_concat(blocks@)),
        text@.len() == 64,
{
    let mut hasher = FileHasher::new();
    let mut i: usize = 0;
    while i < blocks.len()
        invariant
            i <= blocks@.len(),
            hasher.wf(),
            hasher.content() == spec_concat(blocks@.take(i as int)),
        decreases blocks@.len() - i,
    {
        hasher.update(blocks[i].as_slice());
        proof {
            let now = blocks@.take(i as int + 1);
            assert(now.drop_last() =~= blocks@.take(i as int));
            assert(now.last() == blocks@[i as int]);
        }
        i += 1;
    }
    assert(blocks@.take(i as int) =~= blocks@);
    hasher.finish()
}

} // verus!
