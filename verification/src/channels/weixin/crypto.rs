//! AES-128-ECB encryption of media files on the iLink CDN.
//!
//! Images, voice messages, videos and files are encrypted before they go to the CDN and decrypted
//! after they come from it. The last block is filled up with zero bytes.

use crate::encoding::{decode_base64, encode_base64, encode_hex};
#[allow(unused_imports)]
use crate::encoding::{
    base64_bytes, base64_reads_back, base64_text, base64_text_has_no_white_space, hex_text,
};
use crate::json::{member_text, parse_json};
#[allow(unused_imports)]
use crate::json::{json_document, json_view, member, text_in, JsonView};
use crate::random::random_bytes;
#[allow(unused_imports)]
use crate::text::{decimal, trimmed, trimming_leaves_what_is_between, white_space};
use crate::text::{print_u64, same_text, trim};
use aes::cipher::{BlockDecrypt, BlockEncrypt, KeyInit};
use vstd::prelude::*;
use vstd::slice::slice_subrange;

verus! {

/// Bytes in a block, and in a key.
pub const BLOCK: usize = 16;

/// What can go wrong with keys and ciphertexts.
#[derive(Debug, Clone, Copy, PartialEq, Eq, Structural)]
pub enum CryptoError {
    /// The text of a key is no base64
    NotBase64,
    /// A key has this many bytes in place of 16
    KeyLength(usize),
    /// A ciphertext has this many bytes, which is no multiple of 16
    CiphertextLength(usize),
}

impl CryptoError {
    /// The error in words.
    pub open spec fn words(self) -> Seq<char> {
        match self {
            CryptoError::NotBase64 => "base64 decode aes_key"@,
            CryptoError::KeyLength(n) => "AES-128 key must be 16 bytes, got "@ + decimal(n as nat),
            CryptoError::CiphertextLength(n) =>
                "Ciphertext length must be a multiple of 16 bytes, got "@ + decimal(n as nat),
        }
    }

    /// The error in words.
    pub fn message(&self) -> (r: String)
        ensures
            r@ == self.words(),
    {
        match self {
            CryptoError::NotBase64 => "base64 decode aes_key".to_string(),
            CryptoError::KeyLength(n) => {
                let mut out = "AES-128 key must be 16 bytes, got ".to_string();
                out.append(print_u64(*n as u64).as_str());
                out
            },
            CryptoError::CiphertextLength(n) => {
                let mut out =
                    "Ciphertext length must be a multiple of 16 bytes, got ".to_string();
                out.append(print_u64(*n as u64).as_str());
                out
            },
        }
    }
}

/// The AES-128 block cipher with its key.
#[verifier::external_type_specification]
#[verifier::external_body]
pub struct ExAes128(aes::Aes128);

/// The error for a key of the wrong length.
#[verifier::external_type_specification]
#[verifier::external_body]
pub struct ExInvalidLength(aes::cipher::InvalidLength);

/// The key that a cipher was made with.
pub uninterp spec fn cipher_key(cipher: aes::Aes128) -> Seq<u8>;

/// One block encrypted with AES-128 under a key.
pub uninterp spec fn aes128_encrypted(key: Seq<u8>, block: Seq<u8>) -> Seq<u8>;

/// One block decrypted with AES-128 under a key.
pub uninterp spec fn aes128_decrypted(key: Seq<u8>, block: Seq<u8>) -> Seq<u8>;

/// `aes::Aes128::new_from_slice`: a cipher for a key of 16 bytes, an error for any other length.
#[verifier::external_body]
fn cipher_for(key: &[u8]) -> (r: Result<aes::Aes128, aes::cipher::InvalidLength>)
    ensures
        r is Ok <==> key@.len() == 16,
        r matches Ok(cipher) ==> cipher_key(cipher) == key@,
{
    aes::Aes128::new_from_slice(key)
}

/// `encrypt_block` of `aes::Aes128`: the block encrypted under the cipher's key, of the same
/// length; decrypting it under that key gives the block back. Copying the block panics unless it
/// has 16 bytes.
#[verifier::external_body]
fn encrypt_block(cipher: &aes::Aes128, chunk: &[u8]) -> (r: [u8; 16])
    requires
        chunk@.len() == 16,
    ensures
        r@ == aes128_encrypted(cipher_key(*cipher), chunk@),
        aes128_decrypted(cipher_key(*cipher), r@) == chunk@,
{
    let mut block = aes::Block::clone_from_slice(chunk);
    cipher.encrypt_block(&mut block);
    block.into()
}

/// `decrypt_block` of `aes::Aes128`: the block decrypted under the cipher's key, of the same
/// length. Copying the block panics unless it has 16 bytes.
#[verifier::external_body]
fn decrypt_block(cipher: &aes::Aes128, chunk: &[u8]) -> (r: [u8; 16])
    requires
        chunk@.len() == 16,
    ensures
        r@ == aes128_decrypted(cipher_key(*cipher), chunk@),
{
    let mut block = aes::Block::clone_from_slice(chunk);
    cipher.decrypt_block(&mut block);
    block.into()
}

/// The n-th block of a text.
pub open spec fn block_at(s: Seq<u8>, n: int) -> Seq<u8> {
    s.subrange(16 * n, 16 * n + 16)
}

/// The first blocks of a text, each encrypted by itself.
pub open spec fn blocks_encrypted(key: Seq<u8>, s: Seq<u8>, count: nat) -> Seq<u8>
    decreases count,
{
    if count == 0 {
        Seq::empty()
    } else {
        blocks_encrypted(key, s, (count - 1) as nat) + aes128_encrypted(
            key,
            block_at(s, count - 1),
        )
    }
}

/// The first blocks of a text, each decrypted by itself.
pub open spec fn blocks_decrypted(key: Seq<u8>, s: Seq<u8>, count: nat) -> Seq<u8>
    decreases count,
{
    if count == 0 {
        Seq::empty()
    } else {
        blocks_decrypted(key, s, (count - 1) as nat) + aes128_decrypted(
            key,
            block_at(s, count - 1),
        )
    }
}

/// The number of blocks that bytes fill, the last one perhaps in part.
pub open spec fn block_count(len: nat) -> nat {
    (len + 15) / 16
}

/// Bytes filled up with zeros to whole blocks.
pub open spec fn zero_padded(s: Seq<u8>) -> Seq<u8> {
    Seq::new(block_count(s.len()) * 16, |i: int| if i < s.len() { s[i] } else { 0 })
}

/// Bytes without the zeros at their end.
pub open spec fn zero_trimmed(s: Seq<u8>) -> Seq<u8>
    decreases s.len(),
{
    if s.len() > 0 && s.last() == 0 {
        zero_trimmed(s.drop_last())
    } else {
        s
    }
}

/// A plaintext encrypted block by block, after zero padding.
pub open spec fn ecb_encrypted(key: Seq<u8>, plaintext: Seq<u8>) -> Seq<u8> {
    blocks_encrypted(key, zero_padded(plaintext), block_count(plaintext.len()))
}

/// A ciphertext decrypted block by block, without the zeros at its end.
pub open spec fn ecb_decrypted(key: Seq<u8>, ciphertext: Seq<u8>) -> Seq<u8> {
    zero_trimmed(blocks_decrypted(key, ciphertext, ciphertext.len() / 16))
}

/// What precedes a block decrypts alike whatever follows it.
proof fn decrypted_prefix(key: Seq<u8>, s: Seq<u8>, t: Seq<u8>, count: nat)
    requires
        16 * count <= s.len(),
        16 * count <= t.len(),
        s.take(16 * count as int) == t.take(16 * count as int),
    ensures
        blocks_decrypted(key, s, count) == blocks_decrypted(key, t, count),
    decreases count,
{
    if count > 0 {
        let less = (count - 1) as nat;
        assert(s.take(16 * less as int) =~= s.take(16 * count as int).take(16 * less as int));
        assert(t.take(16 * less as int) =~= t.take(16 * count as int).take(16 * less as int));
        decrypted_prefix(key, s, t, less);
        assert(block_at(s, count - 1) =~= s.take(16 * count as int).skip(16 * less as int));
        assert(block_at(t, count - 1) =~= t.take(16 * count as int).skip(16 * less as int));
    }
}

/// Zeros that follow do not change what is left after trimming zeros.
proof fn zeros_do_not_count(s: Seq<u8>, padded: Seq<u8>)
    requires
        s.len() <= padded.len(),
        padded.take(s.len() as int) == s,
        forall|i: int| s.len() <= i < padded.len() ==> padded[i] == 0,
    ensures
        zero_trimmed(padded) == zero_trimmed(s),
    decreases padded.len(),
{
    if s.len() == padded.len() {
        assert(padded.take(s.len() as int) =~= padded);
    } else {
        assert(padded.drop_last().take(s.len() as int) =~= padded.take(s.len() as int));
        zeros_do_not_count(s, padded.drop_last());
    }
}

/// A plaintext that does not end in a zero byte is left whole by trimming zeros.
pub proof fn trimming_keeps_texts(s: Seq<u8>)
    requires
        s.len() == 0 || s.last() != 0,
    ensures
        zero_trimmed(s) == s,
{
}

/// Taking the zeros off the end of bytes takes off zeros alone, and all of them.
pub proof fn trimming_takes_off_the_zeros_alone(s: Seq<u8>)
    ensures
        ({
            let kept = zero_trimmed(s);
            &&& kept.len() <= s.len()
            &&& kept == s.take(kept.len() as int)
            &&& forall|i: int| kept.len() <= i < s.len() ==> #[trigger] s[i] == 0
            &&& kept.len() > 0 ==> s[kept.len() - 1] != 0
        }),
    decreases s.len(),
{
    if s.len() > 0 && s.last() == 0 {
        let front = s.drop_last();
        trimming_takes_off_the_zeros_alone(front);
        let kept = zero_trimmed(s);
        assert(kept =~= s.take(kept.len() as int));
        assert forall|i: int| kept.len() <= i < s.len() implies #[trigger] s[i] == 0 by {
            if i < front.len() {
                assert(front[i] == 0);
            }
        }
        if kept.len() > 0 {
            assert(front[kept.len() - 1] == s[kept.len() - 1]);
        }
    } else {
        assert(s.take(s.len() as int) =~= s);
    }
}

/// One beginning at most is left when the zeros at the end are taken off.
proof fn trimming_is_settled(s: Seq<u8>, n: int)
    requires
        0 <= n <= s.len(),
        forall|i: int| n <= i < s.len() ==> s[i] == 0,
        n > 0 ==> s[n - 1] != 0,
    ensures
        zero_trimmed(s) == s.take(n),
{
    trimming_takes_off_the_zeros_alone(s);
    let kept = zero_trimmed(s);
    if n < kept.len() {
        assert(s[kept.len() - 1] == 0);
    } else if kept.len() < n {
        assert(s[n - 1] == 0);
    }
}

proof fn first_block_encrypted(key: Seq<u8>, head: Seq<u8>, rest: Seq<u8>, count: nat)
    requires
        head.len() == 16,
        rest.len() >= 16 * count,
    ensures
        blocks_encrypted(key, head + rest, count + 1) == aes128_encrypted(key, head)
            + blocks_encrypted(key, rest, count),
    decreases count,
{
    let whole = head + rest;
    if count == 0 {
        assert(block_at(whole, 0) =~= head);
        assert(blocks_encrypted(key, whole, 0) =~= Seq::<u8>::empty());
        assert(blocks_encrypted(key, rest, 0) =~= Seq::<u8>::empty());
        assert(blocks_encrypted(key, whole, 1) =~= aes128_encrypted(key, head));
        assert(aes128_encrypted(key, head) + Seq::<u8>::empty() =~= aes128_encrypted(key, head));
    } else {
        let less = (count - 1) as nat;
        first_block_encrypted(key, head, rest, less);
        assert(block_at(whole, count as int) =~= block_at(rest, less as int));
        assert(blocks_encrypted(key, whole, count + 1) =~= aes128_encrypted(key, head)
            + blocks_encrypted(key, rest, count));
    }
}

proof fn first_block_decrypted(key: Seq<u8>, head: Seq<u8>, rest: Seq<u8>, count: nat)
    requires
        head.len() == 16,
        rest.len() >= 16 * count,
    ensures
        blocks_decrypted(key, head + rest, count + 1) == aes128_decrypted(key, head)
            + blocks_decrypted(key, rest, count),
    decreases count,
{
    let whole = head + rest;
    if count == 0 {
        assert(block_at(whole, 0) =~= head);
        assert(blocks_decrypted(key, whole, 0) =~= Seq::<u8>::empty());
        assert(blocks_decrypted(key, rest, 0) =~= Seq::<u8>::empty());
        assert(blocks_decrypted(key, whole, 1) =~= aes128_decrypted(key, head));
        assert(aes128_decrypted(key, head) + Seq::<u8>::empty() =~= aes128_decrypted(key, head));
    } else {
        let less = (count - 1) as nat;
        first_block_decrypted(key, head, rest, less);
        assert(block_at(whole, count as int) =~= block_at(rest, less as int));
        assert(blocks_decrypted(key, whole, count + 1) =~= aes128_decrypted(key, head)
            + blocks_decrypted(key, rest, count));
    }
}

/// A file is encrypted block by block in the order of the file: the first 16 bytes, encrypted by
/// themselves, come first, and what follows them is encrypted as if it were a file of its own.
pub proof fn files_are_encrypted_in_order(key: Seq<u8>, head: Seq<u8>, rest: Seq<u8>)
    requires
        head.len() == 16,
    ensures
        ecb_encrypted(key, head + rest) == aes128_encrypted(key, head) + ecb_encrypted(key, rest),
{
    assert(block_count((head + rest).len()) == block_count(rest.len()) + 1);
    assert(zero_padded(head + rest) =~= head + zero_padded(rest));
    first_block_encrypted(key, head, zero_padded(rest), block_count(rest.len()));
}

/// The end of a file that does not fill a block is encrypted with zeros behind it; of nothing,
/// nothing is made.
pub proof fn last_block_is_filled_with_zeros(key: Seq<u8>, end: Seq<u8>)
    requires
        end.len() <= 16,
    ensures
        end.len() == 0 ==> ecb_encrypted(key, end) == Seq::<u8>::empty(),
        end.len() > 0 ==> ecb_encrypted(key, end) == aes128_encrypted(
            key,
            end + Seq::new((16 - end.len()) as nat, |i: int| 0u8),
        ),
{
    if end.len() > 0 {
        let filled = end + Seq::new((16 - end.len()) as nat, |i: int| 0u8);
        assert(block_count(end.len()) == 1);
        assert(block_at(zero_padded(end), 0) =~= filled);
        assert(blocks_encrypted(key, zero_padded(end), 0) =~= Seq::<u8>::empty());
        assert(ecb_encrypted(key, end) =~= aes128_encrypted(key, filled));
    }
}

/// Where a block of a file is found in its ciphertext: at the same place. Encryption keeps the length
/// of a block.
pub proof fn blocks_keep_their_places(key: Seq<u8>, plaintext: Seq<u8>, n: int)
    requires
        forall|block: Seq<u8>|
            block.len() == 16 ==> (#[trigger] aes128_encrypted(key, block)).len() == 16,
        0 <= 16 * n < plaintext.len(),
    ensures
        ecb_encrypted(key, plaintext).subrange(16 * n, 16 * n + 16) == aes128_encrypted(
            key,
            Seq::new(
                16,
                |i: int|
                    if 16 * n + i < plaintext.len() {
                        plaintext[16 * n + i]
                    } else {
                        0u8
                    },
            ),
        ),
        ecb_encrypted(key, plaintext).len() % 16 == 0,
        plaintext.len() <= ecb_encrypted(key, plaintext).len() < plaintext.len() + 16,
    decreases n, plaintext.len(),
{
    let whole = ecb_encrypted(key, plaintext);
    let block = Seq::new(
        16,
        |i: int|
            if 16 * n + i < plaintext.len() {
                plaintext[16 * n + i]
            } else {
                0u8
            },
    );
    if plaintext.len() <= 16 {
        last_block_is_filled_with_zeros(key, plaintext);
        assert(plaintext + Seq::new((16 - plaintext.len()) as nat, |i: int| 0u8) =~= block);
        assert(whole.subrange(0, 16) =~= whole);
    } else {
        let head = plaintext.take(16);
        let rest = plaintext.skip(16);
        assert(head + rest =~= plaintext);
        files_are_encrypted_in_order(key, head, rest);
        if n == 0 {
            blocks_keep_their_places(key, rest, 0);
            assert(block =~= head);
            assert(whole.subrange(0, 16) =~= aes128_encrypted(key, head));
        } else {
            let less: int = n - 1;
            blocks_keep_their_places(key, rest, less);
            assert(Seq::new(
                16,
                |i: int|
                    if 16 * less + i < rest.len() {
                        rest[16 * less + i]
                    } else {
                        0u8
                    },
            ) =~= block);
            assert(whole.subrange(16 * n, 16 * n + 16) =~= ecb_encrypted(
                key,
                rest,
            ).subrange(16 * less, 16 * less + 16));
        }
    }
}

/// A ciphertext is decrypted block by block in its order: the first 16 bytes, decrypted by themselves,
/// come first, and what the rest decrypts to follows. Where nothing is left of the rest, it held
/// zeros alone, and those at the end of the first block go too.
pub proof fn files_are_decrypted_in_order(key: Seq<u8>, head: Seq<u8>, rest: Seq<u8>)
    requires
        head.len() == 16,
        rest.len() % 16 == 0,
    ensures
        ({
            let first = aes128_decrypted(key, head);
            let others = ecb_decrypted(key, rest);
            let whole = ecb_decrypted(key, head + rest);
            if others.len() > 0 {
                whole == first + others
            } else {
                &&& whole.len() <= first.len()
                &&& whole == first.take(whole.len() as int)
                &&& forall|i: int| whole.len() <= i < first.len() ==> #[trigger] first[i] == 0
                &&& whole.len() > 0 ==> first[whole.len() - 1] != 0
            }
        }),
        ecb_decrypted(key, Seq::empty()) == Seq::<u8>::empty(),
{
    let first = aes128_decrypted(key, head);
    let rest_blocks = blocks_decrypted(key, rest, rest.len() / 16);
    let others = ecb_decrypted(key, rest);
    first_block_decrypted(key, head, rest, rest.len() / 16);
    assert((head + rest).len() / 16 == rest.len() / 16 + 1);
    let all = first + rest_blocks;
    trimming_takes_off_the_zeros_alone(rest_blocks);
    if others.len() > 0 {
        let n: int = (first.len() + others.len()) as int;
        assert forall|i: int| n <= i < all.len() implies all[i] == 0 by {
            assert(rest_blocks[i - first.len()] == 0);
        }
        assert(all[n - 1] == rest_blocks[others.len() - 1]);
        trimming_is_settled(all, n);
        assert(all.take(n) =~= first + others);
    } else {
        trimming_takes_off_the_zeros_alone(first);
        let n: int = zero_trimmed(first).len() as int;
        assert forall|i: int| n <= i < all.len() implies all[i] == 0 by {
            if i >= first.len() {
                assert(rest_blocks[i - first.len()] == 0);
            }
        }
        trimming_is_settled(all, n);
        assert(all.take(n) =~= first.take(n));
    }
}

/// The key that a base64 text stands for, or why it stands for none: it is no base64, or it does
/// not stand for 16 bytes. White space around the text does not count.
pub open spec fn key_in(text: Seq<char>) -> Result<Seq<u8>, CryptoError> {
    match base64_bytes(trimmed(text)) {
        Some(bytes) => if bytes.len() == 16 {
            Ok(bytes)
        } else {
            Err(CryptoError::KeyLength(bytes.len() as usize))
        },
        None => Err(CryptoError::NotBase64),
    }
}

/// The base64 text of a key is read back as the key.
pub proof fn keys_read_back(key: Seq<u8>)
    requires
        key.len() == 16,
    ensures
        key_in(base64_text(key)) == Ok::<Seq<u8>, CryptoError>(key),
{
    let text = base64_text(key);
    base64_text_has_no_white_space(key);
    assert(trimmed(text) == text);
    base64_reads_back(key);
}

/// An AES-128 key.
#[derive(Debug, Clone, Copy)]
pub struct AesKey([u8; 16]);

impl View for AesKey {
    type V = Seq<u8>;

    closed spec fn view(&self) -> Seq<u8> {
        self.0@
    }
}

impl AesKey {
    /// Every key has 16 bytes.
    pub proof fn has_sixteen_bytes(&self)
        ensures
            self@.len() == 16,
    {
    }

    /// The key that a base64 text stands for; white space around it does not count.
    pub fn from_base64(encoded: &str) -> (r: Result<Self, CryptoError>)
        ensures
            match key_in(encoded@) {
                Ok(bytes) => r matches Ok(key) && key@ == bytes,
                Err(e) => r == Err::<AesKey, CryptoError>(e),
            },
    {
        match decode_base64(trim(encoded).as_str()) {
            Ok(decoded) => {
                proof {
                    base64_reads_back(decoded@);
                }
                Self::from_slice(decoded.as_slice())
            },
            Err(_) => Err(CryptoError::NotBase64),
        }
    }

    /// The key with the given bytes.
    pub fn from_slice(slice: &[u8]) -> (r: Result<Self, CryptoError>)
        ensures
            slice@.len() == 16 ==> (r matches Ok(key) && key@ == slice@),
            slice@.len() != 16 ==> r == Err::<AesKey, CryptoError>(
                CryptoError::KeyLength(slice@.len() as usize),
            ),
    {
        if slice.len() != 16 {
            return Err(CryptoError::KeyLength(slice.len()));
        }
        let mut key = [0u8;16];
        for i in 0..16usize
            invariant
                slice@.len() == 16,
                forall|j: int| 0 <= j < i ==> key@[j] == slice@[j],
        {
            key[i] = slice[i];
        }
        assert(key@ =~= slice@);
        Ok(AesKey(key))
    }

    /// A key from the system's random source. Which one it is rests on chance: any key may come.
    pub fn random() -> (r: Self)
        ensures
            r@.len() == 16,
    {
        let bytes = random_bytes(BLOCK);
        match Self::from_slice(bytes.as_slice()) {
            Ok(key) => key,
            Err(_) => AesKey([0u8;16]),
        }
    }

    /// The key in base64, as the API's messages carry it.
    pub fn to_base64_string(&self) -> (r: String)
        ensures
            r@ == base64_text(self@),
    {
        encode_base64(self.0.as_slice())
    }

    /// The bytes of the key.
    pub fn as_bytes(&self) -> (r: &[u8; 16])
        ensures
            r@ == self@,
    {
        &self.0
    }
}

/// One more block behind those encrypted so far, which decrypt to the first blocks of a text,
/// makes blocks that decrypt to one block more of the text.
proof fn one_more_block(key: Seq<u8>, padded: Seq<u8>, before: Seq<u8>, block: Seq<u8>, i: nat)
    requires
        padded.len() >= 16 * (i + 1),
        before.len() == 16 * i,
        block.len() == 16,
        blocks_decrypted(key, before, i) == padded.take(16 * i as int),
        aes128_decrypted(key, block) == block_at(padded, i as int),
    ensures
        blocks_decrypted(key, before + block, i + 1) == padded.take(16 * (i + 1) as int),
{
    let after = before + block;
    assert(after.take(16 * i as int) =~= before.take(16 * i as int));
    decrypted_prefix(key, before, after, i);
    assert(block_at(after, i as int) =~= block);
    assert(padded.take(16 * (i + 1) as int) =~= padded.take(16 * i as int) + block_at(
        padded,
        i as int,
    ));
}

/// Encrypts a plaintext with AES-128-ECB, after filling it up with zeros to whole blocks.
/// Decrypting the result gives the plaintext back without the zeros at its end.
pub fn encrypt(key: &[u8; 16], plaintext: &[u8]) -> (r: Result<Vec<u8>, CryptoError>)
    ensures
        r matches Ok(ciphertext) && {
            &&& ciphertext@ == ecb_encrypted(key@, plaintext@)
            &&& ciphertext@.len() == block_count(plaintext@.len()) * 16
            &&& ecb_decrypted(key@, ciphertext@) == zero_trimmed(plaintext@)
        },
{
    let cipher = match cipher_for(key.as_slice()) {
        Ok(cipher) => cipher,
        Err(_) => return Err(CryptoError::KeyLength(key.len())),
    };
    let ghost padded = zero_padded(plaintext@);
    let whole: usize = plaintext.len() / 16;
    let mut out: Vec<u8> = Vec::with_capacity(whole * 16);
    for i in 0..whole
        invariant
            whole == plaintext@.len() / 16,
            16 * whole <= plaintext@.len() <= usize::MAX,
            padded == zero_padded(plaintext@),
            cipher_key(cipher) == key@,
            out@ == blocks_encrypted(key@, padded, i as nat),
            out@.len() == 16 * i,
            blocks_decrypted(key@, out@, i as nat) == padded.take(16 * i as int),
    {
        let ghost before = out@;
        let block = encrypt_block(&cipher, slice_subrange(plaintext, 16 * i, 16 * i + 16));
        assert(block_at(padded, i as int) =~= plaintext@.subrange(16 * i as int, 16 * i + 16));
        out.extend_from_slice(block.as_slice());
        assert(out@ =~= before + block@);
        proof {
            one_more_block(key@, padded, before, block@, i as nat);
        }
    }
    let rest: usize = plaintext.len() % 16;
    if rest > 0 {
        let mut last = [0u8;16];
        for j in 0..rest
            invariant
                rest == plaintext@.len() % 16,
                16 * whole + rest == plaintext@.len() <= usize::MAX,
                forall|k: int| 0 <= k < j ==> last@[k] == plaintext@[16 * whole + k],
                forall|k: int| j <= k < 16 ==> last@[k] == 0,
        {
            last[j] = plaintext[16 * whole + j];
        }
        let ghost before = out@;
        let block = encrypt_block(&cipher, last.as_slice());
        assert(block_at(padded, whole as int) =~= last@);
        out.extend_from_slice(block.as_slice());
        assert(out@ =~= before + block@);
        proof {
            one_more_block(key@, padded, before, block@, whole as nat);
        }
    }
    proof {
        assert(padded.take(padded.len() as int) =~= padded);
        assert(padded.take(plaintext@.len() as int) =~= plaintext@);
        zeros_do_not_count(plaintext@, padded);
        assert(out@.len() == 16 * block_count(plaintext@.len()));
        assert(out@.len() / 16 == block_count(plaintext@.len()));
    }
    Ok(out)
}

/// Decrypts a ciphertext with AES-128-ECB and takes the zeros at the end of the result off. A
/// ciphertext that does not consist of whole blocks is refused.
pub fn decrypt(key: &[u8; 16], ciphertext: &[u8]) -> (r: Result<Vec<u8>, CryptoError>)
    ensures
        ciphertext@.len() % 16 == 0 ==> (r matches Ok(plaintext) && plaintext@ == ecb_decrypted(
            key@,
            ciphertext@,
        )),
        ciphertext@.len() % 16 != 0 ==> r == Err::<Vec<u8>, CryptoError>(
            CryptoError::CiphertextLength(ciphertext@.len() as usize),
        ),
{
    if ciphertext.len() % 16 != 0 {
        return Err(CryptoError::CiphertextLength(ciphertext.len()));
    }
    let cipher = match cipher_for(key.as_slice()) {
        Ok(cipher) => cipher,
        Err(_) => return Err(CryptoError::KeyLength(key.len())),
    };
    let blocks: usize = ciphertext.len() / 16;
    let mut out: Vec<u8> = Vec::with_capacity(blocks * 16);
    for i in 0..blocks
        invariant
            ciphertext@.len() == 16 * blocks,
            16 * blocks <= usize::MAX,
            cipher_key(cipher) == key@,
            out@ == blocks_decrypted(key@, ciphertext@, i as nat),
    {
        let block = decrypt_block(&cipher, slice_subrange(ciphertext, 16 * i, 16 * i + 16));
        let ghost before = out@;
        out.extend_from_slice(block.as_slice());
        assert(out@ =~= before + block@);
    }
    Ok(remove_padding(out))
}

/// Takes the zeros at the end of decrypted bytes off.
pub fn remove_padding(decrypted: Vec<u8>) -> (r: Vec<u8>)
    ensures
        r@ == zero_trimmed(decrypted@),
{
    let mut out = decrypted;
    while out.len() > 0 && out[out.len() - 1] == 0
        invariant
            zero_trimmed(out@) == zero_trimmed(decrypted@),
        decreases out.len(),
    {
        out.pop();
    }
    out
}

/// The MD5 digest of bytes, as `md5::compute` makes it.
pub uninterp spec fn md5_digest(data: Seq<u8>) -> Seq<u8>;

/// `md5::compute`: the 16 bytes of the digest.
#[verifier::external_body]
fn md5_of(data: &[u8]) -> (r: [u8; 16])
    ensures
        r@ == md5_digest(data@),
{
    md5::compute(data).0
}

/// The MD5 digest of the data in lower-case hexadecimal digits.
pub fn md5_hex(data: &[u8]) -> (r: String)
    ensures
        r@ == hex_text(md5_digest(data@)),
        r@.len() == 32,
{
    encode_hex(md5_of(data).as_slice())
}

/// Why a CDN address cannot be read.
#[derive(Debug, Clone, Copy, PartialEq, Eq, Structural)]
pub enum CdnUrlError {
    /// The text of the key stands for no key
    Key(CryptoError),
    /// The parameter is no base64
    NotBase64,
    /// The parameter cannot be decrypted
    Cipher(CryptoError),
    /// What was decrypted is no JSON
    NotJson,
    /// The JSON has no text under `url`
    MissingUrl,
}

impl CdnUrlError {
    /// The error in words.
    pub open spec fn words(self) -> Seq<char> {
        match self {
            CdnUrlError::Key(_) => "parse AES key from base64"@,
            CdnUrlError::NotBase64 => "base64 decode encrypt_query_param"@,
            CdnUrlError::Cipher(_) => "AES-ECB decrypt CDN URL"@,
            CdnUrlError::NotJson => "parse decrypted CDN URL JSON"@,
            CdnUrlError::MissingUrl => "Missing 'url' field in CDN URL JSON"@,
        }
    }

    /// The error in words.
    pub fn message(&self) -> (r: &'static str)
        ensures
            r@ == self.words(),
    {
        match self {
            CdnUrlError::Key(_) => "parse AES key from base64",
            CdnUrlError::NotBase64 => "base64 decode encrypt_query_param",
            CdnUrlError::Cipher(_) => "AES-ECB decrypt CDN URL",
            CdnUrlError::NotJson => "parse decrypted CDN URL JSON",
            CdnUrlError::MissingUrl => "Missing 'url' field in CDN URL JSON",
        }
    }
}

/// The address in a decrypted document: the text under `url`.
pub open spec fn url_in(document: Option<JsonView>) -> Result<Seq<char>, CdnUrlError> {
    match document {
        Some(json) => match text_in(member(json, "url"@)) {
            Some(url) => Ok(url),
            None => Err(CdnUrlError::MissingUrl),
        },
        None => Err(CdnUrlError::NotJson),
    }
}

/// The address that an encrypted parameter stands for: the parameter is base64, what it stands
/// for is decrypted under the key, and the result is a JSON object with the address under `url`.
pub open spec fn cdn_url(encrypt_query_param: Seq<char>, aes_key: Seq<char>) -> Result<
    Seq<char>,
    CdnUrlError,
> {
    match key_in(aes_key) {
        Err(e) => Err(CdnUrlError::Key(e)),
        Ok(key) => match base64_bytes(trimmed(encrypt_query_param)) {
            None => Err(CdnUrlError::NotBase64),
            Some(encrypted) => if encrypted.len() % 16 != 0 {
                Err(
                    CdnUrlError::Cipher(
                        CryptoError::CiphertextLength(encrypted.len() as usize),
                    ),
                )
            } else {
                url_in(json_document(ecb_decrypted(key, encrypted)))
            },
        },
    }
}

/// The address that a decrypted document holds.
pub fn url_of_document(document: Option<&serde_json::Value>) -> (r: Result<String, CdnUrlError>)
    ensures
        match url_in(
            match document {
                Some(json) => Some(json_view(*json)),
                None => None,
            },
        ) {
            Ok(url) => r matches Ok(text) && text@ == url,
            Err(e) => r == Err::<String, CdnUrlError>(e),
        },
{
    match document {
        Some(json) => match member_text(json, "url") {
            Some(url) => Ok(url),
            None => Err(CdnUrlError::MissingUrl),
        },
        None => Err(CdnUrlError::NotJson),
    }
}

/// Reads the CDN address of a media item from its encrypted parameter.
pub fn decrypt_cdn_url(encrypt_query_param: &str, aes_key_b64: &str) -> (r: Result<
    String,
    CdnUrlError,
>)
    ensures
        match cdn_url(encrypt_query_param@, aes_key_b64@) {
            Ok(url) => r matches Ok(text) && text@ == url,
            Err(e) => r == Err::<String, CdnUrlError>(e),
        },
{
    let key = match AesKey::from_base64(aes_key_b64) {
        Ok(key) => key,
        Err(e) => return Err(CdnUrlError::Key(e)),
    };
    let encrypted = match decode_base64(trim(encrypt_query_param).as_str()) {
        Ok(encrypted) => encrypted,
        Err(_) => return Err(CdnUrlError::NotBase64),
    };
    proof {
        base64_reads_back(encrypted@);
    }
    let decrypted = match decrypt(key.as_bytes(), encrypted.as_slice()) {
        Ok(decrypted) => decrypted,
        Err(e) => return Err(CdnUrlError::Cipher(e)),
    };
    match parse_json(decrypted.as_slice()) {
        Ok(json) => url_of_document(Some(&json)),
        Err(_) => url_of_document(None),
    }
}

/// Data that begins with the given bytes.
pub open spec fn bytes_begin(data: Seq<u8>, prefix: Seq<u8>) -> bool {
    prefix.len() <= data.len() && data.take(prefix.len() as int) == prefix
}

fn has_prefix(data: &[u8], prefix: &[u8]) -> (r: bool)
    ensures
        r == bytes_begin(data@, prefix@),
{
    if data.len() < prefix.len() {
        return false;
    }
    for i in 0..prefix.len()
        invariant
            prefix@.len() <= data@.len(),
            forall|j: int| 0 <= j < i ==> data@[j] == prefix@[j],
    {
        if data[i] != prefix[i] {
            assert(data@.take(prefix@.len() as int)[i as int] != prefix@[i as int]);
            return false;
        }
    }
    assert(data@.take(prefix@.len() as int) =~= prefix@);
    true
}

/// The MIME type that the first bytes of a file tell: its signature decides, and of several that
/// fit the first in this list.
pub open spec fn mime_of(data: Seq<u8>) -> Seq<char> {
    if bytes_begin(data, seq![0xFFu8, 0xD8, 0xFF]) {
        "image/jpeg"@
    } else if bytes_begin(data, seq![0x89u8, 0x50, 0x4E, 0x47, 0x0D, 0x0A, 0x1A, 0x0A]) {
        "image/png"@
    } else if bytes_begin(data, seq![0x47u8, 0x49, 0x46, 0x38]) {
        "image/gif"@
    } else if bytes_begin(
        data,
        seq![0x52u8, 0x49, 0x46, 0x46, 0x00, 0x00, 0x00, 0x00, 0x57, 0x41, 0x56, 0x45],
    ) {
        "audio/wav"@
    } else if bytes_begin(data, seq![0x42u8, 0x4D]) {
        "image/bmp"@
    } else if bytes_begin(data, seq![0x49u8, 0x44, 0x33]) {
        "audio/mpeg"@
    } else if bytes_begin(data, seq![0xFFu8, 0xFB]) {
        "audio/mpeg"@
    } else if bytes_begin(data, seq![0x4Fu8, 0x67, 0x67, 0x53]) {
        "audio/ogg"@
    } else if data.len() > 0 && 2 <= data[0] <= 5 {
        "audio/silk"@
    } else {
        "application/octet-stream"@
    }
}

/// Tells the MIME type of a file by its first bytes.
pub fn detect_mime_from_magic(data: &[u8]) -> (r: &'static str)
    ensures
        r@ == mime_of(data@),
{
    let jpeg = [0xFFu8, 0xD8, 0xFF];
    let png = [0x89u8, 0x50, 0x4E, 0x47, 0x0D, 0x0A, 0x1A, 0x0A];
    let gif = [0x47u8, 0x49, 0x46, 0x38];
    let wav = [0x52u8, 0x49, 0x46, 0x46, 0x00, 0x00, 0x00, 0x00, 0x57, 0x41, 0x56, 0x45];
    let bmp = [0x42u8, 0x4D];
    let mp3_with_tag = [0x49u8, 0x44, 0x33];
    let mp3 = [0xFFu8, 0xFB];
    let ogg = [0x4Fu8, 0x67, 0x67, 0x53];
    assert(jpeg@ =~= seq![0xFFu8, 0xD8, 0xFF]);
    assert(png@ =~= seq![0x89u8, 0x50, 0x4E, 0x47, 0x0D, 0x0A, 0x1A, 0x0A]);
    assert(gif@ =~= seq![0x47u8, 0x49, 0x46, 0x38]);
    assert(wav@ =~= seq![0x52u8, 0x49, 0x46, 0x46, 0x00, 0x00, 0x00, 0x00, 0x57, 0x41, 0x56, 0x45]);
    assert(bmp@ =~= seq![0x42u8, 0x4D]);
    assert(mp3_with_tag@ =~= seq![0x49u8, 0x44, 0x33]);
    assert(mp3@ =~= seq![0xFFu8, 0xFB]);
    assert(ogg@ =~= seq![0x4Fu8, 0x67, 0x67, 0x53]);
    if has_prefix(data, jpeg.as_slice()) {
        "image/jpeg"
    } else if has_prefix(data, png.as_slice()) {
        "image/png"
    } else if has_prefix(data, gif.as_slice()) {
        "image/gif"
    } else if has_prefix(data, wav.as_slice()) {
        "audio/wav"
    } else if has_prefix(data, bmp.as_slice()) {
        "image/bmp"
    } else if has_prefix(data, mp3_with_tag.as_slice()) {
        "audio/mpeg"
    } else if has_prefix(data, mp3.as_slice()) {
        "audio/mpeg"
    } else if has_prefix(data, ogg.as_slice()) {
        "audio/ogg"
    } else if data.len() > 0 && 2 <= data[0] && data[0] <= 5 {
        "audio/silk"
    } else {
        "application/octet-stream"
    }
}

/// The usual file extension of a MIME type, `bin` where there is none.
pub open spec fn extension_of(mime: Seq<char>) -> Seq<char> {
    if mime == "image/jpeg"@ {
        "jpg"@
    } else if mime == "image/png"@ {
        "png"@
    } else if mime == "image/gif"@ {
        "gif"@
    } else if mime == "image/webp"@ {
        "webp"@
    } else if mime == "image/bmp"@ {
        "bmp"@
    } else if mime == "audio/mpeg"@ {
        "mp3"@
    } else if mime == "audio/wav"@ {
        "wav"@
    } else if mime == "audio/ogg"@ {
        "ogg"@
    } else if mime == "audio/silk"@ {
        "silk"@
    } else {
        "bin"@
    }
}

/// The usual file extension of a MIME type, `bin` where there is none.
pub fn mime_to_ext(mime: &str) -> (r: &'static str)
    ensures
        r@ == extension_of(mime@),
{
    if same_text(mime, "image/jpeg") {
        "jpg"
    } else if same_text(mime, "image/png") {
        "png"
    } else if same_text(mime, "image/gif") {
        "gif"
    } else if same_text(mime, "image/webp") {
        "webp"
    } else if same_text(mime, "image/bmp") {
        "bmp"
    } else if same_text(mime, "audio/mpeg") {
        "mp3"
    } else if same_text(mime, "audio/wav") {
        "wav"
    } else if same_text(mime, "audio/ogg") {
        "ogg"
    } else if same_text(mime, "audio/silk") {
        "silk"
    } else {
        "bin"
    }
}

/// Every file whose first bytes are known has an extension of its own; `bin` is left to the rest.
pub proof fn known_files_have_extensions(data: Seq<u8>)
    ensures
        extension_of(mime_of(data)) == "bin"@ <==> mime_of(data) == "application/octet-stream"@,
{
    reveal_strlit("image/jpeg");
    reveal_strlit("image/png");
    reveal_strlit("image/gif");
    reveal_strlit("image/webp");
    reveal_strlit("image/bmp");
    reveal_strlit("audio/mpeg");
    reveal_strlit("audio/wav");
    reveal_strlit("audio/ogg");
    reveal_strlit("audio/silk");
    reveal_strlit("application/octet-stream");
    reveal_strlit("jpg");
    reveal_strlit("png");
    reveal_strlit("gif");
    reveal_strlit("webp");
    reveal_strlit("bmp");
    reveal_strlit("mp3");
    reveal_strlit("wav");
    reveal_strlit("ogg");
    reveal_strlit("silk");
    reveal_strlit("bin");
    assert("image/jpeg"@[6] == 'j' && "image/png"@[6] == 'p' && "image/gif"@[6] == 'g');
    assert("image/bmp"@[6] == 'b' && "audio/mpeg"@[6] == 'm' && "audio/wav"@[6] == 'w');
    assert("audio/ogg"@[6] == 'o' && "audio/silk"@[6] == 's');
    assert("application/octet-stream"@.len() == 24);
    assert("jpg"@[0] == 'j' && "png"@[0] == 'p' && "gif"@[0] == 'g' && "bmp"@[1] == 'm');
    assert("mp3"@[0] == 'm' && "wav"@[0] == 'w' && "ogg"@[0] == 'o' && "silk"@[0] == 's');
    assert("bin"@[0] == 'b' && "bin"@[1] == 'i');
}

/// A key is read from the base64 text of 16 bytes, wherever white space stands around it; the base64
/// text of fewer or more bytes is refused with their number.
pub proof fn keys_are_read_between_white_space(front: Seq<char>, bytes: Seq<u8>, back: Seq<char>)
    requires
        forall|i: int| 0 <= i < front.len() ==> white_space(#[trigger] front[i]),
        forall|i: int| 0 <= i < back.len() ==> white_space(#[trigger] back[i]),
    ensures
        key_in(front + base64_text(bytes) + back) == (if bytes.len() == 16 {
            Ok::<Seq<u8>, CryptoError>(bytes)
        } else {
            Err(CryptoError::KeyLength(bytes.len() as usize))
        }),
{
    let text = base64_text(bytes);
    base64_text_has_no_white_space(bytes);
    if text.len() > 0 {
        assert(!white_space(text[0]) && !white_space(text[text.len() - 1]));
    }
    trimming_leaves_what_is_between(front, text, back);
    base64_reads_back(bytes);
}

/// What is the base64 text of no bytes stands for no key.
pub proof fn other_texts_are_no_keys(front: Seq<char>, text: Seq<char>, back: Seq<char>)
    requires
        forall|i: int| 0 <= i < front.len() ==> white_space(#[trigger] front[i]),
        forall|i: int| 0 <= i < back.len() ==> white_space(#[trigger] back[i]),
        text.len() > 0 ==> !white_space(text[0]) && !white_space(text.last()),
        forall|bytes: Seq<u8>| #[trigger] base64_text(bytes) != text,
    ensures
        key_in(front + text + back) == Err::<Seq<u8>, CryptoError>(CryptoError::NotBase64),
{
    trimming_leaves_what_is_between(front, text, back);
}

/// The address of a media item is the text under `url` in the JSON object that its parameter decrypts
/// to, wherever white space stands around the parameter. There is an error of its own for what decrypts
/// to no JSON, for what is no object with that text, and for bytes that are no whole blocks.
pub proof fn addresses_are_read_from_their_parameters(
    aes_key: Seq<char>,
    key: Seq<u8>,
    front: Seq<char>,
    encrypted: Seq<u8>,
    back: Seq<char>,
)
    requires
        key_in(aes_key) == Ok::<Seq<u8>, CryptoError>(key),
        forall|i: int| 0 <= i < front.len() ==> white_space(#[trigger] front[i]),
        forall|i: int| 0 <= i < back.len() ==> white_space(#[trigger] back[i]),
    ensures
        ({
            let r = cdn_url(front + base64_text(encrypted) + back, aes_key);
            if encrypted.len() % 16 != 0 {
                r == Err::<Seq<char>, CdnUrlError>(
                    CdnUrlError::Cipher(CryptoError::CiphertextLength(encrypted.len() as usize)),
                )
            } else {
                match json_document(ecb_decrypted(key, encrypted)) {
                    None => r == Err::<Seq<char>, CdnUrlError>(CdnUrlError::NotJson),
                    Some(JsonView::Object(members)) => if members.dom().contains("url"@)
                        && members["url"@] is Text {
                        r == Ok::<Seq<char>, CdnUrlError>(members["url"@]->Text_0)
                    } else {
                        r == Err::<Seq<char>, CdnUrlError>(CdnUrlError::MissingUrl)
                    },
                    Some(_) => r == Err::<Seq<char>, CdnUrlError>(CdnUrlError::MissingUrl),
                }
            }
        }),
{
    base64_reads_back(encrypted);
    base64_text_has_no_white_space(encrypted);
    let text = base64_text(encrypted);
    if text.len() > 0 {
        assert(!white_space(text[0]) && !white_space(text[text.len() - 1]));
    }
    trimming_leaves_what_is_between(front, text, back);
}

/// A parameter that is the base64 text of no bytes holds no address.
pub proof fn other_texts_are_no_parameters(
    aes_key: Seq<char>,
    front: Seq<char>,
    text: Seq<char>,
    back: Seq<char>,
)
    requires
        key_in(aes_key) is Ok,
        forall|i: int| 0 <= i < front.len() ==> white_space(#[trigger] front[i]),
        forall|i: int| 0 <= i < back.len() ==> white_space(#[trigger] back[i]),
        text.len() > 0 ==> !white_space(text[0]) && !white_space(text.last()),
        forall|bytes: Seq<u8>| #[trigger] base64_text(bytes) != text,
    ensures
        cdn_url(front + text + back, aes_key) == Err::<Seq<char>, CdnUrlError>(
            CdnUrlError::NotBase64,
        ),
{
    trimming_leaves_what_is_between(front, text, back);
}

/// An address is not read with a text that stands for no key.
pub proof fn addresses_need_their_keys(encrypt_query_param: Seq<char>, aes_key: Seq<char>)
    ensures
        key_in(aes_key) matches Err(e) ==> cdn_url(encrypt_query_param, aes_key) == Err::<
            Seq<char>,
            CdnUrlError,
        >(CdnUrlError::Key(e)),
{
}

proof fn begins_by_bytes(data: Seq<u8>, prefix: Seq<u8>)
    ensures
        bytes_begin(data, prefix) <==> prefix.len() <= data.len() && forall|i: int|
            0 <= i < prefix.len() ==> data[i] == #[trigger] prefix[i],
{
    if prefix.len() <= data.len() {
        if forall|i: int| 0 <= i < prefix.len() ==> data[i] == #[trigger] prefix[i] {
            assert(data.take(prefix.len() as int) =~= prefix);
        }
        if data.take(prefix.len() as int) == prefix {
            assert forall|i: int| 0 <= i < prefix.len() implies data[i] == #[trigger] prefix[i] by {
                assert(data.take(prefix.len() as int)[i] == data[i]);
            }
        }
    }
}

/// What a file begins with tells its type, whatever follows: a JPEG, PNG, GIF or BMP image, an MP3 file
/// with or without a tag, an Ogg or a WAV file, and a first byte from 2 to 5 a SILK file.
pub proof fn first_bytes_tell_the_type(rest: Seq<u8>, first: u8)
    ensures
        mime_of(seq![0xFFu8, 0xD8, 0xFF] + rest) == "image/jpeg"@,
        mime_of(seq![0x89u8, 0x50, 0x4E, 0x47, 0x0D, 0x0A, 0x1A, 0x0A] + rest) == "image/png"@,
        mime_of(seq![0x47u8, 0x49, 0x46, 0x38] + rest) == "image/gif"@,
        mime_of(
            seq![0x52u8, 0x49, 0x46, 0x46, 0x00, 0x00, 0x00, 0x00, 0x57, 0x41, 0x56, 0x45] + rest,
        ) == "audio/wav"@,
        mime_of(seq![0x42u8, 0x4D] + rest) == "image/bmp"@,
        mime_of(seq![0x49u8, 0x44, 0x33] + rest) == "audio/mpeg"@,
        mime_of(seq![0xFFu8, 0xFB] + rest) == "audio/mpeg"@,
        mime_of(seq![0x4Fu8, 0x67, 0x67, 0x53] + rest) == "audio/ogg"@,
        2 <= first <= 5 ==> mime_of(seq![first] + rest) == "audio/silk"@,
{
    let jpeg = seq![0xFFu8, 0xD8, 0xFF];
    let png = seq![0x89u8, 0x50, 0x4E, 0x47, 0x0D, 0x0A, 0x1A, 0x0A];
    let gif = seq![0x47u8, 0x49, 0x46, 0x38];
    let wav = seq![0x52u8, 0x49, 0x46, 0x46, 0x00, 0x00, 0x00, 0x00, 0x57, 0x41, 0x56, 0x45];
    let bmp = seq![0x42u8, 0x4D];
    let tagged = seq![0x49u8, 0x44, 0x33];
    let mp3 = seq![0xFFu8, 0xFB];
    let ogg = seq![0x4Fu8, 0x67, 0x67, 0x53];
    assert((jpeg + rest).take(3) =~= jpeg);
    assert((png + rest).take(8) =~= png);
    assert((gif + rest).take(4) =~= gif);
    assert((wav + rest).take(12) =~= wav);
    assert((bmp + rest).take(2) =~= bmp);
    assert((tagged + rest).take(3) =~= tagged);
    assert((mp3 + rest).take(2) =~= mp3);
    assert((ogg + rest).take(4) =~= ogg);
    signatures_differ(png + rest);
    signatures_differ(gif + rest);
    signatures_differ(wav + rest);
    signatures_differ(bmp + rest);
    signatures_differ(tagged + rest);
    signatures_differ(mp3 + rest);
    signatures_differ(ogg + rest);
    signatures_differ(seq![first] + rest);
}

/// What each signature asks of the first bytes.
proof fn signatures_differ(data: Seq<u8>)
    ensures
        bytes_begin(data, seq![0xFFu8, 0xD8, 0xFF]) ==> data[0] == 0xFF && data[1] == 0xD8,
        bytes_begin(data, seq![0x89u8, 0x50, 0x4E, 0x47, 0x0D, 0x0A, 0x1A, 0x0A]) ==> data[0]
            == 0x89,
        bytes_begin(data, seq![0x47u8, 0x49, 0x46, 0x38]) ==> data[0] == 0x47,
        bytes_begin(
            data,
            seq![0x52u8, 0x49, 0x46, 0x46, 0x00, 0x00, 0x00, 0x00, 0x57, 0x41, 0x56, 0x45],
        ) ==> data[0] == 0x52,
        bytes_begin(data, seq![0x42u8, 0x4D]) ==> data[0] == 0x42,
        bytes_begin(data, seq![0x49u8, 0x44, 0x33]) ==> data[0] == 0x49,
        bytes_begin(data, seq![0xFFu8, 0xFB]) ==> data[0] == 0xFF && data[1] == 0xFB,
        bytes_begin(data, seq![0x4Fu8, 0x67, 0x67, 0x53]) ==> data[0] == 0x4F,
{
    let jpeg = seq![0xFFu8, 0xD8, 0xFF];
    let png = seq![0x89u8, 0x50, 0x4E, 0x47, 0x0D, 0x0A, 0x1A, 0x0A];
    let gif = seq![0x47u8, 0x49, 0x46, 0x38];
    let wav = seq![0x52u8, 0x49, 0x46, 0x46, 0x00, 0x00, 0x00, 0x00, 0x57, 0x41, 0x56, 0x45];
    let bmp = seq![0x42u8, 0x4D];
    let tagged = seq![0x49u8, 0x44, 0x33];
    let mp3 = seq![0xFFu8, 0xFB];
    let ogg = seq![0x4Fu8, 0x67, 0x67, 0x53];
    begins_by_bytes(data, jpeg);
    begins_by_bytes(data, png);
    begins_by_bytes(data, gif);
    begins_by_bytes(data, wav);
    begins_by_bytes(data, bmp);
    begins_by_bytes(data, tagged);
    begins_by_bytes(data, mp3);
    begins_by_bytes(data, ogg);
    assert(jpeg[0] == 0xFF && jpeg[1] == 0xD8 && png[0] == 0x89 && gif[0] == 0x47);
    assert(wav[0] == 0x52 && bmp[0] == 0x42 && tagged[0] == 0x49);
    assert(mp3[0] == 0xFF && mp3[1] == 0xFB && ogg[0] == 0x4F);
}

/// A file that begins with no known signature is taken for bytes of any kind.
pub proof fn other_files_are_any_bytes(data: Seq<u8>)
    requires
        !(data.len() >= 3 && data[0] == 0xFF && data[1] == 0xD8 && data[2] == 0xFF),
        !(data.len() >= 8 && data[0] == 0x89 && data[1] == 0x50 && data[2] == 0x4E && data[3]
            == 0x47 && data[4] == 0x0D && data[5] == 0x0A && data[6] == 0x1A && data[7] == 0x0A),
        !(data.len() >= 4 && data[0] == 0x47 && data[1] == 0x49 && data[2] == 0x46 && data[3]
            == 0x38),
        !(data.len() >= 12 && data[0] == 0x52 && data[1] == 0x49 && data[2] == 0x46 && data[3]
            == 0x46 && data[4] == 0 && data[5] == 0 && data[6] == 0 && data[7] == 0 && data[8]
            == 0x57 && data[9] == 0x41 && data[10] == 0x56 && data[11] == 0x45),
        !(data.len() >= 2 && data[0] == 0x42 && data[1] == 0x4D),
        !(data.len() >= 3 && data[0] == 0x49 && data[1] == 0x44 && data[2] == 0x33),
        !(data.len() >= 2 && data[0] == 0xFF && data[1] == 0xFB),
        !(data.len() >= 4 && data[0] == 0x4F && data[1] == 0x67 && data[2] == 0x67 && data[3]
            == 0x53),
        !(data.len() > 0 && 2 <= data[0] <= 5),
    ensures
        mime_of(data) == "application/octet-stream"@,
{
    let jpeg = seq![0xFFu8, 0xD8, 0xFF];
    let png = seq![0x89u8, 0x50, 0x4E, 0x47, 0x0D, 0x0A, 0x1A, 0x0A];
    let gif = seq![0x47u8, 0x49, 0x46, 0x38];
    let wav = seq![0x52u8, 0x49, 0x46, 0x46, 0x00, 0x00, 0x00, 0x00, 0x57, 0x41, 0x56, 0x45];
    let bmp = seq![0x42u8, 0x4D];
    let tagged = seq![0x49u8, 0x44, 0x33];
    let mp3 = seq![0xFFu8, 0xFB];
    let ogg = seq![0x4Fu8, 0x67, 0x67, 0x53];
    begins_by_bytes(data, jpeg);
    begins_by_bytes(data, png);
    begins_by_bytes(data, gif);
    begins_by_bytes(data, wav);
    begins_by_bytes(data, bmp);
    begins_by_bytes(data, tagged);
    begins_by_bytes(data, mp3);
    begins_by_bytes(data, ogg);
    assert(jpeg[0] == 0xFF && jpeg[1] == 0xD8 && jpeg[2] == 0xFF);
    assert(png[0] == 0x89 && png[1] == 0x50 && png[2] == 0x4E && png[3] == 0x47);
    assert(png[4] == 0x0D && png[5] == 0x0A && png[6] == 0x1A && png[7] == 0x0A);
    assert(gif[0] == 0x47 && gif[1] == 0x49 && gif[2] == 0x46 && gif[3] == 0x38);
    assert(wav[0] == 0x52 && wav[1] == 0x49 && wav[2] == 0x46 && wav[3] == 0x46);
    assert(wav[4] == 0 && wav[5] == 0 && wav[6] == 0 && wav[7] == 0);
    assert(wav[8] == 0x57 && wav[9] == 0x41 && wav[10] == 0x56 && wav[11] == 0x45);
    assert(bmp[0] == 0x42 && bmp[1] == 0x4D);
    assert(tagged[0] == 0x49 && tagged[1] == 0x44 && tagged[2] == 0x33);
    assert(mp3[0] == 0xFF && mp3[1] == 0xFB);
    assert(ogg[0] == 0x4F && ogg[1] == 0x67 && ogg[2] == 0x67 && ogg[3] == 0x53);
}

/// A file of a type that has an extension is given that one: the second half of the type's name, but
/// `jpg` for `jpeg` and `mp3` for `mpeg`.
pub proof fn extensions_follow_the_type(mime: Seq<char>)
    ensures
        mime == "image/jpeg"@ ==> extension_of(mime) == "jpg"@,
        mime == "audio/mpeg"@ ==> extension_of(mime) == "mp3"@,
        (mime == "image/png"@ || mime == "image/gif"@ || mime == "image/webp"@ || mime
            == "image/bmp"@ || mime == "audio/wav"@ || mime == "audio/ogg"@ || mime
            == "audio/silk"@) ==> extension_of(mime) == mime.skip(6),
        !(mime == "image/jpeg"@ || mime == "audio/mpeg"@ || mime == "image/png"@ || mime
            == "image/gif"@ || mime == "image/webp"@ || mime == "image/bmp"@ || mime
            == "audio/wav"@ || mime == "audio/ogg"@ || mime == "audio/silk"@) ==> extension_of(mime)
            == "bin"@,
{
    reveal_strlit("image/jpeg");
    reveal_strlit("image/png");
    reveal_strlit("image/gif");
    reveal_strlit("image/webp");
    reveal_strlit("image/bmp");
    reveal_strlit("audio/mpeg");
    reveal_strlit("audio/wav");
    reveal_strlit("audio/ogg");
    reveal_strlit("audio/silk");
    reveal_strlit("png");
    reveal_strlit("gif");
    reveal_strlit("webp");
    reveal_strlit("bmp");
    reveal_strlit("wav");
    reveal_strlit("ogg");
    reveal_strlit("silk");
    assert("image/jpeg"@[6] == 'j' && "image/png"@[6] == 'p' && "image/gif"@[6] == 'g');
    assert("image/bmp"@[6] == 'b' && "audio/mpeg"@[6] == 'm' && "audio/wav"@[6] == 'w');
    assert("audio/ogg"@[6] == 'o' && "audio/silk"@[6] == 's');
    assert("image/webp"@[0] == 'i' && "audio/wav"@[0] == 'a' && "image/webp"@[6] == 'w');
    assert("image/png"@.skip(6) =~= "png"@);
    assert("image/gif"@.skip(6) =~= "gif"@);
    assert("image/webp"@.skip(6) =~= "webp"@);
    assert("image/bmp"@.skip(6) =~= "bmp"@);
    assert("audio/wav"@.skip(6) =~= "wav"@);
    assert("audio/ogg"@.skip(6) =~= "ogg"@);
    assert("audio/silk"@.skip(6) =~= "silk"@);
}

} // verus!
