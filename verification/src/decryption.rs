//! Decryption of the game's metadata files: base64 text of an AES-128-CBC
//! ciphertext whose key doubles as the initialisation vector.

use vstd::prelude::*;
use crate::error::MetadataError;

verus! {

/// The bytes of a cipher block.
pub const BLOCK_SIZE: usize = 16;

/// The game's fixed key, the ASCII text `1234567812345678`. It is also the
/// initialisation vector.
pub const KEY: [u8; 16] = [49, 50, 51, 52, 53, 54, 55, 56, 49, 50, 51, 52, 53, 54, 55, 56];

#[verifier::external_type_specification]
#[verifier::external_body]
pub struct ExBase64DecodeError(base64::DecodeError);

/// What the standard base64 alphabet with canonical padding decodes `text`
/// to, or `None` where `text` is not such an encoding.
pub uninterp spec fn base64_standard(text: Seq<u8>) -> Option<Seq<u8>>;

/// The blocks that AES-128 in CBC mode decrypts `ciphertext` to under
/// `key` and `iv`, their padding still on them.
pub uninterp spec fn aes128_cbc_blocks(key: Seq<u8>, iv: Seq<u8>, ciphertext: Seq<u8>) -> Seq<u8>;

/// `base64::Engine::decode` on the `STANDARD` engine. Trusted: the call
/// succeeds exactly on the texts that `base64_standard` decodes, with that
/// result.
#[verifier::external_body]
fn base64_decode(text: &[u8]) -> (r: Result<Vec<u8>, base64::DecodeError>)
    ensures
        r is Ok <==> base64_standard(text@) is Some,
        r is Ok ==> Some(r->Ok_0@) == base64_standard(text@),
{
    base64::Engine::decode(&base64::prelude::BASE64_STANDARD, text)
}

/// `libaes::Cipher::cbc_decrypt` on a cipher made by `Cipher::new_128`, its
/// automatic padding switched off by `Cipher::set_auto_padding`. Trusted:
/// the result is `aes128_cbc_blocks` of the arguments. The call panics on
/// an `iv` shorter than a block, which `requires` leaves out.
#[verifier::external_body]
fn cbc_decrypt(key: &[u8; 16], iv: &[u8], ciphertext: &[u8]) -> (blocks: Vec<u8>)
    requires
        iv@.len() >= BLOCK_SIZE,
    ensures
        blocks@ == aes128_cbc_blocks(key@, iv@, ciphertext@),
{
    let mut cipher = libaes::Cipher::new_128(key);
    cipher.set_auto_padding(false);
    cipher.cbc_decrypt(iv, ciphertext)
}

/// How many bytes of padding decrypted blocks end in: the number that the
/// last byte holds, where it is from 1 to the block size and no more than
/// there are bytes, and each of that many last bytes holds it.
pub open spec fn padding_spec(blocks: Seq<u8>) -> Option<nat> {
    if blocks.len() > 0 && 1 <= blocks.last() <= BLOCK_SIZE && blocks.last() <= blocks.len()
        && forall|i: int|
        blocks.len() - blocks.last() <= i < blocks.len() ==> #[trigger] blocks[i]
            == blocks.last() {
        Some(blocks.last() as nat)
    } else {
        None
    }
}

/// Decrypted blocks without their padding.
pub open spec fn strip_padding_spec(blocks: Seq<u8>) -> Result<Seq<u8>, MetadataError> {
    match padding_spec(blocks) {
        Some(n) => Ok(blocks.take(blocks.len() - n)),
        None => Err(MetadataError::Padding),
    }
}

/// What `decrypt_blocks` returns for a ciphertext.
pub open spec fn decrypt_blocks_spec(ciphertext: Seq<u8>) -> Result<Seq<u8>, MetadataError> {
    if ciphertext.len() % (BLOCK_SIZE as nat) != 0 {
        Err(MetadataError::BlockLength)
    } else {
        strip_padding_spec(aes128_cbc_blocks(KEY@, KEY@, ciphertext))
    }
}

/// What `decrypt` returns for the text of a metadata file.
pub open spec fn decrypt_spec(text: Seq<u8>) -> Result<Seq<u8>, MetadataError> {
    match base64_standard(text) {
        None => Err(MetadataError::Base64),
        Some(ciphertext) => decrypt_blocks_spec(ciphertext),
    }
}

/// The view of a decryption result.
pub open spec fn bytes_result_view(r: Result<Vec<u8>, MetadataError>) -> Result<
    Seq<u8>,
    MetadataError,
> {
    match r {
        Ok(v) => Ok(v@),
        Err(e) => Err(e),
    }
}

/// Takes the padding off decrypted blocks. Blocks that do not end in a
/// padding, each of its bytes holding their number, are refused.
pub fn strip_padding(blocks: Vec<u8>) -> (r: Result<Vec<u8>, MetadataError>)
    ensures
        bytes_result_view(r) == strip_padding_spec(blocks@),
{
    let len = blocks.len();
    if len == 0 {
        return Err(MetadataError::Padding);
    }
    let last = blocks[len - 1];
    if last < 1 || last as usize > BLOCK_SIZE || last as usize > len {
        return Err(MetadataError::Padding);
    }
    let start = len - last as usize;
    let mut i: usize = start;
    while i < len
        invariant
            start <= i <= len,
            len == blocks@.len(),
            last == blocks@.last(),
            start == len - last,
            forall|k: int| start <= k < i ==> #[trigger] blocks@[k] == last,
        decreases len - i,
    {
        if blocks[i] != last {
            return Err(MetadataError::Padding);
        }
        i += 1;
    }
    let mut plain = blocks;
    plain.truncate(start);
    Ok(plain)
}

/// Decrypts a ciphertext under the game's key and takes the padding off.
/// A ciphertext that is not a whole number of blocks is refused; the
/// cipher is not asked about it.
pub fn decrypt_blocks(ciphertext: &[u8]) -> (r: Result<Vec<u8>, MetadataError>)
    ensures
        bytes_result_view(r) == decrypt_blocks_spec(ciphertext@),
{
    if ciphertext.len() % BLOCK_SIZE != 0 {
        return Err(MetadataError::BlockLength);
    }
    let key = KEY;
    let blocks = cbc_decrypt(&key, key.as_slice(), ciphertext);
    strip_padding(blocks)
}

/// Decodes the base64 text of a metadata file and decrypts it.
pub fn decrypt(data: &[u8]) -> (r: Result<Vec<u8>, MetadataError>)
    ensures
        bytes_result_view(r) == decrypt_spec(data@),
{
    match base64_decode(data) {
        Err(_) => Err(MetadataError::Base64),
        Ok(ciphertext) => decrypt_blocks(ciphertext.as_slice()),
    }
}

} // verus!
