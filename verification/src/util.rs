//! Token hashing and the table of housing zones.

use vstd::prelude::*;
use sha3::Digest;
use base64::Engine;

verus! {

/// The SHA3-384 digest of a text's UTF-8 encoding.  Named only: the digest
/// is a pure function of the characters, stated nowhere.
pub uninterp spec fn sha3_384_of(s: Seq<char>) -> Seq<u8>;

/// The standard base64 encoding, with padding, of a byte string.  Named
/// only: a pure function of the bytes.
pub uninterp spec fn base64_of(bytes: Seq<u8>) -> Seq<char>;

/// Relies on sha3's `Sha3_384` through `Digest::digest`: a 384-bit (48-byte)
/// digest that depends on the input bytes alone.
#[verifier::external_body]
fn sha3_384(input: &str) -> (digest: Vec<u8>)
    ensures
        digest@ == sha3_384_of(input@),
        digest@.len() == 48,
{
    sha3::Sha3_384::digest(input.as_bytes()).to_vec()
}

/// Relies on base64's `Engine::encode` with the standard alphabet and
/// padding: four output characters for every started group of three input
/// bytes, depending on the input alone.
#[verifier::external_body]
fn base64_standard(bytes: &Vec<u8>) -> (encoded: String)
    ensures
        encoded@ == base64_of(bytes@),
        encoded@.len() == 4 * ((bytes@.len() + 2) / 3),
{
    base64::prelude::BASE64_STANDARD.encode(bytes.as_slice())
}

/// How an auth token is stored: the base64 encoding of its SHA3-384 digest,
/// always 64 characters.
pub fn hash(input: &str) -> (hashed: String)
    ensures
        hashed@ == base64_of(sha3_384_of(input@)),
        hashed@.len() == 64,
{
    let digest = sha3_384(input);
    base64_standard(&digest)
}

/// The territory ids whose zones are housing districts, where a query must
/// name a ward.
pub open spec fn spec_is_housing_zone(territory: u32) -> bool {
    ||| territory == 282
    ||| territory == 283
    ||| territory == 284
    ||| territory == 339
    ||| territory == 340
    ||| territory == 341
    ||| territory == 342
    ||| territory == 343
    ||| territory == 344
    ||| territory == 345
    ||| territory == 346
    ||| territory == 347
    ||| territory == 384
    ||| territory == 385
    ||| territory == 386
    ||| territory == 423
    ||| territory == 424
    ||| territory == 425
    ||| territory == 573
    ||| territory == 574
    ||| territory == 575
    ||| territory == 608
    ||| territory == 609
    ||| territory == 610
    ||| territory == 641
    ||| territory == 649
    ||| territory == 650
    ||| territory == 651
    ||| territory == 652
    ||| territory == 653
    ||| territory == 654
    ||| territory == 655
    ||| territory == 979
    ||| territory == 980
    ||| territory == 981
    ||| territory == 982
    ||| territory == 983
    ||| territory == 984
    ||| territory == 985
    ||| territory == 999
}

/// Whether a territory is a housing zone.
pub fn is_housing_zone(territory: u32) -> (housing: bool)
    ensures
        housing == spec_is_housing_zone(territory),
{
    (territory >= 282 && territory <= 284) || (territory >= 339 && territory <= 347) || (territory
        >= 384 && territory <= 386) || (territory >= 423 && territory <= 425) || (territory >= 573
        && territory <= 575) || (territory >= 608 && territory <= 610) || territory == 641 || (
    territory >= 649 && territory <= 655) || (territory >= 979 && territory <= 985) || territory
        == 999
}

} // verus!
