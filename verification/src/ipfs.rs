//! Receipts of pulls: the pull's metadata with a SHA-256 fingerprint of its
//! frame data.

use vstd::prelude::*;
use vstd::string::StringSliceAdditionalSpecFns;

use crate::storage::PullMeta;
use crate::text::{char_from_ascii, string_of};

verus! {

/// A verifiable record of one pull.
#[derive(Debug)]
pub struct PullReceipt {
    pub version: u8,
    pub date: String,
    pub character: String,
    pub anime_title: String,
    pub anime_rank: u32,
    pub rarity: String,
    pub color_mode: String,
    pub frame_count: usize,
    /// SHA-256 of the frame data, in lowercase hexadecimal.
    pub frames_hash: String,
    pub flavor_text: String,
}

/// The SHA-256 digest of a byte string.
pub uninterp spec fn sha256_digest(data: Seq<u8>) -> Seq<u8>;

/// Calls `sha2::Sha256` (new, update, finalize) on `data`; claims that the
/// digest depends on the bytes alone (named `sha256_digest`) and is 32
/// bytes long, as the type's output size `U32` fixes.
#[verifier::external_body]
fn sha256(data: &[u8]) -> (r: Vec<u8>)
    ensures
        r@ == sha256_digest(data@),
        r@.len() == 32,
{
    let mut hasher = <sha2::Sha256 as sha2::Digest>::new();
    sha2::Digest::update(&mut hasher, data);
    sha2::Digest::finalize(hasher).to_vec()
}

/// Lowercase hexadecimal digit of a value below 16.
pub open spec fn hex_lower(d: int) -> char {
    if d < 10 {
        (('0' as int) + d) as char
    } else {
        (('a' as int) + d - 10) as char
    }
}

/// Two lowercase hex digits per byte, most significant first.
pub open spec fn hex_string(bs: Seq<u8>) -> Seq<char>
    decreases bs.len(),
{
    if bs.len() == 0 {
        seq![]
    } else {
        hex_string(bs.drop_last()) + seq![hex_lower(bs.last() as int / 16), hex_lower(bs.last() as int % 16)]
    }
}

fn hex_digit(d: u8) -> (r: char)
    requires
        d < 16,
    ensures
        r == hex_lower(d as int),
{
    if d < 10 {
        char_from_ascii(0x30 + d as u32)
    } else {
        char_from_ascii(0x61 + (d - 10) as u32)
    }
}

/// The bytes in lowercase hexadecimal.
pub fn to_hex(bs: &Vec<u8>) -> (r: String)
    ensures
        r@ == hex_string(bs@),
{
    let mut out: Vec<char> = Vec::new();
    let mut i: usize = 0;
    while i < bs.len()
        invariant
            i <= bs.len(),
            out@ == hex_string(bs@.take(i as int)),
        decreases bs.len() - i,
    {
        assert(bs@.take(i + 1).drop_last() =~= bs@.take(i as int));
        let b = bs[i];
        let ghost before = out@;
        out.push(hex_digit(b / 16));
        out.push(hex_digit(b % 16));
        assert(out@ =~= before + seq![hex_lower(b as int / 16), hex_lower(b as int % 16)]);
        i = i + 1;
    }
    assert(bs@.take(bs.len() as int) =~= bs@);
    string_of(&out)
}

/// Build a receipt from pull metadata and the pull's frame data as stored
/// (`frames_json`): version 1, the metadata's fields, and the SHA-256 of the
/// frame data's UTF-8 bytes in lowercase hex.
pub fn build_receipt(meta: &PullMeta, frames_json: &str) -> (r: PullReceipt)
    ensures
        r.version == 1,
        r.date@ == meta.date@,
        r.character@ == meta.character@,
        r.anime_title@ == meta.anime_title@,
        r.anime_rank == meta.anime_rank,
        r.rarity@ == meta.rarity@,
        r.color_mode@ == meta.color_mode@,
        r.frame_count == meta.frame_count,
        r.frames_hash@ == hex_string(sha256_digest(frames_json.spec_bytes())),
        r.flavor_text@ == meta.flavor_text@,
        r.frames_hash@.len() == 64,
{
    let digest = sha256(frames_json.as_bytes());
    proof {
        lemma_hex_len(digest@);
    }
    PullReceipt {
        version: 1,
        date: meta.date.clone(),
        character: meta.character.clone(),
        anime_title: meta.anime_title.clone(),
        anime_rank: meta.anime_rank,
        rarity: meta.rarity.clone(),
        color_mode: meta.color_mode.clone(),
        frame_count: meta.frame_count,
        frames_hash: to_hex(&digest),
        flavor_text: meta.flavor_text.clone(),
    }
}

/// A hex text has two characters per byte.
pub proof fn lemma_hex_len(bs: Seq<u8>)
    ensures
        hex_string(bs).len() == 2 * bs.len(),
    decreases bs.len(),
{
    if bs.len() > 0 {
        lemma_hex_len(bs.drop_last());
    }
}

} // verus!
