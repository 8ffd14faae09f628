//! Local rekordbox databases: the pdb export, the OneLibrary export and the
//! analysis files next to them.

pub mod database_adapter;
pub mod onelibrary;
pub mod orm;
pub mod rekordbox;
pub mod slots;
pub mod utils;

use vstd::prelude::*;
use vstd::string::StringSliceAdditionalSpecFns;
use vstd::utf8::encode_utf8;
use sha2::Digest;
use crate::localdb::rekordbox::types::HydrationProgress;
use crate::text::{chars_of, decimal, push_decimal, string_from_chars};
use crate::types::{slot_number, Device, FetchProgress, MediaSlot, MediaSlotInfo};

verus! {

/// The well-known paths of the two database formats on rekordbox media.
pub const ONE_LIBRARY_PATH: &'static str = "PIONEER/rekordbox/exportLibrary.db";

/// See [`ONE_LIBRARY_PATH`].
pub const PDB_PATH: &'static str = "PIONEER/rekordbox/export.pdb";

/// Progress of a database download from a CDJ.
#[derive(Debug, Clone, PartialEq, Eq)]
pub struct DownloadProgressEvent {
    /// The device progress is being reported for.
    pub device: Device,
    /// The media slot progress is being reported for.
    pub slot: MediaSlot,
    /// The current progress of the fetch.
    pub progress: FetchProgress,
}

/// Progress of hydrating a rekordbox database into memory.
#[derive(Debug, Clone, PartialEq, Eq)]
pub struct HydrationProgressEvent {
    pub device: Device,
    pub slot: MediaSlot,
    pub progress: HydrationProgress,
}

/// Fired when the database has been fully hydrated.
#[derive(Debug, Clone, PartialEq, Eq)]
pub struct HydrationDoneEvent {
    pub device: Device,
    pub slot: MediaSlot,
}

/// The SHA-256 digest of a byte string.
pub uninterp spec fn sha256(data: Seq<u8>) -> Seq<u8>;

/// The SHA-256 digest of `data`, computed with `sha2::Sha256` (a new hasher,
/// one `update` with `data`, then `finalize`): the 32 bytes [`sha256`] names.
#[verifier::external_body]
fn sha256_digest(data: &[u8]) -> (r: Vec<u8>)
    ensures
        r@ == sha256(data@),
        r@.len() == 32,
{
    let mut hasher = sha2::Sha256::new();
    hasher.update(data);
    hasher.finalize().to_vec()
}

/// The lowercase hexadecimal digit `v` (0..=15).
pub open spec fn hex_digit(v: nat) -> char {
    if v < 10 {
        (48 + v) as char
    } else {
        (87 + v) as char
    }
}

/// Each byte as two lowercase hexadecimal digits, in order.
pub open spec fn hex_of(bytes: Seq<u8>) -> Seq<char>
    decreases bytes.len(),
{
    if bytes.len() == 0 {
        Seq::empty()
    } else {
        hex_of(bytes.drop_last()) + seq![hex_digit(bytes.last() as nat / 16), hex_digit(bytes.last() as nat % 16)]
    }
}

pub proof fn lemma_hex_of_len(bytes: Seq<u8>)
    ensures
        hex_of(bytes).len() == 2 * bytes.len(),
    decreases bytes.len(),
{
    if bytes.len() > 0 {
        lemma_hex_of_len(bytes.drop_last());
    }
}

/// The text that stands for a missing creation date.
pub open spec fn invalid_date_text() -> Seq<char> {
    "Invalid Date"@
}

/// The fields of a medium joined with '.': device, slot number, name, free
/// bytes, total bytes, track count and creation date, numbers in decimal.
pub open spec fn media_id_input(info: MediaSlotInfo) -> Seq<char> {
    let dot = seq!['.'];
    decimal(info.device_id as nat) + dot + decimal(slot_number(info.slot) as nat) + dot + info.name@ + dot + decimal(
        info.free_bytes as nat,
    ) + dot + decimal(info.total_bytes as nat) + dot + decimal(info.track_count as nat) + dot + match info.created_date {
        Some(d) => d@,
        None => invalid_date_text(),
    }
}

/// The identifier of a medium: the SHA-256 digest of its joined fields,
/// in lowercase hexadecimal.
pub open spec fn media_id(info: MediaSlotInfo) -> Seq<char> {
    hex_of(sha256(encode_utf8(media_id_input(info))))
}

fn push_str(out: &mut Vec<char>, s: &str)
    ensures
        final(out)@ == old(out)@ + s@,
{
    let mut cs = chars_of(s);
    out.append(&mut cs);
}

fn hex_text(bytes: &[u8]) -> (r: String)
    ensures
        r@ == hex_of(bytes@),
{
    let mut cs: Vec<char> = Vec::new();
    let mut i: usize = 0;
    while i < bytes.len()
        invariant
            i <= bytes@.len(),
            cs@ == hex_of(bytes@.take(i as int)),
        decreases bytes@.len() - i,
    {
        let b = bytes[i];
        let hi: u8 = b / 16;
        let lo: u8 = b % 16;
        cs.push(if hi < 10 { (48u8 + hi) as char } else { (87u8 + hi) as char });
        cs.push(if lo < 10 { (48u8 + lo) as char } else { (87u8 + lo) as char });
        proof {
            let t = bytes@.take(i + 1);
            assert(t.drop_last() =~= bytes@.take(i as int));
            assert(t.last() == b);
        }
        assert(cs@ =~= hex_of(bytes@.take(i + 1)));
        i = i + 1;
    }
    assert(bytes@.take(bytes@.len() as int) =~= bytes@);
    string_from_chars(cs.as_slice())
}

/// Compute the identifier for a media device in a CDJ. This is used to
/// determine if we have already hydrated the device or not into our local
/// database.
pub fn get_media_id(info: &MediaSlotInfo) -> (r: String)
    ensures
        r@ == media_id(*info),
        r@.len() == 64,
{
    let mut cs: Vec<char> = Vec::new();
    push_decimal(&mut cs, info.device_id as u64);
    cs.push('.');
    push_decimal(&mut cs, info.slot.as_u8() as u64);
    cs.push('.');
    push_str(&mut cs, info.name.as_str());
    cs.push('.');
    push_decimal(&mut cs, info.free_bytes);
    cs.push('.');
    push_decimal(&mut cs, info.total_bytes);
    cs.push('.');
    push_decimal(&mut cs, info.track_count as u64);
    cs.push('.');
    match &info.created_date {
        Some(d) => push_str(&mut cs, d.as_str()),
        None => {
            let invalid = "Invalid Date";
            proof {
                reveal_strlit("Invalid Date");
            }
            push_str(&mut cs, invalid);
        },
    }
    assert(cs@ =~= media_id_input(*info));
    let joined = string_from_chars(cs.as_slice());
    let bytes = joined.as_str().as_bytes();
    assert(bytes@ == encode_utf8(media_id_input(*info)));
    let digest = sha256_digest(bytes);
    let r = hex_text(digest.as_slice());
    proof {
        lemma_hex_of_len(digest@);
    }
    r
}

} // verus!
