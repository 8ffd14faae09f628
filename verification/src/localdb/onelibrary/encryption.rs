//! OneLibrary database encryption.
//!
//! The database is encrypted with SQLCipher 4. The encryption key is derived
//! from a hardcoded obfuscated blob: Base85 text whose bytes are XOR-ed with
//! a short key and then zlib-compressed.

use std::io::Read;
use vstd::prelude::*;
use crate::error::Error;
use vstd::string::StringExecFns;
use crate::text::{chars_of, decode_utf8_lossy, owned, push_char, utf8_lossy};

verus! {

/// The value of a Base85 (RFC 1924) digit: `0-9`, `A-Z`, `a-z`, then the
/// 23 symbols `!#$%&()*+-;<=>?@^_`{|}~`, in that order.
pub open spec fn b85_digit(c: u8) -> Option<int> {
    if 0x30 <= c <= 0x39 {
        Some(c - 0x30)
    } else if 0x41 <= c <= 0x5a {
        Some(c - 0x41 + 10)
    } else if 0x61 <= c <= 0x7a {
        Some(c - 0x61 + 36)
    } else if c == 0x21 {
        Some(62)
    } else if c == 0x23 {
        Some(63)
    } else if c == 0x24 {
        Some(64)
    } else if c == 0x25 {
        Some(65)
    } else if c == 0x26 {
        Some(66)
    } else if c == 0x28 {
        Some(67)
    } else if c == 0x29 {
        Some(68)
    } else if c == 0x2a {
        Some(69)
    } else if c == 0x2b {
        Some(70)
    } else if c == 0x2d {
        Some(71)
    } else if c == 0x3b {
        Some(72)
    } else if c == 0x3c {
        Some(73)
    } else if c == 0x3d {
        Some(74)
    } else if c == 0x3e {
        Some(75)
    } else if c == 0x3f {
        Some(76)
    } else if c == 0x40 {
        Some(77)
    } else if c == 0x5e {
        Some(78)
    } else if c == 0x5f {
        Some(79)
    } else if c == 0x60 {
        Some(80)
    } else if c == 0x7b {
        Some(81)
    } else if c == 0x7c {
        Some(82)
    } else if c == 0x7d {
        Some(83)
    } else if c == 0x7e {
        Some(84)
    } else {
        None
    }
}

/// True when every byte is a Base85 digit.
pub open spec fn b85_valid(s: Seq<u8>) -> bool {
    forall|i: int| 0 <= i < s.len() ==> (#[trigger] b85_digit(s[i])) is Some
}

/// The number a run of Base85 digits stands for, most significant first.
pub open spec fn b85_value(s: Seq<u8>) -> int
    decreases s.len(),
{
    if s.len() == 0 {
        0
    } else {
        b85_value(s.drop_last()) * 85 + b85_digit(s.last())->0
    }
}

/// The four big-endian bytes of a 32-bit value.
pub open spec fn be_bytes(v: int) -> Seq<u8> {
    seq![(v / 0x100_0000 % 0x100) as u8, (v / 0x1_0000 % 0x100) as u8, (v / 0x100 % 0x100) as u8, (v % 0x100) as u8]
}

/// The bytes of one group of up to five digits: the group's value, reduced
/// to 32 bits, as four big-endian bytes, of which a short last group of `n`
/// digits keeps `n - 1`.
pub open spec fn b85_group(s: Seq<u8>) -> Seq<u8> {
    be_bytes(b85_value(s) % 0x1_0000_0000).take(if s.len() == 5 { 4 } else { s.len() - 1 })
}

/// The Base85 (RFC 1924) decoding of a valid input, group by group.
pub open spec fn b85_decode(s: Seq<u8>) -> Seq<u8>
    decreases s.len(),
{
    if s.len() == 0 {
        Seq::empty()
    } else if s.len() <= 5 {
        b85_group(s)
    } else {
        b85_group(s.take(5)) + b85_decode(s.skip(5))
    }
}

fn digit_value(c: u8) -> (r: Option<u8>)
    ensures
        r is Some <==> b85_digit(c) is Some,
        r matches Some(v) ==> v == b85_digit(c)->0,
{
    if 0x30 <= c && c <= 0x39 {
        Some(c - 0x30)
    } else if 0x41 <= c && c <= 0x5a {
        Some(c - 0x41 + 10)
    } else if 0x61 <= c && c <= 0x7a {
        Some(c - 0x61 + 36)
    } else {
        match c {
            0x21 => Some(62),
            0x23 => Some(63),
            0x24 => Some(64),
            0x25 => Some(65),
            0x26 => Some(66),
            0x28 => Some(67),
            0x29 => Some(68),
            0x2a => Some(69),
            0x2b => Some(70),
            0x2d => Some(71),
            0x3b => Some(72),
            0x3c => Some(73),
            0x3d => Some(74),
            0x3e => Some(75),
            0x3f => Some(76),
            0x40 => Some(77),
            0x5e => Some(78),
            0x5f => Some(79),
            0x60 => Some(80),
            0x7b => Some(81),
            0x7c => Some(82),
            0x7d => Some(83),
            0x7e => Some(84),
            _ => None,
        }
    }
}

/// 85 to the power `n`.
pub open spec fn pow85(n: nat) -> int
    decreases n,
{
    if n == 0 { 1 } else { 85 * pow85((n - 1) as nat) }
}

proof fn lemma_b85_value_bound(s: Seq<u8>)
    requires
        b85_valid(s),
    ensures
        0 <= b85_value(s) < pow85(s.len()),
    decreases s.len(),
{
    if s.len() > 0 {
        let t = s.drop_last();
        assert(b85_valid(t)) by {
            assert forall|i: int| 0 <= i < t.len() implies (#[trigger] b85_digit(t[i])) is Some by {
                assert(t[i] == s[i]);
            }
        }
        lemma_b85_value_bound(t);
        assert(b85_digit(s[s.len() - 1]) is Some);
        let p = pow85(t.len());
        let v = b85_value(t);
        let dgt = b85_digit(s.last())->0;
        assert(0 <= dgt < 85);
        assert(v * 85 + dgt < p * 85) by (nonlinear_arith)
            requires
                0 <= v < p,
                0 <= dgt < 85,
        ;
        assert(0 <= v * 85 + dgt) by (nonlinear_arith)
            requires
                0 <= v,
                0 <= dgt,
        ;
    }
}

/// Decodes one group of up to five digits, appending its bytes to `out`.
fn decode_group(group: &[u8], out: &mut Vec<u8>) -> (r: Result<(), Error>)
    requires
        1 <= group@.len() <= 5,
    ensures
        r is Ok <==> b85_valid(group@),
        r is Ok ==> final(out)@ == old(out)@ + b85_group(group@),
        r matches Err(e) ==> e is Database,
{
    let mut value: u64 = 0;
    let mut i: usize = 0;
    while i < group.len()
        invariant
            1 <= group@.len() <= 5,
            i <= group@.len(),
            b85_valid(group@.take(i as int)),
            value == b85_value(group@.take(i as int)),
        decreases group@.len() - i,
    {
        let c = group[i];
        let v = match digit_value(c) {
            Some(v) => v,
            None => {
                let mut msg = owned("Invalid base85 character: ");
                push_char(&mut msg, c as char);
                assert(!b85_valid(group@)) by {
                    assert(b85_digit(group@[i as int]) is None);
                }
                return Err(Error::Database(msg));
            },
        };
        proof {
            let next = group@.take(i + 1);
            assert(next.drop_last() =~= group@.take(i as int));
            assert(b85_valid(next)) by {
                assert forall|j: int| 0 <= j < next.len() implies (#[trigger] b85_digit(next[j])) is Some by {
                    if j < i {
                        assert(next[j] == group@.take(i as int)[j]);
                    }
                }
            }
            lemma_b85_value_bound(group@.take(i as int));
            assert(pow85(i as nat) <= 52200625) by {
                reveal_with_fuel(pow85, 5);
            }
            assert(value * 85 + v < 52200625 * 85);
        }
        value = value * 85 + v as u64;
        i = i + 1;
    }
    assert(group@.take(group@.len() as int) =~= group@);
    // The arithmetic is done in 32 bits.
    let word = (value % 0x1_0000_0000) as u32;
    let n: usize = if group.len() == 5 { 4 } else { group.len() - 1 };
    let bytes: [u8; 4] = [(word / 0x100_0000) as u8, (word / 0x1_0000 % 0x100) as u8, (word / 0x100 % 0x100) as u8, (word % 0x100) as u8];
    let ghost before = out@;
    let mut k: usize = 0;
    while k < n
        invariant
            n <= 4,
            n == (if group@.len() == 5 { 4 } else { group@.len() - 1 }),
            k <= n,
            bytes@ == be_bytes(word as int),
            word == b85_value(group@) % 0x1_0000_0000,
            out@ == before + bytes@.take(k as int),
        decreases n - k,
    {
        out.push(bytes[k]);
        assert(bytes@.take(k + 1) =~= bytes@.take(k as int).push(bytes@[k as int]));
        k = k + 1;
    }
    Ok(())
}

/// Base85 (RFC 1924) decode.
fn base85_decode(input: &[u8]) -> (r: Result<Vec<u8>, Error>)
    ensures
        r is Ok <==> b85_valid(input@),
        r matches Ok(v) ==> v@ == b85_decode(input@),
        r matches Err(e) ==> e is Database,
{
    let mut result: Vec<u8> = Vec::new();
    let mut at: usize = 0;
    assert(input@.skip(0) =~= input@);
    assert(result@ + b85_decode(input@) =~= b85_decode(input@));
    while at < input.len()
        invariant
            at <= input@.len(),
            b85_valid(input@.take(at as int)),
            result@ + b85_decode(input@.skip(at as int)) == b85_decode(input@),
        decreases input@.len() - at,
    {
        let end = if input.len() - at > 5 { at + 5 } else { input.len() };
        let group = &input[at..end];
        let ghost rest = input@.skip(at as int);
        let ghost before = result@;
        match decode_group(group, &mut result) {
            Ok(()) => {},
            Err(e) => {
                assert(!b85_valid(input@)) by {
                    let j = choose|j: int| 0 <= j < group@.len() && (#[trigger] b85_digit(group@[j])) is None;
                    assert(input@[at + j] == group@[j]);
                }
                return Err(e);
            },
        }
        proof {
            assert(group@ == rest.take(end - at));
            if rest.len() > 5 {
                assert(rest.skip(5) =~= input@.skip(end as int));
                assert(before + (b85_group(group@) + b85_decode(input@.skip(end as int))) =~= (before + b85_group(group@))
                    + b85_decode(input@.skip(end as int)));
            } else {
                assert(rest.take(end - at) =~= rest);
                assert(input@.skip(end as int) =~= Seq::<u8>::empty());
                assert(result@ + b85_decode(input@.skip(end as int)) =~= result@);
            }
            assert(b85_valid(input@.take(end as int))) by {
                assert forall|j: int| 0 <= j < end implies (#[trigger] b85_digit(input@.take(end as int)[j])) is Some by {
                    if j < at {
                        assert(input@.take(end as int)[j] == input@.take(at as int)[j]);
                    } else {
                        assert(input@.take(end as int)[j] == group@[j - at]);
                    }
                }
            }
        }
        at = end;
    }
    proof {
        assert(input@.skip(at as int) =~= Seq::<u8>::empty());
        assert(result@ + Seq::<u8>::empty() =~= result@);
        assert(input@.take(at as int) =~= input@);
    }
    Ok(result)
}

/// The obfuscated encryption key blob, as Base85 text.
pub open spec fn blob_bytes() -> Seq<u8> {
    seq![
        0x50, 0x4e, 0x5f, 0x31, 0x64, 0x48, 0x38, 0x24, 0x6f, 0x4c, 0x4a, 0x59,
        0x29, 0x31, 0x36, 0x6a, 0x5f, 0x52, 0x76, 0x4d, 0x36, 0x71, 0x70, 0x68,
        0x57, 0x77, 0x60, 0x34, 0x37, 0x36, 0x3e, 0x3b, 0x43, 0x31, 0x63, 0x57,
        0x6d, 0x49, 0x23, 0x73, 0x65, 0x28, 0x50, 0x47, 0x60, 0x6a, 0x7d, 0x7e,
        0x78, 0x41, 0x6a, 0x6c, 0x75, 0x66, 0x6a, 0x3f, 0x60, 0x23, 0x30, 0x69,
        0x7b, 0x3b, 0x3d, 0x67, 0x6c, 0x68, 0x28, 0x53, 0x6b, 0x57, 0x29, 0x79,
        0x30, 0x3e, 0x6e, 0x3f, 0x59, 0x45, 0x69, 0x44, 0x60, 0x6c, 0x25, 0x74,
        0x28,
    ]
}

/// The XOR key used for deobfuscation: the ASCII text `657f48f84c437cc1`.
pub open spec fn blob_key() -> Seq<u8> {
    seq![
        0x36, 0x35, 0x37, 0x66, 0x34, 0x38, 0x66, 0x38, 0x34, 0x63, 0x34, 0x33,
        0x37, 0x63, 0x63, 0x31,
    ]
}

fn blob() -> (r: Vec<u8>)
    ensures
        r@ == blob_bytes(),
{
    let r = vec![
        0x50, 0x4e, 0x5f, 0x31, 0x64, 0x48, 0x38, 0x24, 0x6f, 0x4c, 0x4a, 0x59,
        0x29, 0x31, 0x36, 0x6a, 0x5f, 0x52, 0x76, 0x4d, 0x36, 0x71, 0x70, 0x68,
        0x57, 0x77, 0x60, 0x34, 0x37, 0x36, 0x3e, 0x3b, 0x43, 0x31, 0x63, 0x57,
        0x6d, 0x49, 0x23, 0x73, 0x65, 0x28, 0x50, 0x47, 0x60, 0x6a, 0x7d, 0x7e,
        0x78, 0x41, 0x6a, 0x6c, 0x75, 0x66, 0x6a, 0x3f, 0x60, 0x23, 0x30, 0x69,
        0x7b, 0x3b, 0x3d, 0x67, 0x6c, 0x68, 0x28, 0x53, 0x6b, 0x57, 0x29, 0x79,
        0x30, 0x3e, 0x6e, 0x3f, 0x59, 0x45, 0x69, 0x44, 0x60, 0x6c, 0x25, 0x74,
        0x28,
    ];
    assert(r@ =~= blob_bytes());
    r
}

fn key_bytes() -> (r: Vec<u8>)
    ensures
        r@ == blob_key(),
{
    let r = vec![
        0x36, 0x35, 0x37, 0x66, 0x34, 0x38, 0x66, 0x38, 0x34, 0x63, 0x34, 0x33,
        0x37, 0x63, 0x63, 0x31,
    ];
    assert(r@ =~= blob_key());
    r
}

/// The bytes XOR-ed with the key, repeated as often as needed.
pub open spec fn xor_with_key(d: Seq<u8>) -> Seq<u8> {
    Seq::new(d.len(), |i: int| d[i] ^ blob_key()[i % 16])
}

/// What zlib-inflating `data` with `flate2` yields: `None` where reading
/// the decoder fails.
pub uninterp spec fn zlib_inflate(data: Seq<u8>) -> Option<Seq<u8>>;

/// Inflates a zlib stream by reading a `flate2::read::ZlibDecoder` over it
/// to the end. The bytes that come out are named [`zlib_inflate`] of the
/// input; on failure the error's message is handed back.
#[verifier::external_body]
fn inflate_zlib(data: &[u8]) -> (r: Result<Vec<u8>, String>)
    ensures
        r is Ok <==> zlib_inflate(data@) is Some,
        r matches Ok(v) ==> zlib_inflate(data@) == Some(v@),
{
    let mut out = Vec::new();
    match flate2::read::ZlibDecoder::new(data).read_to_end(&mut out) {
        Ok(_) => Ok(out),
        Err(e) => Err(e.to_string()),
    }
}

/// The text hidden in an obfuscated blob: Base85-decoded, XOR-ed with the
/// key, zlib-inflated and read as UTF-8; `None` where a step fails.
pub open spec fn deobfuscated(blob: Seq<u8>) -> Option<Seq<char>> {
    if !b85_valid(blob) {
        None
    } else {
        match zlib_inflate(xor_with_key(b85_decode(blob))) {
            Some(b) => Some(utf8_lossy(b)),
            None => None,
        }
    }
}

/// Deobfuscate the blob to get the encryption key.
fn deobfuscate(blob: &[u8]) -> (r: Result<String, Error>)
    ensures
        r is Ok <==> deobfuscated(blob@) is Some,
        r matches Ok(s) ==> deobfuscated(blob@) == Some(s@),
        r matches Err(e) ==> e is Database,
{
    let decoded = base85_decode(blob)?;
    let key = key_bytes();
    let mut xored: Vec<u8> = Vec::new();
    let mut i: usize = 0;
    while i < decoded.len()
        invariant
            key@ == blob_key(),
            i <= decoded@.len(),
            xored@ == xor_with_key(decoded@).take(i as int),
        decreases decoded@.len() - i,
    {
        xored.push(decoded[i] ^ key[i % 16]);
        assert(xored@ =~= xor_with_key(decoded@).take(i + 1));
        i = i + 1;
    }
    assert(xored@ =~= xor_with_key(decoded@));
    match inflate_zlib(xored.as_slice()) {
        Ok(decompressed) => Ok(decode_utf8_lossy(decompressed.as_slice())),
        Err(msg) => {
            let mut text = owned("could not inflate the encryption key: ");
            text.append(msg.as_str());
            Err(Error::Database(text))
        },
    }
}

/// True when the text starts with `r8gd`, as the key does.
pub open spec fn key_shaped(k: Seq<char>) -> bool {
    k.len() >= 4 && k.take(4) == seq!['r', '8', 'g', 'd']
}

/// Get the SQLCipher encryption key for OneLibrary databases.
pub fn get_encryption_key() -> (r: Result<String, Error>)
    ensures
        r is Ok <==> (deobfuscated(blob_bytes()) matches Some(k) && key_shaped(k)),
        r matches Ok(s) ==> deobfuscated(blob_bytes()) == Some(s@),
        r matches Err(e) ==> e is Database,
{
    let b = blob();
    let key = deobfuscate(b.as_slice())?;
    let cs = chars_of(key.as_str());
    if cs.len() < 4 || cs[0] != 'r' || cs[1] != '8' || cs[2] != 'g' || cs[3] != 'd' {
        assert(!key_shaped(key@)) by {
            if cs@.len() >= 4 {
                assert(key@.take(4)[0] == cs@[0]);
                assert(key@.take(4)[1] == cs@[1]);
                assert(key@.take(4)[2] == cs@[2]);
                assert(key@.take(4)[3] == cs@[3]);
            }
        }
        return Err(Error::Database(owned("Invalid encryption key derived")));
    }
    assert(key@.take(4) =~= seq!['r', '8', 'g', 'd']);
    Ok(key)
}

} // verus!
