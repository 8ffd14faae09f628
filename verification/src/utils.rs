//! Helpers shared by the packet builders.

use vstd::prelude::*;
use vstd::string::StringSliceAdditionalSpecFns;
use vstd::utf8::encode_utf8;
use crate::text::{decode_utf8_lossy, utf8_lossy};
use crate::types::Device;

verus! {

broadcast use vstd::slice::group_slice_axioms;

/// The 20-byte device name field of a packet: the name's UTF-8 bytes,
/// cut at 20 and padded with zeros.
pub open spec fn name_field(name: Seq<char>) -> Seq<u8> {
    Seq::new(20, |i: int| if i < encode_utf8(name).len() { encode_utf8(name)[i] } else { 0u8 })
}

/// The device name field of a packet sent as `device`.
pub fn build_name(device: &Device) -> (r: Vec<u8>)
    ensures
        r@ == name_field(device.name@),
{
    let s = device.name.as_str();
    let bytes = s.as_bytes();
    assert(bytes@ == encode_utf8(device.name@));
    let mut out: Vec<u8> = Vec::new();
    let mut i: usize = 0;
    while i < 20
        invariant
            bytes@ == encode_utf8(device.name@),
            i <= 20,
            out@ == name_field(device.name@).take(i as int),
        decreases 20 - i,
    {
        out.push(if i < bytes.len() { bytes[i] } else { 0 });
        assert(out@ =~= name_field(device.name@).take(i + 1));
        i = i + 1;
    }
    assert(out@ =~= name_field(device.name@));
    out
}

/// Appends the bytes of `s` to `v`.
pub fn append_bytes(v: &mut Vec<u8>, s: &[u8])
    ensures
        final(v)@ == old(v)@ + s@,
{
    let ghost start = v@;
    let mut i: usize = 0;
    while i < s.len()
        invariant
            i <= s@.len(),
            v@ == start + s@.take(i as int),
        decreases s@.len() - i,
    {
        v.push(s[i]);
        assert(v@ =~= start + s@.take(i + 1));
        i = i + 1;
    }
    assert(s@.take(s@.len() as int) =~= s@);
}

/// `n` zero bytes.
pub fn zeros(n: usize) -> (r: Vec<u8>)
    ensures
        r@ == Seq::new(n as nat, |i: int| 0u8),
{
    let mut out: Vec<u8> = Vec::new();
    let mut i: usize = 0;
    while i < n
        invariant
            i <= n,
            out@ == Seq::new(i as nat, |k: int| 0u8),
        decreases n - i,
    {
        out.push(0);
        assert(out@ =~= Seq::new((i + 1) as nat, |k: int| 0u8));
        i = i + 1;
    }
    out
}


/// The bytes before the first zero byte (all of them where there is none).
pub open spec fn before_nul(s: Seq<u8>) -> Seq<u8>
    decreases s.len(),
{
    if s.len() == 0 {
        s
    } else if s[0] == 0 {
        Seq::empty()
    } else {
        seq![s[0]] + before_nul(s.drop_first())
    }
}

/// The text of a zero-padded field: the bytes before the first zero,
/// decoded as UTF-8 with invalid sequences replaced.
pub open spec fn nul_padded_text(s: Seq<u8>) -> Seq<char> {
    utf8_lossy(before_nul(s))
}

proof fn lemma_before_nul(s: Seq<u8>, i: int)
    requires
        0 <= i <= s.len(),
        forall|j: int| 0 <= j < i ==> s[j] != 0,
        i == s.len() || s[i] == 0,
    ensures
        before_nul(s) == s.take(i),
    decreases s.len(),
{
    if s.len() > 0 && s[0] != 0 {
        lemma_before_nul(s.drop_first(), i - 1);
        assert(s.take(i) =~= seq![s[0]] + s.drop_first().take(i - 1));
    } else if s.len() > 0 {
        assert(s.take(0) =~= Seq::<u8>::empty());
    } else {
        assert(s.take(0) =~= s);
    }
}

/// Reads a zero-padded string field.
pub fn string_from_nul_padded(bytes: &[u8]) -> (r: String)
    ensures
        r@ == nul_padded_text(bytes@),
{
    let mut i: usize = 0;
    while i < bytes.len() && bytes[i] != 0
        invariant
            i <= bytes@.len(),
            forall|j: int| 0 <= j < i ==> bytes@[j] != 0,
        decreases bytes@.len() - i,
    {
        i = i + 1;
    }
    proof {
        lemma_before_nul(bytes@, i as int);
    }
    let head = &bytes[0..i];
    assert(head@ =~= bytes@.take(i as int));
    decode_utf8_lossy(head)
}

} // verus!
