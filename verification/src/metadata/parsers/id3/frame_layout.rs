//! The layout of an ID3v2.3 / ID3v2.4 frame, as a writer lays it out.

use vstd::prelude::*;
use crate::metadata::parsers::flac::picture_layout::{be32_bytes, lemma_be32_reads_back};
use crate::metadata::parsers::id3::{frame_size, frames_from, text_frame_of, FrameV};
use crate::metadata::parsers::utils::{cleaned, syncsafe, syncsafe_byte, text_end};
use crate::text::utf8_lossy;

verus! {

/// A number below 2^28 as a syncsafe integer: four bytes of seven bits,
/// most significant first.
pub open spec fn syncsafe_bytes(n: nat) -> Seq<u8> {
    seq![(n / 0x20_0000 % 0x80) as u8, (n / 0x4000 % 0x80) as u8, (n / 0x80 % 0x80) as u8, (n % 0x80) as u8]
}

/// A frame as a writer lays it out: its four-byte id, the size of its body
/// (a syncsafe integer in ID3v2.4, a plain big-endian one in ID3v2.3), two
/// flag bytes, then the body.
pub open spec fn frame_bytes(major: u8, id: Seq<u8>, flags: Seq<u8>, body: Seq<u8>) -> Seq<u8> {
    id + (if major == 4 { syncsafe_bytes(body.len()) } else { be32_bytes(body.len() as u32) }) + flags + body
}

proof fn lemma_frame_size(major: u8, id: Seq<u8>, flags: Seq<u8>, body: Seq<u8>)
    requires
        major == 3 || major == 4,
        id.len() == 4,
        flags.len() == 2,
        major == 4 ==> body.len() < 0x1000_0000,
        major == 3 ==> body.len() < 0x1_0000_0000,
    ensures
        frame_size(major, frame_bytes(major, id, flags, body), 0) == body.len(),
{
    let t = frame_bytes(major, id, flags, body);
    let n = body.len() as int;
    if major == 4 {
        let sb = syncsafe_bytes(body.len());
        assert(t[4] == sb[0] && t[5] == sb[1] && t[6] == sb[2] && t[7] == sb[3]);
        let a = n / 0x20_0000 % 0x80;
        let b = n / 0x4000 % 0x80;
        let c = n / 0x80 % 0x80;
        let d = n % 0x80;
        assert(syncsafe_byte(t, 4) == a && syncsafe_byte(t, 5) == b && syncsafe_byte(t, 6) == c && syncsafe_byte(t, 7) == d);
        assert(a * 0x20_0000 + b * 0x4000 + c * 0x80 + d == n) by (nonlinear_arith)
            requires
                a == n / 0x20_0000 % 0x80,
                b == n / 0x4000 % 0x80,
                c == n / 0x80 % 0x80,
                d == n % 0x80,
                0 <= n < 0x1000_0000,
        ;
        assert(syncsafe(t, 4) == n);
    } else {
        let v = body.len() as u32;
        assert(t.subrange(4, 8) =~= be32_bytes(v));
        lemma_be32_reads_back(v, t, 4);
    }
}

/// A tag body holding one frame reads back as that frame: its id (the
/// text of its four id bytes) and its body, in ID3v2.3 and ID3v2.4 alike.
pub proof fn law_frame_reads_back(major: u8, id: Seq<u8>, flags: Seq<u8>, body: Seq<u8>)
    requires
        major == 3 || major == 4,
        id.len() == 4,
        id[0] != 0,
        flags.len() == 2,
        body.len() > 0,
        major == 4 ==> body.len() < 0x1000_0000,
        major == 3 ==> body.len() < 0x1_0000_0000,
    ensures
        frames_from(major, frame_bytes(major, id, flags, body), 0) == seq![FrameV { id: utf8_lossy(id), data: body }],
{
    let t = frame_bytes(major, id, flags, body);
    lemma_frame_size(major, id, flags, body);
    assert(t.len() == 10 + body.len());
    assert(t[0] == id[0]);
    assert(t.subrange(0, 4) =~= id);
    assert(t.subrange(10, t.len() as int) =~= body);
}

proof fn lemma_text_end_at_terminator(b: Seq<u8>, n: int, k: int)
    requires
        0 <= k <= n < b.len(),
        b[n] == 0,
        forall|j: int| 0 <= j < n ==> b[j] != 0,
    ensures
        text_end(b, k, false) == n,
    decreases n - k,
{
    if k < n {
        lemma_text_end_at_terminator(b, n, k + 1);
    }
}

/// A text frame whose encoding byte is 0 (ISO-8859-1) or 3 (UTF-8),
/// followed by its text up to a zero byte, reads as that text decoded in
/// that encoding (each byte its own character for ISO-8859-1) and cleaned,
/// whatever follows the terminator.
pub proof fn law_text_frame_reads_back(encoding: u8, text: Seq<u8>, rest: Seq<u8>)
    requires
        encoding == 0 || encoding == 3,
        forall|j: int| 0 <= j < text.len() ==> text[j] != 0,
    ensures
        text_frame_of(seq![encoding] + text + seq![0u8] + rest) == cleaned(if encoding == 0 {
            text.map_values(|x: u8| x as char)
        } else {
            utf8_lossy(text)
        }),
{
    let d = seq![encoding] + text + seq![0u8] + rest;
    let t = d.skip(1);
    assert(t =~= text + seq![0u8] + rest);
    lemma_text_end_at_terminator(t, text.len() as int, 0);
    assert(t.take(text.len() as int) =~= text);
}

} // verus!
