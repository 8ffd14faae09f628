//! Helpers shared by the tag parsers.

use vstd::prelude::*;
use crate::metadata::types::ArtworkMimeType;
use crate::text::{
    chars_of, contains_seq, decode_utf16_lossy, decode_utf8_lossy, lowercase, push_char, str_contains, string_from_chars,
    lemma_trimmed, to_lower, trim, trimmed, utf16_lossy, utf8_lossy, white_space,
};
use crate::bytes::{be_u16, le_u16};

verus! {

broadcast use vstd::slice::group_slice_axioms;

/// The image type the magic bytes at the start of `d` announce.
pub open spec fn image_type_of(d: Seq<u8>) -> Option<ArtworkMimeType> {
    if d.len() < 4 {
        None
    } else if d[0] == 0xff && d[1] == 0xd8 && d[2] == 0xff {
        Some(ArtworkMimeType::Jpeg)
    } else if d[0] == 0x89 && d[1] == 0x50 && d[2] == 0x4e && d[3] == 0x47 {
        Some(ArtworkMimeType::Png)
    } else if d[0] == 0x47 && d[1] == 0x49 && d[2] == 0x46 {
        Some(ArtworkMimeType::Gif)
    } else {
        None
    }
}

/// Detect image type from magic bytes.
pub fn detect_image_type(data: &[u8]) -> (r: Option<ArtworkMimeType>)
    ensures
        r == image_type_of(data@),
{
    if data.len() < 4 {
        return None;
    }
    if data[0] == 0xff && data[1] == 0xd8 && data[2] == 0xff {
        return Some(ArtworkMimeType::Jpeg);
    }
    // "\x89PNG"
    if data[0] == 0x89 && data[1] == 0x50 && data[2] == 0x4e && data[3] == 0x47 {
        return Some(ArtworkMimeType::Png);
    }
    // "GIF"
    if data[0] == 0x47 && data[1] == 0x49 && data[2] == 0x46 {
        return Some(ArtworkMimeType::Gif);
    }
    None
}

/// The artwork type a MIME type text names: PNG or GIF where the
/// lower-cased text mentions them, JPEG otherwise.
pub open spec fn mime_of(m: Seq<char>) -> ArtworkMimeType {
    if contains_seq(lowercase(m), "png"@) {
        ArtworkMimeType::Png
    } else if contains_seq(lowercase(m), "gif"@) {
        ArtworkMimeType::Gif
    } else {
        ArtworkMimeType::Jpeg
    }
}

/// Normalize a MIME type string to a supported artwork type.
pub fn normalize_mime_type(mime_type: &str) -> (r: ArtworkMimeType)
    ensures
        r == mime_of(mime_type@),
{
    let lower = to_lower(mime_type);
    if str_contains(lower.as_str(), "png") {
        ArtworkMimeType::Png
    } else if str_contains(lower.as_str(), "gif") {
        ArtworkMimeType::Gif
    } else {
        ArtworkMimeType::Jpeg
    }
}

/// The low 7 bits of the byte at `i`, or 0 past the end.
pub open spec fn syncsafe_byte(b: Seq<u8>, i: int) -> int {
    if 0 <= i < b.len() { (b[i] % 0x80) as int } else { 0 }
}

/// The syncsafe integer (ID3v2) at `offset`: four bytes of 7 bits each,
/// most significant first; bytes past the end count as zero.
pub open spec fn syncsafe(b: Seq<u8>, offset: int) -> int {
    syncsafe_byte(b, offset) * 0x20_0000 + syncsafe_byte(b, offset + 1) * 0x4000 + syncsafe_byte(b, offset + 2) * 0x80
        + syncsafe_byte(b, offset + 3)
}

fn syncsafe_at(buffer: &[u8], at: usize, i: usize) -> (r: u32)
    requires
        i < 4,
    ensures
        r == syncsafe_byte(buffer@, at + i),
        r < 0x80,
{
    if at > buffer.len() || i >= buffer.len() - at {
        0
    } else {
        let b = buffer[at + i];
        assert(b & 0x7f == b % 0x80) by (bit_vector);
        (b & 0x7f) as u32
    }
}

/// Read a syncsafe integer (ID3v2 format). Each byte only uses 7 bits.
pub fn read_syncsafe(buffer: &[u8], offset: usize) -> (r: u32)
    ensures
        r == syncsafe(buffer@, offset as int),
{
    let b0 = syncsafe_at(buffer, offset, 0);
    let b1 = syncsafe_at(buffer, offset, 1);
    let b2 = syncsafe_at(buffer, offset, 2);
    let b3 = syncsafe_at(buffer, offset, 3);
    b0 * 0x20_0000 + b1 * 0x4000 + b2 * 0x80 + b3
}

/// Text encodings of ID3v2 frames.
#[derive(Debug, Clone, Copy, PartialEq, Eq, Structural)]
pub enum TextEncoding {
    Latin1,
    Utf8,
    Utf16Le,
    Utf16Be,
}

impl TextEncoding {
    pub fn is_utf16(self) -> (r: bool)
        ensures
            r == (self is Utf16Le || self is Utf16Be),
    {
        match self {
            TextEncoding::Utf16Le | TextEncoding::Utf16Be => true,
            _ => false,
        }
    }
}

/// The encoding an ID3v2 encoding byte names.
pub open spec fn encoding_of(b: u8) -> TextEncoding {
    if b == 1 {
        TextEncoding::Utf16Le
    } else if b == 2 {
        TextEncoding::Utf16Be
    } else if b == 3 {
        TextEncoding::Utf8
    } else {
        TextEncoding::Latin1
    }
}

/// Get text encoding from ID3v2 encoding byte.
pub fn get_text_encoding(encoding_byte: u8) -> (r: TextEncoding)
    ensures
        r == encoding_of(encoding_byte),
{
    match encoding_byte {
        1 => TextEncoding::Utf16Le,
        2 => TextEncoding::Utf16Be,
        3 => TextEncoding::Utf8,
        _ => TextEncoding::Latin1,
    }
}

/// The code units of UTF-16 text, little- or big-endian; a trailing odd
/// byte is dropped.
pub open spec fn utf16_units(b: Seq<u8>, big_endian: bool) -> Seq<u16> {
    Seq::new(b.len() / 2, |i: int| if big_endian { be_u16(b, 2 * i) } else { le_u16(b, 2 * i) })
}

/// The text that bytes in the given encoding stand for: Latin-1 maps each
/// byte to the character of the same number.
pub open spec fn decoded_text(b: Seq<u8>, encoding: TextEncoding) -> Seq<char> {
    match encoding {
        TextEncoding::Latin1 => b.map_values(|x: u8| x as char),
        TextEncoding::Utf8 => utf8_lossy(b),
        TextEncoding::Utf16Le => utf16_lossy(utf16_units(b, false)),
        TextEncoding::Utf16Be => utf16_lossy(utf16_units(b, true)),
    }
}

fn units_of(bytes: &[u8], big_endian: bool) -> (r: Vec<u16>)
    ensures
        r@ == utf16_units(bytes@, big_endian),
{
    let n = bytes.len() / 2;
    let mut out: Vec<u16> = Vec::new();
    let mut i: usize = 0;
    while i < n
        invariant
            n == bytes@.len() / 2,
            i <= n,
            out@ == utf16_units(bytes@, big_endian).take(i as int),
        decreases n - i,
    {
        assert(2 * i + 1 < bytes.len());
        let u: u16 = if big_endian {
            (bytes[2 * i] as u16) * 0x100 + (bytes[2 * i + 1] as u16)
        } else {
            (bytes[2 * i + 1] as u16) * 0x100 + (bytes[2 * i] as u16)
        };
        out.push(u);
        assert(out@ =~= utf16_units(bytes@, big_endian).take(i + 1));
        i = i + 1;
    }
    assert(out@ =~= utf16_units(bytes@, big_endian));
    out
}

/// Decode bytes in the given encoding.
pub fn decode_text(bytes: &[u8], encoding: TextEncoding) -> (r: String)
    ensures
        r@ == decoded_text(bytes@, encoding),
{
    match encoding {
        TextEncoding::Latin1 => {
            let mut s = String::new();
            let mut i: usize = 0;
            while i < bytes.len()
                invariant
                    i <= bytes@.len(),
                    s@ == bytes@.take(i as int).map_values(|x: u8| x as char),
                decreases bytes@.len() - i,
            {
                push_char(&mut s, bytes[i] as char);
                assert(s@ =~= bytes@.take(i + 1).map_values(|x: u8| x as char));
                i = i + 1;
            }
            assert(bytes@.take(bytes@.len() as int) =~= bytes@);
            s
        },
        TextEncoding::Utf8 => decode_utf8_lossy(bytes),
        TextEncoding::Utf16Le => {
            let units = units_of(bytes, false);
            decode_utf16_lossy(units.as_slice())
        },
        TextEncoding::Utf16Be => {
            let units = units_of(bytes, true);
            decode_utf16_lossy(units.as_slice())
        },
    }
}

/// A null-terminated string read from a buffer.
pub struct NulTerminated {
    pub value: String,
    pub bytes_consumed: usize,
}

/// Where the text that starts at `offset` ends: at the first zero byte
/// (a zero pair at an even distance from `offset`, for UTF-16), or at the
/// end of the buffer.
pub open spec fn text_end(b: Seq<u8>, offset: int, utf16: bool) -> int
    decreases b.len() - offset,
{
    if utf16 {
        if offset + 1 >= b.len() {
            offset
        } else if b[offset] == 0 && b[offset + 1] == 0 {
            offset
        } else {
            text_end(b, offset + 2, utf16)
        }
    } else {
        if offset >= b.len() || b[offset] == 0 {
            offset
        } else {
            text_end(b, offset + 1, utf16)
        }
    }
}

/// The end of the text, clipped to the buffer.
pub open spec fn clipped_end(b: Seq<u8>, offset: int, utf16: bool) -> int {
    if text_end(b, offset, utf16) < b.len() { text_end(b, offset, utf16) } else { b.len() as int }
}

/// The start of the text, clipped to its end.
pub open spec fn clipped_start(b: Seq<u8>, offset: int, utf16: bool) -> int {
    if offset < clipped_end(b, offset, utf16) { offset } else { clipped_end(b, offset, utf16) }
}

/// The end of the text that starts at `offset`.
pub(crate) fn find_text_end(buffer: &[u8], offset: usize, utf16: bool) -> (r: usize)
    ensures
        r == text_end(buffer@, offset as int, utf16),
{
    let mut end = offset;
    if utf16 {
        while end < buffer.len() && buffer.len() - end > 1
            invariant
                utf16,
                offset <= end,
                text_end(buffer@, end as int, true) == text_end(buffer@, offset as int, true),
            decreases buffer@.len() - end,
        {
            if buffer[end] == 0 && buffer[end + 1] == 0 {
                assert(buffer@[end as int] == 0 && buffer@[end + 1] == 0);
                assert(text_end(buffer@, end as int, true) == end);
                return end;
            }
            end = end + 2;
        }
    } else {
        while end < buffer.len() && buffer[end] != 0
            invariant
                offset <= end,
                text_end(buffer@, end as int, false) == text_end(buffer@, offset as int, false),
            decreases buffer@.len() - end,
        {
            end = end + 1;
        }
    }
    end
}

/// Read a null-terminated string from a buffer.
pub fn read_null_terminated_string(buffer: &[u8], offset: usize, encoding: TextEncoding) -> (r: NulTerminated)
    ensures
        ({
            let u = encoding is Utf16Le || encoding is Utf16Be;
            let start = clipped_start(buffer@, offset as int, u);
            let end = clipped_end(buffer@, offset as int, u);
            let consumed = end - start + if u { 2int } else { 1int };
            &&& r.value@ == decoded_text(buffer@.subrange(start, end), encoding)
            &&& r.bytes_consumed == if consumed <= usize::MAX { consumed } else { usize::MAX as int }
        }),
{
    let utf16 = encoding.is_utf16();
    let end = find_text_end(buffer, offset, utf16);
    let end = if end < buffer.len() { end } else { buffer.len() };
    let start = if offset < end { offset } else { end };
    let value = decode_text(&buffer[start..end], encoding);
    let terminator: usize = if utf16 { 2 } else { 1 };
    let consumed = end - start;
    let bytes_consumed = if consumed <= usize::MAX - terminator { consumed + terminator } else { usize::MAX };
    NulTerminated { value, bytes_consumed }
}

/// True for the ASCII digits.
pub open spec fn is_digit(b: u8) -> bool {
    0x30 <= b <= 0x39
}

/// True when four ASCII digits start at `i`.
pub open spec fn four_digits_at(b: Seq<u8>, i: int) -> bool {
    0 <= i && i + 4 <= b.len() && is_digit(b[i]) && is_digit(b[i + 1]) && is_digit(b[i + 2]) && is_digit(b[i + 3])
}

/// The number four ASCII digits at `i` spell.
pub open spec fn four_digit_value(b: Seq<u8>, i: int) -> int {
    (b[i] - 0x30) * 1000 + (b[i + 1] - 0x30) * 100 + (b[i + 2] - 0x30) * 10 + (b[i + 3] - 0x30)
}

/// Where the first run of four digits at or after `i` starts.
pub open spec fn first_four_digits(b: Seq<u8>, i: int) -> Option<int>
    decreases b.len() - i,
{
    if i < 0 || i + 4 > b.len() {
        None
    } else if four_digits_at(b, i) {
        Some(i)
    } else {
        first_four_digits(b, i + 1)
    }
}

/// The year a text holds: its first run of four digits, when it lies in
/// 1900..=2100 (a first run outside that range gives none).
pub open spec fn year_of(b: Seq<u8>) -> Option<u32> {
    match first_four_digits(b, 0) {
        Some(i) => if 1900 <= four_digit_value(b, i) <= 2100 { Some(four_digit_value(b, i) as u32) } else { None },
        None => None,
    }
}

proof fn lemma_first_four_digits_from(b: Seq<u8>, i: int, j: int)
    requires
        0 <= j <= i,
        i + 4 <= b.len(),
        four_digits_at(b, i),
        forall|k: int| 0 <= k < i ==> !#[trigger] four_digits_at(b, k),
    ensures
        first_four_digits(b, j) == Some(i),
    decreases i - j,
{
    if j < i {
        lemma_first_four_digits_from(b, i, j + 1);
    }
}

proof fn lemma_no_four_digits_from(b: Seq<u8>, j: int)
    requires
        0 <= j,
        forall|k: int| 0 <= k && k + 4 <= b.len() ==> !#[trigger] four_digits_at(b, k),
    ensures
        first_four_digits(b, j) is None,
    decreases b.len() - j,
{
    if j + 4 <= b.len() {
        lemma_no_four_digits_from(b, j + 1);
    }
}

/// Four ASCII digits in a row from `j`, stated on the bytes.
pub open spec fn digits4(b: Seq<u8>, j: int) -> bool {
    &&& 0 <= j && j + 4 <= b.len()
    &&& 0x30 <= b[j] <= 0x39
    &&& 0x30 <= b[j + 1] <= 0x39
    &&& 0x30 <= b[j + 2] <= 0x39
    &&& 0x30 <= b[j + 3] <= 0x39
}

/// The year of a text is read from its first run of four ASCII digits, as
/// the decimal number they write, when that number lies in 1900..=2100; a
/// text without four digits in a row has no year.
pub proof fn law_year_is_the_first_four_digits(b: Seq<u8>, i: int)
    ensures
        digits4(b, i) && (forall|j: int| 0 <= j < i ==> !#[trigger] digits4(b, j)) ==> ({
            let v = 1000 * (b[i] - 0x30) + 100 * (b[i + 1] - 0x30) + 10 * (b[i + 2] - 0x30) + (b[i + 3] - 0x30);
            year_of(b) == if 1900 <= v <= 2100 { Some(v as u32) } else { None }
        }),
        (forall|j: int| 0 <= j && j + 4 <= b.len() ==> !#[trigger] digits4(b, j)) ==> year_of(b) is None,
{
    assert forall|j: int| #[trigger] four_digits_at(b, j) <==> digits4(b, j) by {}
    if digits4(b, i) && (forall|j: int| 0 <= j < i ==> !#[trigger] digits4(b, j)) {
        lemma_first_four_digits_from(b, i, 0);
    }
    if forall|j: int| 0 <= j && j + 4 <= b.len() ==> !#[trigger] digits4(b, j) {
        lemma_no_four_digits_from(b, 0);
    }
}

/// The first run of four digits at or after `from`, and its value.
pub(crate) fn find_four_digits(b: &[u8], from: usize) -> (r: Option<(usize, u32)>)
    ensures
        r is Some <==> first_four_digits(b@, from as int) is Some,
        r matches Some((i, v)) ==> first_four_digits(b@, from as int) == Some(i as int) && v == four_digit_value(b@, i as int),
{
    let mut i = from;
    while i < b.len() && b.len() - i >= 4
        invariant
            from <= i,
            first_four_digits(b@, i as int) == first_four_digits(b@, from as int),
        decreases b@.len() - i,
    {
        if 0x30 <= b[i] && b[i] <= 0x39 && 0x30 <= b[i + 1] && b[i + 1] <= 0x39 && 0x30 <= b[i + 2] && b[i + 2] <= 0x39
            && 0x30 <= b[i + 3] && b[i + 3] <= 0x39 {
            let v = ((b[i] - 0x30) as u32) * 1000 + ((b[i + 1] - 0x30) as u32) * 100 + ((b[i + 2] - 0x30) as u32) * 10 + ((
            b[i + 3] - 0x30) as u32);
            return Some((i, v));
        }
        i = i + 1;
    }
    None
}

/// A character of a tempo number: a decimal digit or a dot.
pub open spec fn tempo_char(c: char) -> bool {
    ('0' <= c && c <= '9') || c == '.'
}

/// The text from its first tempo character on (empty where it has none).
pub open spec fn from_first_tempo_char(s: Seq<char>) -> Seq<char>
    decreases s.len(),
{
    if s.len() == 0 || tempo_char(s[0]) {
        s
    } else {
        from_first_tempo_char(s.drop_first())
    }
}

/// What has been read of a run of digits and dots: the dots seen, whether
/// any digit was seen, whether any digit is not 0, the whole part (the
/// digits before the first dot) and whether any digit after a dot is not 0.
pub struct TempoScan {
    pub dots: nat,
    pub any_digit: bool,
    pub nonzero: bool,
    pub whole: int,
    pub fraction_nonzero: bool,
}

/// Nothing read yet.
pub open spec fn scan_start() -> TempoScan {
    TempoScan { dots: 0, any_digit: false, nonzero: false, whole: 0, fraction_nonzero: false }
}

/// Reading one more character of the run.
pub open spec fn scan_step(st: TempoScan, c: char) -> TempoScan {
    if c == '.' {
        TempoScan { dots: st.dots + 1, ..st }
    } else {
        let d = c as int - '0' as int;
        TempoScan {
            any_digit: true,
            nonzero: st.nonzero || d != 0,
            whole: if st.dots == 0 { st.whole * 10 + d } else { st.whole },
            fraction_nonzero: st.fraction_nonzero || (st.dots > 0 && d != 0),
            ..st
        }
    }
}

/// Reads the run of tempo characters at the start of `t` on from `st`.
pub open spec fn scan_run(st: TempoScan, t: Seq<char>) -> TempoScan
    decreases t.len(),
{
    if t.len() == 0 || !tempo_char(t[0]) {
        st
    } else {
        scan_run(scan_step(st, t[0]), t.drop_first())
    }
}

/// True when a tempo tag's text holds a tempo: its first run of digits and
/// dots is a decimal number (at most one dot, at least one digit) greater
/// than 0 and at most 500 beats per minute.
pub open spec fn holds_tempo(s: Seq<char>) -> bool {
    let t = from_first_tempo_char(s);
    let st = scan_run(scan_start(), t);
    &&& t.len() > 0
    &&& st.dots <= 1
    &&& st.any_digit
    &&& st.nonzero
    &&& (st.whole < 500 || (st.whole == 500 && !st.fraction_nonzero))
}

/// Decides whether a tempo tag's text holds a tempo ("128", "128.5",
/// "128 BPM"): its first run of digits and dots reads as a number greater
/// than 0 and at most 500.
pub fn text_holds_tempo(value: &str) -> (r: bool)
    ensures
        r == holds_tempo(value@),
{
    let cs = chars_of(value);
    let n = cs.len();
    let mut i: usize = 0;
    assert(cs@.skip(0) =~= cs@);
    while i < n && !(('0' <= cs[i] && cs[i] <= '9') || cs[i] == '.')
        invariant
            cs@ == value@,
            n == cs@.len(),
            i <= n,
            from_first_tempo_char(cs@.skip(i as int)) == from_first_tempo_char(value@),
        decreases n - i,
    {
        assert(cs@.skip(i as int).drop_first() =~= cs@.skip(i + 1));
        i = i + 1;
    }
    if i == n {
        assert(cs@.skip(i as int).len() == 0);
        return false;
    }
    let ghost t = cs@.skip(i as int);
    let ghost mut st = scan_start();
    let mut j: usize = i;
    let mut dots: usize = 0;
    let mut any_digit = false;
    let mut nonzero = false;
    let mut whole: u32 = 0;
    let mut fraction_nonzero = false;
    while j < n && (('0' <= cs[j] && cs[j] <= '9') || cs[j] == '.')
        invariant
            cs@ == value@,
            n == cs@.len(),
            i <= j <= n,
            t == cs@.skip(i as int),
            scan_run(st, cs@.skip(j as int)) == scan_run(scan_start(), t),
            dots == st.dots,
            any_digit == st.any_digit,
            nonzero == st.nonzero,
            st.whole >= 0,
            whole == if st.whole < 1000 { st.whole } else { 1000 },
            fraction_nonzero == st.fraction_nonzero,
            dots <= j - i,
        decreases n - j,
    {
        let c = cs[j];
        assert(cs@.skip(j as int)[0] == c);
        assert(cs@.skip(j as int).drop_first() =~= cs@.skip(j + 1));
        proof {
            st = scan_step(st, c);
        }
        if c == '.' {
            dots = dots + 1;
        } else {
            let d: u32 = (c as u32) - ('0' as u32);
            any_digit = true;
            nonzero = nonzero || d != 0;
            if dots == 0 {
                let w = whole * 10 + d;
                whole = if w < 1000 { w } else { 1000 };
            } else {
                fraction_nonzero = fraction_nonzero || d != 0;
            }
        }
        j = j + 1;
    }
    assert(scan_run(st, cs@.skip(j as int)) == st);
    dots <= 1 && any_digit && nonzero && (whole < 500 || (whole == 500 && !fraction_nonzero))
}

/// Parse a year string to a number. Handles formats like "2024",
/// "2024-01-15", "2024/01/15".
pub fn parse_year(value: &str) -> (r: Option<u32>)
    ensures
        r == year_of(vstd::utf8::encode_utf8(value@)),
{
    let bytes = value.as_bytes();
    assert(bytes@ == vstd::utf8::encode_utf8(value@));
    match find_four_digits(bytes, 0) {
        Some((_, year)) => {
            if 1900 <= year && year <= 2100 {
                Some(year)
            } else {
                None
            }
        },
        None => None,
    }
}

/// The text with its NUL characters removed.
pub open spec fn strip_nul(s: Seq<char>) -> Seq<char>
    decreases s.len(),
{
    if s.len() == 0 {
        s
    } else if s.last() == '\0' {
        strip_nul(s.drop_last())
    } else {
        strip_nul(s.drop_last()).push(s.last())
    }
}

/// The cleaned form of a text: its NUL characters removed and white space
/// trimmed; `None` when nothing is left.
pub open spec fn cleaned(s: Seq<char>) -> Option<Seq<char>> {
    if trimmed(strip_nul(s)).len() == 0 {
        None
    } else {
        Some(trimmed(strip_nul(s)))
    }
}

proof fn lemma_strip_nul(s: Seq<char>)
    ensures
        forall|i: int| 0 <= i < strip_nul(s).len() ==> strip_nul(s)[i] != '\0',
        (forall|i: int| 0 <= i < s.len() ==> s[i] != '\0') ==> strip_nul(s) == s,
    decreases s.len(),
{
    if s.len() > 0 {
        lemma_strip_nul(s.drop_last());
        let p = strip_nul(s.drop_last());
        if s.last() != '\0' {
            assert forall|i: int| 0 <= i < strip_nul(s).len() implies strip_nul(s)[i] != '\0' by {
                if i < p.len() {
                    assert(strip_nul(s)[i] == p[i]);
                }
            }
        }
        if forall|i: int| 0 <= i < s.len() ==> s[i] != '\0' {
            assert(forall|i: int| 0 <= i < s.drop_last().len() ==> s.drop_last()[i] == s[i]);
            assert(s.drop_last().push(s.last()) =~= s);
        }
    }
}

/// Cleaned text holds no NUL and neither starts nor ends with white space,
/// and cleaning it again leaves it as it is.
pub proof fn law_cleaned_text_is_clean(s: Seq<char>)
    ensures
        cleaned(s) matches Some(t) ==> {
            &&& t.len() > 0
            &&& forall|i: int| 0 <= i < t.len() ==> t[i] != '\0'
            &&& !white_space(t[0])
            &&& !white_space(t.last())
            &&& cleaned(t) == Some(t)
        },
{
    let n = strip_nul(s);
    lemma_strip_nul(n);
    lemma_strip_nul(s);
    let ij = lemma_trimmed(n);
    let t = trimmed(n);
    assert forall|i: int| 0 <= i < t.len() implies t[i] != '\0' by {
        assert(t[i] == n[ij.0 + i]);
    }
    lemma_strip_nul(t);
}

/// Clean up text by removing null characters and trimming.
pub fn clean_text(value: Option<String>) -> (r: Option<String>)
    ensures
        r is Some <==> (value matches Some(v) && cleaned(v@) is Some),
        r matches Some(s) ==> Some(s@) == cleaned(value->0@),
{
    let value = match value {
        Some(v) => v,
        None => return None,
    };
    let cs = chars_of(value.as_str());
    let mut kept: Vec<char> = Vec::new();
    let mut i: usize = 0;
    while i < cs.len()
        invariant
            cs@ == value@,
            i <= cs@.len(),
            kept@ == strip_nul(cs@.take(i as int)),
        decreases cs@.len() - i,
    {
        if cs[i] != '\0' {
            kept.push(cs[i]);
        }
        assert(cs@.take(i + 1).drop_last() =~= cs@.take(i as int));
        i = i + 1;
    }
    assert(cs@.take(cs@.len() as int) =~= cs@);
    let joined = string_from_chars(kept.as_slice());
    let cleaned_text = trim(joined.as_str());
    if cleaned_text.as_str().is_empty() {
        None
    } else {
        Some(cleaned_text)
    }
}

/// The ID3v1 genre with the given number.
pub open spec fn id3v1_genre_name(i: usize) -> Option<Seq<char>> {
    match i {
        0 => Some("Blues"@),
        1 => Some("Classic Rock"@),
        2 => Some("Country"@),
        3 => Some("Dance"@),
        4 => Some("Disco"@),
        5 => Some("Funk"@),
        6 => Some("Grunge"@),
        7 => Some("Hip-Hop"@),
        8 => Some("Jazz"@),
        9 => Some("Metal"@),
        10 => Some("New Age"@),
        11 => Some("Oldies"@),
        12 => Some("Other"@),
        13 => Some("Pop"@),
        14 => Some("R&B"@),
        15 => Some("Rap"@),
        16 => Some("Reggae"@),
        17 => Some("Rock"@),
        18 => Some("Techno"@),
        19 => Some("Industrial"@),
        20 => Some("Alternative"@),
        21 => Some("Ska"@),
        22 => Some("Death Metal"@),
        23 => Some("Pranks"@),
        24 => Some("Soundtrack"@),
        25 => Some("Euro-Techno"@),
        26 => Some("Ambient"@),
        27 => Some("Trip-Hop"@),
        28 => Some("Vocal"@),
        29 => Some("Jazz+Funk"@),
        30 => Some("Fusion"@),
        31 => Some("Trance"@),
        32 => Some("Classical"@),
        33 => Some("Instrumental"@),
        34 => Some("Acid"@),
        35 => Some("House"@),
        36 => Some("Game"@),
        37 => Some("Sound Clip"@),
        38 => Some("Gospel"@),
        39 => Some("Noise"@),
        40 => Some("Alternative Rock"@),
        41 => Some("Bass"@),
        42 => Some("Soul"@),
        43 => Some("Punk"@),
        44 => Some("Space"@),
        45 => Some("Meditative"@),
        46 => Some("Instrumental Pop"@),
        47 => Some("Instrumental Rock"@),
        48 => Some("Ethnic"@),
        49 => Some("Gothic"@),
        50 => Some("Darkwave"@),
        51 => Some("Techno-Industrial"@),
        52 => Some("Electronic"@),
        53 => Some("Pop-Folk"@),
        54 => Some("Eurodance"@),
        55 => Some("Dream"@),
        56 => Some("Southern Rock"@),
        57 => Some("Comedy"@),
        58 => Some("Cult"@),
        59 => Some("Gangsta"@),
        60 => Some("Top 40"@),
        61 => Some("Christian Rap"@),
        62 => Some("Pop/Funk"@),
        63 => Some("Jungle"@),
        64 => Some("Native US"@),
        65 => Some("Cabaret"@),
        66 => Some("New Wave"@),
        67 => Some("Psychedelic"@),
        68 => Some("Rave"@),
        69 => Some("Showtunes"@),
        70 => Some("Trailer"@),
        71 => Some("Lo-Fi"@),
        72 => Some("Tribal"@),
        73 => Some("Acid Punk"@),
        74 => Some("Acid Jazz"@),
        75 => Some("Polka"@),
        76 => Some("Retro"@),
        77 => Some("Musical"@),
        78 => Some("Rock & Roll"@),
        79 => Some("Hard Rock"@),
        _ => None,
    }
}

/// ID3v1 genre list: the genre with the given number.
pub fn id3v1_genre(i: usize) -> (r: Option<&'static str>)
    ensures
        r is Some <==> id3v1_genre_name(i) is Some,
        r matches Some(s) ==> Some(s@) == id3v1_genre_name(i),
{
    match i {
        0 => Some("Blues"),
        1 => Some("Classic Rock"),
        2 => Some("Country"),
        3 => Some("Dance"),
        4 => Some("Disco"),
        5 => Some("Funk"),
        6 => Some("Grunge"),
        7 => Some("Hip-Hop"),
        8 => Some("Jazz"),
        9 => Some("Metal"),
        10 => Some("New Age"),
        11 => Some("Oldies"),
        12 => Some("Other"),
        13 => Some("Pop"),
        14 => Some("R&B"),
        15 => Some("Rap"),
        16 => Some("Reggae"),
        17 => Some("Rock"),
        18 => Some("Techno"),
        19 => Some("Industrial"),
        20 => Some("Alternative"),
        21 => Some("Ska"),
        22 => Some("Death Metal"),
        23 => Some("Pranks"),
        24 => Some("Soundtrack"),
        25 => Some("Euro-Techno"),
        26 => Some("Ambient"),
        27 => Some("Trip-Hop"),
        28 => Some("Vocal"),
        29 => Some("Jazz+Funk"),
        30 => Some("Fusion"),
        31 => Some("Trance"),
        32 => Some("Classical"),
        33 => Some("Instrumental"),
        34 => Some("Acid"),
        35 => Some("House"),
        36 => Some("Game"),
        37 => Some("Sound Clip"),
        38 => Some("Gospel"),
        39 => Some("Noise"),
        40 => Some("Alternative Rock"),
        41 => Some("Bass"),
        42 => Some("Soul"),
        43 => Some("Punk"),
        44 => Some("Space"),
        45 => Some("Meditative"),
        46 => Some("Instrumental Pop"),
        47 => Some("Instrumental Rock"),
        48 => Some("Ethnic"),
        49 => Some("Gothic"),
        50 => Some("Darkwave"),
        51 => Some("Techno-Industrial"),
        52 => Some("Electronic"),
        53 => Some("Pop-Folk"),
        54 => Some("Eurodance"),
        55 => Some("Dream"),
        56 => Some("Southern Rock"),
        57 => Some("Comedy"),
        58 => Some("Cult"),
        59 => Some("Gangsta"),
        60 => Some("Top 40"),
        61 => Some("Christian Rap"),
        62 => Some("Pop/Funk"),
        63 => Some("Jungle"),
        64 => Some("Native US"),
        65 => Some("Cabaret"),
        66 => Some("New Wave"),
        67 => Some("Psychedelic"),
        68 => Some("Rave"),
        69 => Some("Showtunes"),
        70 => Some("Trailer"),
        71 => Some("Lo-Fi"),
        72 => Some("Tribal"),
        73 => Some("Acid Punk"),
        74 => Some("Acid Jazz"),
        75 => Some("Polka"),
        76 => Some("Retro"),
        77 => Some("Musical"),
        78 => Some("Rock & Roll"),
        79 => Some("Hard Rock"),
        _ => None,
    }
}

} // verus!
