//! Dispatch to the parser for a file's extension.

use vstd::prelude::*;
use crate::error::Error;
use crate::metadata::parsers::aiff::{aiff_metadata, extract_from_aiff};
use crate::metadata::parsers::flac::{extract_from_flac, flac_metadata};
use crate::metadata::parsers::id3::{extract_from_mp3, meta_view, mp3_metadata};
use crate::metadata::parsers::mp4::{extract_from_mp4, mp4_metadata};
use crate::metadata::types::{ExtractedMetadata, FileReader, MetadataV};
use crate::text::{ascii_lower, ascii_text, chars_of, lowercase, str_eq, string_from_chars, to_lower};

verus! {

/// The parser families this crate knows.
#[derive(Debug, Clone, Copy, PartialEq, Eq, Hash, Structural)]
pub enum MetadataParser {
    Mp3,
    Mp4,
    Flac,
    Aiff,
}

/// An extension lower-cased, without one leading dot.
pub open spec fn normalized_extension(e: Seq<char>) -> Seq<char> {
    let n = lowercase(e);
    if n.len() > 0 && n[0] == '.' { n.skip(1) } else { n }
}

/// An ASCII extension lower-cased letter by letter, without one leading
/// dot: what [`normalized_extension`] is on ASCII text.
pub open spec fn normalized_ascii(e: Seq<char>) -> Seq<char> {
    let n = e.map_values(|c: char| ascii_lower(c));
    if n.len() > 0 && n[0] == '.' { n.skip(1) } else { n }
}

/// The parser for a file extension.
pub open spec fn parser_for(e: Seq<char>) -> Option<MetadataParser> {
    let n = normalized_extension(e);
    if n == "mp3"@ {
        Some(MetadataParser::Mp3)
    } else if n == "m4a"@ || n == "mp4"@ || n == "m4p"@ || n == "m4b"@ || n == "aac"@ {
        Some(MetadataParser::Mp4)
    } else if n == "flac"@ {
        Some(MetadataParser::Flac)
    } else if n == "aiff"@ || n == "aif"@ || n == "aifc"@ {
        Some(MetadataParser::Aiff)
    } else {
        None
    }
}

/// Get the appropriate parser for a file extension.
pub fn get_parser_for_extension(extension: &str) -> (r: Option<MetadataParser>)
    ensures
        r == parser_for(extension@),
        ascii_text(extension@) ==> (r is Some <==> supported_extensions().contains(normalized_ascii(extension@))),
{
    let lower = to_lower(extension);
    proof {
        law_supported_extensions(extension@);
    }
    let cs = chars_of(lower.as_str());
    let normalized = if cs.len() > 0 && cs[0] == '.' {
        string_from_chars(&cs.as_slice()[1..cs.len()])
    } else {
        lower
    };
    assert(normalized@ == normalized_extension(extension@));
    let n = normalized.as_str();
    if str_eq(n, "mp3") {
        Some(MetadataParser::Mp3)
    } else if str_eq(n, "m4a") || str_eq(n, "mp4") || str_eq(n, "m4p") || str_eq(n, "m4b") || str_eq(n, "aac") {
        Some(MetadataParser::Mp4)
    } else if str_eq(n, "flac") {
        Some(MetadataParser::Flac)
    } else if str_eq(n, "aiff") || str_eq(n, "aif") || str_eq(n, "aifc") {
        Some(MetadataParser::Aiff)
    } else {
        None
    }
}

/// The supported file extensions.
pub open spec fn supported_extensions() -> Seq<Seq<char>> {
    seq!["mp3"@, "m4a"@, "mp4"@, "m4p"@, "m4b"@, "aac"@, "flac"@, "aiff"@, "aif"@, "aifc"@]
}

/// Get the list of supported file extensions.
pub fn get_supported_extensions() -> (r: Vec<&'static str>)
    ensures
        r@.map_values(|s: &str| s@) == supported_extensions(),
{
    let r = vec!["mp3", "m4a", "mp4", "m4p", "m4b", "aac", "flac", "aiff", "aif", "aifc"];
    assert(r@.map_values(|s: &str| s@) =~= supported_extensions());
    r
}

/// The extensions that a parser reads are those of the list, compared
/// lower-cased and without one leading dot; each listed extension is ASCII
/// and is its own normalized form, so that each is supported.
pub proof fn law_supported_extensions(x: Seq<char>)
    ensures
        parser_for(x) is Some <==> supported_extensions().contains(normalized_extension(x)),
        forall|i: int| 0 <= i < supported_extensions().len() ==> {
            &&& ascii_text(#[trigger] supported_extensions()[i])
            &&& normalized_ascii(supported_extensions()[i]) == supported_extensions()[i]
        },
{
    let l = supported_extensions();
    let n = normalized_extension(x);
    if parser_for(x) is Some {
        if n == "mp3"@ { assert(l[0] == n); }
        else if n == "m4a"@ { assert(l[1] == n); }
        else if n == "mp4"@ { assert(l[2] == n); }
        else if n == "m4p"@ { assert(l[3] == n); }
        else if n == "m4b"@ { assert(l[4] == n); }
        else if n == "aac"@ { assert(l[5] == n); }
        else if n == "flac"@ { assert(l[6] == n); }
        else if n == "aiff"@ { assert(l[7] == n); }
        else if n == "aif"@ { assert(l[8] == n); }
        else { assert(l[9] == n); }
    }
    reveal_strlit("mp3");
    reveal_strlit("m4a");
    reveal_strlit("mp4");
    reveal_strlit("m4p");
    reveal_strlit("m4b");
    reveal_strlit("aac");
    reveal_strlit("flac");
    reveal_strlit("aiff");
    reveal_strlit("aif");
    reveal_strlit("aifc");
    assert forall|i: int| 0 <= i < l.len() implies ascii_text(#[trigger] l[i]) && normalized_ascii(l[i]) == l[i] by {
        assert(l[i].map_values(|c: char| ascii_lower(c)) =~= l[i]);
    }
}

/// Check if a file extension is supported.
pub fn is_extension_supported(extension: &str) -> (r: bool)
    ensures
        r == parser_for(extension@) is Some,
        ascii_text(extension@) ==> (r <==> supported_extensions().contains(normalized_ascii(extension@))),
{
    get_parser_for_extension(extension).is_some()
}

/// The metadata a parser finds in a file: `Some(None)` when it finds
/// nothing; `None` when the ID3 tag cannot be read.
pub open spec fn parsed_by(p: MetadataParser, c: Seq<u8>) -> Option<Option<MetadataV>> {
    match p {
        MetadataParser::Mp3 => mp3_metadata(c),
        MetadataParser::Mp4 => Some(mp4_metadata(c)),
        MetadataParser::Flac => Some(flac_metadata(c)),
        MetadataParser::Aiff => aiff_metadata(c),
    }
}

/// Run a parser against a reader.
pub fn run_parser<R: FileReader>(parser: MetadataParser, reader: &R) -> (r: Result<Option<ExtractedMetadata>, Error>)
    ensures
        r matches Ok(o) ==> parsed_by(parser, reader.content()) == Some(meta_view(o)),
        reader.reads_succeed() && parsed_by(parser, reader.content()) is Some ==> r is Ok,
{
    match parser {
        MetadataParser::Mp3 => extract_from_mp3(reader),
        MetadataParser::Mp4 => extract_from_mp4(reader),
        MetadataParser::Flac => extract_from_flac(reader),
        MetadataParser::Aiff => extract_from_aiff(reader),
    }
}

/// What extraction finds in a file with extension `e`: the metadata its
/// parser reads, `None` for an unsupported extension, an unreadable tag or
/// nothing found.
pub open spec fn extracted(e: Seq<char>, c: Seq<u8>) -> Option<MetadataV> {
    match parser_for(e) {
        Some(p) => match parsed_by(p, c) {
            Some(Some(m)) => Some(m),
            _ => None,
        },
        None => None,
    }
}

/// Extracted metadata by its view.
pub open spec fn extracted_view(r: Option<ExtractedMetadata>) -> Option<MetadataV> {
    match r {
        Some(m) => Some(m@),
        None => None,
    }
}

/// Extract metadata from an audio file using the parser for its
/// extension. Returns `None` if the format is unsupported, a read fails,
/// or nothing was found.
pub fn extract_metadata<R: FileReader>(reader: &R) -> (r: Option<ExtractedMetadata>)
    ensures
        parser_for(reader.file_extension()) is None ==> r is None,
        r matches Some(m) ==> parser_for(reader.file_extension()) matches Some(p)
            && parsed_by(p, reader.content()) == Some(Some(m@)),
        reader.reads_succeed() ==> extracted_view(r) == extracted(reader.file_extension(), reader.content()),
{
    let parser = match get_parser_for_extension(reader.extension()) {
        Some(p) => p,
        None => return None,
    };
    match run_parser(parser, reader) {
        Ok(Some(result)) => Some(result),
        _ => None,
    }
}

/// Extract full metadata from an audio file using a [`FileReader`].
pub fn extract_full_metadata<R: FileReader>(reader: &R) -> (r: Option<ExtractedMetadata>)
    ensures
        parser_for(reader.file_extension()) is None ==> r is None,
        r matches Some(m) ==> parser_for(reader.file_extension()) matches Some(p)
            && parsed_by(p, reader.content()) == Some(Some(m@)),
        reader.reads_succeed() ==> extracted_view(r) == extracted(reader.file_extension(), reader.content()),
{
    extract_metadata(reader)
}

} // verus!
