//! Decompression and tar listing, done by flate2 and tar.
use std::io::Read;
use vstd::prelude::*;
use vstd::utf8::valid_utf8;

verus! {

/// One record of a tar archive, read out of the archive's buffer.
pub struct DenoEntry {
    /// The record's path, where it can be read as UTF-8 text.
    pub path: Option<String>,
    /// The content length that the record's header declares.
    pub size: u64,
    /// The record's content, where it could be read whole.
    pub contents: Option<Vec<u8>>,
}

/// What a record holds, as plain values.
pub struct EntryView {
    pub path: Option<Seq<char>>,
    pub size: u64,
    pub contents: Option<Seq<u8>>,
}

impl View for DenoEntry {
    type V = EntryView;

    open spec fn view(&self) -> EntryView {
        EntryView {
            path: match self.path {
                Some(p) => Some(p@),
                None => None,
            },
            size: self.size,
            contents: match self.contents {
                Some(c) => Some(c@),
                None => None,
            },
        }
    }
}

/// The views of a sequence of records.
pub open spec fn entry_views(s: Seq<DenoEntry>) -> Seq<EntryView> {
    s.map_values(|e: DenoEntry| e@)
}

/// What gzip decompression of `compressed` yields, `None` where the stream
/// is not valid gzip or ends early.
pub uninterp spec fn gunzip_of(compressed: Seq<u8>) -> Option<Seq<u8>>;

/// The records that a tar reader finds in `data`, in order, and whether the
/// reading stopped at a record it could not read.
pub uninterp spec fn tar_listing_of(data: Seq<u8>) -> (Seq<EntryView>, bool);

/// Relies on flate2::read::GzDecoder: reads a gzip stream to its end.
#[verifier::external_body]
pub(crate) fn gunzip(compressed: &[u8]) -> (r: Option<Vec<u8>>)
    ensures
        match r {
            Some(v) => gunzip_of(compressed@) == Some(v@),
            None => gunzip_of(compressed@) is None,
        },
{
    let mut out = Vec::new();
    match flate2::read::GzDecoder::new(compressed).read_to_end(&mut out) {
        Ok(_) => Some(out),
        Err(_) => None,
    }
}

/// Relies on tar::Archive::entries: walks the records of a tar buffer from
/// its start and reads each record's path, declared size and content.
#[verifier::external_body]
pub(crate) fn tar_listing(data: &[u8]) -> (r: (Vec<DenoEntry>, bool))
    ensures
        entry_views(r.0@) == tar_listing_of(data@).0,
        r.1 == tar_listing_of(data@).1,
{
    let mut archive = tar::Archive::new(data);
    let mut records = Vec::new();
    let Ok(entries) = archive.entries() else { return (records, true) };
    for item in entries {
        let Ok(mut entry) = item else { return (records, true) };
        let path = entry.path().ok().and_then(|p| p.to_str().map(String::from));
        let size = entry.size();
        let mut bytes = Vec::new();
        let contents = entry.read_to_end(&mut bytes).ok().map(|_| bytes);
        records.push(DenoEntry { path, size, contents });
    }
    (records, false)
}

/// The text that the UTF-8 bytes `bytes` encode, `None` where they are not
/// well-formed UTF-8.
pub open spec fn utf8_text_of(bytes: Seq<u8>) -> Option<Seq<char>> {
    if valid_utf8(bytes) {
        Some(vstd::utf8::decode_utf8(bytes))
    } else {
        None
    }
}

/// Relies on String::from_utf8: checks and decodes UTF-8 text.
#[verifier::external_body]
pub(crate) fn decode_utf8(bytes: Vec<u8>) -> (r: Option<String>)
    ensures
        match r {
            Some(s) => utf8_text_of(bytes@) == Some(s@),
            None => utf8_text_of(bytes@) is None,
        },
{
    String::from_utf8(bytes).ok()
}

} // verus!
