//! A decompressed module tarball, read record by record.
use vstd::prelude::*;
use crate::unpack::{DenoEntry, EntryView, entry_views, gunzip, gunzip_of, tar_listing, tar_listing_of};

verus! {

/// Why an archive could not be opened or read.
#[derive(Debug, Clone, Copy, PartialEq, Eq, Structural)]
pub enum ArchiveError {
    /// The compressed stream is not valid gzip or ends early.
    Decompress,
    /// The tar data breaks off at a record that cannot be read.
    Truncated,
    /// An enumeration was asked for while the cursor stood past the start.
    NotRewound,
}

/// The files of one version of a module: the decompressed tar buffer and a
/// cursor that is either at the start of the buffer or past it.
pub struct DenoArchive {
    pub module_name: String,
    pub version: String,
    buffer: Vec<u8>,
    at_start: bool,
}

/// The records of `data` that hold content: all but the first, which is the
/// wrapper directory that the packaging step puts in front.
pub open spec fn real_entries(data: Seq<u8>) -> Seq<EntryView> {
    let records = tar_listing_of(data).0;
    if records.len() == 0 {
        records
    } else {
        records.drop_first()
    }
}

/// Whether the reading of `data` breaks off after the skipped first record.
pub open spec fn broken_after_skip(data: Seq<u8>) -> bool {
    tar_listing_of(data).1 && tar_listing_of(data).0.len() >= 1
}

/// What a full enumeration from the start of `data` gives.
pub open spec fn fresh_enumeration(data: Seq<u8>) -> Result<Seq<EntryView>, ArchiveError> {
    if broken_after_skip(data) {
        Err(ArchiveError::Truncated)
    } else {
        Ok(real_entries(data))
    }
}

/// Index of the first `/` in `p` at or after `i`, or the length of `p`.
pub open spec fn slash_from(p: Seq<char>, i: int) -> int
    decreases p.len() - i,
{
    if i < 0 || i >= p.len() {
        p.len() as int
    } else if p[i] == '/' {
        i
    } else {
        slash_from(p, i + 1)
    }
}

/// The leading component of a path: what comes before its first `/`.
pub open spec fn first_component(p: Seq<char>) -> Seq<char> {
    p.subrange(0, slash_from(p, 0))
}

/// The root directory that `data` gives: the leading component of the path
/// of its first real entry.
pub open spec fn root_of(data: Seq<u8>) -> Result<Option<Seq<char>>, ArchiveError> {
    let entries = real_entries(data);
    if entries.len() >= 1 {
        match entries[0].path {
            Some(p) => Ok(Some(first_component(p))),
            None => Ok(None),
        }
    } else if broken_after_skip(data) {
        Err(ArchiveError::Truncated)
    } else {
        Ok(None)
    }
}

/// The view of what `root_directory` returns.
pub open spec fn root_view(r: Result<Option<String>, ArchiveError>) -> Result<Option<Seq<char>>, ArchiveError> {
    match r {
        Ok(Some(s)) => Ok(Some(s@)),
        Ok(None) => Ok(None),
        Err(e) => Err(e),
    }
}

/// The view of what `entries` returns.
pub open spec fn entries_view(r: Result<Vec<DenoEntry>, ArchiveError>) -> Result<Seq<EntryView>, ArchiveError> {
    match r {
        Ok(v) => Ok(entry_views(v@)),
        Err(e) => Err(e),
    }
}

/// Index of the first entry at or after `i` whose path is `p`.
pub open spec fn find_from(entries: Seq<EntryView>, p: Seq<char>, i: int) -> Option<int>
    decreases entries.len() - i,
{
    if i < 0 || i >= entries.len() {
        None
    } else if entries[i].path == Some(p) {
        Some(i)
    } else {
        find_from(entries, p, i + 1)
    }
}

/// The first real entry of `data` whose path is exactly `p`.
pub open spec fn locate(data: Seq<u8>, p: Seq<char>) -> Option<EntryView> {
    match find_from(real_entries(data), p, 0) {
        Some(i) => Some(real_entries(data)[i]),
        None => None,
    }
}

/// What looking up the path `p` in `data` gives: the first real entry with
/// that path; where there is none, `Truncated` if the reading broke off
/// after the skipped record, as the entry may lie past the break.
pub open spec fn lookup(data: Seq<u8>, p: Seq<char>) -> Result<Option<EntryView>, ArchiveError> {
    match locate(data, p) {
        Some(e) => Ok(Some(e)),
        None => if broken_after_skip(data) {
            Err(ArchiveError::Truncated)
        } else {
            Ok(None)
        },
    }
}

/// The view of what `find_entry` returns.
pub open spec fn found_view(r: Result<Option<DenoEntry>, ArchiveError>) -> Result<Option<EntryView>, ArchiveError> {
    match r {
        Ok(Some(e)) => Ok(Some(e@)),
        Ok(None) => Ok(None),
        Err(e) => Err(e),
    }
}

/// Where `find_from` finds an entry, it is the first from `i` on with that path.
pub proof fn lemma_find_from_bounds(entries: Seq<EntryView>, p: Seq<char>, i: int)
    requires
        0 <= i,
    ensures
        match find_from(entries, p, i) {
            Some(j) => i <= j < entries.len() && entries[j].path == Some(p),
            None => forall|k: int| i <= k < entries.len() ==> entries[k].path != Some(p),
        },
    decreases entries.len() - i,
{
    if i < entries.len() && entries[i].path != Some(p) {
        lemma_find_from_bounds(entries, p, i + 1);
    }
}

impl DenoArchive {
    /// The decompressed tar buffer.
    pub closed spec fn data(&self) -> Seq<u8> {
        self.buffer@
    }

    /// The module's name and version.
    pub closed spec fn module_id(&self) -> (Seq<char>, Seq<char>) {
        (self.module_name@, self.version@)
    }

    /// Whether the cursor stands at the start of the buffer.
    pub closed spec fn at_start(&self) -> bool {
        self.at_start
    }

    /// What `entries` gives from the cursor's current place.
    pub open spec fn enumeration(&self) -> Result<Seq<EntryView>, ArchiveError> {
        if self.at_start() {
            fresh_enumeration(self.data())
        } else {
            Err(ArchiveError::NotRewound)
        }
    }

    /// Decompresses a gzip-compressed tarball into an archive whose cursor
    /// is at the start.
    pub fn from_reader(module_name: String, version: String, compressed: &[u8]) -> (r: Result<
        Self,
        ArchiveError,
    >)
        ensures
            match r {
                Ok(a) => gunzip_of(compressed@) == Some(a.data()) && a.at_start()
                    && a.module_id() == (module_name@, version@),
                Err(e) => gunzip_of(compressed@) is None && e == ArchiveError::Decompress,
            },
    {
        match gunzip(compressed) {
            Some(buffer) => Ok(DenoArchive { module_name, version, buffer, at_start: true }),
            None => Err(ArchiveError::Decompress),
        }
    }

    /// Puts the cursor back at the start of the buffer.
    pub fn rewind(&mut self)
        ensures
            final(self).data() == old(self).data(),
            final(self).at_start(),
            final(self).module_id() == old(self).module_id(),
    {
        self.at_start = true;
    }

    /// Lists the real entries from the cursor on, and leaves the cursor
    /// past them.
    pub fn entries(&mut self) -> (r: Result<Vec<DenoEntry>, ArchiveError>)
        ensures
            entries_view(r) == old(self).enumeration(),
            final(self).data() == old(self).data(),
            !final(self).at_start(),
            final(self).module_id() == old(self).module_id(),
    {
        if !self.at_start {
            return Err(ArchiveError::NotRewound);
        }
        self.at_start = false;
        let (mut records, broken) = tar_listing(self.buffer.as_slice());
        if broken && records.len() >= 1 {
            return Err(ArchiveError::Truncated);
        }
        if records.len() >= 1 {
            records.remove(0);
            assert(entry_views(records@) =~= real_entries(self.buffer@));
        }
        Ok(records)
    }

    /// Reads the root directory of the archive, the leading component of
    /// the first real entry's path, and leaves the cursor at the start.
    pub fn root_directory(&mut self) -> (r: Result<Option<String>, ArchiveError>)
        ensures
            root_view(r) == root_of(old(self).data()),
            final(self).data() == old(self).data(),
            final(self).at_start(),
            final(self).module_id() == old(self).module_id(),
    {
        let (records, broken) = tar_listing(self.buffer.as_slice());
        self.at_start = true;
        proof {
            assert(entry_views(records@).len() == records@.len());
        }
        if records.len() >= 2 {
            assert(real_entries(self.buffer@)[0] == records@[1]@);
            match &records[1].path {
                Some(p) => Ok(Some(leading_component(p))),
                None => Ok(None),
            }
        } else if broken && records.len() >= 1 {
            Err(ArchiveError::Truncated)
        } else {
            Ok(None)
        }
    }

    /// Finds the first real entry whose path is exactly `path`, reading from
    /// the start of the buffer; the cursor is left at the start. Where no
    /// entry has the path and the reading broke off, fails with `Truncated`.
    pub fn find_entry(&mut self, path: &str) -> (r: Result<Option<DenoEntry>, ArchiveError>)
        ensures
            found_view(r) == lookup(old(self).data(), path@),
            final(self).data() == old(self).data(),
            final(self).at_start(),
            final(self).module_id() == old(self).module_id(),
    {
        let (mut records, broken) = tar_listing(self.buffer.as_slice());
        self.at_start = true;
        let ghost entries = real_entries(self.buffer@);
        proof {
            assert(entry_views(records@).len() == records@.len());
        }
        if records.len() == 0 {
            return Ok(None);
        }
        let mut i: usize = 1;
        while i < records.len()
            invariant
                1 <= i <= records.len(),
                self.buffer@ == old(self).buffer@,
                self.at_start,
                self.module_name == old(self).module_name,
                self.version == old(self).version,
                entry_views(records@) == tar_listing_of(self.buffer@).0,
                entries == real_entries(self.buffer@),
                records@.len() >= 1 ==> entries.len() == records@.len() - 1,
                find_from(entries, path@, 0) == find_from(entries, path@, i - 1),
            decreases records.len() - i,
        {
            assert(entries[i - 1] == records@[i as int]@);
            if str_equals(&records[i].path, path) {
                let found = records.swap_remove(i);
                return Ok(Some(found));
            }
            i = i + 1;
        }
        proof {
            lemma_find_from_bounds(entries, path@, 0);
        }
        if broken {
            Err(ArchiveError::Truncated)
        } else {
            Ok(None)
        }
    }
}

/// Reading the root directory leaves the cursor at the start: a full
/// enumeration afterwards gives what one on an archive freshly opened from
/// the same compressed bytes gives. Where the first real entry has a
/// readable path, the root directory is that path's leading component.
pub proof fn lemma_root_directory_rewinds(
    compressed: Seq<u8>,
    before: DenoArchive,
    root: Result<Option<String>, ArchiveError>,
    after: DenoArchive,
    fresh: DenoArchive,
)
    requires
        gunzip_of(compressed) == Some(before.data()),
        root_view(root) == root_of(before.data()),
        after.data() == before.data(),
        after.at_start(),
        gunzip_of(compressed) == Some(fresh.data()),
        fresh.at_start(),
    ensures
        after.enumeration() == fresh.enumeration(),
        real_entries(before.data()).len() >= 1 && real_entries(before.data())[0].path is Some
            ==> root_view(root) == Ok::<Option<Seq<char>>, ArchiveError>(
            Some(first_component(real_entries(before.data())[0].path->0)),
        ),
{
}

/// Whether an optional path is present and equal to `p`.
fn str_equals(a: &Option<String>, p: &str) -> (r: bool)
    ensures
        r == (match a {
            Some(s) => s@ == p@,
            None => false,
        }),
{
    match a {
        Some(s) => chars_equal(s.as_str(), p),
        None => false,
    }
}

/// Character-wise equality of two strings.
pub(crate) fn chars_equal(a: &str, b: &str) -> (r: bool)
    ensures
        r == (a@ == b@),
{
    let n = a.unicode_len();
    if n != b.unicode_len() {
        return false;
    }
    let mut i: usize = 0;
    while i < n
        invariant
            n == a@.len() == b@.len(),
            i <= n,
            forall|k: int| 0 <= k < i ==> a@[k] == b@[k],
        decreases n - i,
    {
        if a.get_char(i) != b.get_char(i) {
            return false;
        }
        i = i + 1;
    }
    assert(a@ =~= b@);
    true
}

/// The leading component of a path, as a new string.
fn leading_component(p: &String) -> (r: String)
    ensures
        r@ == first_component(p@),
{
    let s = p.as_str();
    let n = s.unicode_len();
    let mut i: usize = 0;
    while i < n && s.get_char(i) != '/'
        invariant
            n == p@.len(),
            s@ == p@,
            i <= n,
            slash_from(p@, 0) == slash_from(p@, i as int),
        decreases n - i,
    {
        i = i + 1;
    }
    s.substring_char(0, i).to_string()
}

} // verus!
