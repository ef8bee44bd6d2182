//! Serves the sources of an archive by specifier, with a cache of what was
//! already decoded.
use vstd::prelude::*;
use crate::archive::{
    DenoArchive, broken_after_skip, chars_equal, lemma_find_from_bounds, lookup, real_entries,
};
use crate::path::{join_relative, resolve_relative};
use crate::unpack::{decode_utf8, utf8_text_of};

verus! {

/// The source dialect that every loaded file is declared to be in.
#[derive(Debug, Clone, Copy, PartialEq, Eq, Structural)]
pub enum SyntaxKind {
    TypeScript,
}

/// Why a specifier could not be resolved or loaded.
#[derive(Debug, Clone, PartialEq, Eq)]
pub enum LoadError {
    /// No entry of the archive has this path, or a relative path climbs
    /// above the top.
    NotFound(String),
    /// The entry's content could not be read whole or is not UTF-8 text,
    /// or the archive breaks off before an entry with the path was found;
    /// `size` is the entry's declared size, where an entry was reached.
    Decode { specifier: String, size: Option<u64> },
    /// Neither a remote URL nor a relative path.
    UnsupportedSpecifier(String),
}

/// A [`LoadError`] as plain values.
pub enum LoadFailure {
    NotFound(Seq<char>),
    Decode(Seq<char>, Option<u64>),
    UnsupportedSpecifier(Seq<char>),
}

impl View for LoadError {
    type V = LoadFailure;

    open spec fn view(&self) -> LoadFailure {
        match self {
            LoadError::NotFound(s) => LoadFailure::NotFound(s@),
            LoadError::Decode { specifier, size } => LoadFailure::Decode(specifier@, *size),
            LoadError::UnsupportedSpecifier(s) => LoadFailure::UnsupportedSpecifier(s@),
        }
    }
}

/// The text that loading `specifier` from the buffer `data` gives.
pub open spec fn load_spec(data: Seq<u8>, specifier: Seq<char>) -> Result<Seq<char>, LoadFailure> {
    match lookup(data, specifier) {
        Err(_) => Err(LoadFailure::Decode(specifier, None)),
        Ok(None) => Err(LoadFailure::NotFound(specifier)),
        Ok(Some(e)) => match e.contents {
            None => Err(LoadFailure::Decode(specifier, Some(e.size))),
            Some(bytes) => match utf8_text_of(bytes) {
                None => Err(LoadFailure::Decode(specifier, Some(e.size))),
                Some(text) => Ok(text),
            },
        },
    }
}

/// The view of what `load_source_code` returns.
pub open spec fn load_view(r: Result<(SyntaxKind, String), LoadError>) -> Result<Seq<char>, LoadFailure> {
    match r {
        Ok((_, text)) => Ok(text@),
        Err(e) => Err(e@),
    }
}

/// The view of what `resolve` returns.
pub open spec fn resolve_view(r: Result<String, LoadError>) -> Result<Seq<char>, LoadFailure> {
    match r {
        Ok(s) => Ok(s@),
        Err(e) => Err(e@),
    }
}

/// The prefix that marks a remote module URL.
pub open spec fn remote_prefix() -> Seq<char> {
    seq!['h', 't', 't', 'p', 's', ':', '/', '/']
}

/// Whether `s` begins with `prefix`.
pub open spec fn starts_with(s: Seq<char>, prefix: Seq<char>) -> bool {
    prefix.len() <= s.len() && s.subrange(0, prefix.len() as int) == prefix
}

/// Whether `s` is a path relative to its referrer: `./` or `../` in front.
pub open spec fn is_relative(s: Seq<char>) -> bool {
    starts_with(s, seq!['.', '/']) || starts_with(s, seq!['.', '.', '/'])
}

/// What resolving `specifier` against `referrer` in the buffer `data` gives.
pub open spec fn resolve_spec(data: Seq<u8>, specifier: Seq<char>, referrer: Seq<char>) -> Result<
    Seq<char>,
    LoadFailure,
> {
    if starts_with(specifier, remote_prefix()) {
        Ok(specifier)
    } else if is_relative(specifier) {
        match join_relative(referrer, specifier) {
            None => Err(LoadFailure::NotFound(specifier)),
            Some(p) => match lookup(data, p) {
                Ok(Some(_)) => Ok(p),
                Ok(None) => Err(LoadFailure::NotFound(specifier)),
                Err(_) => Err(LoadFailure::Decode(specifier, None)),
            },
        }
    } else {
        Err(LoadFailure::UnsupportedSpecifier(specifier))
    }
}

/// Loads module sources out of one archive, and keeps each decoded text.
pub struct DenoArchiveLoader {
    archive: DenoArchive,
    cache: Vec<(String, String)>,
}

impl DenoArchiveLoader {
    /// The archive's decompressed buffer.
    pub closed spec fn data(&self) -> Seq<u8> {
        self.archive.data()
    }

    /// The cached pairs of specifier and text, in order of insertion.
    pub closed spec fn cache(&self) -> Seq<(Seq<char>, Seq<char>)> {
        self.cache@.map_values(|e: (String, String)| (e.0@, e.1@))
    }

    /// Whether `specifier` has a cached text.
    pub open spec fn is_cached(&self, specifier: Seq<char>) -> bool {
        exists|i: int| 0 <= i < self.cache().len() && #[trigger] self.cache()[i].0 == specifier
    }

    /// Specifiers are cached at most once, and each cached text is what a
    /// fresh load of its specifier gives.
    pub open spec fn wf(&self) -> bool {
        &&& forall|i: int, j: int|
            0 <= i < j < self.cache().len() ==> #[trigger] self.cache()[i].0 != #[trigger] self.cache()[j].0
        &&& forall|i: int|
            0 <= i < self.cache().len() ==> load_spec(self.data(), #[trigger] self.cache()[i].0) == Ok::<
                Seq<char>,
                LoadFailure,
            >(self.cache()[i].1)
    }

    /// Wraps an archive in a loader with an empty cache.
    pub fn from(archive: DenoArchive) -> (r: Self)
        ensures
            r.wf(),
            r.data() == archive.data(),
            r.cache().len() == 0,
    {
        DenoArchiveLoader { archive, cache: Vec::new() }
    }

    /// The number of cached texts.
    pub fn cache_len(&self) -> (r: usize)
        ensures
            r == self.cache().len(),
    {
        self.cache.len()
    }

    /// Where the cache holds `specifier`, its index.
    fn cached_index(&self, specifier: &str) -> (r: Option<usize>)
        ensures
            match r {
                Some(i) => i < self.cache().len() && self.cache()[i as int].0 == specifier@,
                None => !self.is_cached(specifier@),
            },
    {
        let mut i: usize = 0;
        while i < self.cache.len()
            invariant
                i <= self.cache@.len(),
                forall|k: int| 0 <= k < i ==> self.cache()[k].0 != specifier@,
            decreases self.cache.len() - i,
        {
            if chars_equal(self.cache[i].0.as_str(), specifier) {
                return Some(i);
            }
            i = i + 1;
        }
        None
    }

    /// Loads the text of the entry whose path is `specifier`: from the cache
    /// where it is there, else from the archive, caching it on success.
    pub fn load_source_code(&mut self, specifier: &str) -> (r: Result<(SyntaxKind, String), LoadError>)
        requires
            old(self).wf(),
        ensures
            load_step(*old(self), *final(self), specifier@, load_view(r)),
    {
        if let Some(i) = self.cached_index(specifier) {
            return Ok((SyntaxKind::TypeScript, self.cache[i].1.clone()));
        }
        match self.archive.find_entry(specifier) {
            Err(_) => Err(LoadError::Decode { specifier: specifier.to_owned(), size: None }),
            Ok(None) => Err(LoadError::NotFound(specifier.to_owned())),
            Ok(Some(entry)) => {
                let size = Some(entry.size);
                match entry.contents {
                    None => Err(LoadError::Decode { specifier: specifier.to_owned(), size }),
                    Some(bytes) => match decode_utf8(bytes) {
                        None => Err(LoadError::Decode { specifier: specifier.to_owned(), size }),
                        Some(text) => {
                            let ghost before = self.cache();
                            self.cache.push((specifier.to_owned(), text.clone()));
                            assert(self.cache() =~= before.push((specifier@, text@)));
                            Ok((SyntaxKind::TypeScript, text))
                        },
                    },
                }
            },
        }
    }

    /// Resolves `specifier`, as found in the module `referrer`: a remote URL
    /// stays as it is and leaves the loader untouched; a relative path is
    /// joined to the referrer's directory and must name an entry. Errors
    /// name the specifier as given.
    pub fn resolve(&mut self, specifier: &str, referrer: &str) -> (r: Result<String, LoadError>)
        requires
            old(self).wf(),
        ensures
            final(self).wf(),
            final(self).data() == old(self).data(),
            final(self).cache() == old(self).cache(),
            resolve_view(r) == resolve_spec(old(self).data(), specifier@, referrer@),
            starts_with(specifier@, remote_prefix()) ==> resolve_view(r) == Ok::<
                Seq<char>,
                LoadFailure,
            >(specifier@) && *final(self) == *old(self),
    {
        proof {
            reveal_strlit("https://");
            assert("https://"@ =~= remote_prefix());
            reveal_strlit("./");
            reveal_strlit("../");
            assert("./"@ =~= seq!['.', '/']);
            assert("../"@ =~= seq!['.', '.', '/']);
        }
        if has_prefix(specifier, "https://") {
            return Ok(specifier.to_owned());
        }
        if !has_prefix(specifier, "./") && !has_prefix(specifier, "../") {
            return Err(LoadError::UnsupportedSpecifier(specifier.to_owned()));
        }
        match resolve_relative(referrer, specifier) {
            None => Err(LoadError::NotFound(specifier.to_owned())),
            Some(p) => match self.archive.find_entry(p.as_str()) {
                Ok(Some(_)) => Ok(p),
                Ok(None) => Err(LoadError::NotFound(specifier.to_owned())),
                Err(_) => Err(LoadError::Decode { specifier: specifier.to_owned(), size: None }),
            },
        }
    }
}

/// One load of `specifier` takes the loader from `before` to `after` with
/// the result `r`: the text that a fresh load gives, or its error; a text
/// not yet cached is appended to the cache, and nothing else changes it.
pub open spec fn load_step(
    before: DenoArchiveLoader,
    after: DenoArchiveLoader,
    specifier: Seq<char>,
    r: Result<Seq<char>, LoadFailure>,
) -> bool {
    &&& after.wf()
    &&& after.data() == before.data()
    &&& r == load_spec(before.data(), specifier)
    &&& r is Ok && !before.is_cached(specifier) ==> after.cache() == before.cache().push(
        (specifier, r->Ok_0),
    )
    &&& r is Err || before.is_cached(specifier) ==> after.cache() == before.cache()
}

/// A second load of a specifier whose first load succeeded gives the same
/// text and leaves the cache as the first load left it.
pub proof fn lemma_load_is_memoized(
    l0: DenoArchiveLoader,
    l1: DenoArchiveLoader,
    l2: DenoArchiveLoader,
    specifier: Seq<char>,
    r1: Result<Seq<char>, LoadFailure>,
    r2: Result<Seq<char>, LoadFailure>,
)
    requires
        l0.wf(),
        load_step(l0, l1, specifier, r1),
        load_step(l1, l2, specifier, r2),
        r1 is Ok,
    ensures
        r2 == r1,
        l2.cache() == l1.cache(),
        l2.cache().len() == l1.cache().len(),
{
    if l0.is_cached(specifier) {
        let i = choose|i: int| 0 <= i < l0.cache().len() && #[trigger] l0.cache()[i].0 == specifier;
        assert(l1.cache()[i].0 == specifier);
    } else {
        let i = l0.cache().len() as int;
        assert(l1.cache()[i].0 == specifier);
    }
    assert(l1.is_cached(specifier));
}

/// Loading a specifier that no real entry of a wholly readable archive has
/// as its path fails with `NotFound` naming that specifier, and leaves the
/// cache as it was.
pub proof fn lemma_absent_is_not_found(
    l0: DenoArchiveLoader,
    l1: DenoArchiveLoader,
    specifier: Seq<char>,
    r: Result<Seq<char>, LoadFailure>,
)
    requires
        l0.wf(),
        load_step(l0, l1, specifier, r),
        !broken_after_skip(l0.data()),
        forall|i: int|
            0 <= i < real_entries(l0.data()).len() ==> #[trigger] real_entries(l0.data())[i].path
                != Some(specifier),
    ensures
        r == Err::<Seq<char>, LoadFailure>(LoadFailure::NotFound(specifier)),
        l1.cache() == l0.cache(),
{
    lemma_find_from_bounds(real_entries(l0.data()), specifier, 0);
}

/// Whether `s` begins with `prefix`.
fn has_prefix(s: &str, prefix: &str) -> (r: bool)
    ensures
        r == starts_with(s@, prefix@),
{
    let n = prefix.unicode_len();
    if n > s.unicode_len() {
        return false;
    }
    let mut i: usize = 0;
    while i < n
        invariant
            n == prefix@.len() <= s@.len(),
            i <= n,
            forall|k: int| 0 <= k < i ==> s@[k] == prefix@[k],
        decreases n - i,
    {
        if s.get_char(i) != prefix.get_char(i) {
            assert(s@.subrange(0, n as int)[i as int] != prefix@[i as int]);
            return false;
        }
        i = i + 1;
    }
    assert(s@.subrange(0, n as int) =~= prefix@);
    true
}

} // verus!
