use std::io::Write;

use deno_archive_loader::archive::{ArchiveError, DenoArchive};
use deno_archive_loader::loader::{DenoArchiveLoader, LoadError, SyntaxKind};
use deno_archive_loader::path::{join_path, resolve_relative, split_path, walk_segments};
use deno_archive_loader::upload::{
    is_metadata_content_type, version_metadata_url, versions_url, UploadOptions,
};

fn tar_bytes(records: &[(&str, &[u8])]) -> Vec<u8> {
    let mut builder = tar::Builder::new(Vec::new());
    for (path, data) in records {
        let mut header = tar::Header::new_gnu();
        header.set_size(data.len() as u64);
        header.set_mode(0o644);
        if path.ends_with('/') {
            header.set_entry_type(tar::EntryType::Directory);
        }
        header.set_cksum();
        builder.append_data(&mut header, path, *data).unwrap();
    }
    builder.into_inner().unwrap()
}

fn gzip(bytes: &[u8]) -> Vec<u8> {
    let mut encoder = flate2::write::GzEncoder::new(Vec::new(), flate2::Compression::default());
    encoder.write_all(bytes).unwrap();
    encoder.finish().unwrap()
}

const MOD_TS: &str = "export const answer = 42;\n";
const UTIL_TS: &str = "export function util() {}\n";

fn package() -> Vec<u8> {
    gzip(&tar_bytes(&[
        ("pkg-v1/", b""),
        ("pkg-v1/mod.ts", MOD_TS.as_bytes()),
        ("pkg-v1/lib/util.ts", UTIL_TS.as_bytes()),
    ]))
}

fn open(compressed: &[u8]) -> DenoArchive {
    DenoArchive::from_reader("pkg".to_string(), "v1".to_string(), compressed).unwrap()
}

fn paths(archive: &mut DenoArchive) -> Vec<Option<String>> {
    archive.entries().unwrap().into_iter().map(|e| e.path).collect()
}

#[test]
fn root_directory_of_package() {
    let mut archive = open(&package());
    assert_eq!(archive.root_directory(), Ok(Some("pkg-v1".to_string())));
    assert_eq!(archive.module_name, "pkg");
    assert_eq!(archive.version, "v1");
}

#[test]
fn root_directory_of_empty_archive() {
    let mut archive = open(&gzip(&tar_bytes(&[("pkg-v1/", b"")])));
    assert_eq!(archive.root_directory(), Ok(None));
    let mut bare = open(&gzip(&tar_bytes(&[])));
    assert_eq!(bare.root_directory(), Ok(None));
}

#[test]
fn root_directory_then_entries_match_fresh_archive() {
    let compressed = package();
    let mut archive = open(&compressed);
    assert_eq!(archive.root_directory(), Ok(Some("pkg-v1".to_string())));
    let after = paths(&mut archive);
    let fresh = paths(&mut open(&compressed));
    assert_eq!(after, fresh);
    assert_eq!(
        after,
        vec![Some("pkg-v1/mod.ts".to_string()), Some("pkg-v1/lib/util.ts".to_string())]
    );
}

#[test]
fn entries_skip_first_record_and_read_contents() {
    let mut archive = open(&package());
    let entries = archive.entries().unwrap();
    assert_eq!(entries.len(), 2);
    assert_eq!(entries[0].size, MOD_TS.len() as u64);
    assert_eq!(entries[0].contents.as_deref(), Some(MOD_TS.as_bytes()));
    assert_eq!(entries[1].contents.as_deref(), Some(UTIL_TS.as_bytes()));
}

#[test]
fn second_enumeration_needs_rewind() {
    let mut archive = open(&package());
    assert!(archive.entries().is_ok());
    assert!(matches!(archive.entries(), Err(ArchiveError::NotRewound)));
    archive.rewind();
    assert_eq!(archive.entries().unwrap().len(), 2);
}

#[test]
fn find_entry_matches_exact_path() {
    let mut archive = open(&package());
    let found = archive.find_entry("pkg-v1/lib/util.ts").unwrap().unwrap();
    assert_eq!(found.contents.as_deref(), Some(UTIL_TS.as_bytes()));
    assert!(archive.find_entry("lib/util.ts").unwrap().is_none());
    assert!(archive.find_entry("pkg-v1/").unwrap().is_none());
    assert_eq!(archive.entries().unwrap().len(), 2);
}

#[test]
fn from_reader_rejects_non_gzip() {
    let result = DenoArchive::from_reader("a".into(), "b".into(), b"not gzip at all");
    assert!(matches!(result, Err(ArchiveError::Decompress)));
}

#[test]
fn from_reader_rejects_cut_stream() {
    let compressed = package();
    let cut = &compressed[..compressed.len() / 2];
    let result = DenoArchive::from_reader("a".into(), "b".into(), cut);
    assert!(matches!(result, Err(ArchiveError::Decompress)));
}

#[test]
fn truncated_tar_is_reported() {
    let raw = tar_bytes(&[("pkg-v1/", b""), ("pkg-v1/mod.ts", MOD_TS.as_bytes())]);
    let mut archive = open(&gzip(&raw[..512 + 100]));
    assert!(matches!(archive.entries(), Err(ArchiveError::Truncated)));
    assert!(matches!(archive.root_directory(), Err(ArchiveError::Truncated)));
    assert!(matches!(archive.find_entry("pkg-v1/mod.ts"), Err(ArchiveError::Truncated)));
}

#[test]
fn load_past_truncation_is_decode_error() {
    let raw = tar_bytes(&[
        ("pkg-v1/", b""),
        ("pkg-v1/a.ts", b"a"),
        ("pkg-v1/mod.ts", MOD_TS.as_bytes()),
    ]);
    let mut loader = DenoArchiveLoader::from(open(&gzip(&raw[..3 * 512 + 100])));
    assert_eq!(
        loader.load_source_code("pkg-v1/mod.ts"),
        Err(LoadError::Decode { specifier: "pkg-v1/mod.ts".to_string(), size: None })
    );
    assert_eq!(
        loader.resolve("./mod.ts", "pkg-v1/a.ts"),
        Err(LoadError::Decode { specifier: "./mod.ts".to_string(), size: None })
    );
    assert_eq!(loader.load_source_code("pkg-v1/a.ts").unwrap().1, "a");
    assert_eq!(loader.resolve("./a.ts", "pkg-v1/mod.ts"), Ok("pkg-v1/a.ts".to_string()));
    assert_eq!(loader.cache_len(), 1);
}

#[test]
fn load_caches_text() {
    let mut archive = open(&package());
    assert_eq!(archive.root_directory(), Ok(Some("pkg-v1".to_string())));
    let mut loader = DenoArchiveLoader::from(archive);
    assert_eq!(loader.cache_len(), 0);
    let first = loader.load_source_code("pkg-v1/mod.ts").unwrap();
    assert_eq!(first, (SyntaxKind::TypeScript, MOD_TS.to_string()));
    assert_eq!(loader.cache_len(), 1);
    let second = loader.load_source_code("pkg-v1/mod.ts").unwrap();
    assert_eq!(second, first);
    assert_eq!(loader.cache_len(), 1);
}

#[test]
fn load_missing_not_found() {
    let mut loader = DenoArchiveLoader::from(open(&package()));
    let result = loader.load_source_code("pkg-v1/missing.ts");
    assert_eq!(result, Err(LoadError::NotFound("pkg-v1/missing.ts".to_string())));
    assert_eq!(loader.cache_len(), 0);
    loader.load_source_code("pkg-v1/mod.ts").unwrap();
    assert!(loader.load_source_code("pkg-v1/").is_err());
    assert_eq!(loader.cache_len(), 1);
}

#[test]
fn load_non_utf8_is_decode_error() {
    let bytes: &[u8] = &[0x66, 0xff, 0xfe, 0x67];
    let compressed = gzip(&tar_bytes(&[("pkg-v1/", b""), ("pkg-v1/bin.ts", bytes)]));
    let mut loader = DenoArchiveLoader::from(open(&compressed));
    let result = loader.load_source_code("pkg-v1/bin.ts");
    assert_eq!(
        result,
        Err(LoadError::Decode { specifier: "pkg-v1/bin.ts".to_string(), size: Some(4) })
    );
    assert_eq!(loader.cache_len(), 0);
}

#[test]
fn loads_of_different_specifiers_under_one_lock() {
    let shared = std::sync::Arc::new(std::sync::Mutex::new(DenoArchiveLoader::from(open(
        &package(),
    ))));
    let other = shared.clone();
    let a = shared.lock().unwrap().load_source_code("pkg-v1/mod.ts").unwrap();
    let b = other.lock().unwrap().load_source_code("pkg-v1/lib/util.ts").unwrap();
    assert_eq!(a.1, MOD_TS);
    assert_eq!(b.1, UTIL_TS);
    let again = shared.lock().unwrap().load_source_code("pkg-v1/mod.ts").unwrap();
    assert_eq!(again.1, MOD_TS);
    assert_eq!(shared.lock().unwrap().cache_len(), 2);
}

#[test]
fn resolve_keeps_remote_url() {
    let mut loader = DenoArchiveLoader::from(open(&package()));
    let url = "https://deno.land/std/path/mod.ts";
    assert_eq!(loader.resolve(url, "pkg-v1/mod.ts"), Ok(url.to_string()));
    assert_eq!(loader.cache_len(), 0);
}

#[test]
fn resolve_relative_paths() {
    let mut loader = DenoArchiveLoader::from(open(&package()));
    assert_eq!(
        loader.resolve("./lib/util.ts", "pkg-v1/mod.ts"),
        Ok("pkg-v1/lib/util.ts".to_string())
    );
    assert_eq!(
        loader.resolve("../mod.ts", "pkg-v1/lib/util.ts"),
        Ok("pkg-v1/mod.ts".to_string())
    );
    assert_eq!(
        loader.resolve("./../lib/./util.ts", "pkg-v1/lib/util.ts"),
        Ok("pkg-v1/lib/util.ts".to_string())
    );
}

#[test]
fn resolve_errors() {
    let mut loader = DenoArchiveLoader::from(open(&package()));
    assert_eq!(
        loader.resolve("./nope.ts", "pkg-v1/mod.ts"),
        Err(LoadError::NotFound("./nope.ts".to_string()))
    );
    assert_eq!(
        loader.resolve("../../x.ts", "pkg-v1/mod.ts"),
        Err(LoadError::NotFound("../../x.ts".to_string()))
    );
    assert_eq!(
        loader.resolve("lodash", "pkg-v1/mod.ts"),
        Err(LoadError::UnsupportedSpecifier("lodash".to_string()))
    );
    assert_eq!(
        loader.resolve("http://example.com/a.ts", "pkg-v1/mod.ts"),
        Err(LoadError::UnsupportedSpecifier("http://example.com/a.ts".to_string()))
    );
}

#[test]
fn path_helpers() {
    assert_eq!(split_path("a//b/"), vec!["a", "", "b", ""]);
    assert_eq!(split_path(""), vec![""]);
    assert_eq!(
        walk_segments(vec!["a".to_string()], &split_path("../../b")),
        None
    );
    assert_eq!(join_path(&vec!["a".to_string(), "b".to_string()]), "a/b");
    assert_eq!(resolve_relative("mod.ts", "./x/y.ts"), Some("x/y.ts".to_string()));
    assert_eq!(resolve_relative("a/b/c.ts", "../../d.ts"), Some("d.ts".to_string()));
}

fn options(kind: &str) -> UploadOptions {
    UploadOptions {
        upload_options_type: kind.to_string(),
        upload_options_ref: "v1.2.0".to_string(),
        repository: "owner/repo".to_string(),
    }
}

#[test]
fn tarball_url_for_github() {
    assert_eq!(
        options("github").tarball_url(),
        Some("https://api.github.com/repos/owner/repo/tarball/v1.2.0".to_string())
    );
}

#[test]
fn tarball_url_for_other_uploads() {
    assert_eq!(options("npm").tarball_url(), None);
    assert_eq!(options("GitHub").tarball_url(), None);
}

#[test]
fn registry_urls() {
    assert_eq!(versions_url("channo"), "https://cdn.deno.land/channo/meta/versions.json");
    assert_eq!(
        version_metadata_url("channo", "0.1.1"),
        "https://cdn.deno.land/channo/versions/0.1.1/meta/meta.json"
    );
}

#[test]
fn metadata_content_type() {
    assert!(is_metadata_content_type(Some("application/json")));
    assert!(!is_metadata_content_type(Some("text/plain")));
    assert!(!is_metadata_content_type(Some("application/json; charset=utf-8")));
    assert!(!is_metadata_content_type(None));
}
