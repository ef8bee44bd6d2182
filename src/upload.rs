//! The registry's metadata of a module and where its tarball is found.
use vstd::prelude::*;
use crate::archive::chars_equal;

verus! {

/// The published versions of a module.
#[derive(Debug, Clone)]
pub struct DenoVersionsResponse {
    /// The latest version of the module available.
    pub latest: String,
    /// All of the published versions of the module.
    pub versions: Vec<String>,
}

/// The metadata of one version of a module.
#[derive(Debug, Clone)]
pub struct VersionMetadataResponse {
    pub upload_options: UploadOptions,
}

/// Where a version of a module was uploaded from.
#[derive(Debug, Clone)]
pub struct UploadOptions {
    pub upload_options_type: String,
    pub upload_options_ref: String,
    pub repository: String,
}

/// The GitHub tarball link of `repository` at `git_ref`.
pub open spec fn github_tarball(repository: Seq<char>, git_ref: Seq<char>) -> Seq<char> {
    seq!['h', 't', 't', 'p', 's', ':', '/', '/'] + seq!['a', 'p', 'i', '.', 'g', 'i', 't', 'h', 'u', 'b', '.', 'c', 'o', 'm']
        + seq!['/', 'r', 'e', 'p', 'o', 's', '/'] + repository + seq!['/', 't', 'a', 'r', 'b', 'a', 'l', 'l', '/']
        + git_ref
}

/// The registry's address of the version list of `module_name`.
pub open spec fn versions_url_spec(module_name: Seq<char>) -> Seq<char> {
    cdn_prefix() + module_name + seq!['/', 'm', 'e', 't', 'a', '/'] + seq![
        'v',
        'e',
        'r',
        's',
        'i',
        'o',
        'n',
        's',
        '.',
        'j',
        's',
        'o',
        'n',
    ]
}

/// The registry's address of the metadata of one version of `module_name`.
pub open spec fn version_metadata_url_spec(module_name: Seq<char>, version: Seq<char>) -> Seq<char> {
    cdn_prefix() + module_name + seq!['/', 'v', 'e', 'r', 's', 'i', 'o', 'n', 's', '/'] + version
        + seq!['/', 'm', 'e', 't', 'a', '/', 'm', 'e', 't', 'a', '.', 'j', 's', 'o', 'n']
}

/// The registry's address, up to the module name.
pub open spec fn cdn_prefix() -> Seq<char> {
    seq!['h', 't', 't', 'p', 's', ':', '/', '/'] + seq!['c', 'd', 'n', '.', 'd', 'e', 'n', 'o', '.', 'l', 'a', 'n', 'd', '/']
}

/// The content type under which the registry serves metadata.
pub open spec fn json_content_type() -> Seq<char> {
    seq!['a', 'p', 'p', 'l', 'i', 'c', 'a', 't', 'i', 'o', 'n', '/', 'j', 's', 'o', 'n']
}

/// Where the list of published versions of a module is found.
pub fn versions_url(module_name: &str) -> (r: String)
    ensures
        r@ == versions_url_spec(module_name@),
{
    proof {
        reveal_strlit("https://cdn.deno.land/");
        reveal_strlit("/meta/versions.json");
    }
    let mut url = "https://cdn.deno.land/".to_owned();
    url.append(module_name);
    url.append("/meta/versions.json");
    assert(url@ =~= versions_url_spec(module_name@));
    url
}

/// Where the metadata of one version of a module is found.
pub fn version_metadata_url(module_name: &str, version: &str) -> (r: String)
    ensures
        r@ == version_metadata_url_spec(module_name@, version@),
{
    proof {
        reveal_strlit("https://cdn.deno.land/");
        reveal_strlit("/versions/");
        reveal_strlit("/meta/meta.json");
    }
    let mut url = "https://cdn.deno.land/".to_owned();
    url.append(module_name);
    url.append("/versions/");
    url.append(version);
    url.append("/meta/meta.json");
    assert(url@ =~= version_metadata_url_spec(module_name@, version@));
    url
}

/// Whether a response's content type marks metadata: the registry answers
/// with another type where the module or version does not exist.
pub fn is_metadata_content_type(content_type: Option<&str>) -> (r: bool)
    ensures
        r == (match content_type {
            Some(t) => t@ == json_content_type(),
            None => false,
        }),
{
    proof {
        reveal_strlit("application/json");
        assert("application/json"@ =~= json_content_type());
    }
    match content_type {
        Some(t) => chars_equal(t, "application/json"),
        None => false,
    }
}

impl UploadOptions {
    /// Creates a link to where the library can be downloaded as a tarball:
    /// only uploads from GitHub have one.
    pub fn tarball_url(&self) -> (r: Option<String>)
        ensures
            self.upload_options_type@ == seq!['g', 'i', 't', 'h', 'u', 'b'] ==> r is Some && r->0@
                == github_tarball(self.repository@, self.upload_options_ref@),
            self.upload_options_type@ != seq!['g', 'i', 't', 'h', 'u', 'b'] ==> r is None,
    {
        proof {
            reveal_strlit("github");
            reveal_strlit("https://api.github.com/repos/");
            reveal_strlit("/tarball/");
            assert("github"@ =~= seq!['g', 'i', 't', 'h', 'u', 'b']);
        }
        if chars_equal(self.upload_options_type.as_str(), "github") {
            let mut url = "https://api.github.com/repos/".to_owned();
            url.append(self.repository.as_str());
            url.append("/tarball/");
            url.append(self.upload_options_ref.as_str());
            assert(url@ =~= github_tarball(self.repository@, self.upload_options_ref@));
            Some(url)
        } else {
            None
        }
    }
}

} // verus!
