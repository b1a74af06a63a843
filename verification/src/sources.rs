//! Registration of search sources: a path ending in `.git` names a remote
//! repository to clone; any other path names a local directory. URL
//! parsing is done by the `url` crate behind a trusted boundary; the
//! classification and the registration flow around it are verified.

use vstd::prelude::*;

use crate::config::{ConfigError, Configuration};
use crate::git::GitClient;
use crate::text::{has_suffix, str_has_suffix};

verus! {

/// Declares url::Url so that a parsed URL can be carried through
/// signatures; the value is opaque here.
#[verifier::external_type_specification]
#[verifier::external_body]
pub struct ExUrl(url::Url);

/// Declares url::ParseError, the error url::Url::parse reports; the value
/// is opaque here and is mapped to this crate's own error.
#[verifier::external_type_specification]
#[verifier::external_body]
pub struct ExUrlParseError(url::ParseError);

/// Whether `url::Url::parse` accepts the given text as an absolute URL.
/// Its verdict depends on the text alone.
pub uninterp spec fn url_parses(s: Seq<char>) -> bool;

/// Relies on url::Url::parse: parses an absolute URL from a string, and
/// returns an error exactly when the string is not one. Success depends on
/// the input alone.
#[verifier::external_body]
fn parse_url(s: &str) -> (r: Result<url::Url, url::ParseError>)
    ensures
        r is Ok <==> url_parses(s@),
{
    url::Url::parse(s)
}

/// Why a path could not be understood as a source.
#[derive(Clone, Copy, Debug, PartialEq, Eq, Structural)]
pub enum SourceError {
    /// The path ends in `.git` but is not a parseable absolute URL.
    InvalidUrl,
}

/// Where a source's contents come from: a remote repository to clone, or a
/// local directory used in place.
pub enum SourcePath {
    Git(url::Url),
    Local(String),
}

/// One declared source, classified.
pub struct Source {
    pub path: SourcePath,
}

impl Source {
    /// Classifies a path: text ending in `.git` must parse as an absolute
    /// URL and names a repository; anything else is taken verbatim as a
    /// local path.
    pub fn from_str(source_path: &str) -> (r: Result<Source, SourceError>)
        ensures
            !has_suffix(source_path@, ".git"@) ==> (r matches Ok(s) && s.path matches
                SourcePath::Local(p) && p@ == source_path@),
            has_suffix(source_path@, ".git"@) && url_parses(source_path@) ==> (r matches Ok(s)
                && s.path is Git),
            has_suffix(source_path@, ".git"@) && !url_parses(source_path@) ==> r == Err::<
                Source,
                SourceError,
            >(SourceError::InvalidUrl),
    {
        if str_has_suffix(source_path, ".git") {
            match parse_url(source_path) {
                Ok(url) => Ok(Source { path: SourcePath::Git(url) }),
                Err(_) => Err(SourceError::InvalidUrl),
            }
        } else {
            Ok(Source { path: SourcePath::Local(String::from_str(source_path)) })
        }
    }
}

/// Why adding a source failed: the path was not understandable, or the
/// configuration rejected it.
#[derive(Clone, Copy, Debug, PartialEq, Eq, Structural)]
pub enum AddSourceError {
    /// The path ends in `.git` but is not a parseable absolute URL.
    InvalidUrl,
    /// The configuration store rejected the resolved path.
    Config(ConfigError),
}

/// Manages the configured sources through a git capability and a
/// configuration store.
pub struct SourceManager<GC> {
    pub git_client: GC,
}

impl<GC: GitClient> SourceManager<GC> {
    /// Registers a path or URL: a `.git` path is parsed and cloned through
    /// the git client, and the clone's destination is registered; any other
    /// path is registered verbatim. What the store then answers is its own;
    /// a text that fails URL parsing is rejected here, before any clone.
    pub fn add<C: Configuration>(&self, config: &mut C, path: &str) -> (r: Result<
        (),
        AddSourceError,
    >)
        ensures
            (has_suffix(path@, ".git"@) && !url_parses(path@)) <==> r == Err::<
                (),
                AddSourceError,
            >(AddSourceError::InvalidUrl),
    {
        let source = match Source::from_str(path) {
            Ok(source) => source,
            Err(SourceError::InvalidUrl) => {
                return Err(AddSourceError::InvalidUrl);
            },
        };
        let resolved = match source.path {
            SourcePath::Git(url) => self.git_client.clone(url),
            SourcePath::Local(local) => local,
        };
        match config.add_source(resolved) {
            Ok(_) => Ok(()),
            Err(e) => Err(AddSourceError::Config(e)),
        }
    }

    /// Unregisters a path; the store decides what removal means.
    pub fn remove<C: Configuration>(&self, config: &mut C, path: &str) -> Result<(), ConfigError> {
        config.delete_source(path)
    }
}

} // verus!
