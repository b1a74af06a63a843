//! The source-list configuration rules: which paths may be registered as
//! source roots, how duplicates are rejected, and how a source is removed.
//!
//! Loading the backing file, probing the filesystem and writing the file
//! back are the surrounding binary's work; it hands these functions the
//! observed facts (the parsed map, whether a path is a directory) as plain
//! values.

use vstd::prelude::*;

use crate::git::GitClient;
use crate::sources::{AddSourceError, Source, SourceError, SourcePath, url_parses};
use crate::text::{has_suffix, str_eq};

verus! {

/// Why a path was rejected by the configuration.
#[derive(Clone, Copy, Debug, PartialEq, Eq, Structural)]
pub enum ConfigError {
    /// The path does not name an existing directory.
    NotADirectory,
    /// The path is already registered as a source.
    AlreadyExists,
}

impl ConfigError {
    pub fn message(&self) -> (m: &'static str)
        ensures
            *self is NotADirectory ==> m@ == "Source is not a valid directory or does not exist"@,
            *self is AlreadyExists ==> m@ == "Source already exists"@,
    {
        match self {
            ConfigError::NotADirectory => "Source is not a valid directory or does not exist",
            ConfigError::AlreadyExists => "Source already exists",
        }
    }
}

/// The persisted shape of the configuration: the registered source roots.
/// An absent list (a file that held no list) leaves the configuration
/// unusable for registration, as `Config::wf` records.
pub struct ConfigMap {
    pub sources: Option<Vec<String>>,
}

impl Default for ConfigMap {
    fn default() -> (d: Self)
        ensures
            d.sources matches Some(v) && v@.len() == 0,
    {
        ConfigMap { sources: Some(Vec::new()) }
    }
}

/// The in-memory configuration: the source map together with the path of
/// the file it was loaded from and will be saved back to.
pub struct Config {
    pub config_map: ConfigMap,
    pub config_path: String,
}

/// The position of the first occurrence of `p` in `s` (meaningful only
/// when `p` occurs).
pub open spec fn first_index_of(s: Seq<Seq<char>>, p: Seq<char>) -> int
    decreases s.len(),
{
    if s.len() == 0 {
        0
    } else if s[0] == p {
        0
    } else {
        1 + first_index_of(s.drop_first(), p)
    }
}

proof fn lemma_first_index_of(s: Seq<Seq<char>>, p: Seq<char>, i: int)
    requires
        0 <= i < s.len(),
        s[i] == p,
        forall|k: int| 0 <= k < i ==> s[k] != p,
    ensures
        first_index_of(s, p) == i,
    decreases i,
{
    if i > 0 {
        lemma_first_index_of(s.drop_first(), p, i - 1);
    }
}

impl Config {
    /// The configuration can register sources: the map holds a list.
    pub open spec fn wf(&self) -> bool {
        self.config_map.sources is Some
    }

    /// The registered source paths, as text.
    pub open spec fn sources_view(&self) -> Seq<Seq<char>> {
        match self.config_map.sources {
            Some(v) => v.deep_view(),
            None => Seq::empty(),
        }
    }

    /// `p` is already registered.
    pub open spec fn has_source(&self, p: Seq<char>) -> bool {
        exists|i: int| 0 <= i < self.sources_view().len() && self.sources_view()[i] == p
    }

    /// The registration rules: a source must name an existing directory
    /// (`path_is_dir` is the caller's observation of that fact) and must
    /// not already be registered.
    pub fn validate_source(&self, path: &str, path_is_dir: bool) -> (r: Result<(), ConfigError>)
        requires
            self.wf(),
        ensures
            !path_is_dir ==> r == Err::<(), ConfigError>(ConfigError::NotADirectory),
            path_is_dir && self.has_source(path@) ==> r == Err::<(), ConfigError>(
                ConfigError::AlreadyExists,
            ),
            path_is_dir && !self.has_source(path@) ==> r is Ok,
    {
        if !path_is_dir {
            return Err(ConfigError::NotADirectory);
        }
        let v = self.config_map.sources.as_ref().unwrap();
        let n = v.len();
        let mut i: usize = 0;
        while i < n
            invariant
                path_is_dir,
                n == v@.len(),
                i <= n,
                v.deep_view() == self.sources_view(),
                forall|k: int| 0 <= k < i ==> self.sources_view()[k] != path@,
            decreases n - i,
        {
            if str_eq(v[i].as_str(), path) {
                assert(self.sources_view()[i as int] == path@);
                return Err(ConfigError::AlreadyExists);
            }
            i = i + 1;
        }
        Ok(())
    }

    /// Registers a source at the end of the list if the rules accept it;
    /// a rejected path leaves the configuration untouched.
    pub fn add_source(&mut self, path: String, path_is_dir: bool) -> (r: Result<(), ConfigError>)
        requires
            old(self).wf(),
        ensures
            final(self).wf(),
            final(self).config_path == old(self).config_path,
            r is Err ==> *final(self) == *old(self),
            !path_is_dir ==> r == Err::<(), ConfigError>(ConfigError::NotADirectory),
            path_is_dir && old(self).has_source(path@) ==> r == Err::<(), ConfigError>(
                ConfigError::AlreadyExists,
            ),
            path_is_dir && !old(self).has_source(path@) ==> r is Ok && final(self).sources_view()
                == old(self).sources_view().push(path@),
    {
        match self.validate_source(path.as_str(), path_is_dir) {
            Ok(_) => {},
            Err(e) => {
                return Err(e);
            },
        }
        let ghost p = path@;
        let mut v = self.config_map.sources.take().unwrap();
        let ghost dv = v.deep_view();
        v.push(path);
        proof {
            assert(v.deep_view() =~= dv.push(p));
        }
        self.config_map.sources = Some(v);
        Ok(())
    }

    /// Removes the first occurrence of `path` from the source list; a path
    /// that is not registered leaves the configuration untouched. Removal
    /// never fails.
    pub fn delete_source(&mut self, path: &str) -> (r: Result<(), ConfigError>)
        requires
            old(self).wf(),
        ensures
            final(self).wf(),
            final(self).config_path == old(self).config_path,
            r is Ok,
            !old(self).has_source(path@) ==> *final(self) == *old(self),
            old(self).has_source(path@) ==> ({
                let k = first_index_of(old(self).sources_view(), path@);
                &&& 0 <= k < old(self).sources_view().len()
                &&& old(self).sources_view()[k] == path@
                &&& final(self).sources_view() == old(self).sources_view().remove(k)
            }),
    {
        let v = self.config_map.sources.as_ref().unwrap();
        let n = v.len();
        let mut index: Option<usize> = None;
        let mut i: usize = 0;
        while i < n && index.is_none()
            invariant
                n == v@.len(),
                i <= n,
                v.deep_view() == self.sources_view(),
                index is None ==> forall|k: int| 0 <= k < i ==> self.sources_view()[k] != path@,
                index matches Some(j) ==> i == j < n && self.sources_view()[j as int] == path@
                    && (forall|k: int| 0 <= k < j ==> self.sources_view()[k] != path@),
            decreases n - i + (if index is None {
                1int
            } else {
                0int
            }),
        {
            if str_eq(v[i].as_str(), path) {
                index = Some(i);
            } else {
                i = i + 1;
            }
        }
        match index {
            Some(j) => {
                proof {
                    lemma_first_index_of(old(self).sources_view(), path@, j as int);
                }
                let mut v = self.config_map.sources.take().unwrap();
                let ghost dv = v.deep_view();
                v.remove(j);
                proof {
                    assert(v.deep_view() =~= dv.remove(j as int));
                }
                self.config_map.sources = Some(v);
                Ok(())
            },
            None => {
                proof {
                    if old(self).has_source(path@) {
                        let w = choose|k: int|
                            0 <= k < old(self).sources_view().len() && old(
                                self,
                            ).sources_view()[k] == path@;
                        assert(old(self).sources_view()[w] != path@);
                    }
                }
                Ok(())
            },
        }
    }
}

/// What the source managers need of a configuration store: registering and
/// unregistering a source path. The concrete store decides validity; a
/// test double may accept everything.
pub trait Configuration {
    fn add_source(&mut self, path: String) -> Result<(), ConfigError>;

    fn delete_source(&mut self, path: &str) -> Result<(), ConfigError>;
}

/// A test double for the configuration store: records the last source that
/// was registered and accepts everything.
#[derive(Debug)]
pub struct MockConfiguration {
    pub source_added: Option<String>,
}

impl Configuration for MockConfiguration {
    fn add_source(&mut self, path: String) -> Result<(), ConfigError> {
        self.source_added = Some(path);
        Ok(())
    }

    fn delete_source(&mut self, _path: &str) -> Result<(), ConfigError> {
        Ok(())
    }
}

/// The configuration crate's own source manager: registration and removal
/// of sources against a configuration store, through a git capability.
pub struct Sources<GC> {
    pub git_client: GC,
}

impl<GC: GitClient> Sources<GC> {
    /// Registers a path or URL: a `.git` path is parsed and cloned through
    /// the git client, and the clone's destination is registered; any other
    /// path is registered verbatim. A text that fails URL parsing is
    /// rejected here, before any clone.
    pub fn add<C: Configuration>(&self, config: &mut C, path: &str) -> (r: Result<
        (),
        AddSourceError,
    >)
        ensures
            (has_suffix(path@, ".git"@) && !url_parses(path@)) <==> r == Err::<
                (),
                AddSourceError,
            >(AddSourceError::InvalidUrl),
    {
        let source = match Source::from_str(path) {
            Ok(source) => source,
            Err(SourceError::InvalidUrl) => {
                return Err(AddSourceError::InvalidUrl);
            },
        };
        let resolved = match source.path {
            SourcePath::Git(url) => self.git_client.clone(url),
            SourcePath::Local(local) => local,
        };
        match config.add_source(resolved) {
            Ok(_) => Ok(()),
            Err(e) => Err(AddSourceError::Config(e)),
        }
    }

    /// Unregisters a path; the store decides what removal means.
    pub fn remove<C: Configuration>(&self, config: &mut C, path: &str) -> Result<(), ConfigError> {
        config.delete_source(path)
    }
}

} // verus!
