//! The git-backed source capability: the trait the source managers clone
//! remote repositories through, the real client's destination-path policy,
//! and a test double.

use vstd::prelude::*;

verus! {

/// A capability for materializing a remote repository locally: given its
/// parsed URL, report the local directory the repository contents stand
/// under. The tool's real client shells out to git and therefore lives
/// with the surrounding binary; tests substitute a double.
pub trait GitClient {
    fn clone(&self, url: url::Url) -> String;
}

/// The real client's path policy. Spawning git itself cannot stand in a
/// verified function; the surrounding binary wraps this type and runs git
/// against the destination computed here.
pub struct DefaultGitClient;

/// `s` with every leading '/' removed.
pub open spec fn trim_leading_slashes(s: Seq<char>) -> Seq<char>
    decreases s.len(),
{
    if s.len() > 0 && s[0] == '/' {
        trim_leading_slashes(s.drop_first())
    } else {
        s
    }
}

/// `s` with every '/' replaced by '-': a URL path flattened into a single
/// directory name.
pub open spec fn dashed(s: Seq<char>) -> Seq<char> {
    Seq::new(
        s.len(),
        |i: int|
            if s[i] == '/' {
                '-'
            } else {
                s[i]
            },
    )
}

/// Relies on String::push: appends exactly the given character.
#[verifier::external_body]
fn push_char(s: &mut String, c: char)
    ensures
        final(s)@ == old(s)@.push(c),
{
    s.push(c);
}

impl DefaultGitClient {
    /// Where a cloned repository lands: `<home>/.wicli/<name>`, where
    /// `<name>` is the URL's path with its leading slashes dropped and the
    /// remaining slashes flattened to dashes.
    pub fn clone_destination(home: &str, url_path: &str) -> (r: String)
        ensures
            r@ == home@ + "/.wicli/"@ + dashed(trim_leading_slashes(url_path@)),
    {
        let n = url_path.unicode_len();
        proof {
            assert(url_path@.subrange(0, n as int) =~= url_path@);
        }
        let mut start: usize = 0;
        while start < n && url_path.get_char(start) == '/'
            invariant
                n == url_path@.len(),
                start <= n,
                trim_leading_slashes(url_path@) == trim_leading_slashes(
                    url_path@.subrange(start as int, n as int),
                ),
            decreases n - start,
        {
            proof {
                let rest = url_path@.subrange(start as int, n as int);
                assert(rest[0] == '/');
                assert(rest.drop_first() =~= url_path@.subrange(start + 1, n as int));
            }
            start = start + 1;
        }
        proof {
            let rest = url_path@.subrange(start as int, n as int);
            assert(trim_leading_slashes(rest) == rest);
        }
        let mut r = String::from_str(home);
        r.append("/.wicli/");
        let ghost trimmed = url_path@.subrange(start as int, n as int);
        let ghost prefix = home@ + "/.wicli/"@;
        proof {
            assert(dashed(trimmed).subrange(0, 0) =~= Seq::<char>::empty());
            assert(r@ =~= prefix + dashed(trimmed).subrange(0, 0));
        }
        let mut i: usize = start;
        while i < n
            invariant
                n == url_path@.len(),
                start <= i <= n,
                trimmed == url_path@.subrange(start as int, n as int),
                prefix == home@ + "/.wicli/"@,
                r@ == prefix + dashed(trimmed).subrange(0, i - start),
            decreases n - i,
        {
            let c = url_path.get_char(i);
            let d: char = if c == '/' {
                '-'
            } else {
                c
            };
            push_char(&mut r, d);
            proof {
                assert(trimmed[i - start] == url_path@[i as int]);
                assert(dashed(trimmed).subrange(0, i + 1 - start) =~= dashed(trimmed).subrange(
                    0,
                    i - start,
                ).push(d));
                assert(r@ =~= prefix + dashed(trimmed).subrange(0, i + 1 - start));
            }
            i = i + 1;
        }
        proof {
            assert(dashed(trimmed).subrange(0, n - start) =~= dashed(trimmed));
        }
        r
    }
}

/// A test double for the git capability: reports a fixed example path for
/// every repository, cloning nothing.
pub struct MockGitClient;

/// The path the mock client reports for every clone.
pub const EXAMPLE_GIT_PATH: &'static str = "anything.git";

impl GitClient for MockGitClient {
    fn clone(&self, _url: url::Url) -> String {
        String::from_str(EXAMPLE_GIT_PATH)
    }
}

} // verus!
