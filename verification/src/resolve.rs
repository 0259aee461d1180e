//! Filesystem resolution: locating the project directory, the
//! build-definition file and the home directory. All stat results enter as
//! plain values; the precedence and error reporting are decided here.

use vstd::prelude::*;

use users::os::unix::UserExt;

use crate::errors::LaunchError;
use crate::textfmt::{concat2, concat4, str_views};

verus! {

/// What the host filesystem shows at a path, after following symlinks.
#[derive(PartialEq, Eq, Structural, Clone, Copy, Debug)]
pub enum FsNode {
    /// A directory.
    Directory,
    /// A regular file.
    RegularFile,
    /// Something else that exists (a socket, a device).
    OtherKind,
    /// Nothing exists at the path.
    Missing,
}

/// The project directory to mount: the explicit choice, or the current
/// working directory when none was given.
pub fn project_dir_choice(given: Option<String>, cwd: String) -> (r: String)
    ensures
        r@ == match given {
            Some(p) => p@,
            None => cwd@,
        },
{
    match given {
        Some(p) => p,
        None => cwd,
    }
}

/// Accepts the project directory only when the host shows a directory there.
pub fn check_project_dir(path: String, node: FsNode) -> (r: Result<String, LaunchError>)
    ensures
        node == FsNode::Directory ==> (r matches Ok(p) && p@ == path@),
        node != FsNode::Directory ==> (r matches Err(e) && e.is_configuration_with(
            "project dir not found: "@ + path@,
        )),
{
    if node == FsNode::Directory {
        Ok(path)
    } else {
        Err(LaunchError::Configuration(concat2("project dir not found: ", path.as_str())))
    }
}

/// The build-definition candidates, in the order they are consulted: the
/// explicit path alone when one is given; otherwise the conventional pair in
/// the current directory when local resolution is requested, or in the
/// configuration directory when it is not.
pub fn dockerfile_candidates(explicit: Option<String>, local: bool, cwd: &String, home: &String)
    -> (r: Vec<String>)
    ensures
        match explicit {
            Some(p) => str_views(r@) == seq![p@],
            None => {
                if local {
                    str_views(r@) == seq![
                        cwd@ + "/rocky.Dockerfile"@,
                        cwd@ + "/debian.Dockerfile"@,
                    ]
                } else {
                    str_views(r@) == seq![
                        home@ + "/.config/davy/rocky.Dockerfile"@,
                        home@ + "/.config/davy/debian.Dockerfile"@,
                    ]
                }
            },
        },
{
    let mut r: Vec<String> = Vec::new();
    match explicit {
        Some(p) => {
            r.push(p);
            proof {
                assert(str_views(r@) =~= seq![r@[0]@]);
            }
        },
        None => {
            if local {
                r.push(concat2(cwd.as_str(), "/rocky.Dockerfile"));
                r.push(concat2(cwd.as_str(), "/debian.Dockerfile"));
                proof {
                    assert(str_views(r@) =~= seq![
                        cwd@ + "/rocky.Dockerfile"@,
                        cwd@ + "/debian.Dockerfile"@,
                    ]);
                }
            } else {
                r.push(concat2(home.as_str(), "/.config/davy/rocky.Dockerfile"));
                r.push(concat2(home.as_str(), "/.config/davy/debian.Dockerfile"));
                proof {
                    assert(str_views(r@) =~= seq![
                        home@ + "/.config/davy/rocky.Dockerfile"@,
                        home@ + "/.config/davy/debian.Dockerfile"@,
                    ]);
                }
            }
        },
    }
    r
}

/// The message reported when no candidate exists, naming every path checked.
pub open spec fn no_dockerfile_msg(local: bool, first: Seq<char>, second: Seq<char>) -> Seq<char> {
    if local {
        "no Dockerfile found in current directory (looked for "@ + first + " and "@ + second
            + ")"@
    } else {
        "no Dockerfile found (looked for "@ + first + " and "@ + second
            + "); use --dockerfile, --local-dockerfile, or DAVY_DOCKERFILE"@
    }
}

/// Resolves the build-definition file with strict precedence: an explicit
/// path is returned as given (its type is checked afterwards); otherwise the
/// first candidate that exists wins; when none exists, the error names every
/// path that was checked.
pub fn resolve_dockerfile(
    explicit_given: bool,
    local: bool,
    candidates: Vec<String>,
    exists: &Vec<bool>,
) -> (r: Result<String, LaunchError>)
    requires
        candidates@.len() == exists@.len(),
        explicit_given ==> candidates@.len() == 1,
        !explicit_given ==> candidates@.len() == 2,
    ensures
        explicit_given ==> (r matches Ok(p) && p@ == candidates@[0]@),
        !explicit_given && exists@[0] ==> (r matches Ok(p) && p@ == candidates@[0]@),
        !explicit_given && !exists@[0] && exists@[1] ==> (r matches Ok(p) && p@
            == candidates@[1]@),
        !explicit_given && !exists@[0] && !exists@[1] ==> (r matches Err(e)
            && e.is_configuration_with(
            no_dockerfile_msg(local, candidates@[0]@, candidates@[1]@),
        )),
{
    let mut c = candidates;
    if explicit_given {
        let p = c.remove(0);
        return Ok(p);
    }
    if exists[0] {
        let p = c.remove(0);
        return Ok(p);
    }
    if exists[1] {
        let p = c.remove(1);
        return Ok(p);
    }
    let mut msg = if local {
        concat4(
            "no Dockerfile found in current directory (looked for ",
            c[0].as_str(),
            " and ",
            c[1].as_str(),
        )
    } else {
        concat4("no Dockerfile found (looked for ", c[0].as_str(), " and ", c[1].as_str())
    };
    if local {
        msg.append(")");
    } else {
        msg.append("); use --dockerfile, --local-dockerfile, or DAVY_DOCKERFILE");
    }
    Err(LaunchError::Configuration(msg))
}

/// Accepts the build definition only when the host shows a regular file.
pub fn check_dockerfile(path: String, node: FsNode) -> (r: Result<String, LaunchError>)
    ensures
        node == FsNode::RegularFile ==> (r matches Ok(p) && p@ == path@),
        node != FsNode::RegularFile ==> (r matches Err(e) && e.is_configuration_with(
            "Dockerfile not found at: "@ + path@,
        )),
{
    if node == FsNode::RegularFile {
        Ok(path)
    } else {
        Err(LaunchError::Configuration(concat2("Dockerfile not found at: ", path.as_str())))
    }
}

/// The directory that contains a path: everything before the last separator,
/// the root for a path directly under it, and the current directory for a
/// bare file name.
pub open spec fn context_dir_rep(s: Seq<char>) -> Seq<char> {
    let tail = crate::compose::tail_no_slash(s);
    if tail.len() == s.len() {
        "."@
    } else if s.len() - tail.len() - 1 == 0 {
        "/"@
    } else {
        s.take(s.len() - tail.len() - 1)
    }
}

/// The build-context directory of the resolved build-definition file.
pub fn context_dir(path: &String) -> (r: String)
    ensures
        r@ == context_dir_rep(path@),
{
    let n = path.as_str().unicode_len();
    let mut k = n;
    while k > 0 && path.as_str().get_char(k - 1) != '/'
        invariant
            0 <= k <= n,
            n == path@.len(),
            forall|i: int| k <= i < n ==> path@[i] != '/',
        decreases k,
    {
        k -= 1;
    }
    proof {
        crate::compose::lemma_tail_no_slash(path@, k as int);
        assert(crate::compose::tail_no_slash(path@).len() == n - k);
    }
    if k == 0 {
        ".".to_owned()
    } else if k == 1 {
        "/".to_owned()
    } else {
        let r = path.as_str().substring_char(0, k - 1).to_owned();
        proof {
            assert(path@.subrange(0, k - 1) =~= path@.take(k - 1));
        }
        r
    }
}

/// Relies on users' `get_user_by_uid` and `home_dir`: looks the user up in
/// the system account database and hands back their home directory, when the
/// account exists. The result depends on the machine, so nothing more is
/// promised.
#[verifier::external_body]
fn home_dir_of_user(uid: u32) -> Option<String> {
    users::get_user_by_uid(uid).map(|u| u.home_dir().to_string_lossy().into_owned())
}

/// Maps the account-database lookup onto the resolution result: a found home
/// directory is taken as it is, an absent account is the named error.
pub fn home_fallback(lookup: Option<String>) -> (r: Result<String, LaunchError>)
    ensures
        lookup matches Some(p) ==> (r matches Ok(h) && h@ == p@),
        lookup is None ==> (r matches Err(e) && e.is_configuration_with(
            "HOME is not set and current user home directory could not be resolved"@,
        )),
{
    match lookup {
        Some(p) => Ok(p),
        None => Err(
            LaunchError::Configuration(
                "HOME is not set and current user home directory could not be resolved".to_owned(),
            ),
        ),
    }
}

/// The home directory: the `HOME` environment value when set, else the
/// current account's home directory from the system database, else a
/// configuration error. What the lookup can return depends on the machine;
/// `home_fallback` states the mapping for each of its values.
pub fn resolve_home(env_home: Option<String>) -> (r: Result<String, LaunchError>)
    ensures
        env_home matches Some(h) ==> (r matches Ok(p) && p@ == h@),
        env_home is None ==> (r is Ok || (r matches Err(e) && e.is_configuration_with(
            "HOME is not set and current user home directory could not be resolved"@,
        ))),
{
    match env_home {
        Some(h) => Ok(h),
        None => home_fallback(home_dir_of_user(crate::settings::current_uid())),
    }
}

} // verus!
