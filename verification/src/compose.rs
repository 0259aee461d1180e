//! Bootstrap-script composition and container naming: wrapping the user
//! command in privileged shell preludes, and generating the default container
//! name from the project directory and a local timestamp.

use vstd::prelude::*;

use chrono::{Datelike, Timelike};

use crate::textfmt::{
    concat4, dec_rep, lemma_pad2_len, lemma_pad4_len, pad2_rep, pad4_rep, push_decimal_u32,
    push_pad2, push_pad4, str_views,
};

verus! {

/// The in-container prelude that redirects the agent's configuration paths
/// onto the persistent credential mount, then hands off to the wrapped
/// command.
pub const AGENT_LINK_SCRIPT: &'static str = r#"set -e
mkdir -p /home/dev/.agent-auth/.agent
touch /home/dev/.agent-auth/.agent.json

if [ -e /home/dev/.agent ] && [ ! -L /home/dev/.agent ]; then
  rm -rf /home/dev/.agent
fi
if [ -e /home/dev/.agent.json ] && [ ! -L /home/dev/.agent.json ]; then
  rm -f /home/dev/.agent.json
fi

ln -sfn /home/dev/.agent-auth/.agent /home/dev/.agent
ln -sfn /home/dev/.agent-auth/.agent.json /home/dev/.agent.json
export AGENT_CONFIG_DIR=/home/dev/.agent

exec "$@""#;

/// The in-container prelude that checks the SSH prerequisites, installs the
/// decoded authorized-keys payload, starts the SSH daemon with a key-only
/// configuration, then hands off to the wrapped command.
pub const SSH_BOOTSTRAP_SCRIPT: &'static str = r#"set -e
if ! command -v sshd >/dev/null 2>&1; then
  echo "davy: sshd is not installed in image. Rebuild with the latest rocky.Dockerfile." >&2
  exit 1
fi

if ! command -v ps >/dev/null 2>&1; then
  echo "davy: 'ps' is required for remote IDE SSH helpers (VS Code and derivatives)." >&2
  echo "davy: rebuild with the latest rocky.Dockerfile." >&2
  exit 1
fi

if ! command -v flock >/dev/null 2>&1; then
  echo "davy: 'flock' is required for remote IDE SSH helpers (VS Code and derivatives)." >&2
  echo "davy: rebuild with the latest rocky.Dockerfile." >&2
  exit 1
fi

if [ -z "${DAVY_SSH_AUTH_KEYS_B64:-}" ]; then
  echo "davy: DAVY_SSH_AUTH_KEYS_B64 is missing." >&2
  exit 1
fi

mkdir -p /home/dev/.ssh
chmod 700 /home/dev/.ssh
if ! printf "%s" "$DAVY_SSH_AUTH_KEYS_B64" | base64 -d >/home/dev/.ssh/authorized_keys 2>/dev/null; then
  printf "%s" "$DAVY_SSH_AUTH_KEYS_B64" | base64 --decode >/home/dev/.ssh/authorized_keys
fi
if [ ! -s /home/dev/.ssh/authorized_keys ]; then
  echo "davy: decoded authorized_keys is empty." >&2
  exit 1
fi
chmod 600 /home/dev/.ssh/authorized_keys

sudo mkdir -p /run/sshd
if ! ls /etc/ssh/ssh_host_*_key >/dev/null 2>&1; then
  sudo ssh-keygen -A >/dev/null
fi

sudo /usr/sbin/sshd \
  -o PermitRootLogin=no \
  -o PasswordAuthentication=no \
  -o KbdInteractiveAuthentication=no \
  -o ChallengeResponseAuthentication=no \
  -o PubkeyAuthentication=yes \
  -o AuthorizedKeysFile=.ssh/authorized_keys \
  -o PidFile=/tmp/davy-sshd.pid

exec "$@""#;

/// The command vector that runs `script` under a login shell and passes the
/// wrapped command on as the shell's positional arguments.
pub open spec fn wrapped_views(script: Seq<char>, cmd: Seq<Seq<char>>) -> Seq<Seq<char>> {
    seq!["bash"@, "-lc"@, script, "--"@] + cmd
}

/// Wraps a command vector in one shell prelude: the prelude script runs
/// first and replaces itself with the original command on success.
pub fn wrap_bash_script(script: &str, original_cmd: Vec<String>) -> (r: Vec<String>)
    ensures
        str_views(r@) == wrapped_views(script@, str_views(original_cmd@)),
{
    let ghost orig = original_cmd@;
    let mut r: Vec<String> = Vec::new();
    r.push("bash".to_owned());
    r.push("-lc".to_owned());
    r.push(script.to_owned());
    r.push("--".to_owned());
    let mut rest = original_cmd;
    r.append(&mut rest);
    proof {
        assert(str_views(r@) =~= wrapped_views(script@, str_views(orig)));
    }
    r
}

/// The final in-container command: an empty user command defaults to an
/// interactive shell; the credential-symlink prelude wraps it when the
/// persistent credential volume is enabled; the SSH bootstrap prelude wraps
/// the result when SSH exposure is enabled, so that at container start the
/// SSH bootstrap runs first, then the credential symlinking, then the user
/// command.
pub open spec fn final_command_views(cmd: Seq<Seq<char>>, with_agent_auth: bool, with_ssh: bool)
    -> Seq<Seq<char>> {
    let base = if cmd.len() == 0 {
        seq!["bash"@]
    } else {
        cmd
    };
    let linked = if with_agent_auth {
        wrapped_views(AGENT_LINK_SCRIPT@, base)
    } else {
        base
    };
    if with_ssh {
        wrapped_views(SSH_BOOTSTRAP_SCRIPT@, linked)
    } else {
        linked
    }
}

/// Builds the final in-container command vector from the user's command and
/// the two prelude switches.
pub fn compose_final_command(cmd: Vec<String>, with_agent_auth: bool, with_ssh: bool) -> (r: Vec<
    String,
>)
    ensures
        str_views(r@) == final_command_views(str_views(cmd@), with_agent_auth, with_ssh),
{
    let mut current = cmd;
    if current.len() == 0 {
        current.push("bash".to_owned());
        proof {
            assert(str_views(current@) =~= seq!["bash"@]);
        }
    }
    if with_agent_auth {
        current = wrap_bash_script(AGENT_LINK_SCRIPT, current);
    }
    if with_ssh {
        current = wrap_bash_script(SSH_BOOTSTRAP_SCRIPT, current);
    }
    current
}

/// Drops every trailing path separator.
pub open spec fn strip_trailing_slashes(s: Seq<char>) -> Seq<char>
    decreases s.len(),
{
    if s.len() > 0 && s.last() == '/' {
        strip_trailing_slashes(s.drop_last())
    } else {
        s
    }
}

/// The longest suffix that contains no path separator.
pub open spec fn tail_no_slash(s: Seq<char>) -> Seq<char>
    decreases s.len(),
{
    if s.len() == 0 {
        s
    } else if s.last() == '/' {
        Seq::empty()
    } else {
        tail_no_slash(s.drop_last()).push(s.last())
    }
}

/// The base name of a path: the last component once trailing separators are
/// dropped, or `project` when nothing is left (a bare root, an empty path).
pub open spec fn basename_rep(s: Seq<char>) -> Seq<char> {
    let t = tail_no_slash(strip_trailing_slashes(s));
    if t.len() == 0 {
        "project"@
    } else {
        t
    }
}

proof fn lemma_strip_trailing(s: Seq<char>, e: int)
    requires
        0 <= e <= s.len(),
        forall|k: int| e <= k < s.len() ==> s[k] == '/',
        e > 0 ==> s[e - 1] != '/',
    ensures
        strip_trailing_slashes(s) == s.take(e),
    decreases s.len(),
{
    if s.len() == e {
        assert(s.take(e) =~= s);
    } else {
        assert(s.last() == '/');
        lemma_strip_trailing(s.drop_last(), e);
        assert(s.drop_last().take(e) =~= s.take(e));
    }
}

/// Pins `tail_no_slash` down once the position of the last separator is
/// known: the suffix starting right after it.
pub proof fn lemma_tail_no_slash(t: Seq<char>, b: int)
    requires
        0 <= b <= t.len(),
        forall|k: int| b <= k < t.len() ==> t[k] != '/',
        b > 0 ==> t[b - 1] == '/',
    ensures
        tail_no_slash(t) == t.skip(b),
    decreases t.len(),
{
    if t.len() == 0 {
        assert(t.skip(b) =~= t);
    } else if b == t.len() {
        assert(t.last() == t[b - 1]);
        assert(t.skip(b) =~= Seq::<char>::empty());
    } else {
        assert(t.last() != '/');
        lemma_tail_no_slash(t.drop_last(), b);
        assert(tail_no_slash(t.drop_last()).push(t.last()) =~= t.skip(b));
    }
}

/// The base name of `path`, with `project` standing in for an empty one.
pub fn path_basename(path: &String) -> (r: String)
    ensures
        r@ == basename_rep(path@),
{
    let n = path.as_str().unicode_len();
    let mut end = n;
    while end > 0 && path.as_str().get_char(end - 1) == '/'
        invariant
            0 <= end <= n,
            n == path@.len(),
            forall|k: int| end <= k < n ==> path@[k] == '/',
        decreases end,
    {
        end -= 1;
    }
    proof {
        lemma_strip_trailing(path@, end as int);
    }
    let mut start = end;
    while start > 0 && path.as_str().get_char(start - 1) != '/'
        invariant
            0 <= start <= end <= n,
            n == path@.len(),
            forall|k: int| start <= k < end ==> path@[k] != '/',
        decreases start,
    {
        start -= 1;
    }
    proof {
        assert(forall|k: int|
            start <= k < end ==> path@.take(end as int)[k] == path@[k]);
        lemma_tail_no_slash(path@.take(end as int), start as int);
    }
    if start == end {
        proof {
            assert(path@.take(end as int).skip(start as int) =~= Seq::<char>::empty());
        }
        "project".to_owned()
    } else {
        let r = path.as_str().substring_char(start, end).to_owned();
        proof {
            assert(path@.take(end as int).skip(start as int)
                =~= path@.subrange(start as int, end as int));
        }
        r
    }
}

/// A local timestamp rendered as `YYYYMMDD-HHMMSS`: the year zero-padded to
/// four digits (years outside that range keep their full decimal form, with
/// a sign when negative), every other component zero-padded to two.
pub open spec fn timestamp_rep(y: int, mo: nat, d: nat, h: nat, mi: nat, s: nat) -> Seq<char> {
    year_rep(y) + pad2_rep(mo) + pad2_rep(d) + seq!['-'] + pad2_rep(h) + pad2_rep(mi) + pad2_rep(s)
}

/// The rendered year component.
pub open spec fn year_rep(y: int) -> Seq<char> {
    if 0 <= y <= 9999 {
        pad4_rep(y as nat)
    } else if y < 0 {
        seq!['-'] + dec_rep((-y) as nat)
    } else {
        dec_rep(y as nat)
    }
}

fn push_year(out: &mut String, y: i32)
    ensures
        final(out)@ == old(out)@ + year_rep(y as int),
{
    if 0 <= y && y <= 9999 {
        push_pad4(out, y as u32);
    } else if y < 0 {
        out.append("-");
        let wide: i64 = -(y as i64);
        let mag: u32 = wide as u32;
        push_decimal_u32(out, mag);
        proof {
            reveal_strlit("-");
            assert("-"@ =~= seq!['-']);
            assert((old(out)@ + "-"@) + dec_rep(mag as nat)
                =~= old(out)@ + (seq!['-'] + dec_rep(mag as nat)));
        }
    } else {
        push_decimal_u32(out, y as u32);
    }
}

/// Renders the timestamp component of a generated container name.
pub fn format_timestamp(y: i32, mo: u32, d: u32, h: u32, mi: u32, s: u32) -> (r: String)
    requires
        mo < 100,
        d < 100,
        h < 100,
        mi < 100,
        s < 100,
    ensures
        r@ == timestamp_rep(y as int, mo as nat, d as nat, h as nat, mi as nat, s as nat),
{
    let mut out = String::new();
    push_year(&mut out, y);
    push_pad2(&mut out, mo);
    push_pad2(&mut out, d);
    out.append("-");
    push_pad2(&mut out, h);
    push_pad2(&mut out, mi);
    push_pad2(&mut out, s);
    proof {
        reveal_strlit("-");
        assert("-"@ =~= seq!['-']);
        assert(out@ =~= timestamp_rep(y as int, mo as nat, d as nat, h as nat, mi as nat, s as nat));
    }
    out
}

/// For an in-range date the timestamp is always fifteen characters:
/// eight digits, a dash, six digits.
pub proof fn lemma_timestamp_len(y: int, mo: nat, d: nat, h: nat, mi: nat, s: nat)
    requires
        0 <= y <= 9999,
        mo < 100,
        d < 100,
        h < 100,
        mi < 100,
        s < 100,
    ensures
        timestamp_rep(y, mo, d, h, mi, s).len() == 15,
{
    lemma_pad4_len(y as nat);
    lemma_pad2_len(mo);
    lemma_pad2_len(d);
    lemma_pad2_len(h);
    lemma_pad2_len(mi);
    lemma_pad2_len(s);
}

/// A generated container name: the fixed prefix, the project base name, a
/// dash, then the timestamp.
pub open spec fn container_name_rep(
    project_dir: Seq<char>,
    y: int,
    mo: nat,
    d: nat,
    h: nat,
    mi: nat,
    s: nat,
) -> Seq<char> {
    "davy-"@ + basename_rep(project_dir) + seq!['-'] + timestamp_rep(y, mo, d, h, mi, s)
}

/// The default container name carries the project base name and a local
/// timestamp of exactly fifteen characters, for any in-range date.
pub proof fn lemma_container_name_shape(
    project_dir: Seq<char>,
    y: int,
    mo: nat,
    d: nat,
    h: nat,
    mi: nat,
    s: nat,
)
    requires
        0 <= y <= 9999,
        mo < 100,
        d < 100,
        h < 100,
        mi < 100,
        s < 100,
    ensures
        container_name_rep(project_dir, y, mo, d, h, mi, s).len() == "davy-"@.len()
            + basename_rep(project_dir).len() + 16,
        container_name_rep(project_dir, y, mo, d, h, mi, s).take(
            ("davy-"@.len() + basename_rep(project_dir).len() + 1) as int,
        ) == "davy-"@ + basename_rep(project_dir) + seq!['-'],
{
    lemma_timestamp_len(y, mo, d, h, mi, s);
    assert(container_name_rep(project_dir, y, mo, d, h, mi, s).take(
        ("davy-"@.len() + basename_rep(project_dir).len() + 1) as int,
    ) =~= "davy-"@ + basename_rep(project_dir) + seq!['-']);
}

/// Builds the container name for the given project directory and date parts.
pub fn container_name_at(project_dir: &String, y: i32, mo: u32, d: u32, h: u32, mi: u32, s: u32)
    -> (r: String)
    requires
        mo < 100,
        d < 100,
        h < 100,
        mi < 100,
        s < 100,
    ensures
        r@ == container_name_rep(
            project_dir@,
            y as int,
            mo as nat,
            d as nat,
            h as nat,
            mi as nat,
            s as nat,
        ),
{
    let base = path_basename(project_dir);
    let ts = format_timestamp(y, mo, d, h, mi, s);
    let r = concat4("davy-", base.as_str(), "-", ts.as_str());
    proof {
        reveal_strlit("-");
        assert("-"@ =~= seq!['-']);
        assert(r@ =~= container_name_rep(
            project_dir@,
            y as int,
            mo as nat,
            d as nat,
            h as nat,
            mi as nat,
            s as nat,
        ));
    }
    r
}

/// Relies on chrono's `Local::now` and the `Datelike` / `Timelike` accessors
/// of the returned date-time: month runs 1 to 12, day 1 to 31, hour 0 to 23,
/// minute and second 0 to 59; the year carries no promised bound.
#[verifier::external_body]
fn local_now_parts() -> (r: (i32, u32, u32, u32, u32, u32))
    ensures
        1 <= r.1 <= 12,
        1 <= r.2 <= 31,
        r.3 <= 23,
        r.4 <= 59,
        r.5 <= 59,
{
    let now = chrono::Local::now();
    (now.year(), now.month(), now.day(), now.hour(), now.minute(), now.second())
}

/// The default container name for a project directory: `davy-`, the
/// directory's base name, a dash, then the current local timestamp. The date
/// comes from the clock, which promises component ranges but no year bound,
/// so this pins the prefix, a length lower bound, and that the whole name is
/// a generated name for some in-range date; `container_name_at` carries the
/// exact shape for given date parts, and `lemma_container_name_shape` the
/// fifteen-character timestamp for any four-digit year.
pub fn default_container_name(project_dir: &String) -> (r: String)
    ensures
        r@.len() > "davy-"@.len() + basename_rep(project_dir@).len() + 1,
        r@.take(("davy-"@.len() + basename_rep(project_dir@).len() + 1) as int)
            == "davy-"@ + basename_rep(project_dir@) + seq!['-'],
        exists|p: (i32, u32, u32, u32, u32, u32)|
            {
                &&& 1 <= p.1 <= 12
                &&& 1 <= p.2 <= 31
                &&& p.3 <= 23
                &&& p.4 <= 59
                &&& p.5 <= 59
                &&& r@ == #[trigger] container_name_rep(
                    project_dir@,
                    p.0 as int,
                    p.1 as nat,
                    p.2 as nat,
                    p.3 as nat,
                    p.4 as nat,
                    p.5 as nat,
                )
            },
{
    let (y, mo, d, h, mi, s) = local_now_parts();
    let r = container_name_at(project_dir, y, mo, d, h, mi, s);
    proof {
        let ts = timestamp_rep(y as int, mo as nat, d as nat, h as nat, mi as nat, s as nat);
        lemma_pad2_len(s as nat);
        assert(ts.len() >= 2);
        assert(r@.take(("davy-"@.len() + basename_rep(project_dir@).len() + 1) as int)
            =~= "davy-"@ + basename_rep(project_dir@) + seq!['-']);
        let p = (y, mo, d, h, mi, s);
        assert(r@ == container_name_rep(
            project_dir@,
            p.0 as int,
            p.1 as nat,
            p.2 as nat,
            p.3 as nat,
            p.4 as nat,
            p.5 as nat,
        ));
    }
    r
}

} // verus!
