//! Records of the notebook tooling, and the decisions it takes: ranking a
//! Python installation by its path, picking a port for a notebook server,
//! collecting search directories.

use vstd::prelude::*;
use crate::ids::{decimal_text, to_decimal};
use crate::text::{contains_text, has_text, same_text};

verus! {

/// How an installation step ended, or that it printed something.
#[derive(PartialEq, Eq, Structural, Clone, Copy, Debug)]
pub enum JupyterInstallStatus {
    Success,
    Error,
    Output,
}

/// A progress message of an installation.
#[derive(Clone, Debug)]
pub struct JupyterInstallOutput {
    pub status: JupyterInstallStatus,
    pub output: String,
}

/// A notebook template that a project can be started from.
#[derive(Clone, Debug)]
pub struct JupyterTemplate {
    pub name: String,
    pub description: String,
    pub template_path: String,
    pub repository: String,
    pub category: String,
}

/// A Python installation found on the machine.
#[derive(Clone, Debug)]
pub struct PythonInstallation {
    /// Path to the Python executable.
    pub path: String,
    /// Version, such as `3.11.5`.
    pub version: String,
    /// Kind of installation, such as `anaconda` or `system`.
    pub source: String,
    /// Rank of the kind: lower is preferred.
    pub priority: u8,
    /// Whether the user added it by hand.
    pub is_custom: bool,
}

/// A running notebook server, as shown to the user.
#[derive(Clone, Debug)]
pub struct JupyterSessionInfo {
    pub id: String,
    pub url: String,
    pub port: u16,
}

/// A running notebook server, with the handle of its process while this
/// program holds it.
pub struct JupyterSession<C> {
    pub id: String,
    pub url: String,
    pub port: u16,
    pub child: Option<C>,
}

impl<C> JupyterSession<C> {
    /// A session whose process handle is held elsewhere.
    pub fn new(id: String, url: String, port: u16) -> (r: JupyterSession<C>)
        ensures
            r.id == id,
            r.url == url,
            r.port == port,
            r.child.is_none(),
    {
        JupyterSession { id, url, port, child: None }
    }

    /// What the user is shown of the session.
    pub fn info(&self) -> (r: JupyterSessionInfo)
        ensures
            r.id@ == self.id@,
            r.url@ == self.url@,
            r.port == self.port,
    {
        JupyterSessionInfo { id: self.id.clone(), url: self.url.clone(), port: self.port }
    }
}

/// The running notebook servers, in the order they started.
pub struct JupyterSessions<C> {
    pub sessions: Vec<JupyterSession<C>>,
}

/// A session's identifier where `by_id`, else its address.
pub open spec fn session_key<C>(x: JupyterSession<C>, by_id: bool) -> Seq<char> {
    if by_id {
        x.id@
    } else {
        x.url@
    }
}

/// Whether `k` is the index of the first session of `v` whose key (see
/// `session_key`) is `s`.
pub open spec fn is_first_session<C>(v: Seq<JupyterSession<C>>, by_id: bool, s: Seq<char>, k: int) -> bool {
    &&& 0 <= k < v.len()
    &&& session_key(v[k], by_id) == s
    &&& forall|j: int| 0 <= j < k ==> #[trigger] session_key(v[j], by_id) != s
}

/// The index of the first session of `v` whose identifier (or address) is `s`.
pub open spec fn find_session_spec<C>(v: Seq<JupyterSession<C>>, by_id: bool, s: Seq<char>) -> Option<int> {
    if exists|k: int| is_first_session(v, by_id, s, k) {
        Some(choose|k: int| is_first_session(v, by_id, s, k))
    } else {
        None
    }
}

impl<C> JupyterSessions<C> {
    /// No sessions.
    pub fn new() -> (r: JupyterSessions<C>)
        ensures
            r.sessions@.len() == 0,
    {
        JupyterSessions { sessions: Vec::new() }
    }

    /// The index of the first session whose identifier (or address) is `s`.
    pub fn find_session(&self, by_id: bool, s: &str) -> (r: Option<usize>)
        ensures
            match r {
                Some(k) => find_session_spec(self.sessions@, by_id, s@) == Some(k as int),
                None => find_session_spec(self.sessions@, by_id, s@).is_none(),
            },
    {
        let mut i: usize = 0;
        while i < self.sessions.len()
            invariant
                i <= self.sessions@.len(),
                forall|j: int| 0 <= j < i ==> #[trigger] session_key(self.sessions@[j], by_id) != s@,
            decreases self.sessions@.len() - i,
        {
            let key = if by_id {
                self.sessions[i].id.as_str()
            } else {
                self.sessions[i].url.as_str()
            };
            assert(key@ == session_key(self.sessions@[i as int], by_id));
            if same_text(key, s) {
                proof {
                    assert(is_first_session(self.sessions@, by_id, s@, i as int));
                    let c = choose|k: int| is_first_session(self.sessions@, by_id, s@, k);
                    if c < i {
                        assert(session_key(self.sessions@[c], by_id) != s@);
                    } else if c > i {
                        assert(session_key(self.sessions@[i as int], by_id) != s@);
                    }
                }
                return Some(i);
            }
            i = i + 1;
        }
        proof {
            if exists|k: int| is_first_session(self.sessions@, by_id, s@, k) {
                let c = choose|k: int| is_first_session(self.sessions@, by_id, s@, k);
                assert(session_key(self.sessions@[c], by_id) != s@);
            }
        }
        None
    }

    /// Appends a session.
    pub fn add_session(&mut self, session: JupyterSession<C>)
        ensures
            final(self).sessions@ == old(self).sessions@.push(session),
    {
        self.sessions.push(session);
    }

    /// Appends a session together with the handle of its process.
    pub fn add_session_with_child(&mut self, id: String, url: String, port: u16, child: C)
        ensures
            final(self).sessions@.len() == old(self).sessions@.len() + 1,
            final(self).sessions@.drop_last() == old(self).sessions@,
            final(self).sessions@.last().id == id,
            final(self).sessions@.last().url == url,
            final(self).sessions@.last().port == port,
            final(self).sessions@.last().child == Some(child),
    {
        let ghost before = self.sessions@;
        self.sessions.push(JupyterSession { id, url, port, child: Some(child) });
        assert(self.sessions@.drop_last() =~= before);
    }

    /// What the user is shown of every session, in order.
    pub fn get_sessions(&self) -> (r: Vec<JupyterSessionInfo>)
        ensures
            r@.len() == self.sessions@.len(),
            forall|j: int|
                0 <= j < r@.len() ==> (#[trigger] r@[j]).id@ == self.sessions@[j].id@ && r@[j].url@
                    == self.sessions@[j].url@ && r@[j].port == self.sessions@[j].port,
    {
        let mut r: Vec<JupyterSessionInfo> = Vec::new();
        let mut i: usize = 0;
        while i < self.sessions.len()
            invariant
                i <= self.sessions@.len(),
                r@.len() == i,
                forall|j: int|
                    0 <= j < i ==> (#[trigger] r@[j]).id@ == self.sessions@[j].id@ && r@[j].url@
                        == self.sessions@[j].url@ && r@[j].port == self.sessions@[j].port,
            decreases self.sessions@.len() - i,
        {
            r.push(self.sessions[i].info());
            i = i + 1;
        }
        r
    }

    /// What the user is shown of the first session at address `url`.
    pub fn get_session(&self, url: &str) -> (r: Option<JupyterSessionInfo>)
        ensures
            match find_session_spec(self.sessions@, false, url@) {
                Some(k) => r matches Some(info) && info.id@ == self.sessions@[k].id@ && info.url@
                    == self.sessions@[k].url@ && info.port == self.sessions@[k].port,
                None => r is None,
            },
    {
        match self.find_session(false, url) {
            Some(k) => Some(self.sessions[k].info()),
            None => None,
        }
    }

    /// Takes the process handle out of the first session with identifier
    /// `id`; the session stays.
    pub fn take_child_from_session(&mut self, id: &str) -> (r: Option<C>)
        ensures
            match find_session_spec(old(self).sessions@, true, id@) {
                Some(k) => r == old(self).sessions@[k].child && final(self).sessions@.len() == old(self).sessions@.len() && final(self).sessions@[k].child.is_none() && final(self).sessions@[k].id == old(self).sessions@[k].id && final(self).sessions@[k].url
                    == old(self).sessions@[k].url && final(self).sessions@[k].port == old(self).sessions@[k].port && forall|j: int|
                    0 <= j < old(self).sessions@.len() && j != k ==> #[trigger] final(self).sessions@[j] == old(self).sessions@[j],
                None => r.is_none() && final(self).sessions@ == old(self).sessions@,
            },
    {
        match self.find_session(true, id) {
            Some(k) => self.sessions[k].child.take(),
            None => None,
        }
    }

    /// Removes the first session with identifier `id` and returns it.
    pub fn remove_session_by_id(&mut self, id: &str) -> (r: Option<JupyterSession<C>>)
        ensures
            match find_session_spec(old(self).sessions@, true, id@) {
                Some(k) => r == Some(old(self).sessions@[k]) && final(self).sessions@ == old(self).sessions@.remove(k),
                None => r.is_none() && final(self).sessions@ == old(self).sessions@,
            },
    {
        match self.find_session(true, id) {
            Some(k) => Some(self.sessions.remove(k)),
            None => None,
        }
    }
}

/// The lower-case form of a text, character by character as Unicode defines it.
pub uninterp spec fn lower_of(s: Seq<char>) -> Seq<char>;

/// Relies on `str::to_lowercase`: the lower-case form of the text, which
/// depends on the text alone.
#[verifier::external_body]
fn lowercase(s: &str) -> (r: String)
    ensures
        r@ == lower_of(s@),
{
    s.to_lowercase()
}

/// The kind of a Python installation and its rank, from its lower-case
/// path: conda distributions first, then Homebrew, python.org, the system's
/// own, and anything else.
pub open spec fn source_of(p: Seq<char>) -> (Seq<char>, u8) {
    if has_text(p, "anaconda"@) || has_text(p, "miniconda"@) || has_text(p, "conda"@) {
        ("anaconda"@, 1)
    } else if has_text(p, "homebrew"@) || has_text(p, "/opt/homebrew"@) || has_text(
        p,
        "/usr/local"@,
    ) {
        ("homebrew"@, 2)
    } else if has_text(p, "python.framework"@) || has_text(p, "programs/python"@) {
        ("python.org"@, 3)
    } else if has_text(p, "/usr/bin"@) || has_text(p, "/bin"@) || has_text(p, "system32"@) {
        ("system"@, 4)
    } else {
        ("other"@, 5)
    }
}

/// Why a server's output could not be turned into a session.
#[derive(PartialEq, Eq, Structural, Clone, Copy, Debug)]
pub enum SessionError {
    /// The line announces no server address.
    NoUrl,
    /// The process handle was handed to a session already.
    ChildTaken,
}

/// Where `line` announces the server's address and the process handle is
/// still at hand, adds a session named `name:port` that holds the handle.
pub fn parse_output_and_create_session<C>(
    sessions: &mut JupyterSessions<C>,
    line: &str,
    port: u16,
    name: String,
    child: &mut Option<C>,
) -> (r: Result<(), SessionError>)
    ensures
        match group_text(JUPYTER_LAB_URL_REGEX@, line@, 0) {
            None => r == Err::<(), SessionError>(SessionError::NoUrl) && final(sessions).sessions@ == old(sessions).sessions@ && *final(child) == *old(child),
            Some(u) => match *old(child) {
                None => r == Err::<(), SessionError>(SessionError::ChildTaken) && final(sessions).sessions@
                    == old(sessions).sessions@ && final(child).is_none(),
                Some(c) => r is Ok && final(child).is_none() && {
                    let added = final(sessions).sessions@.last();
                    &&& final(sessions).sessions@.len() == old(sessions).sessions@.len() + 1
                    &&& final(sessions).sessions@.drop_last() == old(sessions).sessions@
                    &&& added.id@ == name@ + seq![':'] + decimal_text(port as nat)
                    &&& added.url@ == u
                    &&& added.port == port
                    &&& added.child == Some(c)
                },
            },
        },
{
    let url = match get_url_from_stdout(line) {
        Some(u) => u,
        None => return Err(SessionError::NoUrl),
    };
    let handle = match child.take() {
        Some(c) => c,
        None => return Err(SessionError::ChildTaken),
    };
    let mut id = name;
    proof {
        reveal_strlit(":");
    }
    id.append(":");
    let digits = to_decimal(port as usize);
    id.append(digits.as_str());
    sessions.add_session_with_child(id, url, port, handle);
    Ok(())
}

/// The kind and rank of the installation at a lower-case path (see
/// `source_of`).
pub fn python_source(path_lower: &str) -> (r: (String, u8))
    ensures
        r.0@ == source_of(path_lower@).0,
        r.1 == source_of(path_lower@).1,
{
    let p = path_lower;
    if contains_text(p, "anaconda") || contains_text(p, "miniconda") || contains_text(p, "conda") {
        return ("anaconda".to_string(), 1);
    }
    if contains_text(p, "homebrew") || contains_text(p, "/opt/homebrew") || contains_text(
        p,
        "/usr/local",
    ) {
        return ("homebrew".to_string(), 2);
    }
    if contains_text(p, "python.framework") || contains_text(p, "programs/python") {
        return ("python.org".to_string(), 3);
    }
    if contains_text(p, "/usr/bin") || contains_text(p, "/bin") || contains_text(p, "system32") {
        return ("system".to_string(), 4);
    }
    ("other".to_string(), 5)
}

/// The kind and rank of the Python installation at `path`, judged on its
/// lower-case form.
pub fn determine_python_source(path: &str) -> (r: (String, u8))
    ensures
        r.0@ == source_of(lower_of(path@)).0,
        r.1 == source_of(lower_of(path@)).1,
{
    let lower = lowercase(path);
    python_source(lower.as_str())
}

/// What a capture group of the leftmost match of a regular expression in a
/// text holds: `None` where the pattern is not a valid expression,
/// `Some(None)` where nothing matches, there is no such group, or the group
/// took no part in the match.
/// Group 0 is the whole match.
pub uninterp spec fn regex_group(pattern: Seq<char>, text: Seq<char>, group: nat) -> Option<
    Option<Seq<char>>,
>;

/// Relies on regex's `Regex::new`, which refuses an invalid pattern, and
/// `Regex::captures` with `Captures::get`: the text of a group of the
/// leftmost match.
#[verifier::external_body]
fn capture_group(pattern: &str, text: &str, group: usize) -> (r: Option<Option<String>>)
    ensures
        match r {
            None => regex_group(pattern@, text@, group as nat).is_none(),
            Some(None) => regex_group(pattern@, text@, group as nat) == Some(None::<Seq<char>>),
            Some(Some(m)) => regex_group(pattern@, text@, group as nat) == Some(Some(m@)),
        },
{
    let re = regex::Regex::new(pattern).ok()?;
    Some(re.captures(text).and_then(|caps| caps.get(group)).map(|m| m.as_str().to_string()))
}

/// The text of a group of the leftmost match, where the pattern is valid
/// and matches.
pub open spec fn group_text(pattern: Seq<char>, text: Seq<char>, group: nat) -> Option<Seq<char>> {
    match regex_group(pattern, text, group) {
        Some(Some(m)) => Some(m),
        _ => None,
    }
}

fn matched_group(pattern: &str, text: &str, group: usize) -> (r: Option<String>)
    ensures
        match group_text(pattern@, text@, group as nat) {
            Some(m) => r matches Some(x) && x@ == m,
            None => r is None,
        },
{
    match capture_group(pattern, text, group) {
        Some(Some(m)) => Some(m),
        _ => None,
    }
}

/// The address that a notebook server announces on its output.
pub const JUPYTER_LAB_URL_REGEX: &'static str = r"http://localhost:(\d+)/lab\?token=([a-f0-9]+)";

/// What `python --version` prints; group 1 is the version.
pub const PYTHON_VERSION_REGEX: &'static str = r"Python (\d+\.\d+\.\d+(?:\.\w+)?)";

/// The first server address in `stdout`, if any.
pub fn get_url_from_stdout(stdout: &str) -> (r: Option<String>)
    ensures
        match group_text(JUPYTER_LAB_URL_REGEX@, stdout@, 0) {
            Some(u) => r matches Some(x) && x@ == u,
            None => r is None,
        },
{
    matched_group(JUPYTER_LAB_URL_REGEX, stdout, 0)
}

/// The version that `python --version` printed, if it printed one.
pub fn python_version(output: &str) -> (r: Option<String>)
    ensures
        match group_text(PYTHON_VERSION_REGEX@, output@, 1) {
            Some(v) => r matches Some(x) && x@ == v,
            None => r is None,
        },
{
    matched_group(PYTHON_VERSION_REGEX, output, 1)
}

/// The installation at `path`, from what its `--version` printed; `None`
/// where no version can be read from that.
pub fn installation_from_output(path: &str, version_output: &str, is_custom: bool) -> (r: Option<
    PythonInstallation,
>)
    ensures
        match group_text(PYTHON_VERSION_REGEX@, version_output@, 1) {
            Some(v) => r matches Some(inst) && {
                &&& inst.path@ == path@
                &&& inst.version@ == v
                &&& inst.source@ == source_of(lower_of(path@)).0
                &&& inst.priority == source_of(lower_of(path@)).1
                &&& inst.is_custom == is_custom
            },
            None => r is None,
        },
{
    let version = match python_version(version_output) {
        Some(v) => v,
        None => return None,
    };
    let (source, priority) = determine_python_source(path);
    Some(PythonInstallation { path: path.to_string(), version, source, priority, is_custom })
}

/// Whether an installation of `v` has path `path`.
pub open spec fn has_path(v: Seq<PythonInstallation>, path: Seq<char>) -> bool {
    exists|i: int| 0 <= i < v.len() && (#[trigger] v[i]).path@ == path
}

/// Whether an installation of `v` has path `path`.
pub fn is_detected(v: &Vec<PythonInstallation>, path: &str) -> (r: bool)
    ensures
        r == has_path(v@, path@),
{
    let mut i: usize = 0;
    while i < v.len()
        invariant
            i <= v@.len(),
            forall|j: int| 0 <= j < i ==> (#[trigger] v@[j]).path@ != path@,
        decreases v@.len() - i,
    {
        if same_text(v[i].path.as_str(), path) {
            return true;
        }
        i = i + 1;
    }
    false
}

/// `known` followed by those of `custom` whose path is not taken yet, in
/// order.
pub open spec fn merged(known: Seq<PythonInstallation>, custom: Seq<PythonInstallation>) -> Seq<
    PythonInstallation,
>
    decreases custom.len(),
{
    if custom.len() == 0 {
        known
    } else {
        let m = merged(known, custom.drop_last());
        if has_path(m, custom.last().path@) {
            m
        } else {
            m.push(custom.last())
        }
    }
}

/// Adds the custom installations whose path is not detected yet.
pub fn merge_custom_envs(installations: &mut Vec<PythonInstallation>, custom: Vec<PythonInstallation>)
    ensures
        final(installations)@ == merged(old(installations)@, custom@),
{
    let ghost all = custom@;
    let ghost start = installations@;
    let mut rest = custom;
    let total = rest.len();
    let mut k: usize = 0;
    while k < total
        invariant
            total == all.len(),
            k <= total,
            rest@ == all.skip(k as int),
            installations@ == merged(start, all.take(k as int)),
        decreases total - k,
    {
        let env = rest.remove(0);
        assert(env == all[k as int]);
        assert(rest@ =~= all.skip(k + 1));
        assert(all.take(k + 1).drop_last() =~= all.take(k as int));
        assert(all.take(k + 1).last() == env);
        if !is_detected(installations, env.path.as_str()) {
            installations.push(env);
        }
        k = k + 1;
    }
    assert(all.take(k as int) =~= all);
}

/// The installations of `v` with priority `p`, in order.
pub open spec fn with_priority(v: Seq<PythonInstallation>, p: int) -> Seq<PythonInstallation>
    decreases v.len(),
{
    if v.len() == 0 {
        v
    } else if v.last().priority == p {
        with_priority(v.drop_last(), p).push(v.last())
    } else {
        with_priority(v.drop_last(), p)
    }
}

/// The installations of `v` with priority below `p`, by priority and, within
/// one priority, in their order in `v`.
pub open spec fn ranked_below(v: Seq<PythonInstallation>, p: int) -> Seq<PythonInstallation>
    decreases p,
{
    if p <= 0 {
        Seq::empty()
    } else {
        ranked_below(v, p - 1) + with_priority(v, p - 1)
    }
}

/// `v` stably ordered by priority, lowest first.
pub open spec fn ranked(v: Seq<PythonInstallation>) -> Seq<PythonInstallation> {
    ranked_below(v, 256)
}

/// Splits off the installations with priority `p`, keeping the order.
fn take_priority(v: Vec<PythonInstallation>, p: u8) -> (r: (Vec<PythonInstallation>, Vec<PythonInstallation>))
    ensures
        r.0@ == with_priority(v@, p as int),
        forall|q: int| q != p ==> with_priority(r.1@, q) == with_priority(v@, q),
        with_priority(r.1@, p as int).len() == 0,
{
    let ghost all = v@;
    let mut rest = v;
    let mut hit: Vec<PythonInstallation> = Vec::new();
    let mut miss: Vec<PythonInstallation> = Vec::new();
    let total = rest.len();
    let mut k: usize = 0;
    while k < total
        invariant
            total == all.len(),
            k <= total,
            rest@ == all.skip(k as int),
            hit@ == with_priority(all.take(k as int), p as int),
            forall|q: int| q != p ==> with_priority(miss@, q) == with_priority(all.take(k as int), q),
            with_priority(miss@, p as int).len() == 0,
        decreases total - k,
    {
        let x = rest.remove(0);
        assert(x == all[k as int]);
        assert(rest@ =~= all.skip(k + 1));
        assert(all.take(k + 1).drop_last() =~= all.take(k as int));
        assert(all.take(k + 1).last() == x);
        let ghost before = miss@;
        let ghost xp = x.priority;
        let ghost xv = x;
        if x.priority == p {
            hit.push(x);
        } else {
            miss.push(x);
            assert(miss@.drop_last() =~= before);
        }
        assert forall|q: int| q != p implies with_priority(miss@, q) == with_priority(
            all.take(k + 1),
            q,
        ) by {
            assert(with_priority(before, q) == with_priority(all.take(k as int), q));
            if xp != p {
                assert(miss@.last() == xv);
                assert(with_priority(miss@, q) == if xp == q {
                    with_priority(before, q).push(xv)
                } else {
                    with_priority(before, q)
                });
            }
            assert(with_priority(all.take(k + 1), q) == if xp == q {
                with_priority(all.take(k as int), q).push(all[k as int])
            } else {
                with_priority(all.take(k as int), q)
            });
        }
        k = k + 1;
    }
    assert(all.take(k as int) =~= all);
    (hit, miss)
}

/// The installations ordered by priority, lowest first; those of one
/// priority keep their order.
pub fn rank_installations(v: Vec<PythonInstallation>) -> (r: Vec<PythonInstallation>)
    ensures
        r@ == ranked(v@),
{
    let ghost all = v@;
    let mut rest = v;
    let mut out: Vec<PythonInstallation> = Vec::new();
    let mut p: u16 = 0;
    while p < 256
        invariant
            p <= 256,
            out@ == ranked_below(all, p as int),
            forall|q: int| q >= p ==> with_priority(rest@, q) == with_priority(all, q),
        decreases 256 - p,
    {
        let (mut hit, miss) = take_priority(rest, p as u8);
        let ghost before = out@;
        out.append(&mut hit);
        rest = miss;
        p = p + 1;
    }
    out
}

/// The installation to select: the one selected already, else the first of
/// the ranked list, if any.
pub fn default_selection(selected: Option<String>, ranked: &Vec<PythonInstallation>) -> (r: Option<String>)
    ensures
        match selected {
            Some(s) => r == Some(s),
            None => if ranked@.len() > 0 {
                r matches Some(x) && x@ == ranked@[0].path@
            } else {
                r is None
            },
        },
{
    match selected {
        Some(s) => Some(s),
        None => if ranked.len() > 0 {
            Some(ranked[0].path.clone())
        } else {
            None
        },
    }
}

/// `s` with every space turned into an underscore.
pub open spec fn underscored(s: Seq<char>) -> Seq<char> {
    s.map_values(|c: char| if c == ' ' { '_' } else { c })
}

/// `s` with every space turned into an underscore.
pub fn spaces_to_underscores(s: &str) -> (r: String)
    ensures
        r@ == underscored(s@),
{
    proof {
        reveal_strlit("_");
    }
    let n = s.unicode_len();
    let mut out = String::new();
    let mut i: usize = 0;
    while i < n
        invariant
            i <= n == s@.len(),
            out@ == underscored(s@.take(i as int)),
        decreases n - i,
    {
        let ghost before = out@;
        let ghost c = s@[i as int];
        let ghost mapped = if c == ' ' {
            '_'
        } else {
            c
        };
        if s.get_char(i) == ' ' {
            proof {
                reveal_strlit("_");
            }
            assert("_"@ =~= seq!['_']);
            out.append("_");
        } else {
            let one = s.substring_char(i, i + 1);
            assert(one@ =~= seq![c]);
            out.append(one);
        }
        assert(out@ =~= before.push(mapped));
        assert(s@.take(i + 1) =~= s@.take(i as int).push(c));
        assert(underscored(s@.take(i + 1)) =~= underscored(s@.take(i as int)).push(mapped));
        assert(out@ =~= underscored(s@.take(i + 1)));
        i = i + 1;
    }
    assert(s@.take(i as int) =~= s@);
    out
}

/// The decimal text of an integer, with `-` where it is negative.
pub open spec fn int_text(i: int) -> Seq<char> {
    if i < 0 {
        seq!['-'] + decimal_text((-i) as nat)
    } else {
        decimal_text(i as nat)
    }
}

/// The name of a document's project folder: the title with spaces turned
/// into underscores, in lower case, followed by `-` and the document's
/// number where it has one.
pub open spec fn project_folder(title: Seq<char>, id: Option<i32>) -> Seq<char> {
    match id {
        Some(i) => lower_of(underscored(title)) + seq!['-'] + int_text(i as int),
        None => lower_of(underscored(title)),
    }
}

/// The name of a document's project folder (see `project_folder`).
pub fn project_folder_name(title: &str, id: Option<i32>) -> (r: String)
    ensures
        r@ == project_folder(title@, id),
{
    let underscored_title = spaces_to_underscores(title);
    let mut name = lowercase(underscored_title.as_str());
    match id {
        Some(i) => {
            proof {
                reveal_strlit("-");
            }
            name.append("-");
            if i < 0 {
                name.append("-");
                let digits = to_decimal((-(i as i64)) as usize);
                name.append(digits.as_str());
            } else {
                let digits = to_decimal(i as usize);
                name.append(digits.as_str());
            }
            assert(name@ =~= project_folder(title@, id));
        },
        None => {},
    }
    name
}

/// The first port that a notebook server is offered.
pub const FIRST_JUPYTER_PORT: u16 = 8888;

/// The first port from `FIRST_JUPYTER_PORT` on that `is_occupied` reports
/// free, trying them in order; `None` where every port up to the largest is
/// occupied.
pub fn get_next_available_port<F: Fn(u16) -> bool>(is_occupied: F) -> (r: Option<u16>)
    requires
        forall|p: u16| #[trigger] is_occupied.requires((p,)),
    ensures
        match r {
            Some(p) => p >= FIRST_JUPYTER_PORT && is_occupied.ensures((p,), false) && forall|q: u16|
                FIRST_JUPYTER_PORT <= q < p ==> #[trigger] is_occupied.ensures((q,), true),
            None => forall|q: u16|
                FIRST_JUPYTER_PORT <= q ==> #[trigger] is_occupied.ensures((q,), true),
        },
{
    let mut port: u16 = FIRST_JUPYTER_PORT;
    loop
        invariant
            port >= FIRST_JUPYTER_PORT,
            forall|p: u16| #[trigger] is_occupied.requires((p,)),
            forall|q: u16| FIRST_JUPYTER_PORT <= q < port ==> #[trigger] is_occupied.ensures((q,), true),
        decreases u16::MAX - port,
    {
        if !is_occupied(port) {
            return Some(port);
        }
        if port == u16::MAX {
            return None;
        }
        port = port + 1;
    }
}

/// Appends path `p` to `list` where `present` says that it exists.
pub fn push_if_exists(list: &mut Vec<String>, p: String, present: bool)
    ensures
        final(list)@ == if present {
            old(list)@.push(p)
        } else {
            old(list)@
        },
{
    if present {
        list.push(p);
    }
}

} // verus!
