//! The supervisor's configuration: where it listens, and the programs it
//! supervises.
use vstd::prelude::*;
use vstd::string::*;

verus! {

/// The whole configuration.
#[derive(Debug, Clone)]
pub struct Config {
    /// Settings of the supervisor itself.
    pub supervisorr: Option<SupervisorrConfig>,
    /// The programs, each under its name.
    pub program: Vec<(String, ProgramConfig)>,
}

/// Settings of the supervisor itself.
#[derive(Debug, Clone)]
pub struct SupervisorrConfig {
    /// Path of the control socket.
    pub socket_file: Option<String>,
    /// Address of the web dashboard.
    pub web_bind: Option<String>,
}

/// How to run one program.
#[derive(Debug, Clone)]
pub struct ProgramConfig {
    /// The shell command line.
    pub command: String,
    /// The working directory.
    pub directory: Option<String>,
    /// Whether the program is meant to run from the start.
    pub autostart: bool,
    /// Whether the program is started again after it exits. Where it is not,
    /// its exit marks it as meant to stop, so that it stays down until it is
    /// started again.
    pub autorestart: bool,
    /// Variables added to the program's environment.
    pub environment: Option<Vec<(String, String)>>,
    /// File that receives the program's standard output.
    pub stdout_logfile: Option<String>,
    /// File that receives the program's standard error.
    pub stderr_logfile: Option<String>,
}

/// The value of `autostart` and `autorestart` where the configuration
/// leaves them out.
pub fn default_true() -> (res: bool)
    ensures
        res,
{
    true
}

/// The control socket used where the configuration names none.
pub open spec fn default_socket_path() -> Seq<char> {
    "/tmp/supervisorr.sock"@
}

/// The dashboard address used where the configuration names none.
pub open spec fn default_web_bind() -> Seq<char> {
    "0.0.0.0:3000"@
}

/// `setting`, or `default` where it is absent.
pub open spec fn setting_or(setting: Option<String>, default: Seq<char>) -> Seq<char> {
    match setting {
        Some(s) => s@,
        None => default,
    }
}

/// The program at position `i` is the first one named `name`.
pub open spec fn first_named(ps: Seq<(String, ProgramConfig)>, name: Seq<char>, i: int) -> bool {
    &&& 0 <= i < ps.len()
    &&& ps[i].0@ == name
    &&& forall|j: int| 0 <= j < i ==> (#[trigger] ps[j]).0@ != name
}

/// No two programs share a name, as in the configuration file, where each
/// program is a key of its own.
pub open spec fn distinct_names(ps: Seq<(String, ProgramConfig)>) -> bool {
    forall|i: int, j: int| 0 <= i < j < ps.len() ==> (#[trigger] ps[i]).0@ != (#[trigger] ps[j]).0@
}

/// No program is named `name`.
pub open spec fn unnamed(ps: Seq<(String, ProgramConfig)>, name: Seq<char>) -> bool {
    forall|j: int| 0 <= j < ps.len() ==> (#[trigger] ps[j]).0@ != name
}

impl Config {
    /// The control socket: the configured one, or the default.
    pub fn socket_path(&self) -> (res: String)
        ensures
            res@ == match self.supervisorr {
                Some(s) => setting_or(s.socket_file, default_socket_path()),
                None => default_socket_path(),
            },
    {
        match &self.supervisorr {
            Some(s) => match &s.socket_file {
                Some(f) => f.clone(),
                None => String::from_str("/tmp/supervisorr.sock"),
            },
            None => String::from_str("/tmp/supervisorr.sock"),
        }
    }

    /// The dashboard address: the configured one, or the default.
    pub fn web_bind(&self) -> (res: String)
        ensures
            res@ == match self.supervisorr {
                Some(s) => setting_or(s.web_bind, default_web_bind()),
                None => default_web_bind(),
            },
    {
        match &self.supervisorr {
            Some(s) => match &s.web_bind {
                Some(b) => b.clone(),
                None => String::from_str("0.0.0.0:3000"),
            },
            None => String::from_str("0.0.0.0:3000"),
        }
    }

    /// Adds a program under `name`, replacing the first one of that name if
    /// there is one.
    pub fn add_program(&mut self, name: String, prog: ProgramConfig)
        ensures
            final(self).supervisorr == old(self).supervisorr,
            (exists|i: int|
                first_named(old(self).program@, name@, i) && final(self).program@
                    == old(self).program@.update(i, (name, prog))) || (unnamed(
                old(self).program@,
                name@,
            ) && final(self).program@ == old(self).program@.push((name, prog))),
            distinct_names(old(self).program@) ==> distinct_names(final(self).program@),
    {
        let n = self.program.len();
        let mut i: usize = 0;
        while i < n
            invariant
                n == self.program@.len(),
                *self == *old(self),
                i <= n,
                forall|j: int| 0 <= j < i ==> (#[trigger] self.program@[j]).0@ != name@,
            decreases n - i,
        {
            if self.program[i].0 == name {
                let ghost k = name@;
                let ghost before = self.program@;
                self.program.set(i, (name, prog));
                assert(first_named(old(self).program@, k, i as int));
                proof {
                    if distinct_names(before) {
                        assert forall|a: int, b: int| 0 <= a < b < self.program@.len() implies (
                        #[trigger] self.program@[a]).0@ != (#[trigger] self.program@[b]).0@ by {
                            assert(self.program@[a].0@ == before[a].0@);
                            assert(self.program@[b].0@ == before[b].0@);
                        }
                    }
                }
                return;
            }
            i = i + 1;
        }
        let ghost before = self.program@;
        self.program.push((name, prog));
        assert(self.program@ == before.push((name, prog)));
    }
}

/// The characters of `p` after its last `/` (all of `p` where it has none).
pub open spec fn last_segment(p: Seq<char>) -> Seq<char>
    decreases p.len(),
{
    if p.len() == 0 {
        p
    } else if p.last() == '/' {
        Seq::empty()
    } else {
        last_segment(p.drop_last()).push(p.last())
    }
}

/// `p` without its last segment and the `/` in front of it (empty where `p`
/// has no `/`).
pub open spec fn before_last_segment(p: Seq<char>) -> Seq<char>
    decreases p.len(),
{
    if p.len() == 0 {
        p
    } else if p.last() == '/' {
        p.drop_last()
    } else {
        before_last_segment(p.drop_last())
    }
}

/// Dropping the last segment shortens a path that is not empty.
pub proof fn lemma_before_last_segment_shorter(p: Seq<char>)
    requires
        p.len() > 0,
    ensures
        before_last_segment(p).len() < p.len(),
    decreases p.len(),
{
    if p.last() != '/' {
        if p.drop_last().len() > 0 {
            lemma_before_last_segment_shorter(p.drop_last());
        } else {
            assert(before_last_segment(p.drop_last()).len() == 0);
        }
    }
}

/// The last component of a Unix path, where it is a name: segments are
/// separated by `/`; empty segments and `.` segments are passed over; a path
/// whose last remaining segment is `..`, or that has none, has no file name.
pub open spec fn path_file_name(path: Seq<char>) -> Option<Seq<char>>
    decreases path.len(),
{
    if path.len() == 0 {
        None
    } else {
        let s = last_segment(path);
        if s.len() == 0 || s == seq!['.'] {
            proof {
                lemma_before_last_segment_shorter(path);
            }
            path_file_name(before_last_segment(path))
        } else if s == seq!['.', '.'] {
            None
        } else {
            Some(s)
        }
    }
}

/// A last segment holds no `/`.
pub proof fn lemma_last_segment_has_no_separator(p: Seq<char>)
    ensures
        !last_segment(p).contains('/'),
    decreases p.len(),
{
    if p.len() > 0 && p.last() != '/' {
        let q = p.drop_last();
        lemma_last_segment_has_no_separator(q);
        assert forall|i: int| 0 <= i < last_segment(p).len() implies last_segment(p)[i] != '/' by {
            if i < last_segment(q).len() {
                assert(last_segment(p)[i] == last_segment(q)[i]);
                assert(last_segment(q).contains(last_segment(q)[i]));
            }
        }
    }
}

/// A file name is a plain name: not empty, free of `/`, and neither `.` nor
/// `..`.
pub proof fn lemma_file_name_is_plain(path: Seq<char>)
    ensures
        path_file_name(path) matches Some(s) ==> {
            &&& s.len() > 0
            &&& !s.contains('/')
            &&& s != seq!['.']
            &&& s != seq!['.', '.']
        },
    decreases path.len(),
{
    if path.len() > 0 {
        let s = last_segment(path);
        lemma_last_segment_has_no_separator(path);
        if s.len() == 0 || s == seq!['.'] {
            lemma_before_last_segment_shorter(path);
            lemma_file_name_is_plain(before_last_segment(path));
        }
    }
}

/// `base` with `tail` appended, as `std::path::Path::join` does it on Unix:
/// an absolute `tail` replaces `base`; otherwise `tail` follows `base`, after
/// a `/` where `base` is not empty and does not already end in one.
pub open spec fn path_join(base: Seq<char>, tail: Seq<char>) -> Seq<char> {
    if tail.len() > 0 && tail[0] == '/' {
        tail
    } else if base.len() > 0 && base.last() != '/' {
        base + seq!['/'] + tail
    } else {
        base + tail
    }
}

/// Calls `std::path::Path::file_name` on `path` and gives the component back
/// as text. Claimed: the result is `path_file_name(path)`, which restates
/// what the documentation of `Path::file_name` and `Path::components` says for
/// Unix paths (repeated separators and `.` are normalized away, and a path
/// that ends in `..`, in the root or in a lone `.` has no file name); the
/// text of a component of a path made from a `str` is returned unchanged.
#[verifier::external_body]
fn file_name_of(path: &str) -> (res: Option<String>)
    ensures
        match res {
            Some(s) => path_file_name(path@) == Some(s@),
            None => path_file_name(path@) is None,
        },
{
    match std::path::Path::new(path).file_name() {
        Some(n) => Some(n.to_string_lossy().into_owned()),
        None => None,
    }
}

/// Calls `std::path::Path::join` on `base` and `tail` and gives the joined
/// path back as text. Claimed: the result is `path_join(base, tail)`, the
/// Unix rule of `PathBuf::push` (an absolute `tail` replaces `base`; a
/// relative one extends it, after a separator where `base` is not empty and
/// does not already end in one); the joined text is returned unchanged.
#[verifier::external_body]
fn join_path(base: &str, tail: &str) -> (res: String)
    ensures
        res@ == path_join(base@, tail@),
{
    std::path::Path::new(base).join(tail).to_string_lossy().into_owned()
}

/// The name given to an uploaded executable: the last component of the name
/// the upload carries (`uploaded_bin` where it carries none), or that name
/// itself where it has no last component.
pub open spec fn upload_name(raw: Option<Seq<char>>) -> Seq<char> {
    let r = match raw {
        Some(r) => r,
        None => "uploaded_bin"@,
    };
    match path_file_name(r) {
        Some(c) => c,
        None => r,
    }
}

/// Chooses the name under which an uploaded executable is stored and run.
pub fn upload_file_name(raw: Option<&str>) -> (res: String)
    ensures
        res@ == upload_name(
            match raw {
                Some(r) => Some(r@),
                None => None,
            },
        ),
{
    let raw_name = match raw {
        Some(r) => String::from_str(r),
        None => String::from_str("uploaded_bin"),
    };
    match file_name_of(raw_name.as_str()) {
        Some(clean) => clean,
        None => raw_name,
    }
}

/// The configuration of an executable uploaded as `file_name` into `dir`:
/// run from `dir`, started at once and again after each exit, with its output
/// logged beside it in `<file_name>.log` and `<file_name>.err`.
pub fn uploaded_program(dir: &str, file_name: &str) -> (p: ProgramConfig)
    ensures
        p.command@ == path_join(dir@, file_name@),
        p.directory matches Some(d) && d@ == dir@,
        p.autostart,
        p.autorestart,
        p.environment is None,
        p.stdout_logfile matches Some(f) && f@ == path_join(dir@, file_name@ + ".log"@),
        p.stderr_logfile matches Some(f) && f@ == path_join(dir@, file_name@ + ".err"@),
{
    let command = join_path(dir, file_name);
    let out_name = String::from_str(file_name).concat(".log");
    let err_name = String::from_str(file_name).concat(".err");
    let out_log = join_path(dir, out_name.as_str());
    let err_log = join_path(dir, err_name.as_str());
    ProgramConfig {
        command: command,
        directory: Some(String::from_str(dir)),
        autostart: true,
        autorestart: true,
        environment: None,
        stdout_logfile: Some(out_log),
        stderr_logfile: Some(err_log),
    }
}

} // verus!
