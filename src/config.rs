use vstd::prelude::*;

verus! {

/// Joins `part` onto `base` the way a path push does: an absolute `part`
/// replaces `base`, otherwise a single `/` separates the two unless `base`
/// is empty or already ends in one.
pub open spec fn join_path(base: Seq<char>, part: Seq<char>) -> Seq<char> {
    if part.len() > 0 && part[0] == '/' {
        part
    } else if base.len() == 0 || base.last() == '/' {
        base + part
    } else {
        base + seq!['/'] + part
    }
}

/// Why a service's working directory cannot be resolved.
#[derive(Debug, Clone, Copy, PartialEq, Eq, Structural)]
pub enum ConfigError {
    /// Both `base_dir` and `git_uri` are set.
    BothSources,
    /// Neither `base_dir` nor `git_uri` is set.
    NoSource,
}

/// One configured service, immutable once loaded.
#[derive(Debug)]
pub struct ConfigService {
    pub base_dir: Option<String>,
    pub git_uri: Option<String>,
    /// File name, relative to the user's `.ssh` directory, of the key used to fetch.
    pub ssh_key_file: Option<String>,
    pub enabled: bool,
    pub run_command: String,
    /// Extra environment variables, applied in order.
    pub env: Vec<(String, String)>,
}

/// The daemon's configuration: where git sources live and the services by name.
#[derive(Debug)]
pub struct Config {
    pub debug: Option<bool>,
    pub root: String,
    pub services: Vec<(String, ConfigService)>,
}

/// The working directory of service `name`, or why there is none.
pub open spec fn spec_work_dir(svc: ConfigService, name: Seq<char>, root: Seq<char>) -> Result<
    Seq<char>,
    ConfigError,
> {
    match (svc.base_dir, svc.git_uri) {
        (Some(d), None) => Ok(d@),
        (None, Some(_)) => Ok(join_path(root, name)),
        (Some(_), Some(_)) => Err(ConfigError::BothSources),
        (None, None) => Err(ConfigError::NoSource),
    }
}

/// Service names are keys: no two entries share one.
pub open spec fn names_unique(services: Seq<(String, ConfigService)>) -> bool {
    forall|i: int, j: int|
        0 <= i < j < services.len() ==> #[trigger] services[i].0@ != #[trigger] services[j].0@
}

/// Appends `part` to `base` as a path.
pub fn join(base: &str, part: &str) -> (r: String)
    ensures
        r@ == join_path(base@, part@),
{
    let plen = part.unicode_len();
    if plen > 0 && part.get_char(0) == '/' {
        return String::from_str(part);
    }
    let blen = base.unicode_len();
    let mut r = String::from_str(base);
    if blen == 0 || base.get_char(blen - 1) == '/' {
        r.append(part);
    } else {
        assert(!(base@.len() == 0 || base@.last() == '/'));
        r.append("/");
        r.append(part);
        proof {
            reveal_strlit("/");
            assert(r@ =~= base@ + seq!['/'] + part@);
        }
    }
    r
}

impl ConfigService {
    /// Resolves the service's working directory: its `base_dir`, or
    /// `root/<name>` for a git-backed service; exactly one of the two must be set.
    pub fn work_dir(&self, name: &str, root: &str) -> (r: Result<String, ConfigError>)
        ensures
            match (r, spec_work_dir(*self, name@, root@)) {
                (Ok(d), Ok(e)) => d@ == e,
                (Err(a), Err(b)) => a == b,
                _ => false,
            },
    {
        match (&self.base_dir, &self.git_uri) {
            (Some(d), None) => Ok(d.clone()),
            (None, Some(_)) => Ok(join(root, name)),
            (Some(_), Some(_)) => Err(ConfigError::BothSources),
            (None, None) => Err(ConfigError::NoSource),
        }
    }
}

impl Config {
    /// The configuration used when no file is given: no services, root `""`.
    pub fn empty() -> (r: Config)
        ensures
            r.debug.is_none(),
            r.root@.len() == 0,
            r.services@.len() == 0,
    {
        Config { debug: None, root: String::new(), services: Vec::new() }
    }

    /// Whether diagnostic output is switched on.
    pub fn debug_allowed(&self) -> (r: bool)
        ensures
            r == (self.debug == Some(true)),
    {
        match self.debug {
            Some(v) => v,
            None => false,
        }
    }

    /// The position of the service called `name`, if there is one.
    pub fn find(&self, name: &str) -> (r: Option<usize>)
        requires
            names_unique(self.services@),
        ensures
            match r {
                Some(i) => i < self.services@.len() && self.services@[i as int].0@ == name@,
                None => forall|i: int|
                    0 <= i < self.services@.len() ==> #[trigger] self.services@[i].0@ != name@,
            },
    {
        let mut i: usize = 0;
        while i < self.services.len()
            invariant
                i <= self.services@.len(),
                forall|k: int| 0 <= k < i ==> #[trigger] self.services@[k].0@ != name@,
            decreases self.services@.len() - i,
        {
            if str_eq(self.services[i].0.as_str(), name) {
                return Some(i);
            }
            i = i + 1;
        }
        None
    }
}

/// Character-wise equality of two strings.
pub fn str_eq(a: &str, b: &str) -> (r: bool)
    ensures
        r == (a@ == b@),
{
    let n = a.unicode_len();
    if n != b.unicode_len() {
        return false;
    }
    let mut i: usize = 0;
    while i < n
        invariant
            n == a@.len() == b@.len(),
            i <= n,
            a@.subrange(0, i as int) == b@.subrange(0, i as int),
        decreases n - i,
    {
        if a.get_char(i) != b.get_char(i) {
            assert(a@[i as int] != b@[i as int]);
            return false;
        }
        assert(a@.subrange(0, i + 1) =~= a@.subrange(0, i as int).push(a@[i as int]));
        assert(b@.subrange(0, i + 1) =~= b@.subrange(0, i as int).push(b@[i as int]));
        i = i + 1;
    }
    assert(a@ =~= a@.subrange(0, n as int));
    assert(b@ =~= b@.subrange(0, n as int));
    true
}

} // verus!
