use vstd::prelude::*;

use crate::config::{join, join_path, Config, ConfigError, ConfigService};
use crate::launch::{spec_launch, LaunchSpec, ServiceError};

verus! {

/// The suffix of the directory that an update clones into beside the live one.
pub const STAGING_SUFFIX: &'static str = "-update-tmp";

/// Where the working copy of git-backed service `name` lives.
pub open spec fn spec_repo_dir(root: Seq<char>, name: Seq<char>) -> Seq<char> {
    join_path(root, name)
}

/// Where an update of service `name` clones the new source before it replaces
/// the working copy.
pub open spec fn spec_staging_dir(root: Seq<char>, name: Seq<char>) -> Seq<char> {
    join_path(root, name + STAGING_SUFFIX@)
}

/// The private key file `key_file` under the user's `.ssh` directory.
pub open spec fn spec_key_path(home: Seq<char>, key_file: Seq<char>) -> Seq<char> {
    home + "/.ssh/"@ + key_file
}

/// The working copy of git-backed service `name`.
pub fn repo_dir(root: &str, name: &str) -> (r: String)
    ensures
        r@ == spec_repo_dir(root@, name@),
{
    join(root, name)
}

/// The staging directory of an update of service `name`.
pub fn staging_dir(root: &str, name: &str) -> (r: String)
    ensures
        r@ == spec_staging_dir(root@, name@),
{
    let mut n = String::from_str(name);
    n.append(STAGING_SUFFIX);
    join(root, n.as_str())
}

/// The path of an SSH key file given by name relative to `~/.ssh`.
pub fn key_path(home: &str, key_file: &str) -> (r: String)
    ensures
        r@ == spec_key_path(home@, key_file@),
{
    let mut r = String::from_str(home);
    r.append("/.ssh/");
    r.append(key_file);
    r
}

/// The user name for SSH authentication: the one in the URL, else `git`.
pub fn ssh_user(from_url: Option<&str>) -> (r: String)
    ensures
        match from_url {
            Some(u) => r@ == u@,
            None => r@ == "git"@,
        },
{
    match from_url {
        Some(u) => String::from_str(u),
        None => String::from_str("git"),
    }
}

/// A fetch brought something new exactly when it received any bytes.
pub fn update_available(received_bytes: usize) -> (r: bool)
    ensures
        r == (received_bytes > 0),
{
    received_bytes > 0
}

/// A clone to perform: from where, into which directory, with which key.
#[derive(Debug)]
pub struct CloneSpec {
    pub uri: String,
    pub dest: String,
    /// The private key to authenticate with; the default identity where `None`.
    pub key_path: Option<String>,
}

/// The clone of a git-backed service into `dest`, with plain values:
/// source, destination, key path.
pub open spec fn spec_clone(svc: ConfigService, dest: Seq<char>, home: Seq<char>) -> Option<
    (Seq<char>, Seq<char>, Option<Seq<char>>),
> {
    match svc.git_uri {
        None => None,
        Some(u) => Some(
            (
                u@,
                dest,
                match svc.ssh_key_file {
                    Some(f) => Some(spec_key_path(home, f@)),
                    None => None,
                },
            ),
        ),
    }
}

impl CloneSpec {
    pub open spec fn view_parts(&self) -> (Seq<char>, Seq<char>, Option<Seq<char>>) {
        (
            self.uri@,
            self.dest@,
            match self.key_path {
                Some(k) => Some(k@),
                None => None,
            },
        )
    }
}

pub open spec fn clone_parts(c: Option<CloneSpec>) -> Option<(Seq<char>, Seq<char>, Option<Seq<char>>)> {
    match c {
        Some(c) => Some(c.view_parts()),
        None => None,
    }
}

impl ConfigService {
    /// How to clone this service's source into `dest`, where it has one; the
    /// key file is looked up under `home`.
    pub fn clone_into(&self, dest: &str, home: &str) -> (r: Option<CloneSpec>)
        ensures
            clone_parts(r) == spec_clone(*self, dest@, home@),
    {
        match &self.git_uri {
            None => None,
            Some(u) => {
                let key = match &self.ssh_key_file {
                    Some(f) => Some(key_path(home, f.as_str())),
                    None => None,
                };
                Some(CloneSpec { uri: u.clone(), dest: String::from_str(dest), key_path: key })
            },
        }
    }
}

/// What the daemon does with one configured service while it starts.
#[derive(Debug)]
pub enum StartStep {
    /// The service is disabled: nothing is started.
    Skip,
    /// The service cannot be launched: the reason is reported, nothing is started.
    Invalid(ServiceError),
    /// Make sure the source is present (where `clone` is given), then launch.
    Launch { clone: Option<CloneSpec>, spec: LaunchSpec },
}

/// Whether `step` is what starting service `svc` called `name` takes.
pub open spec fn planned(
    step: StartStep,
    svc: ConfigService,
    name: Seq<char>,
    root: Seq<char>,
    path: Seq<char>,
    home: Seq<char>,
) -> bool {
    if !svc.enabled {
        step is Skip
    } else {
        match (step, spec_launch(svc, name, root, path)) {
            (StartStep::Invalid(a), Err(b)) => a == b,
            (StartStep::Launch { clone, spec }, Ok(v)) => spec@ == v && clone_parts(clone)
                == spec_clone(svc, spec_repo_dir(root, name), home),
            _ => false,
        }
    }
}

impl Config {
    /// The start of every configured service, in configuration order, with
    /// the daemon's `PATH` value `path` and home directory `home`.
    pub fn start_plan(&self, path: &str, home: &str) -> (r: Vec<StartStep>)
        ensures
            r@.len() == self.services@.len(),
            forall|i: int|
                0 <= i < r@.len() ==> planned(
                    #[trigger] r@[i],
                    self.services@[i].1,
                    self.services@[i].0@,
                    self.root@,
                    path@,
                    home@,
                ),
    {
        let mut r: Vec<StartStep> = Vec::new();
        let mut i: usize = 0;
        while i < self.services.len()
            invariant
                i <= self.services@.len(),
                r@.len() == i,
                forall|k: int|
                    0 <= k < i ==> planned(
                        #[trigger] r@[k],
                        self.services@[k].1,
                        self.services@[k].0@,
                        self.root@,
                        path@,
                        home@,
                    ),
            decreases self.services@.len() - i,
        {
            let name = self.services[i].0.as_str();
            let svc = &self.services[i].1;
            let step = if !svc.enabled {
                StartStep::Skip
            } else {
                match svc.launch(name, self.root.as_str(), path) {
                    Err(e) => StartStep::Invalid(e),
                    Ok(spec) => {
                        let dir = repo_dir(self.root.as_str(), name);
                        StartStep::Launch { clone: svc.clone_into(dir.as_str(), home), spec }
                    },
                }
            };
            r.push(step);
            i = i + 1;
        }
        r
    }
}

/// The staging directory of an update never coincides with the working copy
/// it replaces: its path is longer by the suffix.
pub proof fn lemma_staging_dir_differs(root: Seq<char>, name: Seq<char>)
    ensures
        spec_staging_dir(root, name).len() == spec_repo_dir(root, name).len() + STAGING_SUFFIX@.len(),
        spec_staging_dir(root, name) != spec_repo_dir(root, name),
{
    reveal_strlit("-update-tmp");
    let p = name + STAGING_SUFFIX@;
    if name.len() > 0 {
        assert(p[0] == name[0]);
    } else {
        assert(p =~= STAGING_SUFFIX@);
    }
}

/// A service that sets both `base_dir` and `git_uri`, or neither, is refused
/// with a configuration error, and its start launches nothing.
pub proof fn lemma_invalid_source_rejected(
    svc: ConfigService,
    name: Seq<char>,
    root: Seq<char>,
    path: Seq<char>,
    home: Seq<char>,
    step: StartStep,
)
    requires
        svc.base_dir.is_some() == svc.git_uri.is_some(),
        planned(step, svc, name, root, path, home),
    ensures
        svc.base_dir.is_some() ==> spec_launch(svc, name, root, path) == Err::<
            crate::launch::LaunchView,
            ServiceError,
        >(ServiceError::Config(ConfigError::BothSources)),
        svc.base_dir.is_none() ==> spec_launch(svc, name, root, path) == Err::<
            crate::launch::LaunchView,
            ServiceError,
        >(ServiceError::Config(ConfigError::NoSource)),
        !(step is Launch),
{
}

} // verus!
