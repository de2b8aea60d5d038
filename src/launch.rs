use vstd::prelude::*;

use crate::config::{spec_work_dir, ConfigError, ConfigService};

verus! {

/// The words of a command line as the `shell_words` crate splits them, or
/// `None` where a quote is left open.
pub uninterp spec fn shell_words_of(line: Seq<char>) -> Option<Seq<Seq<char>>>;

/// Relies on `shell_words::split`: it depends on the line alone, fails only on
/// an unmatched quote, and splits an empty line into no words.
#[verifier::external_body]
fn shell_split(line: &str) -> (r: Option<Vec<String>>)
    ensures
        match r {
            Some(w) => shell_words_of(line@) == Some(strs(w@)),
            None => shell_words_of(line@).is_none(),
        },
        line@.len() == 0 ==> (r.is_some() && r->0@.len() == 0),
{
    shell_words::split(line).ok()
}

/// The characters of each string.
pub open spec fn strs(v: Seq<String>) -> Seq<Seq<char>> {
    v.map_values(|s: String| s@)
}

/// The characters of each pair of strings.
pub open spec fn pairs(v: Seq<(String, String)>) -> Seq<(Seq<char>, Seq<char>)> {
    v.map_values(|p: (String, String)| (p.0@, p.1@))
}

/// The index of the first space in `s`, or `-1` where there is none.
pub open spec fn first_space(s: Seq<char>) -> int {
    if exists|i: int| is_first_space(s, i) {
        choose|i: int| is_first_space(s, i)
    } else {
        -1
    }
}

pub open spec fn is_first_space(s: Seq<char>, i: int) -> bool {
    &&& 0 <= i < s.len()
    &&& s[i] == ' '
    &&& forall|k: int| 0 <= k < i ==> s[k] != ' '
}

/// Why a service cannot be launched.
#[derive(Debug, Clone, Copy, PartialEq, Eq, Structural)]
pub enum ServiceError {
    /// The working directory cannot be resolved.
    Config(ConfigError),
    /// The run command has no space, so no program with arguments.
    MissingArguments,
    /// The arguments leave a quote open.
    UnbalancedQuotes,
}

/// Program, arguments, working directory and environment of a launch.
pub type LaunchView = (Seq<char>, Seq<Seq<char>>, Seq<char>, Seq<(Seq<char>, Seq<char>)>);

/// Everything needed to start a service as a process group.
#[derive(Debug)]
pub struct LaunchSpec {
    pub program: String,
    pub args: Vec<String>,
    pub dir: String,
    /// Environment entries, applied in order: `PATH` first, then the service's own.
    pub env: Vec<(String, String)>,
}

impl View for LaunchSpec {
    type V = LaunchView;

    open spec fn view(&self) -> LaunchView {
        (self.program@, strs(self.args@), self.dir@, pairs(self.env@))
    }
}

/// The environment of a launch: the daemon's `PATH`, then the overrides.
pub open spec fn launch_env(path: Seq<char>, overrides: Seq<(String, String)>) -> Seq<
    (Seq<char>, Seq<char>),
> {
    seq![("PATH"@, path)] + pairs(overrides)
}

/// How service `name` is launched: its run command is split at the first
/// space into the program and a shell-quoted argument string.
pub open spec fn spec_launch(
    svc: ConfigService,
    name: Seq<char>,
    root: Seq<char>,
    path: Seq<char>,
) -> Result<LaunchView, ServiceError> {
    let line = svc.run_command@;
    let k = first_space(line);
    match spec_work_dir(svc, name, root) {
        Err(e) => Err(ServiceError::Config(e)),
        Ok(dir) => if k < 0 {
            Err(ServiceError::MissingArguments)
        } else {
            match shell_words_of(line.subrange(k + 1, line.len() as int)) {
                None => Err(ServiceError::UnbalancedQuotes),
                Some(words) => Ok((line.subrange(0, k), words, dir, launch_env(path, svc.env@))),
            }
        },
    }
}

/// Splits `s` at its first space.
pub fn split_at_space(s: &str) -> (r: Option<(String, String)>)
    ensures
        match r {
            Some((a, b)) => {
                let k = first_space(s@);
                &&& k >= 0
                &&& a@ == s@.subrange(0, k)
                &&& b@ == s@.subrange(k + 1, s@.len() as int)
            },
            None => first_space(s@) == -1,
        },
{
    let n = s.unicode_len();
    let mut i: usize = 0;
    while i < n
        invariant
            n == s@.len(),
            i <= n,
            forall|k: int| 0 <= k < i ==> s@[k] != ' ',
        decreases n - i,
    {
        if s.get_char(i) == ' ' {
            assert(is_first_space(s@, i as int));
            proof {
                let j = choose|j: int| is_first_space(s@, j);
                assert(j == i);
            }
            let a = String::from_str(s.substring_char(0, i));
            let b = String::from_str(s.substring_char(i + 1, n));
            return Some((a, b));
        }
        i = i + 1;
    }
    assert(!exists|j: int| is_first_space(s@, j));
    None
}

fn copy_pairs_onto(out: &mut Vec<(String, String)>, v: &Vec<(String, String)>)
    ensures
        pairs(final(out)@) == pairs(old(out)@) + pairs(v@),
{
    let ghost start = pairs(out@);
    let mut i: usize = 0;
    while i < v.len()
        invariant
            i <= v@.len(),
            pairs(out@) =~= start + pairs(v@.subrange(0, i as int)),
        decreases v@.len() - i,
    {
        let ghost prev = out@;
        let p = (v[i].0.clone(), v[i].1.clone());
        out.push(p);
        assert(out@ == prev.push(p));
        assert(pairs(prev.push(p)) =~= pairs(prev).push((v@[i as int].0@, v@[i as int].1@)));
        assert(v@.subrange(0, i + 1) =~= v@.subrange(0, i as int).push(v@[i as int]));
        assert(pairs(v@.subrange(0, i + 1)) =~= pairs(v@.subrange(0, i as int)).push(
            (v@[i as int].0@, v@[i as int].1@),
        ));
        i = i + 1;
        assert(pairs(out@) =~= start + pairs(v@.subrange(0, i as int)));
    }
    assert(v@.subrange(0, v@.len() as int) =~= v@);
}

impl LaunchSpec {
    /// Puts a launch together from the program, its already split argument
    /// words, the working directory, the daemon's `PATH` and the overrides.
    pub fn assemble(
        program: String,
        words: Vec<String>,
        dir: String,
        path: &str,
        overrides: &Vec<(String, String)>,
    ) -> (r: LaunchSpec)
        ensures
            r@ == (program@, strs(words@), dir@, launch_env(path@, overrides@)),
    {
        let mut env: Vec<(String, String)> = Vec::new();
        env.push((String::from_str("PATH"), String::from_str(path)));
        assert(pairs(env@) =~= seq![("PATH"@, path@)]);
        copy_pairs_onto(&mut env, overrides);
        LaunchSpec { program, args: words, dir, env }
    }
}

impl ConfigService {
    /// How to launch service `name` under sources root `root`, with the
    /// daemon's `PATH` value `path`.
    pub fn launch(&self, name: &str, root: &str, path: &str) -> (r: Result<LaunchSpec, ServiceError>)
        ensures
            match (r, spec_launch(*self, name@, root@, path@)) {
                (Ok(l), Ok(v)) => l@ == v,
                (Err(a), Err(b)) => a == b,
                _ => false,
            },
    {
        let dir = match self.work_dir(name, root) {
            Ok(d) => d,
            Err(e) => return Err(ServiceError::Config(e)),
        };
        let (program, rest) = match split_at_space(self.run_command.as_str()) {
            Some(parts) => parts,
            None => return Err(ServiceError::MissingArguments),
        };
        let words = match shell_split(rest.as_str()) {
            Some(w) => w,
            None => return Err(ServiceError::UnbalancedQuotes),
        };
        Ok(LaunchSpec::assemble(program, words, dir, path, &self.env))
    }
}

} // verus!
