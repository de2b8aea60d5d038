use vstd::prelude::*;

use crate::config::{str_eq, ConfigService};
use crate::launch::strs;

verus! {

/// Seconds between two reconciliation passes.
pub const RECONCILE_INTERVAL_SECS: u64 = 60;

/// The daemon's lifecycle.
#[derive(Debug, Clone, Copy, PartialEq, Eq, Structural)]
pub enum Phase {
    Starting,
    Running,
    Draining,
    Stopped,
}

/// A started service: its name, the id of its process group, its working directory.
#[derive(Debug)]
pub struct RunningService {
    pub name: String,
    pub group: u32,
    pub dir: String,
}

/// A supervised service as plain values: name, process group, working directory.
pub type Entry = (Seq<char>, u32, Seq<char>);

impl View for RunningService {
    type V = Entry;

    open spec fn view(&self) -> Entry {
        (self.name@, self.group, self.dir@)
    }
}

pub open spec fn entries(v: Seq<RunningService>) -> Seq<Entry> {
    v.map_values(|t: RunningService| t@)
}

/// No two supervised services share a name.
pub open spec fn distinct_names(e: Seq<Entry>) -> bool {
    forall|i: int, j: int| 0 <= i < j < e.len() ==> #[trigger] e[i].0 != #[trigger] e[j].0
}

pub open spec fn is_running(e: Seq<Entry>, name: Seq<char>) -> bool {
    exists|i: int| 0 <= i < e.len() && #[trigger] e[i].0 == name
}

/// The process groups, in tracking order.
pub open spec fn groups(e: Seq<Entry>) -> Seq<u32> {
    e.map_values(|x: Entry| x.1)
}

/// The entries other than the one called `name`, order kept.
pub open spec fn without(e: Seq<Entry>, name: Seq<char>) -> Seq<Entry>
    decreases e.len(),
{
    if e.len() == 0 {
        e
    } else {
        let r = without(e.drop_last(), name);
        if e.last().0 == name {
            r
        } else {
            r.push(e.last())
        }
    }
}

/// The entries with the one called `name` moved to process group `g`.
pub open spec fn regrouped(e: Seq<Entry>, name: Seq<char>, g: u32) -> Seq<Entry> {
    Seq::new(e.len(), |i: int| if e[i].0 == name { (e[i].0, g, e[i].2) } else { e[i] })
}

/// The services that a reconciliation pass examines: those with a git source
/// that are supervised, in configuration order.
pub open spec fn targets(services: Seq<(String, ConfigService)>, e: Seq<Entry>) -> Seq<Seq<char>>
    decreases services.len(),
{
    if services.len() == 0 {
        Seq::empty()
    } else {
        let r = targets(services.drop_last(), e);
        let last = services.last();
        if last.1.git_uri.is_some() && is_running(e, last.0@) {
            r.push(last.0@)
        } else {
            r
        }
    }
}

/// Where one service's update transition stands.
#[derive(Debug, Clone, Copy, PartialEq, Eq, Structural)]
pub enum Stage {
    /// Fetch from the origin remote to see whether anything new arrived.
    Check,
    /// Clone the upstream head into the staging directory.
    Clone,
    /// Kill the service's current process group.
    Kill,
    /// Remove the old working directory and move the staging one into place.
    Replace,
    /// Launch the run command again in the new working directory.
    Spawn,
    /// Finished; the running process group stays supervised as it was.
    Kept,
    /// Finished; the service now runs as the given process group.
    Replaced(u32),
    /// Finished; the service is left stopped and no longer supervised.
    Dropped,
}

/// What came of carrying out a stage.
#[derive(Debug, Clone, Copy, PartialEq, Eq, Structural)]
pub enum StepOutcome {
    Failed,
    /// The check found nothing new upstream.
    NothingNew,
    Succeeded,
    /// The launch started the given process group.
    Spawned(u32),
}

pub open spec fn is_finished(s: Stage) -> bool {
    s is Kept || s is Replaced || s is Dropped
}

/// The stage that follows `s` given what came of it. Before the kill, any
/// failure keeps the old process; from the kill on, any failure drops the service.
pub open spec fn next_stage(s: Stage, o: StepOutcome) -> Stage {
    match s {
        Stage::Check => if o == StepOutcome::Succeeded { Stage::Clone } else { Stage::Kept },
        Stage::Clone => if o == StepOutcome::Succeeded { Stage::Kill } else { Stage::Kept },
        Stage::Kill => if o == StepOutcome::Succeeded { Stage::Replace } else { Stage::Dropped },
        Stage::Replace => if o == StepOutcome::Succeeded { Stage::Spawn } else { Stage::Dropped },
        Stage::Spawn => match o {
            StepOutcome::Spawned(g) => Stage::Replaced(g),
            _ => Stage::Dropped,
        },
        _ => s,
    }
}

/// The supervised services once a transition of service `name` ends in `s`.
pub open spec fn settled(e: Seq<Entry>, name: Seq<char>, s: Stage) -> Seq<Entry> {
    match s {
        Stage::Replaced(g) => regrouped(e, name, g),
        Stage::Dropped => without(e, name),
        _ => e,
    }
}

impl Stage {
    /// Advances a transition by what came of the current stage.
    pub fn next(self, o: StepOutcome) -> (r: Stage)
        ensures
            r == next_stage(self, o),
    {
        match self {
            Stage::Check => if o == StepOutcome::Succeeded { Stage::Clone } else { Stage::Kept },
            Stage::Clone => if o == StepOutcome::Succeeded { Stage::Kill } else { Stage::Kept },
            Stage::Kill => if o == StepOutcome::Succeeded { Stage::Replace } else { Stage::Dropped },
            Stage::Replace => if o == StepOutcome::Succeeded { Stage::Spawn } else { Stage::Dropped },
            Stage::Spawn => match o {
                StepOutcome::Spawned(g) => Stage::Replaced(g),
                _ => Stage::Dropped,
            },
            _ => self,
        }
    }

    /// Whether the transition has ended.
    pub fn finished(&self) -> (r: bool)
        ensures
            r == is_finished(*self),
    {
        match self {
            Stage::Kept | Stage::Replaced(_) | Stage::Dropped => true,
            _ => false,
        }
    }
}

/// What the main loop does after one tick.
#[derive(Debug)]
pub enum TickAction {
    /// Sleep until the next tick.
    Wait,
    /// Run an update transition for each named service, one after the other.
    Reconcile(Vec<String>),
    /// Kill each of these process groups, then finish the drain.
    Drain(Vec<u32>),
}

/// The reconciliation loop's state: the phase and the services it runs.
#[derive(Debug)]
pub struct Supervisor {
    pub phase: Phase,
    pub running: Vec<RunningService>,
    /// When the last reconciliation pass ran, in seconds on the loop's clock.
    pub last_pass: u64,
}

fn copy_running(t: &RunningService) -> (r: RunningService)
    ensures
        r@ == t@,
{
    RunningService { name: t.name.clone(), group: t.group, dir: t.dir.clone() }
}

impl Supervisor {
    pub open spec fn entries(&self) -> Seq<Entry> {
        entries(self.running@)
    }

    /// Each supervised service appears once.
    pub open spec fn wf(&self) -> bool {
        distinct_names(self.entries())
    }

    /// Nothing supervised yet, in the starting phase.
    pub fn new() -> (r: Supervisor)
        ensures
            r.phase == Phase::Starting,
            r.entries().len() == 0,
            r.wf(),
            r.last_pass == 0,
    {
        let r = Supervisor { phase: Phase::Starting, running: Vec::new(), last_pass: 0 };
        assert(r.entries() =~= Seq::<Entry>::empty());
        r
    }

    /// The position of the service called `name` among the supervised ones.
    pub fn position(&self, name: &str) -> (r: Option<usize>)
        ensures
            match r {
                Some(i) => i < self.entries().len() && self.entries()[i as int].0 == name@,
                None => !is_running(self.entries(), name@),
            },
    {
        let mut i: usize = 0;
        while i < self.running.len()
            invariant
                i <= self.running@.len(),
                forall|k: int| 0 <= k < i ==> #[trigger] self.entries()[k].0 != name@,
            decreases self.running@.len() - i,
        {
            if str_eq(self.running[i].name.as_str(), name) {
                return Some(i);
            }
            i = i + 1;
        }
        None
    }

    /// The process group of the service called `name`, if it is supervised.
    pub fn group_of(&self, name: &str) -> (r: Option<u32>)
        ensures
            match r {
                Some(g) => exists|i: int|
                    0 <= i < self.entries().len() && #[trigger] self.entries()[i] == (
                    name@,
                    g,
                    self.entries()[i].2,
                ),
                None => !is_running(self.entries(), name@),
            },
    {
        match self.position(name) {
            Some(i) => {
                let g = self.running[i].group;
                assert(self.entries()[i as int] == (name@, g, self.entries()[i as int].2));
                Some(g)
            },
            None => None,
        }
    }

    /// The process groups of all supervised services, in tracking order.
    pub fn all_groups(&self) -> (r: Vec<u32>)
        ensures
            r@ == groups(self.entries()),
    {
        let mut r: Vec<u32> = Vec::new();
        let mut i: usize = 0;
        while i < self.running.len()
            invariant
                i <= self.running@.len(),
                r@ =~= groups(self.entries()).subrange(0, i as int),
            decreases self.running@.len() - i,
        {
            r.push(self.running[i].group);
            i = i + 1;
        }
        r
    }

    /// Records a service started while the daemon starts. Nothing changes
    /// unless the daemon is starting and no service of that name is supervised.
    pub fn track(&mut self, name: String, group: u32, dir: String) -> (r: bool)
        ensures
            r == (old(self).phase == Phase::Starting && !is_running(old(self).entries(), name@)),
            r ==> final(self).entries() == old(self).entries().push((name@, group, dir@)),
            !r ==> final(self).entries() == old(self).entries(),
            final(self).phase == old(self).phase,
            final(self).last_pass == old(self).last_pass,
            old(self).wf() ==> final(self).wf(),
    {
        if self.phase != Phase::Starting {
            return false;
        }
        if self.position(name.as_str()).is_some() {
            return false;
        }
        let ghost prev = self.running@;
        let t = RunningService { name, group, dir };
        self.running.push(t);
        assert(self.running@ == prev.push(t));
        assert(entries(prev.push(t)) =~= entries(prev).push(t@));
        assert(forall|i: int| 0 <= i < entries(prev).len() ==> #[trigger] entries(prev)[i].0 != name@);
        true
    }

    /// Ends the starting phase: the loop runs, and the first pass is due
    /// one interval after `now`.
    pub fn begin_running(&mut self, now: u64) -> (r: bool)
        ensures
            r == (old(self).phase == Phase::Starting),
            r ==> final(self).phase == Phase::Running && final(self).last_pass == now,
            !r ==> final(self).phase == old(self).phase && final(self).last_pass
                == old(self).last_pass,
            final(self).entries() == old(self).entries(),
    {
        if self.phase != Phase::Starting {
            return false;
        }
        self.phase = Phase::Running;
        self.last_pass = now;
        true
    }

    /// The names of the services with a git source that are supervised, in
    /// configuration order.
    pub fn pass_targets(&self, services: &Vec<(String, ConfigService)>) -> (r: Vec<String>)
        ensures
            strs(r@) == targets(services@, self.entries()),
    {
        let mut r: Vec<String> = Vec::new();
        let mut i: usize = 0;
        while i < services.len()
            invariant
                i <= services@.len(),
                strs(r@) == targets(services@.subrange(0, i as int), self.entries()),
            decreases services@.len() - i,
        {
            let ghost prev = r@;
            assert(services@.subrange(0, i + 1).drop_last() =~= services@.subrange(0, i as int));
            if services[i].1.git_uri.is_some() && self.position(services[i].0.as_str()).is_some() {
                let n = services[i].0.clone();
                r.push(n);
                assert(strs(prev.push(n)) =~= strs(prev).push(n@));
            }
            i = i + 1;
        }
        assert(services@.subrange(0, services@.len() as int) =~= services@);
        r
    }

    /// One tick of the running loop. A set termination flag starts the drain;
    /// otherwise, once an interval has passed since the last pass, a new pass
    /// is due and its time recorded.
    pub fn tick(&mut self, services: &Vec<(String, ConfigService)>, terminate: bool, now: u64) -> (r:
        TickAction)
        ensures
            final(self).entries() == old(self).entries(),
            old(self).phase != Phase::Running ==> (r is Wait && *final(self) == *old(self)),
            old(self).phase == Phase::Running && terminate ==> match r {
                TickAction::Drain(gs) => gs@ == groups(old(self).entries()) && final(self).phase
                    == Phase::Draining && final(self).last_pass == old(self).last_pass,
                _ => false,
            },
            old(self).phase == Phase::Running && !terminate && now >= old(self).last_pass
                + RECONCILE_INTERVAL_SECS ==> match r {
                TickAction::Reconcile(names) => strs(names@) == targets(
                    services@,
                    old(self).entries(),
                ) && final(self).phase == Phase::Running && final(self).last_pass == now,
                _ => false,
            },
            old(self).phase == Phase::Running && !terminate && now < old(self).last_pass
                + RECONCILE_INTERVAL_SECS ==> (r is Wait && *final(self) == *old(self)),
    {
        if self.phase != Phase::Running {
            return TickAction::Wait;
        }
        if terminate {
            let gs = self.all_groups();
            self.phase = Phase::Draining;
            return TickAction::Drain(gs);
        }
        if now >= self.last_pass && now - self.last_pass >= RECONCILE_INTERVAL_SECS {
            let names = self.pass_targets(services);
            self.last_pass = now;
            return TickAction::Reconcile(names);
        }
        TickAction::Wait
    }

    /// Applies the end of service `name`'s update transition to the supervised set.
    pub fn settle(&mut self, name: &str, s: Stage) -> (r: bool)
        ensures
            r == is_finished(s),
            final(self).entries() == settled(old(self).entries(), name@, s),
            old(self).wf() ==> final(self).wf(),
            final(self).phase == old(self).phase,
            final(self).last_pass == old(self).last_pass,
    {
        match s {
            Stage::Replaced(g) => {
                let mut out: Vec<RunningService> = Vec::new();
                let mut i: usize = 0;
                while i < self.running.len()
                    invariant
                        i <= self.running@.len(),
                        entries(out@) =~= regrouped(self.entries(), name@, g).subrange(0, i as int),
                    decreases self.running@.len() - i,
                {
                    let ghost prev = out@;
                    let mut t = copy_running(&self.running[i]);
                    if str_eq(t.name.as_str(), name) {
                        t.group = g;
                    }
                    out.push(t);
                    assert(entries(prev.push(t)) =~= entries(prev).push(t@));
                    i = i + 1;
                }
                self.running = out;
                assert(forall|k: int| 0 <= k < self.entries().len() ==> #[trigger] self.entries()[k].0
                    == regrouped(old(self).entries(), name@, g)[k].0);
                true
            },
            Stage::Dropped => {
                let mut out: Vec<RunningService> = Vec::new();
                let mut i: usize = 0;
                while i < self.running.len()
                    invariant
                        i <= self.running@.len(),
                        entries(out@) == without(self.entries().subrange(0, i as int), name@),
                    decreases self.running@.len() - i,
                {
                    let ghost prev = out@;
                    assert(self.entries().subrange(0, i + 1).drop_last() =~= self.entries().subrange(
                        0,
                        i as int,
                    ));
                    if !str_eq(self.running[i].name.as_str(), name) {
                        let t = copy_running(&self.running[i]);
                        out.push(t);
                        assert(entries(prev.push(t)) =~= entries(prev).push(t@));
                    }
                    i = i + 1;
                }
                assert(self.entries().subrange(0, self.entries().len() as int) =~= self.entries());
                proof {
                    if self.wf() {
                        lemma_without_distinct(self.entries(), name@);
                    }
                }
                self.running = out;
                true
            },
            Stage::Kept => true,
            _ => false,
        }
    }

    /// Ends the drain once every process group has been sent its kill: the
    /// daemon is stopped and tracks nothing.
    pub fn finish_drain(&mut self) -> (r: bool)
        ensures
            r == (old(self).phase == Phase::Draining),
            r ==> final(self).phase == Phase::Stopped && final(self).entries().len() == 0,
            old(self).wf() ==> final(self).wf(),
            !r ==> *final(self) == *old(self),
    {
        if self.phase != Phase::Draining {
            return false;
        }
        self.phase = Phase::Stopped;
        self.running = Vec::new();
        assert(self.entries() =~= Seq::<Entry>::empty());
        true
    }
}


/// A transition whose clone fails ends with the old process group still
/// running and the supervised set exactly as it was.
pub proof fn lemma_clone_failure_keeps_service(e: Seq<Entry>, name: Seq<char>)
    ensures
        ({
            let s = next_stage(next_stage(Stage::Check, StepOutcome::Succeeded), StepOutcome::Failed);
            s == Stage::Kept && settled(e, name, s) == e
        }),
{
}

/// A transition in which every step succeeds leaves the service running as
/// exactly one process group, the new one, and every other service as it was.
pub proof fn lemma_update_success_single_group(e: Seq<Entry>, name: Seq<char>, g: u32)
    requires
        distinct_names(e),
        is_running(e, name),
    ensures
        ({
            let s1 = next_stage(Stage::Check, StepOutcome::Succeeded);
            let s2 = next_stage(s1, StepOutcome::Succeeded);
            let s3 = next_stage(s2, StepOutcome::Succeeded);
            let s4 = next_stage(s3, StepOutcome::Succeeded);
            let s = next_stage(s4, StepOutcome::Spawned(g));
            let f = settled(e, name, s);
            &&& s1 == Stage::Clone && s2 == Stage::Kill && s3 == Stage::Replace && s4 == Stage::Spawn
            &&& s == Stage::Replaced(g)
            &&& f.len() == e.len()
            &&& distinct_names(f)
            &&& exists|i: int| 0 <= i < f.len() && #[trigger] f[i].0 == name && f[i].1 == g
            &&& forall|i: int| 0 <= i < f.len() && #[trigger] f[i].0 == name ==> f[i].1 == g
            &&& forall|i: int| 0 <= i < f.len() && #[trigger] f[i].0 != name ==> f[i] == e[i]
        }),
{
    let f = regrouped(e, name, g);
    assert(forall|i: int| 0 <= i < f.len() ==> #[trigger] f[i].0 == e[i].0);
    let i = choose|i: int| 0 <= i < e.len() && #[trigger] e[i].0 == name;
    assert(f[i].0 == name && f[i].1 == g);
}

/// A transition whose kill fails ends with the service dropped: no longer
/// supervised, never relaunched, the others kept in order.
pub proof fn lemma_kill_failure_drops_service(e: Seq<Entry>, name: Seq<char>, o: StepOutcome)
    ensures
        ({
            let s = next_stage(
                next_stage(next_stage(Stage::Check, StepOutcome::Succeeded), StepOutcome::Succeeded),
                StepOutcome::Failed,
            );
            &&& s == Stage::Dropped
            &&& next_stage(s, o) == Stage::Dropped
            &&& !is_running(settled(e, name, s), name)
            &&& settled(e, name, s) == without(e, name)
        }),
{
    lemma_without_removes(e, name);
}

/// Every entry kept by `without` comes from the original sequence.
proof fn lemma_without_members(e: Seq<Entry>, name: Seq<char>)
    ensures
        forall|k: int|
            0 <= k < without(e, name).len() ==> exists|j: int|
                0 <= j < e.len() && #[trigger] without(e, name)[k] == e[j] && e[j].0 != name,
    decreases e.len(),
{
    if e.len() > 0 {
        lemma_without_members(e.drop_last(), name);
        let r = without(e.drop_last(), name);
        assert forall|k: int| 0 <= k < without(e, name).len() implies exists|j: int|
            0 <= j < e.len() && #[trigger] without(e, name)[k] == e[j] && e[j].0 != name by {
            if k < r.len() {
                let j = choose|j: int|
                    0 <= j < e.drop_last().len() && #[trigger] r[k] == e.drop_last()[j]
                        && e.drop_last()[j].0 != name;
                assert(without(e, name)[k] == e[j]);
            } else {
                assert(without(e, name)[k] == e[e.len() - 1]);
            }
        }
    }
}

/// Removing a service keeps the names distinct.
proof fn lemma_without_distinct(e: Seq<Entry>, name: Seq<char>)
    requires
        distinct_names(e),
    ensures
        distinct_names(without(e, name)),
    decreases e.len(),
{
    if e.len() > 0 {
        let d = e.drop_last();
        assert(distinct_names(d)) by {
            assert forall|i: int, j: int| 0 <= i < j < d.len() implies #[trigger] d[i].0
                != #[trigger] d[j].0 by {
                assert(d[i] == e[i] && d[j] == e[j]);
            }
        }
        lemma_without_distinct(d, name);
        lemma_without_members(d, name);
        let r = without(d, name);
        if e.last().0 != name {
            let w = r.push(e.last());
            assert forall|i: int, j: int| 0 <= i < j < w.len() implies #[trigger] w[i].0
                != #[trigger] w[j].0 by {
                if j == r.len() {
                    let jj = choose|jj: int| 0 <= jj < d.len() && #[trigger] r[i] == d[jj] && d[jj].0 != name;
                    assert(d[jj] == e[jj]);
                    assert(w[i] == r[i]);
                } else {
                    assert(w[i] == r[i] && w[j] == r[j]);
                }
            }
        }
    }
}

proof fn lemma_without_removes(e: Seq<Entry>, name: Seq<char>)
    ensures
        !is_running(without(e, name), name),
    decreases e.len(),
{
    if e.len() > 0 {
        lemma_without_removes(e.drop_last(), name);
        let r = without(e.drop_last(), name);
        if e.last().0 != name {
            assert forall|i: int| 0 <= i < r.push(e.last()).len() implies #[trigger] r.push(
                e.last(),
            )[i].0 != name by {
                if i < r.len() {
                    assert(r.push(e.last())[i] == r[i]);
                }
            }
        }
    }
}

} // verus!
