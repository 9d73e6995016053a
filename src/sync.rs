use vstd::prelude::*;
use crate::config::{join, join_path, AppConfig, SubmoduleConfig, SubmoduleView};
use crate::registry::{candidate_names, parse_names};

verus! {

/// The positions, in registry order, among the first `n` entries of `es`
/// whose name is one of `ns`.
pub open spec fn selected(es: Seq<SubmoduleView>, ns: Seq<Seq<char>>, n: int) -> Seq<int>
    decreases n,
{
    if n <= 0 {
        Seq::<int>::empty()
    } else {
        let p = selected(es, ns, n - 1);
        if ns.contains(es[n - 1].name) {
            p.push(n - 1)
        } else {
            p
        }
    }
}

/// The positions of every entry of a registry of `n` entries.
pub open spec fn all_positions(n: int) -> Seq<int> {
    Seq::new(n as nat, |i: int| i)
}

/// Positions as mathematical integers.
pub open spec fn positions(v: Seq<usize>) -> Seq<int> {
    v.map_values(|i: usize| i as int)
}

/// Why a selection of submodules was refused.
#[derive(Debug, Clone, Copy, PartialEq, Eq, Structural)]
pub enum SelectError {
    BlankName,
}

/// Whether `name` is one of `names`.
fn contains_name(names: &Vec<String>, name: &String) -> (r: bool)
    ensures
        r == names@.map_values(|s: String| s@).contains(name@),
{
    let ghost ns = names@.map_values(|s: String| s@);
    let mut i: usize = 0;
    while i < names.len()
        invariant
            i <= names@.len(),
            ns == names@.map_values(|s: String| s@),
            forall|k: int| 0 <= k < i ==> #[trigger] ns[k] != name@,
        decreases names@.len() - i,
    {
        if names[i] == *name {
            assert(ns[i as int] == name@);
            return true;
        }
        i = i + 1;
    }
    false
}

/// The working set of a synchronization: every configured entry when no
/// list is given, else the entries named in the comma-separated list, in
/// registry order. Names that match nothing are left out silently; a list
/// with a blank name is refused.
pub fn select_submodules(config: &AppConfig, wanted: Option<&str>) -> (r: Result<
    Vec<usize>,
    SelectError,
>)
    ensures
        wanted is None ==> r is Ok && positions(r->Ok_0@) == all_positions(config@.len() as int),
        wanted is Some ==> (r is Err <==> exists|k: int|
            0 <= k < candidate_names(wanted->Some_0@).len()
                && #[trigger] candidate_names(wanted->Some_0@)[k].len() == 0),
        wanted is Some && r is Ok ==> positions(r->Ok_0@) == selected(
            config@,
            candidate_names(wanted->Some_0@),
            config@.len() as int,
        ),
{
    let n = config.submodules.len();
    let mut out: Vec<usize> = Vec::new();
    match wanted {
        None => {
            let mut i: usize = 0;
            while i < n
                invariant
                    i <= n,
                    n == config@.len(),
                    positions(out@) == all_positions(i as int),
                decreases n - i,
            {
                let ghost before = out@;
                out.push(i);
                proof {
                    assert(positions(out@) =~= positions(before).push(i as int));
                    assert(positions(out@) =~= all_positions(i + 1));
                }
                i = i + 1;
            }
            Ok(out)
        },
        Some(s) => {
            let names = parse_names(s);
            let ghost ns = candidate_names(s@);
            assert(names@.map_values(|x: String| x@) == ns);
            let mut j: usize = 0;
            while j < names.len()
                invariant
                    j <= names@.len(),
                    wanted == Some(s),
                    ns == candidate_names(s@),
                    names@.map_values(|x: String| x@) == ns,
                    forall|k: int| 0 <= k < j ==> #[trigger] ns[k].len() != 0,
                decreases names@.len() - j,
            {
                if names[j].unicode_len() == 0 {
                    assert(ns[j as int] == names@[j as int]@);
                    assert(j < candidate_names(wanted->Some_0@).len());
                    return Err(SelectError::BlankName);
                }
                j = j + 1;
            }
            let mut i: usize = 0;
            while i < n
                invariant
                    i <= n,
                    n == config@.len(),
                    names@.map_values(|x: String| x@) == ns,
                    wanted == Some(s),
                    ns == candidate_names(s@),
                    forall|k: int| 0 <= k < ns.len() ==> #[trigger] ns[k].len() != 0,
                    positions(out@) == selected(config@, ns, i as int),
                decreases n - i,
            {
                let e = &config.submodules[i];
                assert(config@[i as int] == e@);
                if contains_name(&names, &e.name) {
                    let ghost before = out@;
                    out.push(i);
                    proof {
                        assert(positions(out@) =~= positions(before).push(i as int));
                        assert(positions(out@) =~= selected(config@, ns, i as int).push(i as int));
                    }
                }
                i = i + 1;
            }
            Ok(out)
        },
    }
}


/// Where an entry's content lies: its path under the monorepo root.
pub fn source_path(root: &str, entry: &SubmoduleConfig) -> (r: String)
    ensures
        r@ == join_path(root@, entry.path@),
{
    join(root, entry.path.as_str())
}

/// Where an entry is mirrored to: a directory named after it beside the
/// monorepo, whatever its path inside the monorepo.
pub fn target_path(parent: &str, entry: &SubmoduleConfig) -> (r: String)
    ensures
        r@ == join_path(parent@, entry.name@),
{
    join(parent, entry.name.as_str())
}

/// What was found at a path.
#[derive(Debug, Clone, Copy, PartialEq, Eq, Structural)]
pub enum Probe {
    Missing,
    Directory,
    NotDirectory,
}

/// How the synchronization of one entry ended.
#[derive(Debug, Clone, Copy, PartialEq, Eq, Structural)]
pub enum Outcome {
    Synced,
    SkippedMissingSource,
    SkippedBadTarget,
    Failed,
}

/// What the caller reports back after performing an action.
#[derive(Debug, Clone, Copy, PartialEq, Eq, Structural)]
pub enum Event {
    /// The path that was inspected holds this.
    Probed(Probe),
    /// Creating the target directory, with its ancestors, succeeded or not.
    Created(bool),
    /// The transfer tool exited with success or not.
    ToolExited(bool),
}

/// What the caller is asked to do next, for the entry at a registry position.
#[derive(Debug, Clone, Copy, PartialEq, Eq, Structural)]
pub enum Action {
    InspectSource(usize),
    InspectTarget(usize),
    CreateTarget(usize),
    RunTool(usize),
    Finished,
}

/// Where the synchronization of the current entry stands.
#[derive(Debug, Clone, Copy, PartialEq, Eq, Structural)]
pub enum Phase {
    AwaitSource,
    AwaitTarget,
    AwaitCreate,
    AwaitTool,
}

/// One step of an entry's synchronization.
#[derive(Debug, Clone, Copy, PartialEq, Eq, Structural)]
pub enum Step {
    Next(Phase),
    Done(Outcome),
}

/// Whether `ev` answers the action that `phase` stands for.
pub open spec fn fits(phase: Phase, ev: Event) -> bool {
    match phase {
        Phase::AwaitSource | Phase::AwaitTarget => ev is Probed,
        Phase::AwaitCreate => ev is Created,
        Phase::AwaitTool => ev is ToolExited,
    }
}

/// The rules of one entry: a source that is no directory skips it; a
/// missing target is created first; a target that is no directory skips it;
/// otherwise the tool runs once and its exit decides.
pub open spec fn entry_step(phase: Phase, ev: Event) -> Step {
    match (phase, ev) {
        (Phase::AwaitSource, Event::Probed(Probe::Directory)) => Step::Next(Phase::AwaitTarget),
        (Phase::AwaitSource, _) => Step::Done(Outcome::SkippedMissingSource),
        (Phase::AwaitTarget, Event::Probed(Probe::Missing)) => Step::Next(Phase::AwaitCreate),
        (Phase::AwaitTarget, Event::Probed(Probe::Directory)) => Step::Next(Phase::AwaitTool),
        (Phase::AwaitTarget, _) => Step::Done(Outcome::SkippedBadTarget),
        (Phase::AwaitCreate, Event::Created(true)) => Step::Next(Phase::AwaitTool),
        (Phase::AwaitCreate, _) => Step::Done(Outcome::Failed),
        (Phase::AwaitTool, Event::ToolExited(true)) => Step::Done(Outcome::Synced),
        (Phase::AwaitTool, _) => Step::Done(Outcome::Failed),
    }
}

/// Computes `entry_step`.
pub fn step_of(phase: Phase, ev: Event) -> (r: Step)
    ensures
        r == entry_step(phase, ev),
{
    match (phase, ev) {
        (Phase::AwaitSource, Event::Probed(Probe::Directory)) => Step::Next(Phase::AwaitTarget),
        (Phase::AwaitSource, _) => Step::Done(Outcome::SkippedMissingSource),
        (Phase::AwaitTarget, Event::Probed(Probe::Missing)) => Step::Next(Phase::AwaitCreate),
        (Phase::AwaitTarget, Event::Probed(Probe::Directory)) => Step::Next(Phase::AwaitTool),
        (Phase::AwaitTarget, _) => Step::Done(Outcome::SkippedBadTarget),
        (Phase::AwaitCreate, Event::Created(true)) => Step::Next(Phase::AwaitTool),
        (Phase::AwaitCreate, _) => Step::Done(Outcome::Failed),
        (Phase::AwaitTool, Event::ToolExited(true)) => Step::Done(Outcome::Synced),
        (Phase::AwaitTool, _) => Step::Done(Outcome::Failed),
    }
}

/// The action that `phase` asks for on the entry at position `i`.
pub open spec fn phase_action(phase: Phase, i: usize) -> Action {
    match phase {
        Phase::AwaitSource => Action::InspectSource(i),
        Phase::AwaitTarget => Action::InspectTarget(i),
        Phase::AwaitCreate => Action::CreateTarget(i),
        Phase::AwaitTool => Action::RunTool(i),
    }
}

/// A synchronization of a working set of registry positions, one entry at a
/// time. Each entry ends with an outcome of its own, and the next entry is
/// taken up whatever that outcome was.
pub struct SyncRun {
    /// The registry positions to synchronize, in order.
    pub work: Vec<usize>,
    /// How many entries of `work` have ended.
    pub done: usize,
    /// Where the current entry stands.
    pub phase: Phase,
    /// The outcome of each entry that has ended, in order.
    pub outcomes: Vec<Outcome>,
}

impl SyncRun {
    pub open spec fn wf(&self) -> bool {
        &&& self.done <= self.work@.len()
        &&& self.outcomes@.len() == self.done
    }

    /// The action the run asks for in its present state.
    pub open spec fn pending(&self) -> Action {
        if self.done >= self.work@.len() {
            Action::Finished
        } else {
            phase_action(self.phase, self.work@[self.done as int])
        }
    }

    /// `b` is what `a` becomes on `ev`: the current entry moves to its next
    /// phase, or ends with its outcome recorded and the next entry begins.
    pub open spec fn steps_to(a: SyncRun, b: SyncRun, ev: Event) -> bool {
        &&& b.work@ == a.work@
        &&& match entry_step(a.phase, ev) {
            Step::Next(p) => {
                &&& b.phase == p
                &&& b.done == a.done
                &&& b.outcomes@ == a.outcomes@
            },
            Step::Done(o) => {
                &&& b.phase == Phase::AwaitSource
                &&& b.done == a.done + 1
                &&& b.outcomes@ == a.outcomes@.push(o)
            },
        }
    }

    /// Starts a run over `work`; with nothing to do it is finished at once.
    pub fn start(work: Vec<usize>) -> (r: (SyncRun, Action))
        ensures
            r.0.wf(),
            r.0.work@ == work@,
            r.0.done == 0,
            r.0.phase == Phase::AwaitSource,
            r.0.outcomes@.len() == 0,
            r.1 == r.0.pending(),
            work@.len() == 0 <==> r.1 == Action::Finished,
    {
        let run = SyncRun { work, done: 0, phase: Phase::AwaitSource, outcomes: Vec::new() };
        let a = run.next_action();
        (run, a)
    }

    /// The action the run asks for in its present state.
    pub fn next_action(&self) -> (r: Action)
        requires
            self.wf(),
        ensures
            r == self.pending(),
    {
        if self.done >= self.work.len() {
            Action::Finished
        } else {
            let i = self.work[self.done];
            match self.phase {
                Phase::AwaitSource => Action::InspectSource(i),
                Phase::AwaitTarget => Action::InspectTarget(i),
                Phase::AwaitCreate => Action::CreateTarget(i),
                Phase::AwaitTool => Action::RunTool(i),
            }
        }
    }

    /// Whether `ev` answers the pending action.
    pub fn accepts(&self, ev: Event) -> (r: bool)
        requires
            self.wf(),
        ensures
            r == (self.done < self.work@.len() && fits(self.phase, ev)),
    {
        if self.done >= self.work.len() {
            return false;
        }
        match (self.phase, ev) {
            (Phase::AwaitSource, Event::Probed(_)) => true,
            (Phase::AwaitTarget, Event::Probed(_)) => true,
            (Phase::AwaitCreate, Event::Created(_)) => true,
            (Phase::AwaitTool, Event::ToolExited(_)) => true,
            _ => false,
        }
    }

    /// Takes the answer to the pending action and moves on: within the entry
    /// while it goes on, else to the next entry with the outcome recorded.
    pub fn advance(&mut self, ev: Event) -> (r: Action)
        requires
            old(self).wf(),
            old(self).done < old(self).work@.len(),
            fits(old(self).phase, ev),
        ensures
            final(self).wf(),
            final(self).work@ == old(self).work@,
            r == final(self).pending(),
            SyncRun::steps_to(*old(self), *final(self), ev),
    {
        let step = step_of(self.phase, ev);
        match step {
            Step::Next(p) => {
                self.phase = p;
            },
            Step::Done(o) => {
                let n = self.work.len();
                assert(self.done < n);
                self.outcomes.push(o);
                self.done = self.done + 1;
                self.phase = Phase::AwaitSource;
            },
        }
        self.next_action()
    }
}


/// An entry that ends, however it ends (skipped, failed or synced), has its
/// outcome recorded, and the run goes on with the next entry from its start;
/// the run is finished only once every entry has an outcome.
pub proof fn lemma_failure_isolated(a: SyncRun, b: SyncRun, ev: Event)
    requires
        a.wf(),
        a.done < a.work@.len(),
        fits(a.phase, ev),
        SyncRun::steps_to(a, b, ev),
        entry_step(a.phase, ev) is Done,
    ensures
        b.wf(),
        b.outcomes@ == a.outcomes@.push(entry_step(a.phase, ev)->Done_0),
        b.done < b.work@.len() ==> b.pending() == Action::InspectSource(b.work@[b.done as int]),
        b.pending() == Action::Finished <==> b.done == b.work@.len(),
{
}

/// A target that is missing is created before anything else happens to the
/// entry, and the tool runs only once the target is known to be a directory:
/// it was found to be one, or it was just created.
pub proof fn lemma_target_created_first(phase: Phase, ev: Event, i: usize)
    ensures
        entry_step(Phase::AwaitTarget, Event::Probed(Probe::Missing)) == Step::Next(
            Phase::AwaitCreate,
        ),
        phase_action(Phase::AwaitCreate, i) == Action::CreateTarget(i),
        entry_step(phase, ev) == Step::Next(Phase::AwaitTool) ==> (phase == Phase::AwaitTarget
            && ev == Event::Probed(Probe::Directory)) || (phase == Phase::AwaitCreate && ev
            == Event::Created(true)),
{
}

} // verus!
