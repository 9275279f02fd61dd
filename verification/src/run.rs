//! A run as a state machine: the driver performs each action and reports
//! what came of it, and the run decides what happens next.

use crate::command::build_command;
use crate::command::build_package;
use crate::command::clone_texts;
use crate::command::execute_command;
use crate::command::pairs;
use crate::command::verdict;
use crate::command::ChildReport;
use crate::command::Invocation;
use crate::command::InvocationView;
use crate::error::Failure;
use crate::error::Source;
use crate::manifest::load_lockfile;
use crate::manifest::load_manifest;
use crate::manifest::lockfile_dependencies;
use crate::manifest::manifest_name;
use crate::manifest::resolution;
use crate::text::texts;
use vstd::prelude::*;

verus! {

/// How far a run has come.
#[derive(Clone, Debug, PartialEq, Eq)]
pub enum Stage {
    /// Nothing has happened yet.
    Idle,
    /// The manifest was asked for.
    LoadingManifest,
    /// The top package is known and the lockfile was asked for.
    LoadingLockfile { top_package: String },
    /// The dependencies are known and were handed out to be announced.
    Resolved { deps: Vec<String> },
    /// The build of the dependency at `next` was handed out.
    Building { deps: Vec<String>, next: usize },
    /// Every dependency was built.
    Done,
    /// The run failed.
    Aborted(Failure),
}

/// The characters of a `Stage`.
pub enum StageView {
    Idle,
    LoadingManifest,
    LoadingLockfile { top_package: Seq<char> },
    Resolved { deps: Seq<Seq<char>> },
    Building { deps: Seq<Seq<char>>, next: nat },
    Done,
    Aborted(Failure),
}

impl View for Stage {
    type V = StageView;

    open spec fn view(&self) -> StageView {
        match *self {
            Stage::Idle => StageView::Idle,
            Stage::LoadingManifest => StageView::LoadingManifest,
            Stage::LoadingLockfile { top_package } => StageView::LoadingLockfile {
                top_package: top_package@,
            },
            Stage::Resolved { deps } => StageView::Resolved { deps: texts(deps@) },
            Stage::Building { deps, next } => StageView::Building {
                deps: texts(deps@),
                next: next as nat,
            },
            Stage::Done => StageView::Done,
            Stage::Aborted(failure) => StageView::Aborted(failure),
        }
    }
}

/// What the driver reports to the run.
#[derive(Clone, Debug, PartialEq, Eq)]
pub enum Event {
    /// The run is to begin.
    Start,
    /// The document that was asked for, as text.
    FileRead(String),
    /// The document that was asked for could not be read.
    FileUnreadable,
    /// The dependencies were announced.
    Announced,
    /// The build command that was asked for ended.
    Child(ChildReport),
}

/// The characters of an `Event`.
pub enum EventView {
    Start,
    FileRead(Seq<char>),
    FileUnreadable,
    Announced,
    Child(ChildReport),
}

impl View for Event {
    type V = EventView;

    open spec fn view(&self) -> EventView {
        match *self {
            Event::Start => EventView::Start,
            Event::FileRead(text) => EventView::FileRead(text@),
            Event::FileUnreadable => EventView::FileUnreadable,
            Event::Announced => EventView::Announced,
            Event::Child(report) => EventView::Child(report),
        }
    }
}

/// What the run asks the driver to do.
#[derive(Clone, Debug, PartialEq, Eq)]
pub enum Action {
    /// Read a document and report its text.
    ReadFile(Source),
    /// Announce the dependencies that will be built.
    Announce(Vec<String>),
    /// Announce the dependency `package`, run `command`, wait for it and
    /// report how it ended.
    Build { package: String, command: Invocation },
    /// Report success and end with status zero.
    Finish,
    /// Report the failure and end with a status other than zero.
    Fail(Failure),
}

/// The characters of an `Action`.
pub enum ActionView {
    ReadFile(Source),
    Announce(Seq<Seq<char>>),
    Build { package: Seq<char>, command: InvocationView },
    Finish,
    Fail(Failure),
}

impl View for Action {
    type V = ActionView;

    open spec fn view(&self) -> ActionView {
        match *self {
            Action::ReadFile(source) => ActionView::ReadFile(source),
            Action::Announce(deps) => ActionView::Announce(texts(deps@)),
            Action::Build { package, command } => ActionView::Build {
                package: package@,
                command: command@,
            },
            Action::Finish => ActionView::Finish,
            Action::Fail(failure) => ActionView::Fail(failure),
        }
    }
}

/// One run: the arguments and the environment of every build command, fixed
/// when the run is made, and the stage it has reached.
pub struct Run {
    args: Vec<String>,
    env: Vec<(String, String)>,
    stage: Stage,
}

/// The characters of a `Run`.
pub struct RunView {
    pub args: Seq<Seq<char>>,
    pub env: Seq<(Seq<char>, Seq<char>)>,
    pub stage: StageView,
}

impl View for Run {
    type V = RunView;

    closed spec fn view(&self) -> RunView {
        RunView { args: texts(self.args@), env: pairs(self.env@), stage: self.stage@ }
    }
}

impl RunView {
    /// The same run at another stage.
    pub open spec fn at(self, stage: StageView) -> RunView {
        RunView { args: self.args, env: self.env, stage }
    }

    /// The run aborted by `failure`, and the action that reports it.
    pub open spec fn abort(self, failure: Failure) -> (RunView, ActionView) {
        (self.at(StageView::Aborted(failure)), ActionView::Fail(failure))
    }

    /// The command that builds `package` in this run.
    pub open spec fn command(self, package: Seq<char>) -> InvocationView {
        build_command(package, self.args, self.env)
    }

    /// The run about to build the dependency at `index`, or done where
    /// `deps` has no such dependency.
    pub open spec fn build_from(self, deps: Seq<Seq<char>>, index: nat) -> (RunView, ActionView) {
        if index < deps.len() {
            (
                self.at(StageView::Building { deps, next: index }),
                ActionView::Build {
                    package: deps[index as int],
                    command: self.command(deps[index as int]),
                },
            )
        } else {
            (self.at(StageView::Done), ActionView::Finish)
        }
    }

    /// The stage that follows and the action to perform when `event` is
    /// reported to this run.
    pub open spec fn step(self, event: EventView) -> (RunView, ActionView) {
        match (self.stage, event) {
            (StageView::Idle, EventView::Start) => (
                self.at(StageView::LoadingManifest),
                ActionView::ReadFile(Source::Manifest),
            ),
            (StageView::LoadingManifest, EventView::FileRead(text)) => match manifest_name(text) {
                Ok(top_package) => (
                    self.at(StageView::LoadingLockfile { top_package }),
                    ActionView::ReadFile(Source::Lockfile),
                ),
                Err(failure) => self.abort(failure),
            },
            (StageView::LoadingManifest, EventView::FileUnreadable) => self.abort(
                Failure::Unreadable(Source::Manifest),
            ),
            (
                StageView::LoadingLockfile { top_package },
                EventView::FileRead(text),
            ) => match lockfile_dependencies(text, top_package) {
                Ok(deps) => (self.at(StageView::Resolved { deps }), ActionView::Announce(deps)),
                Err(failure) => self.abort(failure),
            },
            (StageView::LoadingLockfile { .. }, EventView::FileUnreadable) => self.abort(
                Failure::Unreadable(Source::Lockfile),
            ),
            (StageView::Resolved { deps }, EventView::Announced) => self.build_from(deps, 0),
            (StageView::Building { deps, next }, EventView::Child(report)) => match verdict(
                report,
            ) {
                Ok(_) => self.build_from(deps, next + 1),
                Err(failure) => self.abort(failure),
            },
            (StageView::Done, _) => (self, ActionView::Finish),
            (StageView::Aborted(failure), _) => (self, ActionView::Fail(failure)),
            _ => self.abort(Failure::OutOfTurn),
        }
    }

    /// The run that is left and the actions that were asked for when
    /// `events` are reported to this run one after another.
    pub open spec fn run_through(self, events: Seq<EventView>) -> (RunView, Seq<ActionView>)
        decreases events.len(),
    {
        if events.len() == 0 {
            (self, Seq::empty())
        } else {
            let (next, action) = self.step(events[0]);
            let (last, actions) = next.run_through(events.drop_first());
            (last, seq![action] + actions)
        }
    }

    /// The commands of the dependencies `deps`, in their order.
    pub open spec fn plan(self, deps: Seq<Seq<char>>) -> Seq<InvocationView> {
        deps.map_values(|package: Seq<char>| self.command(package))
    }

    /// The build actions of the dependencies `deps`, in their order.
    pub open spec fn builds(self, deps: Seq<Seq<char>>) -> Seq<ActionView> {
        deps.map_values(
            |package: Seq<char>| ActionView::Build { package, command: self.command(package) },
        )
    }

    /// The commands that the run has not handed out yet, once its
    /// dependencies are known.
    pub open spec fn commands_left(self) -> Seq<InvocationView> {
        match self.stage {
            StageView::Resolved { deps } => self.plan(deps),
            StageView::Building { deps, next } => if next < deps.len() {
                self.plan(deps).skip((next + 1) as int)
            } else {
                Seq::empty()
            },
            _ => Seq::empty(),
        }
    }

    /// Whether the dependencies of the run are known, or will never be.
    pub open spec fn is_resolved(self) -> bool {
        !(self.stage is Idle || self.stage is LoadingManifest || self.stage is LoadingLockfile)
    }
}

/// The commands that a sequence of actions asks to run, in their order.
pub open spec fn commands_of(actions: Seq<ActionView>) -> Seq<InvocationView>
    decreases actions.len(),
{
    if actions.len() == 0 {
        Seq::empty()
    } else {
        match actions[0] {
            ActionView::Build { package, command } => seq![command] + commands_of(
                actions.drop_first(),
            ),
            _ => commands_of(actions.drop_first()),
        }
    }
}

/// The events by which the driver reports how build commands ended.
pub open spec fn child_events(reports: Seq<ChildReport>) -> Seq<EventView> {
    reports.map_values(|report: ChildReport| EventView::Child(report))
}

impl Run {
    /// A run that has not begun, with the arguments and the environment of
    /// its build commands.
    pub fn new(args: Vec<String>, env: Vec<(String, String)>) -> (run: Run)
        ensures
            run@ == (RunView { args: texts(args@), env: pairs(env@), stage: StageView::Idle }),
    {
        Run { args, env, stage: Stage::Idle }
    }

    /// The stage that the run has reached.
    pub fn stage(&self) -> (stage: &Stage)
        ensures
            stage@ == self@.stage,
    {
        &self.stage
    }

    /// Takes what the driver reports and decides how the run goes on.
    pub fn step(self, event: Event) -> (r: (Run, Action))
        ensures
            r.0@ == self@.step(event@).0,
            r.1@ == self@.step(event@).1,
    {
        let Run { args, env, stage } = self;
        match (stage, event) {
            (Stage::Idle, Event::Start) => (
                Run { args, env, stage: Stage::LoadingManifest },
                Action::ReadFile(Source::Manifest),
            ),
            (Stage::LoadingManifest, Event::FileRead(text)) => match load_manifest(
                text.as_str(),
            ) {
                Ok(top_package) => (
                    Run { args, env, stage: Stage::LoadingLockfile { top_package } },
                    Action::ReadFile(Source::Lockfile),
                ),
                Err(failure) => abort(args, env, failure),
            },
            (Stage::LoadingManifest, Event::FileUnreadable) => abort(
                args,
                env,
                Failure::Unreadable(Source::Manifest),
            ),
            (Stage::LoadingLockfile { top_package }, Event::FileRead(text)) => match load_lockfile(
                text.as_str(),
                top_package.as_str(),
            ) {
                Ok(deps) => {
                    let announced = clone_texts(&deps);
                    (Run { args, env, stage: Stage::Resolved { deps } }, Action::Announce(announced))
                },
                Err(failure) => abort(args, env, failure),
            },
            (Stage::LoadingLockfile { .. }, Event::FileUnreadable) => abort(
                args,
                env,
                Failure::Unreadable(Source::Lockfile),
            ),
            (Stage::Resolved { deps }, Event::Announced) => build_from(args, env, deps, 0),
            (Stage::Building { deps, next }, Event::Child(report)) => match execute_command(
                report,
            ) {
                Ok(_) => {
                    if next < deps.len() {
                        build_from(args, env, deps, next + 1)
                    } else {
                        (Run { args, env, stage: Stage::Done }, Action::Finish)
                    }
                },
                Err(failure) => abort(args, env, failure),
            },
            (Stage::Done, _) => (Run { args, env, stage: Stage::Done }, Action::Finish),
            (Stage::Aborted(failure), _) => (
                Run { args, env, stage: Stage::Aborted(failure) },
                Action::Fail(failure),
            ),
            _ => abort(args, env, Failure::OutOfTurn),
        }
    }
}

/// The run aborted by `failure`, and the action that reports it.
fn abort(args: Vec<String>, env: Vec<(String, String)>, failure: Failure) -> (r: (Run, Action))
    ensures
        r.0@ == (RunView {
            args: texts(args@),
            env: pairs(env@),
            stage: StageView::Aborted(failure),
        }),
        r.1@ == ActionView::Fail(failure),
{
    (Run { args, env, stage: Stage::Aborted(failure) }, Action::Fail(failure))
}

/// The run about to build the dependency at `index`, or done where `deps`
/// has no such dependency.
fn build_from(args: Vec<String>, env: Vec<(String, String)>, deps: Vec<String>, index: usize) -> (r:
    (Run, Action))
    ensures
        (r.0@, r.1@) == (RunView {
            args: texts(args@),
            env: pairs(env@),
            stage: StageView::Idle,
        }).build_from(texts(deps@), index as nat),
{
    if index < deps.len() {
        let package = deps[index].clone();
        let command = build_package(package.as_str(), &args, &env);
        (
            Run { args, env, stage: Stage::Building { deps, next: index } },
            Action::Build { package, command },
        )
    } else {
        (Run { args, env, stage: Stage::Done }, Action::Finish)
    }
}

/// Whatever is reported, a step leaves the arguments and the environment of
/// the run as they are, and where it asks for a build, it is the build of
/// the dependency that the run has then reached: `cargo build --package`
/// with that dependency, followed by exactly the run's arguments, in the
/// run's environment.
pub proof fn lemma_step_builds_what_is_due(run: RunView, event: EventView)
    ensures
        run.step(event).0.args == run.args,
        run.step(event).0.env == run.env,
        run.step(event).0.stage matches StageView::Building { deps, next } ==> next < deps.len(),
        run.step(event).1 matches ActionView::Build { package, command } ==> {
            &&& run.step(event).0.stage matches StageView::Building { deps, next }
            &&& package == deps[next as int]
            &&& command.program == "cargo"@
            &&& command.args == seq!["build"@, "--package"@, package] + run.args
            &&& command.env == run.env
        },
{
}

/// The commands of an action followed by others: its own command, where it
/// is a build, before theirs.
pub proof fn lemma_commands_of_cons(action: ActionView, rest: Seq<ActionView>)
    ensures
        commands_of(seq![action] + rest) == match action {
            ActionView::Build { package, command } => seq![command] + commands_of(rest),
            _ => commands_of(rest),
        },
{
    let all = seq![action] + rest;
    assert(all[0] == action);
    assert(all.drop_first() =~= rest);
}

/// Reporting one event is taking one step.
pub proof fn lemma_run_through_one(run: RunView, event: EventView)
    ensures
        run.run_through(seq![event]).0 == run.step(event).0,
        run.run_through(seq![event]).1 == seq![run.step(event).1],
{
    let events = seq![event];
    assert(events[0] == event);
    assert(events.drop_first() =~= Seq::<EventView>::empty());
    assert(run.step(event).0.run_through(events.drop_first()).1 =~= Seq::<ActionView>::empty());
    assert(seq![run.step(event).1] + Seq::<ActionView>::empty() =~= seq![run.step(event).1]);
}

/// Reporting `first` and then `then` comes to the same as reporting all of
/// them in one go.
pub proof fn lemma_run_through_concat(run: RunView, first: Seq<EventView>, then: Seq<EventView>)
    ensures
        run.run_through(first + then).0 == run.run_through(first).0.run_through(then).0,
        run.run_through(first + then).1 == run.run_through(first).1 + run.run_through(
            first,
        ).0.run_through(then).1,
    decreases first.len(),
{
    if first.len() == 0 {
        assert(first + then =~= then);
        assert(Seq::<ActionView>::empty() + run.run_through(then).1 =~= run.run_through(then).1);
    } else {
        let all = first + then;
        assert(all[0] == first[0]);
        assert(all.drop_first() =~= first.drop_first() + then);
        let (next, action) = run.step(first[0]);
        lemma_run_through_concat(next, first.drop_first(), then);
        let before = next.run_through(first.drop_first()).1;
        let after = next.run_through(first.drop_first()).0.run_through(then).1;
        assert(seq![action] + (before + after) =~= (seq![action] + before) + after);
    }
}

/// A run that is done or aborted stays as it is whatever is reported to it,
/// repeats its last word, and asks for no command.
pub proof fn lemma_final_stage_is_final(run: RunView, events: Seq<EventView>)
    requires
        run.stage is Done || run.stage is Aborted,
    ensures
        run.run_through(events).0 == run,
        run.run_through(events).1.len() == events.len(),
        forall|i: int|
            0 <= i < events.len() ==> #[trigger] run.run_through(events).1[i] == run.step(
                events[i],
            ).1,
        commands_of(run.run_through(events).1) == Seq::<InvocationView>::empty(),
    decreases events.len(),
{
    if events.len() > 0 {
        let (next, action) = run.step(events[0]);
        assert(next == run);
        let rest = events.drop_first();
        lemma_final_stage_is_final(run, rest);
        lemma_commands_of_cons(action, run.run_through(rest).1);
        assert forall|i: int| 0 <= i < events.len() implies #[trigger] run.run_through(
            events,
        ).1[i] == run.step(events[i]).1 by {
            if i > 0 {
                assert(run.run_through(events).1[i] == run.run_through(rest).1[i - 1]);
                assert(rest[i - 1] == events[i]);
            }
        }
    }
}

/// Once the dependencies are known, the commands that a run asks for,
/// whatever is reported to it, are the first of those it has not handed out
/// yet, in their order: none is left out before a later one, none comes
/// twice, none is altered.
pub proof fn lemma_commands_follow_plan(run: RunView, events: Seq<EventView>)
    requires
        run.is_resolved(),
    ensures
        commands_of(run.run_through(events).1).is_prefix_of(run.commands_left()),
    decreases events.len(),
{
    if events.len() > 0 {
        let (next, action) = run.step(events[0]);
        let rest = next.run_through(events.drop_first()).1;
        lemma_commands_follow_plan(next, events.drop_first());
        lemma_commands_of_cons(action, rest);
        match action {
            ActionView::Build { package, command } => {
                let left = run.commands_left();
                let deps = next.stage->Building_deps;
                let index = next.stage->Building_next as int;
                assert(run.plan(deps)[index] == command);
                assert(left.len() > 0 && left[0] == command);
                assert(next.commands_left() =~= left.drop_first());
                assert((seq![command] + commands_of(rest)).is_prefix_of(left));
            },
            _ => {
                assert(next.commands_left() =~= Seq::<InvocationView>::empty());
                assert(commands_of(rest) =~= Seq::<InvocationView>::empty());
            },
        }
    }
}

/// A run that starts from nothing asks for a command only after it was
/// started, was given the texts of the manifest and of the lockfile, these
/// gave the dependencies, and they were announced; the commands are then the
/// first of those dependencies' commands, in the dependencies' order. Where
/// the dependencies cannot be had, no command is asked for.
pub proof fn lemma_commands_need_resolution(run: RunView, events: Seq<EventView>)
    requires
        run.stage is Idle,
    ensures
        commands_of(run.run_through(events).1).len() > 0 ==> {
            &&& events.len() >= 4
            &&& events[0] is Start
            &&& events[1] is FileRead
            &&& events[2] is FileRead
            &&& events[3] is Announced
            &&& resolution(events[1]->FileRead_0, events[2]->FileRead_0) is Ok
            &&& commands_of(run.run_through(events).1).is_prefix_of(
                run.plan(resolution(events[1]->FileRead_0, events[2]->FileRead_0)->Ok_0),
            )
        },
{
    if events.len() > 0 {
        let (run1, action1) = run.step(events[0]);
        let events1 = events.drop_first();
        lemma_commands_of_cons(action1, run1.run_through(events1).1);
        if run1.is_resolved() {
            lemma_final_stage_is_final(run1, events1);
        } else if events1.len() > 0 {
            assert(events1[0] == events[1]);
            let (run2, action2) = run1.step(events1[0]);
            let events2 = events1.drop_first();
            lemma_commands_of_cons(action2, run2.run_through(events2).1);
            if run2.is_resolved() {
                lemma_final_stage_is_final(run2, events2);
            } else if events2.len() > 0 {
                assert(events2[0] == events[2]);
                let (run3, action3) = run2.step(events2[0]);
                let events3 = events2.drop_first();
                lemma_commands_of_cons(action3, run3.run_through(events3).1);
                lemma_commands_follow_plan(run3, events3);
                if run3.stage is Resolved {
                    assert(run3.commands_left() =~= run.plan(run3.stage->Resolved_deps));
                    if events3.len() > 0 {
                        assert(events3[0] == events[3]);
                        let (run4, action4) = run3.step(events3[0]);
                        let events4 = events3.drop_first();
                        lemma_commands_of_cons(action4, run4.run_through(events4).1);
                        if !(events3[0] is Announced) {
                            lemma_final_stage_is_final(run4, events4);
                        }
                    }
                }
            }
        }
    }
}

/// While the build commands succeed and dependencies are left, each report
/// is answered by the build of the dependency that follows.
pub proof fn lemma_passing_builds(
    run: RunView,
    deps: Seq<Seq<char>>,
    next: nat,
    reports: Seq<ChildReport>,
)
    requires
        run.stage == (StageView::Building { deps, next }),
        next + reports.len() < deps.len(),
        forall|i: int| 0 <= i < reports.len() ==> verdict(#[trigger] reports[i]) is Ok,
    ensures
        run.run_through(child_events(reports)).0 == run.at(
            StageView::Building { deps, next: next + reports.len() },
        ),
        run.run_through(child_events(reports)).1 == run.builds(
            deps.subrange((next + 1) as int, (next + 1 + reports.len()) as int),
        ),
    decreases reports.len(),
{
    let events = child_events(reports);
    if reports.len() == 0 {
        assert(run.builds(deps.subrange((next + 1) as int, (next + 1) as int)) =~= Seq::<ActionView>::empty());
    } else {
        assert(events[0] == EventView::Child(reports[0]));
        assert(verdict(reports[0]) is Ok);
        let (following, action) = run.step(events[0]);
        let rest = reports.drop_first();
        assert(events.drop_first() =~= child_events(rest));
        assert forall|i: int| 0 <= i < rest.len() implies verdict(#[trigger] rest[i]) is Ok by {
            assert(rest[i] == reports[i + 1]);
        }
        lemma_passing_builds(following, deps, next + 1, rest);
        assert(seq![action] + following.builds(
            deps.subrange((next + 2) as int, (next + 2 + rest.len()) as int),
        ) =~= run.builds(deps.subrange((next + 1) as int, (next + 1 + reports.len()) as int)));
    }
}

/// Where every build command succeeds, a run builds every dependency once,
/// in order, and then finishes. With no dependencies it finishes at once and
/// asks for no command.
pub proof fn lemma_run_completes(run: RunView, deps: Seq<Seq<char>>, reports: Seq<ChildReport>)
    requires
        run.stage == (StageView::Resolved { deps }),
        reports.len() == deps.len(),
        forall|i: int| 0 <= i < reports.len() ==> verdict(#[trigger] reports[i]) is Ok,
    ensures
        run.run_through(seq![EventView::Announced] + child_events(reports)).0 == run.at(
            StageView::Done,
        ),
        run.run_through(seq![EventView::Announced] + child_events(reports)).1 == run.builds(deps)
            + seq![ActionView::Finish],
{
    let announced = seq![EventView::Announced];
    let (building, first) = run.step(EventView::Announced);
    lemma_run_through_one(run, EventView::Announced);
    lemma_run_through_concat(run, announced, child_events(reports));
    if deps.len() == 0 {
        assert(child_events(reports) =~= Seq::<EventView>::empty());
        assert(run.builds(deps) + seq![ActionView::Finish] =~= seq![first]);
        assert(seq![first] + Seq::<ActionView>::empty() =~= seq![first]);
    } else {
        let passing = reports.drop_last();
        let last = seq![EventView::Child(reports.last())];
        assert(child_events(reports) =~= child_events(passing) + last);
        assert forall|i: int| 0 <= i < passing.len() implies verdict(
            #[trigger] passing[i],
        ) is Ok by {
            assert(passing[i] == reports[i]);
        }
        lemma_passing_builds(building, deps, 0, passing);
        lemma_run_through_concat(building, child_events(passing), last);
        let at_last = building.at(StageView::Building { deps, next: (deps.len() - 1) as nat });
        lemma_run_through_one(at_last, EventView::Child(reports.last()));
        assert(seq![first] + (building.builds(deps.subrange(1, deps.len() as int))
            + seq![ActionView::Finish]) =~= run.builds(deps) + seq![ActionView::Finish]);
    }
}

/// Where build commands succeed until one fails, a run builds the
/// dependencies up to the one that failed, in order, and then fails with
/// that command's failure: no later dependency is built.
pub proof fn lemma_run_stops_at_first_failure(
    run: RunView,
    deps: Seq<Seq<char>>,
    reports: Seq<ChildReport>,
    failure: Failure,
)
    requires
        run.stage == (StageView::Resolved { deps }),
        0 < reports.len() <= deps.len(),
        forall|i: int| 0 <= i < reports.len() - 1 ==> verdict(#[trigger] reports[i]) is Ok,
        verdict(reports.last()) == Err::<(), Failure>(failure),
    ensures
        run.run_through(seq![EventView::Announced] + child_events(reports)).0 == run.at(
            StageView::Aborted(failure),
        ),
        run.run_through(seq![EventView::Announced] + child_events(reports)).1 == run.builds(
            deps.take(reports.len() as int),
        ) + seq![ActionView::Fail(failure)],
{
    let announced = seq![EventView::Announced];
    let (building, first) = run.step(EventView::Announced);
    lemma_run_through_one(run, EventView::Announced);
    lemma_run_through_concat(run, announced, child_events(reports));
    let passing = reports.drop_last();
    let last = seq![EventView::Child(reports.last())];
    assert(child_events(reports) =~= child_events(passing) + last);
    assert forall|i: int| 0 <= i < passing.len() implies verdict(#[trigger] passing[i]) is Ok by {
        assert(passing[i] == reports[i]);
    }
    lemma_passing_builds(building, deps, 0, passing);
    lemma_run_through_concat(building, child_events(passing), last);
    let at_last = building.at(StageView::Building { deps, next: (reports.len() - 1) as nat });
    lemma_run_through_one(at_last, EventView::Child(reports.last()));
    assert(seq![first] + (building.builds(deps.subrange(1, reports.len() as int))
        + seq![ActionView::Fail(failure)]) =~= run.builds(deps.take(reports.len() as int))
        + seq![ActionView::Fail(failure)]);
}

} // verus!
