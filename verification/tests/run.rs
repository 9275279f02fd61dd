use build_deps::args::BuildFlags;
use build_deps::command::build_package;
use build_deps::command::ChildReport;
use build_deps::command::Invocation;
use build_deps::error::Failure;
use build_deps::error::SchemaError;
use build_deps::error::Source;
use build_deps::run::Action;
use build_deps::run::Event;
use build_deps::run::Run;
use build_deps::run::Stage;

const MANIFEST: &str = "[package]\nname = \"foo\"\nversion = \"0.1.0\"\n";

const PASSED: ChildReport = ChildReport::Exited { success: true, code: Some(0) };

fn strings(items: &[&str]) -> Vec<String> {
    items.iter().map(|item| item.to_string()).collect()
}

fn lock_with(dependencies: &str) -> String {
    format!("[[package]]\nname = \"foo\"\nversion = \"0.1.0\"\ndependencies = {}\n", dependencies)
}

fn environment() -> Vec<(String, String)> {
    vec![("HOME".to_string(), "/home/me".to_string())]
}

fn release_into_out() -> Vec<String> {
    let flags = BuildFlags {
        release: true,
        frozen: false,
        manifest_path: None,
        target_dir: Some("out".to_string()),
        bin: None,
        lib: None,
        target: None,
    };
    flags.build_args()
}

/// Reports the events one after another and collects the actions.
fn drive(run: Run, events: Vec<Event>) -> (Run, Vec<Action>) {
    let mut run = run;
    let mut actions = Vec::new();
    for event in events {
        let (next, action) = run.step(event);
        run = next;
        actions.push(action);
    }
    (run, actions)
}

fn resolved(dependencies: &str) -> (Run, Vec<Action>) {
    drive(
        Run::new(release_into_out(), environment()),
        vec![
            Event::Start,
            Event::FileRead(MANIFEST.to_string()),
            Event::FileRead(lock_with(dependencies)),
        ],
    )
}

fn commands(actions: &[Action]) -> Vec<Invocation> {
    let mut found = Vec::new();
    for action in actions {
        if let Action::Build { command, .. } = action {
            found.push(command.clone());
        }
    }
    found
}

#[test]
fn new_run_is_idle() {
    let run = Run::new(vec![], vec![]);
    assert_eq!(run.stage(), &Stage::Idle);
}

#[test]
fn run_loads_the_manifest_then_the_lockfile() {
    let run = Run::new(vec![], vec![]);
    let (run, action) = run.step(Event::Start);
    assert_eq!(action, Action::ReadFile(Source::Manifest));
    assert_eq!(run.stage(), &Stage::LoadingManifest);
    let (run, action) = run.step(Event::FileRead(MANIFEST.to_string()));
    assert_eq!(action, Action::ReadFile(Source::Lockfile));
    assert_eq!(run.stage(), &Stage::LoadingLockfile { top_package: "foo".to_string() });
    let (run, action) = run.step(Event::FileRead(lock_with("[\"bar 1.0.0\"]")));
    assert_eq!(action, Action::Announce(strings(&["bar:1.0.0"])));
    assert_eq!(run.stage(), &Stage::Resolved { deps: strings(&["bar:1.0.0"]) });
}

#[test]
fn documents_have_fixed_paths() {
    assert_eq!(Source::Manifest.path(), "Cargo.toml");
    assert_eq!(Source::Lockfile.path(), "Cargo.lock");
}

#[test]
fn run_builds_every_dependency_in_order_and_finishes() {
    let (run, actions) = resolved("[\"bar 1.0.0\", \"baz 2.3.1 (registry+x)\"]");
    assert_eq!(actions[2], Action::Announce(strings(&["bar:1.0.0", "baz:2.3.1"])));
    let (run, actions) =
        drive(run, vec![Event::Announced, Event::Child(PASSED), Event::Child(PASSED)]);
    let args = release_into_out();
    assert_eq!(
        actions,
        vec![
            Action::Build {
                package: "bar:1.0.0".to_string(),
                command: build_package("bar:1.0.0", &args, &environment()),
            },
            Action::Build {
                package: "baz:2.3.1".to_string(),
                command: build_package("baz:2.3.1", &args, &environment()),
            },
            Action::Finish,
        ]
    );
    assert_eq!(run.stage(), &Stage::Done);
}

#[test]
fn run_reports_the_stage_while_building() {
    let (run, _) = resolved("[\"a 1\", \"b 2\"]");
    let (run, _) = drive(run, vec![Event::Announced, Event::Child(PASSED)]);
    assert_eq!(run.stage(), &Stage::Building { deps: strings(&["a:1", "b:2"]), next: 1 });
}

#[test]
fn run_without_dependencies_builds_nothing_and_finishes() {
    let (run, actions) = resolved("[]");
    assert_eq!(actions[2], Action::Announce(vec![]));
    let (run, actions) = drive(run, vec![Event::Announced]);
    assert_eq!(actions, vec![Action::Finish]);
    assert_eq!(run.stage(), &Stage::Done);
}

#[test]
fn every_command_ends_with_the_forwarded_arguments() {
    let (run, _) = resolved("[\"a 1\", \"b 2\", \"c 3\"]");
    let (_, actions) = drive(
        run,
        vec![Event::Announced, Event::Child(PASSED), Event::Child(PASSED), Event::Child(PASSED)],
    );
    let built = commands(&actions);
    assert_eq!(built.len(), 3);
    for (command, package) in built.iter().zip(["a:1", "b:2", "c:3"]) {
        assert_eq!(command.program, "cargo");
        assert_eq!(command.args[..3], strings(&["build", "--package", package])[..]);
        assert_eq!(command.args[3..], strings(&["--release", "--target-dir", "out"])[..]);
        assert_eq!(command.env, environment());
    }
}

#[test]
fn run_stops_at_the_first_failing_command() {
    let (run, _) = resolved("[\"a 1\", \"b 2\", \"c 3\"]");
    let failed = ChildReport::Exited { success: false, code: Some(1) };
    let (run, actions) =
        drive(run, vec![Event::Announced, Event::Child(PASSED), Event::Child(failed)]);
    let built = commands(&actions);
    assert_eq!(built.len(), 2);
    assert_eq!(built[0].args[2], "a:1");
    assert_eq!(built[1].args[2], "b:2");
    assert_eq!(actions[2], Action::Fail(Failure::ExitCode(1)));
    assert_eq!(run.stage(), &Stage::Aborted(Failure::ExitCode(1)));
    let (run, actions) = drive(run, vec![Event::Child(PASSED), Event::Announced, Event::Start]);
    assert!(commands(&actions).is_empty());
    assert_eq!(actions, vec![Action::Fail(Failure::ExitCode(1)); 3]);
    assert_eq!(run.stage(), &Stage::Aborted(Failure::ExitCode(1)));
}

#[test]
fn run_keeps_order_and_repeats_of_dependencies() {
    let (run, _) = resolved("[\"z 1\", \"a 2\", \"z 1\"]");
    let (_, actions) = drive(
        run,
        vec![Event::Announced, Event::Child(PASSED), Event::Child(PASSED), Event::Child(PASSED)],
    );
    let packages: Vec<String> =
        commands(&actions).iter().map(|command| command.args[2].clone()).collect();
    assert_eq!(packages, strings(&["z:1", "a:2", "z:1"]));
    assert_eq!(actions[3], Action::Finish);
}

#[test]
fn run_fails_when_a_command_is_ended_by_a_signal() {
    let (run, _) = resolved("[\"a 1\", \"b 2\"]");
    let killed = ChildReport::Exited { success: false, code: None };
    let (run, actions) = drive(run, vec![Event::Announced, Event::Child(killed)]);
    assert_eq!(actions[1], Action::Fail(Failure::Signal));
    assert_eq!(run.stage(), &Stage::Aborted(Failure::Signal));
}

#[test]
fn run_fails_when_a_command_cannot_be_started() {
    let (run, _) = resolved("[\"a 1\", \"b 2\"]");
    let (_, actions) = drive(run, vec![Event::Announced, Event::Child(ChildReport::NotSpawned)]);
    assert_eq!(actions[1], Action::Fail(Failure::Spawn));
    let (run, _) = resolved("[\"a 1\", \"b 2\"]");
    let (_, actions) = drive(run, vec![Event::Announced, Event::Child(ChildReport::NotAwaited)]);
    assert_eq!(actions[1], Action::Fail(Failure::Wait));
}

#[test]
fn run_fails_on_an_unreadable_document() {
    let (run, actions) = drive(Run::new(vec![], vec![]), vec![Event::Start, Event::FileUnreadable]);
    assert_eq!(actions[1], Action::Fail(Failure::Unreadable(Source::Manifest)));
    assert_eq!(run.stage(), &Stage::Aborted(Failure::Unreadable(Source::Manifest)));
    let (_, actions) = drive(
        Run::new(vec![], vec![]),
        vec![Event::Start, Event::FileRead(MANIFEST.to_string()), Event::FileUnreadable],
    );
    assert_eq!(actions[2], Action::Fail(Failure::Unreadable(Source::Lockfile)));
}

#[test]
fn run_fails_on_a_malformed_document() {
    let (_, actions) = drive(
        Run::new(vec![], vec![]),
        vec![Event::Start, Event::FileRead("[package".to_string())],
    );
    assert_eq!(actions[1], Action::Fail(Failure::Malformed(Source::Manifest)));
    let (_, actions) = drive(
        Run::new(vec![], vec![]),
        vec![
            Event::Start,
            Event::FileRead(MANIFEST.to_string()),
            Event::FileRead("package = [".to_string()),
        ],
    );
    assert_eq!(actions[2], Action::Fail(Failure::Malformed(Source::Lockfile)));
}

#[test]
fn run_does_not_ask_for_the_lockfile_after_a_bad_manifest() {
    let (run, actions) = drive(
        Run::new(vec![], vec![]),
        vec![Event::Start, Event::FileRead("[package]\n".to_string())],
    );
    assert_eq!(
        actions,
        vec![
            Action::ReadFile(Source::Manifest),
            Action::Fail(Failure::Schema(SchemaError::MissingName)),
        ]
    );
    assert_eq!(run.stage(), &Stage::Aborted(Failure::Schema(SchemaError::MissingName)));
}

#[test]
fn run_builds_nothing_when_a_dependency_has_no_version() {
    let (run, actions) = resolved("[\"bar 1.0.0\", \"onlyname\"]");
    assert_eq!(actions[2], Action::Fail(Failure::Schema(SchemaError::MalformedDependency)));
    let (_, later) = drive(run, vec![Event::Announced, Event::Child(PASSED)]);
    assert!(commands(&actions).is_empty());
    assert!(commands(&later).is_empty());
}

#[test]
fn run_fails_when_the_top_package_is_not_locked() {
    let (run, actions) = drive(
        Run::new(vec![], vec![]),
        vec![
            Event::Start,
            Event::FileRead(MANIFEST.to_string()),
            Event::FileRead("[[package]]\nname = \"bar\"\ndependencies = []\n".to_string()),
        ],
    );
    assert_eq!(actions[2], Action::Fail(Failure::Schema(SchemaError::TopPackageNotFound)));
    assert_eq!(run.stage(), &Stage::Aborted(Failure::Schema(SchemaError::TopPackageNotFound)));
}

#[test]
fn run_aborts_on_a_report_out_of_turn() {
    let (run, action) = Run::new(vec![], vec![]).step(Event::Announced);
    assert_eq!(action, Action::Fail(Failure::OutOfTurn));
    assert_eq!(run.stage(), &Stage::Aborted(Failure::OutOfTurn));
    let (run, _) = resolved("[\"a 1\"]");
    let (_, action) = run.step(Event::Child(PASSED));
    assert_eq!(action, Action::Fail(Failure::OutOfTurn));
    let (run, _) = resolved("[\"a 1\"]");
    let (run, _) = run.step(Event::Announced);
    let (_, action) = run.step(Event::FileRead(String::new()));
    assert_eq!(action, Action::Fail(Failure::OutOfTurn));
}

#[test]
fn finished_run_stays_finished() {
    let (run, _) = resolved("[]");
    let (run, _) = run.step(Event::Announced);
    let (run, actions) = drive(run, vec![Event::Child(PASSED), Event::Start, Event::Announced]);
    assert_eq!(actions, vec![Action::Finish, Action::Finish, Action::Finish]);
    assert_eq!(run.stage(), &Stage::Done);
}

#[test]
fn failures_have_messages() {
    assert_eq!(SchemaError::MissingPackage.message(), "failed to parse package");
    assert_eq!(SchemaError::MissingName.message(), "failed to parse name");
    assert_eq!(SchemaError::MissingPackages.message(), "failed to find packages");
    assert_eq!(SchemaError::TopPackageNotFound.message(), "failed to find top package");
    assert_eq!(SchemaError::MissingDependencies.message(), "error parsing dependencies table");
    assert_eq!(
        SchemaError::MalformedDependency.message(),
        "failed to parse name/version from dependency string"
    );
    assert_eq!(Failure::Schema(SchemaError::MissingName).message(), "failed to parse name");
    assert_eq!(Failure::Malformed(Source::Lockfile).message(), "failed to parse toml");
    assert_eq!(Failure::Spawn.message(), "failed to execute process");
    assert_eq!(Failure::Wait.message(), "failed to run command");
    assert_eq!(Failure::ExitCode(1).message(), "Exited with status code");
    assert_eq!(Failure::Signal.message(), "Process terminated by signal");
}
