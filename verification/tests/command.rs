use build_deps::command::build_package;
use build_deps::command::execute_command;
use build_deps::command::ChildReport;
use build_deps::command::Invocation;
use build_deps::error::Failure;

fn strings(items: &[&str]) -> Vec<String> {
    items.iter().map(|item| item.to_string()).collect()
}

#[test]
fn command_selects_the_package_and_forwards_the_arguments() {
    let args = strings(&["--release", "--target-dir", "out"]);
    let env = vec![("PATH".to_string(), "/bin".to_string())];
    let command = build_package("bar:1.0.0", &args, &env);
    assert_eq!(
        command,
        Invocation {
            program: "cargo".to_string(),
            args: strings(&["build", "--package", "bar:1.0.0", "--release", "--target-dir", "out"]),
            env: vec![("PATH".to_string(), "/bin".to_string())],
        }
    );
}

#[test]
fn command_without_forwarded_arguments() {
    let command = build_package("bar:1.0.0", &vec![], &vec![]);
    assert_eq!(command.program, "cargo");
    assert_eq!(command.args, strings(&["build", "--package", "bar:1.0.0"]));
    assert!(command.env.is_empty());
}

#[test]
fn command_passes_the_environment_unchanged() {
    let env = vec![
        ("B".to_string(), "2".to_string()),
        ("A".to_string(), "".to_string()),
        ("B".to_string(), "3".to_string()),
    ];
    assert_eq!(build_package("x:1", &vec![], &env).env, env);
}

#[test]
fn success_lets_the_run_go_on() {
    assert_eq!(execute_command(ChildReport::Exited { success: true, code: Some(0) }), Ok(()));
}

#[test]
fn exit_status_is_reported() {
    assert_eq!(
        execute_command(ChildReport::Exited { success: false, code: Some(1) }),
        Err(Failure::ExitCode(1))
    );
    assert_eq!(
        execute_command(ChildReport::Exited { success: false, code: Some(101) }),
        Err(Failure::ExitCode(101))
    );
    assert_eq!(
        execute_command(ChildReport::Exited { success: false, code: Some(-1) }),
        Err(Failure::ExitCode(-1))
    );
}

#[test]
fn signal_is_reported_apart_from_an_exit_status() {
    assert_eq!(
        execute_command(ChildReport::Exited { success: false, code: None }),
        Err(Failure::Signal)
    );
}

#[test]
fn command_that_did_not_run_is_reported() {
    assert_eq!(execute_command(ChildReport::NotSpawned), Err(Failure::Spawn));
    assert_eq!(execute_command(ChildReport::NotAwaited), Err(Failure::Wait));
}
