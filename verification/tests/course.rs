use rlease::args::{parse_args, Args};
use rlease::session::{session_step, Stage, Task};

fn args(list: &[&str]) -> Args {
    let argv: Vec<String> = list.iter().map(|s| s.to_string()).collect();
    parse_args(&argv).expect("arguments")
}

/// The tasks of a run in which those in `failing` fail.
fn run(args: &Args, failing: &[Task]) -> Vec<Task> {
    let (mut stage, mut task) = session_step(Stage::Start, true, args);
    let mut tasks = vec![];
    while stage != Stage::End {
        tasks.push(task);
        (stage, task) = session_step(stage, !failing.contains(&task), args);
    }
    tasks.push(task);
    tasks
}

const PRELUDE: [Task; 4] = [
    Task::Find,
    Task::RaiseLoopback,
    Task::RaiseIface,
    Task::WaitCarrier,
];

fn after_prelude(rest: &[Task]) -> Vec<Task> {
    [&PRELUDE[..], rest].concat()
}

#[test]
fn oneshot_run_ends_once_the_lease_is_applied() {
    assert_eq!(
        run(&args(&["-i", "e", "-n"]), &[]),
        after_prelude(&[Task::Discover, Task::Apply, Task::Exit(0)])
    );
}

#[test]
fn other_runs_keep_the_lease() {
    assert_eq!(
        run(&args(&["-i", "e", "-s", "/hook"]), &[]),
        after_prelude(&[Task::Discover, Task::RunScript, Task::Keep])
    );
}

#[test]
fn lease_file_means_reboot_and_save() {
    let a = args(&["-i", "e", "-l", "/lease", "-n"]);
    assert_eq!(
        run(&a, &[]),
        after_prelude(&[Task::Reboot, Task::Apply, Task::Save, Task::Exit(0)])
    );
    assert_eq!(
        run(&a, &[Task::Reboot]),
        after_prelude(&[
            Task::Reboot,
            Task::Discover,
            Task::Apply,
            Task::Save,
            Task::Exit(0)
        ])
    );
}

#[test]
fn missing_carrier_does_not_end_the_run() {
    let a = args(&["-i", "e"]);
    assert_eq!(run(&a, &[Task::WaitCarrier]), run(&a, &[]));
}

#[test]
fn failures_end_the_run() {
    let a = args(&["-i", "e", "-l", "/lease"]);
    assert_eq!(run(&a, &[Task::Find]), vec![Task::Find, Task::Exit(1)]);
    for task in [Task::RaiseLoopback, Task::RaiseIface, Task::Apply, Task::Save] {
        let tasks = run(&a, &[task]);
        assert_eq!(&tasks[tasks.len() - 2..], &[task, Task::Exit(1)]);
    }
    let tasks = run(&a, &[Task::Reboot, Task::Discover]);
    assert_eq!(tasks.last(), Some(&Task::Exit(1)));
    assert_eq!(session_step(Stage::End, true, &a), (Stage::End, Task::Rest));
}
