use runit::diagnostic::{Fault, LanguageError, Span};
use runit::directive::Rejection;
use runit::launch::{docker, shell, Action, Host};
use runit::pipeline::{runs, start, Task};

fn lines(list: &[&str]) -> Vec<String> {
    list.iter().map(|line| line.to_string()).collect()
}

fn host() -> Host {
    Host { shell: Some("/bin/bash".to_string()), stamp: 99, privileged: false }
}

#[test]
fn an_empty_script_is_empty_input() {
    for name in [".run", "", "some/where/else", "\u{1f41a}"] {
        for (dry_run, list) in [(false, false), (true, false), (false, true), (true, true)] {
            let error = start(&[], name, dry_run, list, &host()).unwrap_err();
            assert_eq!(error, LanguageError::empty(name));
            assert_eq!(error.kind, Fault::EmptyInput);
            assert_eq!(error.label, "Empty file");
            assert_eq!(error.help, "Add an identifier to the first line of the file");
            assert_eq!(error.src, " ");
            assert_eq!(error.bad_bit, Span { offset: 0, len: 1 });
            assert_eq!(error.name, name);
        }
    }
}

#[test]
fn the_body_is_what_follows_the_directive() {
    let script = lines(&["#!shell", "echo one", "echo two"]);
    let task = start(&script, ".run", false, false, &host()).unwrap();
    assert_eq!(task, Task::Launch(shell(&lines(&["echo one", "echo two"]), "/bin/bash", 99)));
    match task {
        Task::Launch(launch) => assert_eq!(
            launch.action(),
            Action::Write { path: "/tmp/runit_99".to_string(), text: "echo one\necho two".to_string() }
        ),
        other => panic!("{other:?}"),
    }
}

#[test]
fn a_directive_alone_launches_an_empty_body() {
    let script = lines(&["#!docker"]);
    let task = start(&script, ".run", false, false, &host()).unwrap();
    assert_eq!(task, Task::Launch(docker(&[], false)));
}

#[test]
fn a_bad_directive_stops_the_pipeline() {
    let script = lines(&["#!pythn", "print(1)"]);
    let error = start(&script, "job", false, false, &host()).unwrap_err();
    assert_eq!(error.help, "Did you mean `#!python`?");
    assert_eq!(error.name, "job");
    let script = lines(&["", "#!shell"]);
    let error = start(&script, "job", false, false, &host()).unwrap_err();
    assert_eq!(error.kind, Fault::UnrecognizedDirective(Rejection::Unknown));
    assert_eq!(error.bad_bit, Span { offset: 0, len: 0 });
}

#[test]
fn listing_and_dry_run_launch_nothing() {
    let script = lines(&["#!shell", "echo one"]);
    assert_eq!(start(&script, ".run", false, true, &host()), Ok(Task::List));
    assert_eq!(start(&script, ".run", true, false, &host()), Ok(Task::DryRun));
    assert_eq!(start(&script, ".run", true, true, &host()), Ok(Task::List));
    // Not even the directive is looked at.
    let odd = lines(&["#!nonsense"]);
    assert_eq!(start(&odd, ".run", false, true, &host()), Ok(Task::List));
    assert_eq!(start(&odd, ".run", true, false, &host()), Ok(Task::DryRun));
}

#[test]
fn without_a_file_name_nothing_is_launched() {
    let script = lines(&["#!shell", "echo one"]);
    assert_eq!(start(&script, "", false, false, &host()), Ok(Task::Idle));
    assert_eq!(start(&script, "", true, false, &host()), Ok(Task::DryRun));
    assert_eq!(start(&script, "", false, true, &host()), Ok(Task::List));
}

#[test]
fn a_run_hands_out_the_entries_in_run_order() {
    let (mut run, ignored) = runs(".runs", lines(&[".runs", "10_x", "2_y", "1_z", "readme.md"]));
    assert_eq!(ignored, lines(&["readme.md"]));
    assert_eq!(run.next_file(), Some(".runs/1_z".to_string()));
    assert_eq!(run.next_file(), Some(".runs/2_y".to_string()));
    assert_eq!(run.next_file(), Some(".runs/10_x".to_string()));
    assert_eq!(run.next_file(), None);
    assert_eq!(run.next_file(), None);
}

#[test]
fn aborting_mid_batch() {
    let (mut run, _) = runs("jobs", lines(&["jobs", "3_test", "1_setup", "2_build"]));
    let scripts = [lines(&["#!shell", "echo setup"]), lines(&["#!shel", "echo build"])];
    let mut opened = Vec::new();
    let mut failure = None;
    while let Some(path) = run.next_file() {
        let script = &scripts[opened.len()];
        opened.push(path.clone());
        if let Err(error) = start(script, &path, false, false, &host()) {
            run.abort();
            failure = Some(error);
        }
    }
    assert_eq!(opened, lines(&["jobs/1_setup", "jobs/2_build"]));
    assert_eq!(failure.unwrap().name, "jobs/2_build");
    assert_eq!(run.next_file(), None);
    assert_eq!(run.next_file(), None);
}

#[test]
fn an_aborted_run_hands_out_nothing() {
    let (mut run, _) = runs("jobs", lines(&["jobs", "1", "2"]));
    run.abort();
    assert_eq!(run.next_file(), None);
    let (mut run, _) = runs("jobs", lines(&["jobs", "1", "2"]));
    assert_eq!(run.next_file(), Some("jobs/1".to_string()));
    run.abort();
    run.abort();
    assert_eq!(run.next_file(), None);
}

#[test]
fn a_run_of_nothing_is_over_at_once() {
    let (mut run, ignored) = runs("jobs", lines(&["jobs", "notes", "plan"]));
    assert_eq!(ignored, lines(&["notes", "plan"]));
    assert_eq!(run.next_file(), None);
    let (mut run, ignored) = runs("", Vec::new());
    assert!(ignored.is_empty());
    assert_eq!(run.next_file(), None);
}

#[test]
fn paths_join_the_directory_and_the_entry_with_a_slash() {
    let (mut run, _) = runs("/abs/dir/", lines(&["dir", "1"]));
    assert_eq!(run.next_file(), Some("/abs/dir//1".to_string()));
    let (mut run, _) = runs("", lines(&["", "1"]));
    assert_eq!(run.next_file(), Some("/1".to_string()));
}
