use pilot::executor::{plan_step, plan_task, Action};
use pilot::output::{entry_trace, finish_trace, Registry};
use pilot::tasks::{Step, Task, TaskError, TaskFile};

fn s(text: &str) -> String {
    text.to_string()
}

fn task(name: &str, steps: Vec<Step>) -> Task {
    Task { name: s(name), steps }
}

fn shell(command: &str) -> Step {
    Step::Shell(s(command))
}

fn call(name: &str) -> Step {
    Step::Task(s(name))
}

fn sample_file() -> TaskFile {
    TaskFile {
        tasks: vec![
            task("build", vec![Step::Description(s("build stuff")), shell("echo build")]),
            task("server", vec![shell("echo server")]),
            task("client", vec![Step::Description(s("server")), shell("echo client")]),
            task("straw-task", vec![call("build")]),
            task(
                "run",
                vec![Step::Parallel(vec![call("build"), call("server"), call("client"), call("straw-task")])],
            ),
            task("raw", vec![Step::Raw(true), shell("read line; echo $line")]),
            task("raw-explicit", vec![Step::Raw(true), shell("read line; echo $line"), call("not-raw-explicit")]),
            task("not-raw-explicit", vec![Step::Raw(false), shell("echo not raw")]),
        ],
    }
}

fn no_time() -> String {
    String::new()
}

/// Runs the shell step of `label` to completion on the registry, printing
/// `lines`, and returns what was printed.
fn shell_output(registry: &mut Registry, label: &str, lines: &[&str]) -> Vec<String> {
    let label = s(label);
    let color = registry.start_shell(&label, false, false);
    let out = lines.iter().map(|l| registry.shell_line(&no_time(), &color, &label, s(l))).collect();
    registry.release();
    out
}

fn expect_plan<'a>(file: &'a TaskFile, name: &str, breadcrumb: &str, raw: bool) -> Vec<Action<'a>> {
    match plan_task(file, &s(name), &s(breadcrumb), &vec![], raw) {
        Ok(actions) => actions,
        Err(e) => panic!("{}", e.message()),
    }
}

#[test]
fn mod_list_tasks() {
    let file = TaskFile {
        tasks: sample_file().tasks.into_iter().take(5).collect(),
    };
    assert_eq!(
        file.list_tasks().ok().unwrap(),
        "Available tasks:
\tbuild - build stuff
\tserver
\tclient - server
\tstraw-task
\trun\n"
    );
}

#[test]
fn test_list_tasks() {
    assert_eq!(
        sample_file().list_tasks().ok().unwrap(),
        "Available tasks:
\tbuild - build stuff
\tserver
\tclient - server
\tstraw-task
\trun
\traw
\traw-explicit
\tnot-raw-explicit\n"
    );
}

#[test]
fn run_task() {
    let file = sample_file();
    let mut registry = Registry::new();
    let mut out = vec![entry_trace(&no_time(), &s("build"))];
    let actions = expect_plan(&file, "build", "build", false);
    assert_eq!(actions.len(), 2);
    assert!(matches!(actions[0], Action::Skip));
    match &actions[1] {
        Action::Shell { command, quiet, raw } => {
            assert_eq!(command.as_str(), "echo build");
            assert!(!quiet);
            assert!(!raw);
        }
        _ => panic!("expected a shell step"),
    }
    out.extend(shell_output(&mut registry, "build", &["build"]));
    out.push(finish_trace(&no_time(), &s("build")));
    assert_eq!(out.join("\n") + "\n", "> build\n\x1b[0;32mbuild:\x1b[0m build\nfinished build\n");
}

#[test]
fn run_non_existent_task() {
    let name = "this-task-is-not-in-the-pilotfile";
    let file = sample_file();
    assert_eq!(entry_trace(&no_time(), &s(name)), "> ".to_string() + name);
    match plan_task(&file, &s(name), &s(name), &vec![], false) {
        Err(e) => {
            assert!(matches!(e, TaskError::NotFound(_)));
            assert_eq!(e.message(), "Task ".to_string() + name + " not found in Pilotfile");
        }
        Ok(_) => panic!("the task does not exist"),
    }
}

#[test]
fn run_multiple_tasks() {
    let mut registry = Registry::new();
    let mut out = vec![];
    for name in ["client", "build"] {
        out.push(entry_trace(&no_time(), &s(name)));
        out.extend(shell_output(&mut registry, name, &[name]));
        out.push(finish_trace(&no_time(), &s(name)));
    }
    assert_eq!(
        out.join("\n") + "\n",
        "> client
\x1b[0;32mclient:\x1b[0m client
finished client
> build
\x1b[0;32mbuild:\x1b[0m  build
finished build\n"
    );
}

#[test]
fn run_nested_task() {
    let file = sample_file();
    let actions = expect_plan(&file, "straw-task", "straw-task", false);
    let child = match &actions[0] {
        Action::Call { name, breadcrumb, raw } => {
            assert_eq!(name.as_str(), "build");
            assert!(!raw);
            breadcrumb.clone()
        }
        _ => panic!("expected a task call"),
    };
    assert_eq!(child, "straw-task > build");
    let mut registry = Registry::new();
    let mut out = vec![entry_trace(&no_time(), &s("straw-task")), entry_trace(&no_time(), &child)];
    out.extend(shell_output(&mut registry, "build", &["build"]));
    out.push(finish_trace(&no_time(), &child));
    out.push(finish_trace(&no_time(), &s("straw-task")));
    assert_eq!(
        out.join("\n") + "\n",
        "> straw-task
> straw-task > build
\x1b[0;32mbuild:\x1b[0m build
finished straw-task > build
finished straw-task\n"
    );
}

#[test]
fn run_parallel_tasks() {
    let file = sample_file();
    let actions = expect_plan(&file, "run", "run", false);
    let branches = match &actions[0] {
        Action::Fork { branches, raw } => {
            assert!(!raw);
            *branches
        }
        _ => panic!("expected parallel branches"),
    };
    let crumbs: Vec<String> = branches
        .iter()
        .map(|b| match plan_step(b, &s("run"), &s("run"), &vec![], false) {
            Action::Call { breadcrumb, .. } => breadcrumb,
            _ => panic!("expected a task call"),
        })
        .collect();
    assert_eq!(crumbs, vec!["run > build", "run > server", "run > client", "run > straw-task"]);

    // The order in which the branches happened to run: build alone, then
    // server, client and the nested build at the same time.
    let mut registry = Registry::new();
    let build_color = registry.start_shell(&s("build"), false, false);
    let first = registry.shell_line(&no_time(), &build_color, &s("build"), s("build"));
    registry.release();
    let server_color = registry.start_shell(&s("server"), false, false);
    let client_color = registry.start_shell(&s("client"), false, false);
    let nested_color = registry.start_shell(&s("build"), false, false);
    let client = registry.shell_line(&no_time(), &client_color, &s("client"), s("client"));
    let nested = registry.shell_line(&no_time(), &nested_color, &s("build"), s("build"));
    let server = registry.shell_line(&no_time(), &server_color, &s("server"), s("server"));
    assert_eq!(first, "\x1b[0;32mbuild:\x1b[0m build");
    assert_eq!(client, "\x1b[0;33mclient:\x1b[0m client");
    assert_eq!(nested, "\x1b[0;34mbuild:\x1b[0m  build");
    assert_eq!(server, "\x1b[0;32mserver:\x1b[0m server");
}

#[test]
fn run_raw() {
    let file = sample_file();
    let actions = expect_plan(&file, "raw", "raw", true);
    assert!(matches!(actions[0], Action::Skip));
    assert!(matches!(actions[1], Action::Shell { raw: true, quiet: false, .. }));
    let mut out = vec![entry_trace(&no_time(), &s("raw"))];
    // a raw step's output reaches the terminal as it is
    out.push(s("test-input"));
    out.push(finish_trace(&no_time(), &s("raw")));
    assert_eq!(out.join("\n") + "\n", "> raw\n".to_string() + "test-input" + "\nfinished raw\n");
}

#[test]
fn run_tasks_explicit_raw_not_raw() {
    let file = sample_file();
    let actions = expect_plan(&file, "raw-explicit", "raw-explicit", false);
    assert!(matches!(actions[1], Action::Shell { raw: true, .. }));
    let child = match &actions[2] {
        Action::Call { name, breadcrumb, raw } => {
            assert_eq!(name.as_str(), "not-raw-explicit");
            assert!(*raw);
            breadcrumb.clone()
        }
        _ => panic!("expected a task call"),
    };
    let inner = expect_plan(&file, "not-raw-explicit", &child, true);
    assert!(matches!(inner[1], Action::Shell { raw: false, .. }));
    let mut registry = Registry::new();
    let mut out = vec![entry_trace(&no_time(), &s("raw-explicit")), s("test-input")];
    out.push(entry_trace(&no_time(), &child));
    out.extend(shell_output(&mut registry, "not-raw-explicit", &["not raw"]));
    out.push(finish_trace(&no_time(), &child));
    out.push(finish_trace(&no_time(), &s("raw-explicit")));
    assert_eq!(
        out.join("\n") + "\n",
        "> raw-explicit\n".to_string()
            + "test-input"
            + "
> raw-explicit > not-raw-explicit
\x1b[0;32mnot-raw-explicit:\x1b[0m not raw
finished raw-explicit > not-raw-explicit
finished raw-explicit\n"
    );
}
