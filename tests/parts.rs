use pilot::cli::{parse_args, Invocation};
use pilot::executor::{child_breadcrumb_of, first_failure, is_quiet, plan_step, plan_task, Action};
use pilot::output::{color_for, format_clock, label_width, output_line, time_prefix, Registry};
use pilot::sanitize::sanitize_string;
use pilot::tasks::{Step, Task, TaskError, TaskFile};

fn s(text: &str) -> String {
    text.to_string()
}

fn args(list: &[&str]) -> Vec<String> {
    list.iter().map(|a| s(a)).collect()
}

#[test]
fn sanitize_clears_line() {
    assert_eq!(sanitize_string(s("\x1b[2K\x1b[0GHello")), "Hello");
}

#[test]
fn sanitize_keeps_colors() {
    let line = "\x1b[0;31mred\x1b[0m plain \x1b[1;32;40mgreen\x1b[m";
    assert_eq!(sanitize_string(s(line)), line);
}

#[test]
fn sanitize_plain_and_empty() {
    assert_eq!(sanitize_string(s("")), "");
    assert_eq!(sanitize_string(s("just text")), "just text");
}

#[test]
fn sanitize_drops_prefix_up_to_terminator() {
    assert_eq!(sanitize_string(s("progress 10%\x1b[1Gprogress 20%")), "progress 20%");
    assert_eq!(sanitize_string(s("\x1b[31mold\x1b[Knew")), "new");
}

#[test]
fn sanitize_keeps_unterminated_sequence() {
    assert_eq!(sanitize_string(s("text\x1b[12;3")), "text\x1b[12;3");
    assert_eq!(sanitize_string(s("\x1b")), "\x1b");
}

#[test]
fn colors_cycle_through_palette() {
    let mut registry = Registry::new();
    let mut seen = vec![];
    for _ in 0..7 {
        let slot = registry.acquire();
        seen.push(color_for(slot));
    }
    assert_eq!(
        seen,
        vec![
            "\x1b[0;32m", "\x1b[0;33m", "\x1b[0;34m", "\x1b[0;35m", "\x1b[0;36m", "\x1b[0;37m",
            "\x1b[0;31m"
        ]
    );
    let mut unique = seen.clone();
    unique.sort();
    unique.dedup();
    assert_eq!(unique.len(), 7);
    assert_eq!(color_for(registry.acquire()), "\x1b[0;32m");
}

#[test]
fn registry_counter_wraps() {
    let mut registry = Registry { counter: u32::MAX, watermark: 0 };
    assert_eq!(registry.acquire(), u32::MAX);
    assert_eq!(registry.counter, 0);
    registry.release();
    assert_eq!(registry.counter, u32::MAX);
}

#[test]
fn alignment_grows_with_widest_label() {
    let mut registry = Registry::new();
    let mut paddings = vec![];
    for width in [3usize, 8, 5, 12, 2] {
        registry.widen(width);
        paddings.push(registry.padding(4));
    }
    assert_eq!(paddings, vec![0, 4, 4, 8, 8]);
    assert_eq!(registry.watermark, 12);
    assert_eq!(registry.padding(20), 0);
}

#[test]
fn quiet_and_raw_steps_leave_alignment() {
    let mut registry = Registry::new();
    registry.start_shell(&s("a-long-name"), true, false);
    registry.start_shell(&s("another-long-name"), false, true);
    assert_eq!(registry.watermark, 0);
    registry.start_shell(&s("abc"), false, false);
    assert_eq!(registry.watermark, 4);
    assert_eq!(registry.counter, 4);
}

#[test]
fn output_line_layout() {
    assert_eq!(label_width(&s("build")), 6);
    assert_eq!(label_width(&s("\u{e9}")), 3);
    let mut wide = Registry::new();
    wide.start_shell(&s("\u{e9}"), false, false);
    assert_eq!(wide.watermark, 3);
    let shown = wide.shell_line(&s(""), &s(""), &s("\u{e9}"), s("x"));
    assert_eq!(shown, "\u{e9}:\x1b[0m x");
    let line = output_line(&s("12:00:01 "), &s("\x1b[0;32m"), &s("build"), 2, &s("x"));
    assert_eq!(line, "12:00:01 \x1b[0;32mbuild:\x1b[0m   x");
    let registry = Registry { counter: 1, watermark: 9 };
    let shown = registry.shell_line(&s(""), &s("\x1b[0;33m"), &s("api"), s("done\x1b[0Kok"));
    assert_eq!(shown, "\x1b[0;33mapi:\x1b[0m      ok");
}

#[test]
fn clock_and_time_prefix() {
    assert_eq!(format_clock(7, 5, 9), "07:05:09");
    assert_eq!(format_clock(23, 59, 0), "23:59:00");
    assert_eq!(time_prefix(false, 0, 0, 0), "");
    assert_eq!(time_prefix(true, 9, 30, 5), "09:30:05 ");
}

#[test]
fn parse_no_arguments_lists() {
    assert!(matches!(parse_args(&vec![]), Invocation::List));
}

#[test]
fn parse_help() {
    assert!(matches!(parse_args(&args(&["-h"])), Invocation::Help));
    assert!(matches!(parse_args(&args(&["--help", "build"])), Invocation::Help));
}

#[test]
fn parse_tasks_quiet_and_switches() {
    match parse_args(&args(&["build", "-r", "client", "--quiet", "server", "-t", "-q"])) {
        Invocation::Run { tasks, quiet, raw, timestamp } => {
            assert_eq!(tasks, vec!["build", "client"]);
            assert_eq!(quiet, vec!["server", "-q"]);
            assert!(raw);
            assert!(timestamp);
        }
        _ => panic!("expected a run"),
    }
    match parse_args(&args(&["run", "-h"])) {
        Invocation::Run { tasks, quiet, raw, timestamp } => {
            assert_eq!(tasks, vec!["run", "-h"]);
            assert!(quiet.is_empty());
            assert!(!raw);
            assert!(!timestamp);
        }
        _ => panic!("expected a run"),
    }
}

#[test]
fn duplicate_task_is_an_error() {
    let file = TaskFile {
        tasks: vec![
            Task { name: s("a"), steps: vec![] },
            Task { name: s("a"), steps: vec![] },
        ],
    };
    match file.find_task(&s("a")) {
        Err(e) => {
            assert!(matches!(e, TaskError::Duplicate(_)));
            assert_eq!(e.message(), "Duplicate task a");
        }
        Ok(_) => panic!("the name is not unique"),
    }
}

#[test]
fn find_task_gives_index() {
    let file = TaskFile {
        tasks: vec![
            Task { name: s("a"), steps: vec![] },
            Task { name: s("b"), steps: vec![] },
        ],
    };
    assert_eq!(file.find_task(&s("b")).ok(), Some(1));
}

#[test]
fn two_descriptions_is_an_error() {
    let file = TaskFile {
        tasks: vec![
            Task { name: s("ok"), steps: vec![Step::Description(s("fine"))] },
            Task {
                name: s("bad"),
                steps: vec![Step::Description(s("one")), Step::Description(s("two"))],
            },
            Task { name: s("worse"), steps: vec![Step::Description(s("1")), Step::Description(s("2"))] },
        ],
    };
    match file.list_tasks() {
        Err(e) => assert_eq!(e.message(), "More than one description for task bad"),
        Ok(_) => panic!("two descriptions"),
    }
}

#[test]
fn listing_is_repeatable() {
    let file = TaskFile {
        tasks: vec![Task { name: s("x"), steps: vec![Step::Description(s("does x")), Step::Shell(s("true"))] }],
    };
    let first = file.list_tasks().ok().unwrap();
    let second = file.list_tasks().ok().unwrap();
    assert_eq!(first, second);
    assert_eq!(first, "Available tasks:\n\tx - does x\n");
}

#[test]
fn raw_toggle_applies_to_later_steps_only() {
    let file = TaskFile {
        tasks: vec![Task {
            name: s("t"),
            steps: vec![
                Step::Shell(s("one")),
                Step::Raw(true),
                Step::Parallel(vec![Step::Raw(false), Step::Shell(s("two"))]),
                Step::Shell(s("three")),
                Step::Raw(false),
                Step::Task(s("u")),
            ],
        }],
    };
    let quiet = vec![s("t")];
    let actions = plan_task(&file, &s("t"), &s("top > t"), &quiet, false).ok().unwrap();
    assert!(matches!(actions[0], Action::Shell { raw: false, quiet: true, .. }));
    assert!(matches!(actions[1], Action::Skip));
    match &actions[2] {
        Action::Fork { branches, raw } => {
            assert!(*raw);
            assert!(matches!(plan_step(&branches[0], &s("t"), &s("top > t"), &quiet, *raw), Action::Skip));
            assert!(matches!(
                plan_step(&branches[1], &s("t"), &s("top > t"), &quiet, *raw),
                Action::Shell { raw: true, .. }
            ));
        }
        _ => panic!("expected parallel branches"),
    }
    assert!(matches!(actions[3], Action::Shell { raw: true, .. }));
    match &actions[5] {
        Action::Call { breadcrumb, raw, .. } => {
            assert_eq!(breadcrumb, "top > t > u");
            assert!(!raw);
        }
        _ => panic!("expected a task call"),
    }
}

#[test]
fn quiet_lookup_and_breadcrumbs() {
    let quiet = vec![s("a"), s("b")];
    assert!(is_quiet(&quiet, &s("b")));
    assert!(!is_quiet(&quiet, &s("c")));
    assert_eq!(child_breadcrumb_of(&s("run"), &s("build")), "run > build");
}

#[test]
fn first_failed_branch_is_found() {
    let all_ok: Vec<Result<(), TaskError>> = vec![Ok(()), Ok(())];
    assert_eq!(first_failure(&all_ok), None);
    assert_eq!(first_failure(&vec![]), None);
    let mixed = vec![Ok(()), Err(TaskError::NotFound(s("a"))), Err(TaskError::Duplicate(s("b")))];
    assert_eq!(first_failure(&mixed), Some(1));
}
