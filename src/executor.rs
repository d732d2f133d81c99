//! The decisions of the task executor: which task a name denotes, what each
//! step of it does, and with which raw setting and breadcrumb.

use vstd::prelude::*;
use vstd::string::*;
use crate::tasks::{Step, TaskError, TaskFile, count_named};

verus! {

/// What the runner does for one step.
pub enum Action<'a> {
    /// Runs a shell command; `quiet` discards its output, `raw` attaches it
    /// to the runner's own terminal.
    Shell { command: &'a String, quiet: bool, raw: bool },
    /// Runs another task, under the given breadcrumb and raw setting.
    Call { name: &'a String, breadcrumb: String, raw: bool },
    /// Runs each branch at the same time, each with its own copy of the raw
    /// setting, and waits for all of them.
    Fork { branches: &'a Vec<Step>, raw: bool },
    /// Nothing to run.
    Skip,
}

/// `name` is among the quiet tasks.
pub open spec fn is_quiet_in(quiet: Seq<String>, name: Seq<char>) -> bool {
    exists|i: int| 0 <= i < quiet.len() && (#[trigger] quiet[i])@ == name
}

/// The breadcrumb of a task called under `breadcrumb`.
pub open spec fn child_breadcrumb(breadcrumb: Seq<char>, name: Seq<char>) -> Seq<char> {
    breadcrumb + " > "@ + name
}

/// `a` is what the runner does for `step`, a step of the task `task` run
/// under `breadcrumb` with the quiet tasks `quiet` and the raw setting `raw`.
pub open spec fn is_action_for(
    a: Action,
    step: Step,
    task: Seq<char>,
    breadcrumb: Seq<char>,
    quiet: Seq<String>,
    raw: bool,
) -> bool {
    match step {
        Step::Shell(c) => a matches Action::Shell { command, quiet: q, raw: r } && command@ == c@
            && q == is_quiet_in(quiet, task) && r == raw,
        Step::Task(n) => a matches Action::Call { name, breadcrumb: b, raw: r } && name@ == n@ && b@
            == child_breadcrumb(breadcrumb, n@) && r == raw,
        Step::Parallel(bs) => a matches Action::Fork { branches, raw: r } && branches@ == bs@ && r
            == raw,
        Step::Raw(_) => a is Skip,
        Step::Description(_) => a is Skip,
    }
}

/// The raw setting in force at step `j` of `steps`: that of the last raw
/// step before it, or `raw` if there is none.
pub open spec fn raw_at(steps: Seq<Step>, j: int, raw: bool) -> bool
    decreases j,
{
    if j <= 0 {
        raw
    } else {
        match steps[j - 1] {
            Step::Raw(b) => b,
            _ => raw_at(steps, j - 1, raw),
        }
    }
}

/// Whether `name` is among the quiet tasks.
pub fn is_quiet(quiet: &Vec<String>, name: &String) -> (r: bool)
    ensures
        r == is_quiet_in(quiet@, name@),
{
    let mut i: usize = 0;
    while i < quiet.len()
        invariant
            i <= quiet@.len(),
            forall|k: int| 0 <= k < i ==> (#[trigger] quiet@[k])@ != name@,
        decreases quiet@.len() - i,
    {
        if quiet[i] == *name {
            return true;
        }
        i = i + 1;
    }
    false
}

/// The breadcrumb of a task called under `breadcrumb`.
pub fn child_breadcrumb_of(breadcrumb: &String, name: &String) -> (r: String)
    ensures
        r@ == child_breadcrumb(breadcrumb@, name@),
{
    let mut r = breadcrumb.clone();
    r.append(" > ");
    r.append(name.as_str());
    r
}

/// What the runner does for `step`, a step of the task `task` run under
/// `breadcrumb` with the quiet tasks `quiet` and the raw setting `raw`.
pub fn plan_step<'a>(
    step: &'a Step,
    task: &String,
    breadcrumb: &String,
    quiet: &Vec<String>,
    raw: bool,
) -> (a: Action<'a>)
    ensures
        is_action_for(a, *step, task@, breadcrumb@, quiet@, raw),
{
    match step {
        Step::Shell(command) => Action::Shell { command, quiet: is_quiet(quiet, task), raw },
        Step::Task(name) => Action::Call {
            name,
            breadcrumb: child_breadcrumb_of(breadcrumb, name),
            raw,
        },
        Step::Parallel(branches) => Action::Fork { branches, raw },
        Step::Raw(_) => Action::Skip,
        Step::Description(_) => Action::Skip,
    }
}

/// What the runner does for each step of the task named `name`, in order,
/// run under `breadcrumb` with the quiet tasks `quiet` and the raw setting
/// `raw`; an error if no task or more than one task has that name.
pub fn plan_task<'a>(
    file: &'a TaskFile,
    name: &String,
    breadcrumb: &String,
    quiet: &Vec<String>,
    raw: bool,
) -> (r: Result<Vec<Action<'a>>, TaskError>)
    ensures
        match r {
            Ok(actions) => count_named(file.tasks@, name@) == 1 && exists|t: int|
                0 <= t < file.tasks@.len() && (#[trigger] file.tasks@[t]).name@ == name@
                    && actions@.len() == file.tasks@[t].steps@.len() && forall|j: int|
                    0 <= j < actions@.len() ==> is_action_for(
                        #[trigger] actions@[j],
                        file.tasks@[t].steps@[j],
                        name@,
                        breadcrumb@,
                        quiet@,
                        raw_at(file.tasks@[t].steps@, j, raw),
                    ),
            Err(e) => match e {
                TaskError::NotFound(n) => count_named(file.tasks@, name@) == 0 && n@ == name@,
                TaskError::Duplicate(n) => count_named(file.tasks@, name@) > 1 && n@ == name@,
                TaskError::MultipleDescriptions(_) => false,
            },
        },
{
    let t = match file.find_task(name) {
        Ok(t) => t,
        Err(e) => {
            return Err(e);
        },
    };
    let steps = &file.tasks[t].steps;
    let mut actions: Vec<Action<'a>> = Vec::new();
    let mut current = raw;
    let mut j: usize = 0;
    while j < steps.len()
        invariant
            steps@ == file.tasks@[t as int].steps@,
            j <= steps@.len(),
            actions@.len() == j,
            current == raw_at(steps@, j as int, raw),
            forall|k: int|
                0 <= k < j ==> is_action_for(
                    #[trigger] actions@[k],
                    steps@[k],
                    name@,
                    breadcrumb@,
                    quiet@,
                    raw_at(steps@, k, raw),
                ),
        decreases steps@.len() - j,
    {
        let step = &steps[j];
        actions.push(plan_step(step, name, breadcrumb, quiet, current));
        match step {
            Step::Raw(b) => {
                current = *b;
            },
            _ => {},
        }
        j = j + 1;
    }
    Ok(actions)
}

/// The outcome of a parallel step, once all branches have ended: the index
/// of the first branch that failed, or `None` when all succeeded. The errors
/// of later branches are reported beside it.
pub fn first_failure(outcomes: &Vec<Result<(), TaskError>>) -> (r: Option<usize>)
    ensures
        match r {
            None => forall|i: int| 0 <= i < outcomes@.len() ==> (#[trigger] outcomes@[i]) is Ok,
            Some(i) => i < outcomes@.len() && outcomes@[i as int] is Err && forall|k: int|
                0 <= k < i ==> (#[trigger] outcomes@[k]) is Ok,
        },
{
    let mut i: usize = 0;
    while i < outcomes.len()
        invariant
            i <= outcomes@.len(),
            forall|k: int| 0 <= k < i ==> (#[trigger] outcomes@[k]) is Ok,
        decreases outcomes@.len() - i,
    {
        if outcomes[i].is_err() {
            return Some(i);
        }
        i = i + 1;
    }
    None
}

} // verus!
