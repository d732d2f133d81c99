//! The task model: a file of named tasks, each an ordered list of steps, with
//! lookup by name and the listing of all tasks.

use vstd::prelude::*;
use vstd::string::*;

verus! {

/// One instruction of a task.
pub enum Step {
    /// A shell command line.
    Shell(String),
    /// A call of another task of the file, by name.
    Task(String),
    /// Steps that run at the same time; the step ends when all have ended.
    Parallel(Vec<Step>),
    /// Sets raw output for the steps that follow in the same list.
    Raw(bool),
    /// Text shown when the tasks are listed; never executed.
    Description(String),
}

/// A named task and its steps.
pub struct Task {
    pub name: String,
    pub steps: Vec<Step>,
}

/// All tasks of a task file, in the order of the file.
pub struct TaskFile {
    pub tasks: Vec<Task>,
}

/// A fatal error of the task runner.
pub enum TaskError {
    /// No task of the file has the name.
    NotFound(String),
    /// More than one task of the file has the name.
    Duplicate(String),
    /// The named task has more than one description.
    MultipleDescriptions(String),
}

impl TaskError {
    /// The text reported for the error.
    pub open spec fn message_of(&self) -> Seq<char> {
        match self {
            TaskError::NotFound(n) => "Task "@ + n@ + " not found in Pilotfile"@,
            TaskError::Duplicate(n) => "Duplicate task "@ + n@,
            TaskError::MultipleDescriptions(n) => "More than one description for task "@ + n@,
        }
    }

    pub fn message(&self) -> (r: String)
        ensures
            r@ == self.message_of(),
    {
        match self {
            TaskError::NotFound(n) => {
                let mut r = String::from_str("Task ");
                r.append(n.as_str());
                r.append(" not found in Pilotfile");
                r
            },
            TaskError::Duplicate(n) => {
                let mut r = String::from_str("Duplicate task ");
                r.append(n.as_str());
                r
            },
            TaskError::MultipleDescriptions(n) => {
                let mut r = String::from_str("More than one description for task ");
                r.append(n.as_str());
                r
            },
        }
    }
}

/// The number of tasks in `tasks` named `name`.
pub open spec fn count_named(tasks: Seq<Task>, name: Seq<char>) -> nat
    decreases tasks.len(),
{
    if tasks.len() == 0 {
        0
    } else {
        count_named(tasks.drop_last(), name) + if tasks.last().name@ == name {
            1nat
        } else {
            0nat
        }
    }
}

/// The number of description steps in `steps`.
pub open spec fn description_count(steps: Seq<Step>) -> nat
    decreases steps.len(),
{
    if steps.len() == 0 {
        0
    } else {
        description_count(steps.drop_last()) + if steps.last() is Description {
            1nat
        } else {
            0nat
        }
    }
}

/// The text of the last description step in `steps`.
pub open spec fn last_description(steps: Seq<Step>) -> Seq<char>
    decreases steps.len(),
{
    if steps.len() == 0 {
        Seq::empty()
    } else {
        match steps.last() {
            Step::Description(d) => d@,
            _ => last_description(steps.drop_last()),
        }
    }
}

/// The line that lists a task: its name, then ` - ` and its description if
/// it has one.
pub open spec fn task_line(t: Task) -> Seq<char> {
    if description_count(t.steps@) == 0 {
        t.name@
    } else {
        t.name@ + " - "@ + last_description(t.steps@)
    }
}

/// One tab-indented line per task.
pub open spec fn task_lines(tasks: Seq<Task>) -> Seq<char>
    decreases tasks.len(),
{
    if tasks.len() == 0 {
        Seq::empty()
    } else {
        task_lines(tasks.drop_last()) + "\t"@ + task_line(tasks.last()) + "\n"@
    }
}

/// The listing of all tasks: a header, then one line per task.
pub open spec fn listing(tasks: Seq<Task>) -> Seq<char> {
    "Available tasks:\n"@ + task_lines(tasks)
}

/// `r` is the outcome of listing `tasks`: the listing where every task has
/// at most one description, else an error naming the first task with more.
pub open spec fn is_listing_result(tasks: Seq<Task>, r: Result<String, TaskError>) -> bool {
    match r {
        Ok(s) => descriptions_valid(tasks) && s@ == listing(tasks),
        Err(e) => exists|i: int|
            0 <= i < tasks.len() && description_count(#[trigger] tasks[i].steps@) > 1
                && descriptions_valid(tasks.take(i)) && (e matches TaskError::MultipleDescriptions(n)
                && n@ == tasks[i].name@),
    }
}

/// Every task has at most one description.
pub open spec fn descriptions_valid(tasks: Seq<Task>) -> bool {
    forall|i: int| 0 <= i < tasks.len() ==> description_count(#[trigger] tasks[i].steps@) <= 1
}

impl Task {
    /// Its line in the listing; fails when it holds two or more
    /// descriptions.
    pub fn task_to_string(&self) -> (r: Result<String, TaskError>)
        ensures
            match r {
                Ok(s) => description_count(self.steps@) <= 1 && s@ == task_line(*self),
                Err(e) => description_count(self.steps@) > 1 && (e matches TaskError::MultipleDescriptions(n)
                    && n@ == self.name@),
            },
    {
        let mut count: usize = 0;
        let mut text: &String = &self.name;
        let mut j: usize = 0;
        while j < self.steps.len()
            invariant
                j <= self.steps@.len(),
                count == description_count(self.steps@.take(j as int)),
                count <= 1,
                count > 0 ==> text@ == last_description(self.steps@.take(j as int)),
            decreases self.steps@.len() - j,
        {
            proof {
                assert(self.steps@.take(j + 1).drop_last() =~= self.steps@.take(j as int));
            }
            match &self.steps[j] {
                Step::Description(d) => {
                    if count == 1 {
                        proof {
                            lemma_description_count_prefix(self.steps@, j + 1);
                        }
                        return Err(TaskError::MultipleDescriptions(self.name.clone()));
                    }
                    count = count + 1;
                    text = d;
                },
                _ => {},
            }
            j = j + 1;
        }
        proof {
            assert(self.steps@.take(j as int) =~= self.steps@);
        }
        if count == 0 {
            Ok(self.name.clone())
        } else {
            let mut r = self.name.clone();
            r.append(" - ");
            r.append(text.as_str());
            Ok(r)
        }
    }
}

/// A prefix of a step list holds no more descriptions than the whole list.
pub proof fn lemma_description_count_prefix(steps: Seq<Step>, j: int)
    requires
        0 <= j <= steps.len(),
    ensures
        description_count(steps.take(j)) <= description_count(steps),
    decreases steps.len(),
{
    if j < steps.len() {
        assert(steps.drop_last().take(j) =~= steps.take(j));
        lemma_description_count_prefix(steps.drop_last(), j);
    } else {
        assert(steps.take(j) =~= steps);
    }
}

impl TaskFile {
    /// The index of the task named `name`; an error if no task or more than
    /// one task has that name.
    pub fn find_task(&self, name: &String) -> (r: Result<usize, TaskError>)
        ensures
            match r {
                Ok(i) => count_named(self.tasks@, name@) == 1 && i < self.tasks@.len()
                    && self.tasks@[i as int].name@ == name@,
                Err(e) => match e {
                    TaskError::NotFound(n) => count_named(self.tasks@, name@) == 0 && n@ == name@,
                    TaskError::Duplicate(n) => count_named(self.tasks@, name@) > 1 && n@ == name@,
                    TaskError::MultipleDescriptions(_) => false,
                },
            },
    {
        let mut count: usize = 0;
        let mut found: usize = 0;
        let mut i: usize = 0;
        while i < self.tasks.len()
            invariant
                i <= self.tasks@.len(),
                count == count_named(self.tasks@.take(i as int), name@),
                count <= 1,
                count == 1 ==> found < i && self.tasks@[found as int].name@ == name@,
            decreases self.tasks@.len() - i,
        {
            proof {
                assert(self.tasks@.take(i + 1).drop_last() =~= self.tasks@.take(i as int));
            }
            if self.tasks[i].name == *name {
                if count == 1 {
                    proof {
                        lemma_count_named_prefix(self.tasks@, name@, i + 1);
                    }
                    return Err(TaskError::Duplicate(name.clone()));
                }
                count = count + 1;
                found = i;
            }
            i = i + 1;
        }
        proof {
            assert(self.tasks@.take(i as int) =~= self.tasks@);
        }
        if count == 0 {
            Err(TaskError::NotFound(name.clone()))
        } else {
            Ok(found)
        }
    }

    /// The listing of all tasks, or an error naming the first task with more
    /// than one description.
    pub fn list_tasks(&self) -> (r: Result<String, TaskError>)
        ensures
            is_listing_result(self.tasks@, r),
    {
        let mut out = String::from_str("Available tasks:\n");
        let mut i: usize = 0;
        while i < self.tasks.len()
            invariant
                i <= self.tasks@.len(),
                out@ == listing(self.tasks@.take(i as int)),
                descriptions_valid(self.tasks@.take(i as int)),
            decreases self.tasks@.len() - i,
        {
            proof {
                assert(self.tasks@.take(i + 1).drop_last() =~= self.tasks@.take(i as int));
            }
            match self.tasks[i].task_to_string() {
                Ok(line) => {
                    out.append("\t");
                    out.append(line.as_str());
                    out.append("\n");
                    proof {
                        let t = self.tasks@.take(i + 1);
                        assert(t.last() == self.tasks@[i as int]);
                        assert(out@ =~= listing(t));
                        assert forall|k: int| 0 <= k < t.len() implies description_count(
                            #[trigger] t[k].steps@,
                        ) <= 1 by {
                            if k < i {
                                assert(t[k] == self.tasks@.take(i as int)[k]);
                            }
                        }
                    }
                },
                Err(e) => {
                    return Err(e);
                },
            }
            i = i + 1;
        }
        proof {
            assert(self.tasks@.take(i as int) =~= self.tasks@);
        }
        Ok(out)
    }
}

/// A prefix of a task list holds no more tasks of a name than the whole list.
pub proof fn lemma_count_named_prefix(tasks: Seq<Task>, name: Seq<char>, j: int)
    requires
        0 <= j <= tasks.len(),
    ensures
        count_named(tasks.take(j), name) <= count_named(tasks, name),
    decreases tasks.len(),
{
    if j < tasks.len() {
        assert(tasks.drop_last().take(j) =~= tasks.take(j));
        lemma_count_named_prefix(tasks.drop_last(), name, j);
    } else {
        assert(tasks.take(j) =~= tasks);
    }
}

/// Listing the same, unchanged tasks twice gives the same outcome: the same
/// text, or errors with the same message.
pub proof fn listing_repeatable(
    tasks: Seq<Task>,
    first: Result<String, TaskError>,
    second: Result<String, TaskError>,
)
    requires
        is_listing_result(tasks, first),
        is_listing_result(tasks, second),
    ensures
        first is Ok <==> second is Ok,
        first is Ok ==> first->Ok_0@ == second->Ok_0@,
        first is Err ==> first->Err_0.message_of() == second->Err_0.message_of(),
{
    if first is Err && second is Err {
        let i = choose|i: int|
            0 <= i < tasks.len() && description_count(#[trigger] tasks[i].steps@) > 1
                && descriptions_valid(tasks.take(i)) && (first->Err_0 matches TaskError::MultipleDescriptions(n)
                && n@ == tasks[i].name@);
        let j = choose|j: int|
            0 <= j < tasks.len() && description_count(#[trigger] tasks[j].steps@) > 1
                && descriptions_valid(tasks.take(j)) && (second->Err_0 matches TaskError::MultipleDescriptions(n)
                && n@ == tasks[j].name@);
        if i < j {
            assert(tasks.take(j)[i] == tasks[i]);
        } else if j < i {
            assert(tasks.take(i)[j] == tasks[j]);
        }
    } else if first is Err || second is Err {
        assert(!descriptions_valid(tasks));
    }
}

} // verus!
