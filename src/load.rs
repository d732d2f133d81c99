//! The task file's schema: from the document tree that a structured-data
//! loader reads to the task model.

use vstd::prelude::*;
use vstd::string::*;
use crate::tasks::{Step, Task, TaskFile};

verus! {

broadcast use vstd::std_specs::vec::group_vec_axioms;

/// A value of a loaded document.
pub enum Node {
    /// A string.
    Text(String),
    /// A boolean.
    Flag(bool),
    /// A sequence.
    List(Vec<Node>),
    /// A mapping, its pairs in the order of the document.
    Pairs(Vec<(Node, Node)>),
    /// A value of any other kind (a number, null, ...).
    Other,
}

/// Why a document is not a task file.
pub enum LoadError {
    /// A value has the wrong shape.
    Invalid,
    /// A step names a kind that does not exist.
    UnknownStep(String),
}

impl LoadError {
    /// The text reported for the error.
    pub open spec fn message_of(&self) -> Seq<char> {
        match self {
            LoadError::Invalid => "This is not a valid Pilotfile"@,
            LoadError::UnknownStep(k) => "Unknown step kind "@ + k@,
        }
    }

    /// The text reported for the error.
    pub fn message(&self) -> (r: String)
        ensures
            r@ == self.message_of(),
    {
        match self {
            LoadError::Invalid => String::from_str("This is not a valid Pilotfile"),
            LoadError::UnknownStep(k) => {
                let mut r = String::from_str("Unknown step kind ");
                r.append(k.as_str());
                r
            },
        }
    }
}

/// `step` is the step that the document entry `entry` describes: a mapping
/// whose first key names the kind of step and whose first value is its
/// argument (for `parallel`, a list of such entries).
pub open spec fn is_step_of(step: Step, entry: Node) -> bool
    decreases entry,
{
    match entry {
        Node::Pairs(ps) => ps@.len() > 0 && match ps@[0].0 {
            Node::Text(k) => if k@ == "shell"@ {
                ps@[0].1 matches Node::Text(c) && (step matches Step::Shell(s) && s@ == c@)
            } else if k@ == "task"@ {
                ps@[0].1 matches Node::Text(c) && (step matches Step::Task(s) && s@ == c@)
            } else if k@ == "description"@ {
                ps@[0].1 matches Node::Text(c) && (step matches Step::Description(s) && s@ == c@)
            } else if k@ == "raw"@ {
                ps@[0].1 matches Node::Flag(b) && step == Step::Raw(b)
            } else if k@ == "parallel"@ {
                match ps@[0].1 {
                    Node::List(items) => match step {
                        Step::Parallel(bs) => bs@.len() == items@.len() && forall|i: int|
                            0 <= i < items@.len() ==> is_step_of(#[trigger] bs@[i], items@[i]),
                        _ => false,
                    },
                    _ => false,
                }
            } else {
                false
            },
            _ => false,
        },
        _ => false,
    }
}

/// `entry` describes a step.
pub open spec fn is_step_entry(entry: Node) -> bool {
    exists|s: Step| is_step_of(s, entry)
}

/// `i` is the first of `items` that describes no step.
pub open spec fn first_invalid_entry(items: Seq<Node>, i: int) -> bool {
    0 <= i < items.len() && !is_step_entry(items[i]) && forall|j: int|
        0 <= j < i ==> is_step_entry(#[trigger] items[j])
}

/// `e` is the error reported for an entry that describes no step: an
/// unknown first key gives `UnknownStep`; in a `parallel` list, the error of
/// its first entry that describes no step; any other shape, or a known key
/// with a value of the wrong kind, gives `Invalid`.
pub open spec fn is_error_of(e: LoadError, entry: Node) -> bool
    decreases entry,
{
    match entry {
        Node::Pairs(ps) => if ps@.len() == 0 {
            e is Invalid
        } else {
            match ps@[0].0 {
                Node::Text(k) => if k@ == "shell"@ || k@ == "task"@ || k@ == "description"@ || k@
                    == "raw"@ {
                    e is Invalid
                } else if k@ == "parallel"@ {
                    match ps@[0].1 {
                        Node::List(items) => exists|i: int|
                            #[trigger] first_invalid_entry(items@, i) && is_error_of(e, items@[i]),
                        _ => e is Invalid,
                    }
                } else {
                    e matches LoadError::UnknownStep(n) && n@ == k@
                },
                _ => e is Invalid,
            }
        },
        _ => e is Invalid,
    }
}

/// Reads the step that the document entry `entry` describes.
pub fn step_from_entry(entry: &Node) -> (r: Result<Step, LoadError>)
    ensures
        match r {
            Ok(s) => is_step_of(s, *entry),
            Err(e) => !is_step_entry(*entry) && is_error_of(e, *entry),
        },
    decreases entry,
{
    let ps = match entry {
        Node::Pairs(ps) => ps,
        _ => {
            return Err(LoadError::Invalid);
        },
    };
    if ps.len() == 0 {
        return Err(LoadError::Invalid);
    }
    let k = match &ps[0].0 {
        Node::Text(k) => k,
        _ => {
            return Err(LoadError::Invalid);
        },
    };
    let value = &ps[0].1;
    let r = if *k == String::from_str("shell") {
        match value {
            Node::Text(c) => Ok(Step::Shell(c.clone())),
            _ => Err(LoadError::Invalid),
        }
    } else if *k == String::from_str("task") {
        match value {
            Node::Text(c) => Ok(Step::Task(c.clone())),
            _ => Err(LoadError::Invalid),
        }
    } else if *k == String::from_str("description") {
        match value {
            Node::Text(c) => Ok(Step::Description(c.clone())),
            _ => Err(LoadError::Invalid),
        }
    } else if *k == String::from_str("raw") {
        match value {
            Node::Flag(b) => Ok(Step::Raw(*b)),
            _ => Err(LoadError::Invalid),
        }
    } else if *k == String::from_str("parallel") {
        match value {
            Node::List(items) => {
                let mut bs: Vec<Step> = Vec::new();
                let mut i: usize = 0;
                while i < items.len()
                    invariant
                        ps@.len() > 0,
                        *entry == Node::Pairs(*ps),
                        ps@[0].0 == Node::Text(*k),
                        ps@[0].1 == Node::List(*items),
                        k@ != "shell"@ && k@ != "task"@ && k@ != "description"@ && k@ != "raw"@,
                        k@ == "parallel"@,
                        i <= items@.len(),
                        bs@.len() == i,
                        forall|j: int| 0 <= j < i ==> is_step_of(#[trigger] bs@[j], items@[j]),
                    decreases items@.len() - i,
                {
                    proof {
                        vstd::std_specs::vec::axiom_vec_index_decreases(*ps, 0);
                        vstd::std_specs::vec::axiom_vec_index_decreases(*items, i as int);
                        assert(decreases_to!(*entry => (*entry)->Pairs_0));
                        assert(decreases_to!(ps[0] => ps[0].1));
                        assert(decreases_to!(ps[0].1 => ps[0].1->List_0));
                    }
                    match step_from_entry(&items[i]) {
                        Ok(s) => bs.push(s),
                        Err(e) => {
                            proof {
                                assert forall|j: int| 0 <= j < i implies is_step_entry(
                                    #[trigger] items@[j],
                                ) by {
                                    assert(is_step_of(bs@[j], items@[j]));
                                }
                                assert(first_invalid_entry(items@, i as int));
                                if is_step_entry(*entry) {
                                    let s = choose|s: Step| is_step_of(s, *entry);
                                    let bs2 = s->Parallel_0;
                                    assert(is_step_of(bs2@[i as int], items@[i as int]));
                                }
                            }
                            return Err(e);
                        },
                    }
                    i = i + 1;
                }
                Ok(Step::Parallel(bs))
            },
            _ => Err(LoadError::Invalid),
        }
    } else {
        Err(LoadError::UnknownStep(k.clone()))
    };
    r
}

/// `t` is the task that the document pair `pair` describes: its name, then
/// the list of its step entries.
pub open spec fn is_task_of(t: Task, pair: (Node, Node)) -> bool {
    (pair.0 matches Node::Text(n) && t.name@ == n@) && match pair.1 {
        Node::List(entries) => t.steps@.len() == entries@.len() && forall|j: int|
            0 <= j < entries@.len() ==> is_step_of(#[trigger] t.steps@[j], entries@[j]),
        _ => false,
    }
}

/// `f` is the task file that the document `doc` describes: a mapping from
/// task names to lists of step entries.
pub open spec fn is_task_file_of(f: TaskFile, doc: Node) -> bool {
    match doc {
        Node::Pairs(ps) => f.tasks@.len() == ps@.len() && forall|i: int|
            0 <= i < ps@.len() ==> is_task_of(#[trigger] f.tasks@[i], ps@[i]),
        _ => false,
    }
}

/// Reads the steps that the entries describe, in order; fails at the first
/// entry that describes none.
pub fn steps_from_entries(entries: &Vec<Node>) -> (r: Result<Vec<Step>, LoadError>)
    ensures
        match r {
            Ok(steps) => steps@.len() == entries@.len() && forall|j: int|
                0 <= j < entries@.len() ==> is_step_of(#[trigger] steps@[j], entries@[j]),
            Err(e) => exists|j: int|
                #[trigger] first_invalid_entry(entries@, j) && is_error_of(e, entries@[j]),
        },
{
    let mut steps: Vec<Step> = Vec::new();
    let mut j: usize = 0;
    while j < entries.len()
        invariant
            j <= entries@.len(),
            steps@.len() == j,
            forall|k: int| 0 <= k < j ==> is_step_of(#[trigger] steps@[k], entries@[k]),
        decreases entries@.len() - j,
    {
        match step_from_entry(&entries[j]) {
            Ok(s) => steps.push(s),
            Err(e) => {
                proof {
                    assert forall|k: int| 0 <= k < j implies is_step_entry(#[trigger] entries@[k]) by {
                        assert(is_step_of(steps@[k], entries@[k]));
                    }
                    assert(first_invalid_entry(entries@, j as int));
                }
                return Err(e);
            },
        }
        j = j + 1;
    }
    Ok(steps)
}

/// `pair` describes a task: a name, then a list of step entries.
pub open spec fn is_task_pair(pair: (Node, Node)) -> bool {
    pair.0 is Text && match pair.1 {
        Node::List(entries) => forall|j: int|
            0 <= j < entries@.len() ==> is_step_entry(#[trigger] entries@[j]),
        _ => false,
    }
}

/// `i` is the first of `pairs` that describes no task.
pub open spec fn first_invalid_pair(pairs: Seq<(Node, Node)>, i: int) -> bool {
    0 <= i < pairs.len() && !is_task_pair(pairs[i]) && forall|k: int|
        0 <= k < i ==> is_task_pair(#[trigger] pairs[k])
}

/// `e` is the error reported for a pair that describes no task: `Invalid`
/// for a name that is no text or steps that are no list, else the error of
/// its first entry that describes no step.
pub open spec fn is_pair_error_of(e: LoadError, pair: (Node, Node)) -> bool {
    if !(pair.0 is Text) {
        e is Invalid
    } else {
        match pair.1 {
            Node::List(entries) => exists|j: int|
                #[trigger] first_invalid_entry(entries@, j) && is_error_of(e, entries@[j]),
            _ => e is Invalid,
        }
    }
}

/// `e` is the error reported for a document that describes no task file:
/// `Invalid` if it is no mapping, else the error of its first pair that
/// describes no task.
pub open spec fn is_file_error_of(e: LoadError, doc: Node) -> bool {
    match doc {
        Node::Pairs(ps) => exists|i: int|
            #[trigger] first_invalid_pair(ps@, i) && is_pair_error_of(e, ps@[i]),
        _ => e is Invalid,
    }
}

proof fn lemma_task_pair(t: Task, pair: (Node, Node))
    requires
        is_task_of(t, pair),
    ensures
        is_task_pair(pair),
{
    let entries = pair.1->List_0;
    assert forall|j: int| 0 <= j < entries@.len() implies is_step_entry(#[trigger] entries@[j]) by {
        assert(is_step_of(t.steps@[j], entries@[j]));
    }
}

/// Reads the task file that the document `doc` describes.
pub fn task_file_from(doc: &Node) -> (r: Result<TaskFile, LoadError>)
    ensures
        match r {
            Ok(f) => is_task_file_of(f, *doc),
            Err(e) => (forall|f: TaskFile| !is_task_file_of(f, *doc)) && is_file_error_of(e, *doc),
        },
{
    let ps = match doc {
        Node::Pairs(ps) => ps,
        _ => {
            return Err(LoadError::Invalid);
        },
    };
    let mut tasks: Vec<Task> = Vec::new();
    let mut i: usize = 0;
    while i < ps.len()
        invariant
            *doc == Node::Pairs(*ps),
            i <= ps@.len(),
            tasks@.len() == i,
            forall|k: int| 0 <= k < i ==> is_task_of(#[trigger] tasks@[k], ps@[k]),
        decreases ps@.len() - i,
    {
        proof {
            assert forall|k: int| 0 <= k < i implies is_task_pair(#[trigger] ps@[k]) by {
                lemma_task_pair(tasks@[k], ps@[k]);
            }
        }
        let name = match &ps[i].0 {
            Node::Text(n) => n.clone(),
            _ => {
                proof {
                    assert forall|f: TaskFile| !is_task_file_of(f, *doc) by {
                        if is_task_file_of(f, *doc) {
                            assert(is_task_of(f.tasks@[i as int], ps@[i as int]));
                        }
                    }
                    assert(first_invalid_pair(ps@, i as int));
                    assert(is_pair_error_of(LoadError::Invalid, ps@[i as int]));
                    assert((*doc)->Pairs_0@ == ps@);
                    assert(first_invalid_pair((*doc)->Pairs_0@, i as int));
                }
                return Err(LoadError::Invalid);
            },
        };
        let entries = match &ps[i].1 {
            Node::List(entries) => entries,
            _ => {
                proof {
                    assert forall|f: TaskFile| !is_task_file_of(f, *doc) by {
                        if is_task_file_of(f, *doc) {
                            assert(is_task_of(f.tasks@[i as int], ps@[i as int]));
                        }
                    }
                    assert(first_invalid_pair(ps@, i as int));
                    assert(is_pair_error_of(LoadError::Invalid, ps@[i as int]));
                    assert((*doc)->Pairs_0@ == ps@);
                    assert(first_invalid_pair((*doc)->Pairs_0@, i as int));
                }
                return Err(LoadError::Invalid);
            },
        };
        match steps_from_entries(entries) {
            Ok(steps) => {
                tasks.push(Task { name, steps });
            },
            Err(e) => {
                proof {
                    let j = choose|j: int|
                        #[trigger] first_invalid_entry(entries@, j) && is_error_of(e, entries@[j]);
                    assert(first_invalid_pair(ps@, i as int));
                    assert(ps@[i as int].1->List_0@ == entries@);
                    assert(first_invalid_entry(ps@[i as int].1->List_0@, j));
                    assert(is_pair_error_of(e, ps@[i as int]));
                    assert((*doc)->Pairs_0@ == ps@);
                    assert(first_invalid_pair((*doc)->Pairs_0@, i as int));
                    assert forall|f: TaskFile| !is_task_file_of(f, *doc) by {
                        if is_task_file_of(f, *doc) {
                            assert(is_task_of(f.tasks@[i as int], ps@[i as int]));
                            assert(is_step_of(f.tasks@[i as int].steps@[j], entries@[j]));
                        }
                    }
                }
                return Err(e);
            },
        }
        i = i + 1;
    }
    Ok(TaskFile { tasks })
}

} // verus!
