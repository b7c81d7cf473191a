//! Tasks that a feature can declare, per target.

use vstd::prelude::*;

verus! {

/// A runnable task declared in the manifest.
///
/// A task is either a single shell command or a richer definition with
/// dependent tasks. Composition only decides *which* task wins for a given
/// name and platform; the task's own shape is carried through unchanged.
#[derive(Debug)]
pub enum Task {
    /// A bare shell command.
    Plain(String),
    /// A command together with the names of tasks that must run before it.
    Execute { cmd: String, depends_on: Vec<String> },
}

/// The mathematical value of a [`Task`].
#[verifier::ext_equal]
pub enum TaskView {
    Plain(Seq<char>),
    Execute { cmd: Seq<char>, depends_on: Seq<Seq<char>> },
}

impl View for Task {
    type V = TaskView;

    open spec fn view(&self) -> TaskView {
        match self {
            Task::Plain(cmd) => TaskView::Plain(cmd@),
            Task::Execute { cmd, depends_on } => TaskView::Execute {
                cmd: cmd@,
                depends_on: depends_on@.map_values(|s: String| s@),
            },
        }
    }
}

impl TaskView {
    /// The single command of a task, when it has one. Every task shape
    /// currently carries one command.
    pub open spec fn single_command(self) -> Option<Seq<char>> {
        match self {
            TaskView::Plain(cmd) => Some(cmd),
            TaskView::Execute { cmd, .. } => Some(cmd),
        }
    }
}

impl Task {
    /// Returns the single shell command, if the definition has one.
    pub fn as_single_command(&self) -> (r: Option<&String>)
        ensures
            match (r, self@.single_command()) {
                (Some(c), Some(s)) => c@ == s,
                (None, None) => true,
                _ => false,
            },
    {
        match self {
            Task::Plain(cmd) => Some(cmd),
            Task::Execute { cmd, .. } => Some(cmd),
        }
    }
}

/// Copies a list of strings, preserving every element exactly.
pub fn clone_string_vec(v: &Vec<String>) -> (r: Vec<String>)
    ensures
        r@ == v@,
{
    let mut r: Vec<String> = Vec::new();
    let mut i: usize = 0;
    while i < v.len()
        invariant
            i <= v.len(),
            r@ == v@.take(i as int),
        decreases v.len() - i,
    {
        r.push(v[i].clone());
        proof {
            assert(r@ =~= v@.take(i + 1));
        }
        i += 1;
    }
    proof {
        assert(v@.take(v@.len() as int) =~= v@);
    }
    r
}

impl Clone for Task {
    /// The copy has the same mathematical value as the original.
    fn clone(&self) -> (r: Self)
        ensures
            r@ == self@,
    {
        match self {
            Task::Plain(cmd) => Task::Plain(cmd.clone()),
            Task::Execute { cmd, depends_on } => Task::Execute {
                cmd: cmd.clone(),
                depends_on: clone_string_vec(depends_on),
            },
        }
    }
}

} // verus!
