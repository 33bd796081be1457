//! A numbered list of tasks.

use vstd::prelude::*;

use crate::numeric::{decimal, push_decimal};
use crate::text::{chars_of, push_str, string_of, views};

verus! {

/// The tasks, in the order they were added.
pub struct Todo {
    pub tasks: Vec<String>,
}

/// The line that shows task `task` at position `i` (counting from one).
pub open spec fn task_line(i: nat, task: Seq<char>) -> Seq<char> {
    decimal(i) + ": "@ + task
}

/// What listing the tasks shows, line by line.
pub open spec fn listing(tasks: Seq<Seq<char>>) -> Seq<Seq<char>> {
    if tasks.len() == 0 {
        seq!["No tasks yet!"@]
    } else {
        Seq::new(tasks.len(), |i: int| task_line((i + 1) as nat, tasks[i]))
    }
}

/// Removing task number `index` (counting from one): the tasks left and
/// the message shown.  A number outside the list changes nothing.
pub open spec fn removal(tasks: Seq<Seq<char>>, index: int) -> (Seq<Seq<char>>, Seq<char>) {
    if index < 1 || index > tasks.len() {
        (tasks, "Invalid task number."@)
    } else {
        (tasks.remove(index - 1), "Task removed."@)
    }
}

impl Todo {
    /// An empty list.
    pub fn new() -> (t: Self)
        ensures
            views(t.tasks@) == Seq::<Seq<char>>::empty(),
    {
        Todo { tasks: Vec::new() }
    }

    /// Adds a task at the end.
    pub fn add(&mut self, task: String)
        ensures
            views(final(self).tasks@) == views(old(self).tasks@).push(task@),
    {
        let ghost tv = task@;
        self.tasks.push(task);
        assert(views(self.tasks@) =~= views(old(self).tasks@).push(tv));
    }

    /// The lines that show the list: each task with its number, or a note
    /// that there are none.
    pub fn list(&self) -> (lines: Vec<String>)
        ensures
            views(lines@) == listing(views(self.tasks@)),
    {
        let mut lines: Vec<String> = Vec::new();
        if self.tasks.len() == 0 {
            lines.push(String::from_str("No tasks yet!"));
            assert(views(lines@) =~= listing(views(self.tasks@)));
            return lines;
        }
        let ghost tv = views(self.tasks@);
        let mut i: usize = 0;
        while i < self.tasks.len()
            invariant
                i <= self.tasks.len(),
                tv == views(self.tasks@),
                tv.len() > 0,
                views(lines@) == listing(tv).take(i as int),
            decreases self.tasks.len() - i,
        {
            let mut v: Vec<char> = Vec::new();
            push_decimal(&mut v, i as u64 + 1);
            push_str(&mut v, ": ");
            push_str(&mut v, self.tasks[i].as_str());
            let line = string_of(v.as_slice());
            let ghost before = views(lines@);
            let ghost lv = line@;
            assert(lv == task_line((i + 1) as nat, tv[i as int]));
            lines.push(line);
            assert(views(lines@) =~= before.push(lv));
            assert(listing(tv)[i as int] == lv);
            assert(views(lines@) =~= listing(tv).take(i as int + 1));
            i += 1;
        }
        assert(listing(tv).take(self.tasks.len() as int) =~= listing(tv));
        lines
    }

    /// Removes task number `index` (counting from one) and says so, or
    /// says that there is no such task and leaves the list alone.
    pub fn remove(&mut self, index: usize) -> (message: String)
        ensures
            (views(final(self).tasks@), message@) == removal(views(old(self).tasks@), index as int),
    {
        if index == 0 || index > self.tasks.len() {
            String::from_str("Invalid task number.")
        } else {
            self.tasks.remove(index - 1);
            assert(views(self.tasks@) =~= views(old(self).tasks@).remove(index - 1));
            String::from_str("Task removed.")
        }
    }
}

/// Adding a task and then removing the last one gives back the list as it
/// was: removing number `n + 1` from `n` tasks with one more pushed at the
/// end leaves the `n` tasks, and says that a task was removed.
pub proof fn law_add_then_remove_last(tasks: Seq<Seq<char>>, task: Seq<char>)
    ensures
        removal(tasks.push(task), tasks.len() + 1int) == (tasks, "Task removed."@),
{
    assert(tasks.push(task).remove(tasks.len() as int) =~= tasks);
}

} // verus!
