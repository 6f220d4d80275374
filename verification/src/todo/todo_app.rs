//! The task list as an application over a repository in memory.

use vstd::prelude::*;

use crate::text::{decimal, push_decimal};
use crate::todo::domain::{completed, task_line, Priority, TaskId, TaskView};
use crate::todo::infrastructure::InMemoryTaskRepository;
use crate::todo::ports::{exists_message, ids_of, missing_message, TaskRepository};
use crate::todo::use_cases::{
    empty_title_message, new_task, AddTaskUseCase, CompleteTaskUseCase, ListTasksUseCase,
};

verus! {

/// The message for a task that was added.
pub open spec fn created_message(id: u32) -> Seq<char> {
    "Task created with ID: "@ + decimal(id as nat)
}

/// The message for a task that was completed.
pub open spec fn completed_message(id: u32) -> Seq<char> {
    "Task "@ + decimal(id as nat) + " marked as completed"@
}

/// Whether `lines` shows every task of `tasks` once, in any order: the
/// lines are those of the tasks under some listing `order` of their ids.
pub open spec fn shows_each_once(
    lines: Seq<String>,
    tasks: Map<u32, TaskView>,
    order: Seq<u32>,
) -> bool {
    &&& order.no_duplicates()
    &&& order.to_set() == tasks.dom()
    &&& lines.len() == order.len()
    &&& forall|i: int| 0 <= i < lines.len() ==> (#[trigger] lines[i])@ == task_line(tasks[order[i]])
}

/// A task list kept in memory.
pub struct TodoApplication {
    repository: InMemoryTaskRepository,
}

impl TodoApplication {
    /// The tasks of the list, by the number of their id.
    pub closed spec fn tasks(&self) -> Map<u32, TaskView> {
        self.repository.stored()
    }

    /// The number that the next task gets as its id.
    pub closed spec fn upcoming(&self) -> u32 {
        self.repository.upcoming()
    }

    /// An empty list, whose next id is 1.
    pub fn new() -> (app: Self)
        ensures
            app.tasks() == Map::<u32, TaskView>::empty(),
            app.upcoming() == 1,
    {
        TodoApplication { repository: InMemoryTaskRepository::new() }
    }

    /// Adds a pending task under the next id and reports it. A task without
    /// a title is refused, and so is one whose id is taken: the next id
    /// does not move on.
    pub fn add_task(&mut self, title: String, description: String, priority: Priority) -> (result:
        Result<String, String>)
        ensures
            final(self).upcoming() == old(self).upcoming(),
            match result {
                Ok(message) => {
                    &&& title@.len() > 0
                    &&& !old(self).tasks().contains_key(old(self).upcoming())
                    &&& message@ == created_message(old(self).upcoming())
                    &&& final(self).tasks() == old(self).tasks().insert(
                        old(self).upcoming(),
                        new_task(old(self).upcoming(), title@, description@, priority),
                    )
                },
                Err(message) => {
                    &&& final(self).tasks() == old(self).tasks()
                    &&& if title@.len() == 0 {
                        message@ == empty_title_message()
                    } else {
                        old(self).tasks().contains_key(old(self).upcoming()) && message@
                            == exists_message(old(self).upcoming())
                    }
                },
            },
    {
        let mut use_case = AddTaskUseCase::new(&mut self.repository);
        match use_case.execute(title, description, priority) {
            Ok(task_id) => {
                let mut message = String::from_str("Task created with ID: ");
                push_decimal(&mut message, task_id.value() as u64);
                Ok(message)
            },
            Err(message) => Err(message),
        }
    }

    /// Marks the task with the given id completed and reports it; fails
    /// when the list has no such task.
    pub fn complete_task(&mut self, task_id: u32) -> (result: Result<String, String>)
        ensures
            final(self).upcoming() == old(self).upcoming(),
            match result {
                Ok(message) => {
                    &&& old(self).tasks().contains_key(task_id)
                    &&& message@ == completed_message(task_id)
                    &&& final(self).tasks() == old(self).tasks().insert(
                        task_id,
                        completed(old(self).tasks()[task_id]),
                    )
                },
                Err(message) => {
                    &&& !old(self).tasks().contains_key(task_id)
                    &&& message@ == missing_message(task_id)
                    &&& final(self).tasks() == old(self).tasks()
                },
            },
    {
        let mut use_case = CompleteTaskUseCase::new(&mut self.repository);
        match use_case.execute(TaskId::new(task_id)) {
            Ok(_) => {
                let mut message = String::from_str("Task ");
                push_decimal(&mut message, task_id as u64);
                message.append(" marked as completed");
                Ok(message)
            },
            Err(message) => Err(message),
        }
    }

    /// The lines of all tasks, each once, in no particular order.
    pub fn list_all_tasks(&self) -> (lines: Vec<String>)
        ensures
            exists|order: Seq<u32>| shows_each_once(lines@, self.tasks(), order),
    {
        let use_case = ListTasksUseCase::new(&self.repository);
        let tasks = use_case.execute();
        let mut lines: Vec<String> = Vec::new();
        let mut i: usize = 0;
        while i < tasks.len()
            invariant
                i <= tasks@.len(),
                lines@.len() == i,
                forall|k: int| 0 <= k < i ==> (#[trigger] lines@[k])@ == task_line(tasks@[k]@),
            decreases tasks@.len() - i,
        {
            lines.push(tasks[i].to_text());
            i += 1;
        }
        proof {
            let order = ids_of(tasks@);
            assert(shows_each_once(lines@, self.tasks(), order));
        }
        lines
    }
}

} // verus!
