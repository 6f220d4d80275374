//! What can be done with a repository of tasks.

use vstd::prelude::*;

use crate::todo::domain::{completed, Priority, Task, TaskId, TaskStatus, TaskView};
use crate::todo::ports::{
    ids_of, lists_each_once, missing_message, missing_text, said, TaskRepository,
};

verus! {

/// The message for a task without a title.
pub open spec fn empty_title_message() -> Seq<char> {
    "Task title cannot be empty"@
}

/// The new, pending task that a use case hands to the repository.
pub open spec fn new_task(
    id: u32,
    title: Seq<char>,
    description: Seq<char>,
    priority: Priority,
) -> TaskView {
    TaskView { id, title, description, priority, status: TaskStatus::Pending }
}

/// What a result of [`AddTaskUseCase::execute`] says of the repository's
/// answer.
pub open spec fn said_of_add(result: Result<TaskId, String>) -> Result<(), Seq<char>> {
    match result {
        Ok(_) => Ok(()),
        Err(message) => Err(message@),
    }
}

/// The tasks of `stored` that have the given priority.
pub open spec fn with_priority(stored: Map<u32, TaskView>, priority: Priority) -> Map<
    u32,
    TaskView,
> {
    Map::new(
        |id: u32| stored.contains_key(id) && stored[id].priority == priority,
        |id: u32| stored[id],
    )
}

/// Adds a task to a repository.
pub struct AddTaskUseCase<'a, R: TaskRepository> {
    pub repository: &'a mut R,
}

impl<'a, R: TaskRepository> AddTaskUseCase<'a, R> {
    pub fn new(repository: &'a mut R) -> (use_case: Self)
        ensures
            *use_case.repository == *old(repository),
            *final(use_case.repository) == *final(repository),
    {
        AddTaskUseCase { repository }
    }

    /// Saves a new, pending task under the repository's next id and gives
    /// that id. A task without a title is refused before the repository is
    /// asked; otherwise the repository decides, and its message is passed
    /// on as it is.
    pub fn execute(&mut self, title: String, description: String, priority: Priority) -> (result:
        Result<TaskId, String>)
        ensures
            *final(final(self).repository) == *final(old(self).repository),
            title@.len() == 0 ==> (result matches Err(message) && message@
                == empty_title_message()) && *final(self).repository == *old(self).repository,
            title@.len() > 0 ==> ({
                let before = *old(self).repository;
                let after = *final(self).repository;
                let task = new_task(before.upcoming(), title@, description@, priority);
                &&& before.saves(task, after, said_of_add(result))
                &&& match result {
                    Ok(id) => id@ == task.id && after.stored() == before.stored().insert(
                        task.id,
                        task,
                    ),
                    Err(_) => after.stored() == before.stored(),
                }
            }),
    {
        if title.as_str().is_empty() {
            return Err(String::from_str("Task title cannot be empty"));
        }
        let id = self.repository.next_id();
        let task = Task::new(id, title, description, priority);
        match self.repository.save(task) {
            Ok(_) => Ok(id),
            Err(message) => Err(message),
        }
    }
}

/// Marks a task of a repository completed.
pub struct CompleteTaskUseCase<'a, R: TaskRepository> {
    pub repository: &'a mut R,
}

impl<'a, R: TaskRepository> CompleteTaskUseCase<'a, R> {
    pub fn new(repository: &'a mut R) -> (use_case: Self)
        ensures
            *use_case.repository == *old(repository),
            *final(use_case.repository) == *final(repository),
    {
        CompleteTaskUseCase { repository }
    }

    /// Puts the task with the given id back as completed. A task that the
    /// repository does not hold is reported without the repository being
    /// changed; otherwise the repository decides, and its message is passed
    /// on as it is.
    pub fn execute(&mut self, task_id: TaskId) -> (result: Result<(), String>)
        ensures
            *final(final(self).repository) == *final(old(self).repository),
            !old(self).repository.stored().contains_key(task_id@) ==> (result matches Err(message)
                && message@ == missing_message(task_id@)) && *final(self).repository == *old(
                self,
            ).repository,
            old(self).repository.stored().contains_key(task_id@) ==> ({
                let before = *old(self).repository;
                let after = *final(self).repository;
                let task = completed(before.stored()[task_id@]);
                &&& task.id == task_id@
                &&& before.updates(task, after, said(result))
                &&& match result {
                    Ok(_) => after.stored() == before.stored().insert(task_id@, task),
                    Err(_) => after.stored() == before.stored(),
                }
            }),
    {
        let mut task = match self.repository.find_by_id(task_id) {
            Some(task) => task,
            None => {
                return Err(missing_text(task_id.value()));
            },
        };
        task.complete();
        self.repository.update(task)
    }
}

/// Lists the tasks of a repository.
pub struct ListTasksUseCase<'a, R: TaskRepository> {
    pub repository: &'a R,
}

impl<'a, R: TaskRepository> ListTasksUseCase<'a, R> {
    pub fn new(repository: &'a R) -> (use_case: Self)
        ensures
            *use_case.repository == *repository,
    {
        ListTasksUseCase { repository }
    }

    /// All tasks, each once, in no particular order.
    pub fn execute(&self) -> (tasks: Vec<Task>)
        ensures
            lists_each_once(tasks@, self.repository.stored()),
    {
        self.repository.find_all()
    }

    /// The tasks with the given priority, each once, in no particular
    /// order.
    pub fn execute_by_priority(&self, priority: Priority) -> (tasks: Vec<Task>)
        ensures
            lists_each_once(tasks@, with_priority(self.repository.stored(), priority)),
    {
        let all = self.repository.find_all();
        let ghost stored = self.repository.stored();
        let mut chosen: Vec<Task> = Vec::new();
        // for each chosen task, where it stands in `all`
        let ghost mut places: Seq<int> = Seq::empty();
        let mut i: usize = 0;
        while i < all.len()
            invariant
                i <= all@.len(),
                lists_each_once(all@, stored),
                places.len() == chosen@.len(),
                forall|m: int|
                    0 <= m < places.len() ==> 0 <= #[trigger] places[m] < i && chosen@[m]@
                        == all@[places[m]]@ && all@[places[m]]@.priority == priority,
                forall|m: int, n: int|
                    0 <= m < n < places.len() ==> #[trigger] places[m] < #[trigger] places[n],
                forall|k: int|
                    0 <= k < i && (#[trigger] all@[k])@.priority == priority ==> exists|m: int|
                        0 <= m < places.len() && #[trigger] places[m] == k,
            decreases all@.len() - i,
        {
            if all[i].priority() == priority {
                let ghost before = places;
                chosen.push(all[i].clone());
                proof {
                    places = places.push(i as int);
                    assert forall|k: int|
                        0 <= k < i + 1 && (#[trigger] all@[k])@.priority == priority implies exists|
                        m: int,
                    |
                        0 <= m < places.len() && #[trigger] places[m] == k by {
                        if k < i {
                            let m = choose|m: int|
                                0 <= m < before.len() && #[trigger] before[m] == k;
                            assert(places[m] == k);
                        } else {
                            assert(places[places.len() - 1] == k);
                        }
                    }
                }
            }
            i += 1;
        }
        proof {
            let wanted = with_priority(stored, priority);
            let ids = ids_of(chosen@);
            let all_ids = ids_of(all@);
            assert forall|m: int| 0 <= m < chosen@.len() implies wanted.contains_key(
                (#[trigger] chosen@[m])@.id,
            ) && wanted[chosen@[m]@.id] == chosen@[m]@ by {
                let k = places[m];
                assert(all_ids[k] == all@[k]@.id);
                assert(all_ids.to_set().contains(all_ids[k]));
                assert(stored[all@[k]@.id] == all@[k]@);
            }
            assert forall|m: int, n: int|
                0 <= m < ids.len() && 0 <= n < ids.len() && m != n implies ids[m] != ids[n] by {
                assert(places[m] != places[n]) by {
                    if m < n {
                        assert(places[m] < places[n]);
                    } else {
                        assert(places[n] < places[m]);
                    }
                }
                assert(all_ids[places[m]] != all_ids[places[n]]);
            }
            assert(ids.to_set() =~= wanted.dom()) by {
                assert forall|id: u32| wanted.dom().contains(id) implies ids.to_set().contains(
                    id,
                ) by {
                    assert(all_ids.to_set().contains(id));
                    let k = choose|k: int| 0 <= k < all_ids.len() && all_ids[k] == id;
                    assert(stored[all@[k]@.id] == all@[k]@);
                    let m = choose|m: int| 0 <= m < places.len() && #[trigger] places[m] == k;
                    assert(ids[m] == id);
                }
                assert forall|id: u32| ids.to_set().contains(id) implies wanted.dom().contains(
                    id,
                ) by {
                    let m = choose|m: int| 0 <= m < ids.len() && ids[m] == id;
                    assert(wanted.contains_key(chosen@[m]@.id));
                }
            }
        }
        chosen
    }
}

} // verus!
