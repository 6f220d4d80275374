//! What the use cases ask of a store of tasks.

use vstd::prelude::*;

use crate::text::{decimal, push_decimal};
use crate::todo::domain::{Task, TaskId, TaskView};

verus! {

/// The message for a task that is saved while its id is taken.
pub open spec fn exists_message(id: u32) -> Seq<char> {
    "Task with id "@ + decimal(id as nat) + " already exists"@
}

/// The message for a task that is asked for and not held.
pub open spec fn missing_message(id: u32) -> Seq<char> {
    "Task with id "@ + decimal(id as nat) + " not found"@
}

/// What a result of [`TaskRepository::save`] or [`TaskRepository::update`]
/// says, over views.
pub open spec fn said(result: Result<(), String>) -> Result<(), Seq<char>> {
    match result {
        Ok(done) => Ok(done),
        Err(message) => Err(message@),
    }
}

/// The numbers of the ids of `tasks`, in order.
pub open spec fn ids_of(tasks: Seq<Task>) -> Seq<u32> {
    Seq::new(tasks.len(), |i: int| tasks[i]@.id)
}

/// Whether `tasks` lists every task of `stored` once, in any order.
pub open spec fn lists_each_once(tasks: Seq<Task>, stored: Map<u32, TaskView>) -> bool {
    &&& ids_of(tasks).no_duplicates()
    &&& ids_of(tasks).to_set() == stored.dom()
    &&& forall|i: int| 0 <= i < tasks.len() ==> stored[(#[trigger] tasks[i])@.id] == tasks[i]@
}

/// The message for a task that is saved while its id is taken.
pub fn exists_text(id: u32) -> (message: String)
    ensures
        message@ == exists_message(id),
{
    let mut message = String::from_str("Task with id ");
    push_decimal(&mut message, id as u64);
    message.append(" already exists");
    message
}

/// The message for a task that is asked for and not held.
pub fn missing_text(id: u32) -> (message: String)
    ensures
        message@ == missing_message(id),
{
    let mut message = String::from_str("Task with id ");
    push_decimal(&mut message, id as u64);
    message.append(" not found");
    message
}

/// A store of tasks, each under the number of its id.
///
/// What a repository holds is what it finds. Whether it takes a task is
/// for each repository to say, in [`saves`](TaskRepository::saves) and
/// [`updates`](TaskRepository::updates); this trait only asks that a task
/// it took is held afterwards and that a call it refused changed nothing.
pub trait TaskRepository: Sized {
    /// The tasks held, by the number of their id.
    spec fn stored(&self) -> Map<u32, TaskView>;

    /// The number of the id that [`next_id`](TaskRepository::next_id) gives.
    spec fn upcoming(&self) -> u32;

    /// What [`save`](TaskRepository::save) of `task` may make of this
    /// repository, and with which result.
    spec fn saves(&self, task: TaskView, after: Self, result: Result<(), Seq<char>>) -> bool;

    /// What [`update`](TaskRepository::update) with `task` may make of this
    /// repository, and with which result.
    spec fn updates(&self, task: TaskView, after: Self, result: Result<(), Seq<char>>) -> bool;

    /// Takes in a task that is new to the repository.
    fn save(&mut self, task: Task) -> (result: Result<(), String>)
        ensures
            old(self).saves(task@, *final(self), said(result)),
            result is Ok ==> final(self).stored() == old(self).stored().insert(task@.id, task@),
            result is Err ==> final(self).stored() == old(self).stored(),
    ;

    /// Puts a task in the place of the one held under its id.
    fn update(&mut self, task: Task) -> (result: Result<(), String>)
        ensures
            old(self).updates(task@, *final(self), said(result)),
            result is Ok ==> final(self).stored() == old(self).stored().insert(task@.id, task@),
            result is Err ==> final(self).stored() == old(self).stored(),
    ;

    /// The task held under `id`, if there is one.
    fn find_by_id(&self, id: TaskId) -> (found: Option<Task>)
        ensures
            match found {
                Some(task) => self.stored().contains_key(id@) && task@ == self.stored()[id@]
                    && task@.id == id@,
                None => !self.stored().contains_key(id@),
            },
    ;

    /// All tasks held, in no particular order.
    fn find_all(&self) -> (tasks: Vec<Task>)
        ensures
            lists_each_once(tasks@, self.stored()),
    ;

    /// The id for the next new task.
    fn next_id(&self) -> (id: TaskId)
        ensures
            id@ == self.upcoming(),
    ;
}

} // verus!
