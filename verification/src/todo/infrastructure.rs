//! A repository that keeps its tasks in memory.

use std::collections::HashMap;
use vstd::prelude::*;
use vstd::std_specs::iter::IteratorSpec;

use crate::todo::domain::{Task, TaskId, TaskView};
use crate::todo::ports::{
    exists_message, exists_text, ids_of, missing_message, missing_text,
    TaskRepository,
};

verus! {

/// A repository in memory. The id that it gives for the next task is
/// always the same: saving a task does not move it on.
pub struct InMemoryTaskRepository {
    tasks: HashMap<u32, Task>,
    next_id: u32,
}

impl InMemoryTaskRepository {
    /// Every task is held under the number of its own id.
    #[verifier::type_invariant]
    spec fn keyed_by_id(self) -> bool {
        forall|key: u32| #[trigger] self.tasks@.contains_key(key) ==> self.tasks@[key]@.id == key
    }

    /// An empty repository, whose next id is 1.
    pub fn new() -> (repository: Self)
        ensures
            repository.stored() == Map::<u32, TaskView>::empty(),
            repository.upcoming() == 1,
    {
        let repository = InMemoryTaskRepository { tasks: HashMap::new(), next_id: 1 };
        assert(repository.stored() =~= Map::<u32, TaskView>::empty());
        repository
    }
}

impl TaskRepository for InMemoryTaskRepository {
    closed spec fn stored(&self) -> Map<u32, TaskView> {
        Map::new(|key: u32| self.tasks@.contains_key(key), |key: u32| self.tasks@[key]@)
    }

    closed spec fn upcoming(&self) -> u32 {
        self.next_id
    }

    /// A task is taken exactly when its id is free; the next id stays.
    open spec fn saves(&self, task: TaskView, after: Self, result: Result<(), Seq<char>>) -> bool {
        &&& after.upcoming() == self.upcoming()
        &&& result == if self.stored().contains_key(task.id) {
            Err::<(), Seq<char>>(exists_message(task.id))
        } else {
            Ok::<(), Seq<char>>(())
        }
    }

    /// A task is replaced exactly when its id is held; the next id stays.
    open spec fn updates(&self, task: TaskView, after: Self, result: Result<(), Seq<char>>) -> bool {
        &&& after.upcoming() == self.upcoming()
        &&& result == if self.stored().contains_key(task.id) {
            Ok::<(), Seq<char>>(())
        } else {
            Err::<(), Seq<char>>(missing_message(task.id))
        }
    }

    fn save(&mut self, task: Task) -> (result: Result<(), String>) {
        proof {
            use_type_invariant(&*self);
        }
        let id = task.id().value();
        if self.tasks.contains_key(&id) {
            return Err(exists_text(id));
        }
        // The map is taken out for the change and put back, so that the
        // repository is never seen with a task under a wrong number.
        let mut tasks = HashMap::new();
        std::mem::swap(&mut self.tasks, &mut tasks);
        tasks.insert(id, task);
        std::mem::swap(&mut self.tasks, &mut tasks);
        assert(self.stored() =~= old(self).stored().insert(task@.id, task@));
        Ok(())
    }

    fn update(&mut self, task: Task) -> (result: Result<(), String>) {
        proof {
            use_type_invariant(&*self);
        }
        let id = task.id().value();
        if !self.tasks.contains_key(&id) {
            return Err(missing_text(id));
        }
        // The map is taken out for the change and put back, so that the
        // repository is never seen with a task under a wrong number.
        let mut tasks = HashMap::new();
        std::mem::swap(&mut self.tasks, &mut tasks);
        tasks.insert(id, task);
        std::mem::swap(&mut self.tasks, &mut tasks);
        assert(self.stored() =~= old(self).stored().insert(task@.id, task@));
        Ok(())
    }

    fn find_by_id(&self, id: TaskId) -> (found: Option<Task>) {
        proof {
            use_type_invariant(self);
        }
        let key = id.value();
        match self.tasks.get(&key) {
            Some(task) => Some(task.clone()),
            None => None,
        }
    }

    fn find_all(&self) -> (tasks: Vec<Task>) {
        proof {
            use_type_invariant(self);
        }
        let mut found: Vec<Task> = Vec::new();
        let ghost held = self.tasks@;
        let ghost keys = self.tasks.keys().remaining();
        for key in it: self.tasks.keys()
            invariant
                it.seq() == keys,
                held == self.tasks@,
                forall|k: u32| #[trigger] held.contains_key(k) ==> held[k]@.id == k,
                keys.unref().to_set() == held.dom(),
                keys.no_duplicates(),
                keys.len() == held.dom().len(),
                found@.len() == it.index(),
                forall|i: int|
                    #![trigger found@[i]]
                    0 <= i < found@.len() ==> held.contains_key(*keys[i]) && found@[i]@
                        == held[*keys[i]]@,
        {
            assert(held.contains_key(*key)) by {
                assert(keys.unref()[it.index() as int] == *key);
                assert(keys.unref().to_set().contains(*key));
            }
            let task = self.tasks.get(key).unwrap();
            let ghost before = found@;
            let copy = task.clone();
            found.push(copy);
            assert forall|i: int| 0 <= i < found@.len() implies held.contains_key(*keys[i]) by {
                if i < before.len() {
                    assert(found@[i] == before[i]);
                }
            }
            assert forall|i: int| 0 <= i < found@.len() implies (#[trigger] found@[i])@
                == held[*keys[i]]@ by {
                if i < before.len() {
                    assert(found@[i] == before[i]);
                }
            }
        }
        proof {
            assert(self.stored().dom() =~= held.dom());
            assert(ids_of(found@) =~= keys.unref());
            assert(keys.unref().no_duplicates()) by {
                assert forall|i: int, j: int|
                    0 <= i < keys.len() && 0 <= j < keys.len() && i != j implies keys.unref()[i]
                    != keys.unref()[j] by {
                    assert(keys[i] != keys[j]);
                }
            }
        }
        found
    }

    fn next_id(&self) -> (id: TaskId) {
        TaskId::new(self.next_id)
    }
}

} // verus!
