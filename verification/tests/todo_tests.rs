use katas::todo::domain::{Priority, Task, TaskId, TaskStatus};
use katas::todo::infrastructure::InMemoryTaskRepository;
use katas::todo::ports::TaskRepository;
use katas::todo::todo_app::TodoApplication;
use katas::todo::use_cases::{AddTaskUseCase, CompleteTaskUseCase, ListTasksUseCase};

fn task(id: u32, title: &str, priority: Priority) -> Task {
    Task::new(TaskId::new(id), title.to_string(), String::new(), priority)
}

#[test]
fn test_todo_workflow() {
    let mut app = TodoApplication::new();

    // Add task
    let result = app.add_task(
        "Write tests".to_string(),
        "Write unit tests for todo app".to_string(),
        Priority::High,
    );
    assert!(result.is_ok());

    // List tasks
    let tasks = app.list_all_tasks();
    assert_eq!(tasks.len(), 1);
}

#[test]
fn application_messages() {
    let mut app = TodoApplication::new();
    assert_eq!(
        app.add_task("Write tests".to_string(), "soon".to_string(), Priority::High),
        Ok("Task created with ID: 1".to_string())
    );
    assert_eq!(app.list_all_tasks(), vec!["[1] Write tests - High (Pending)"]);
    assert_eq!(app.complete_task(1), Ok("Task 1 marked as completed".to_string()));
    assert_eq!(app.list_all_tasks(), vec!["[1] Write tests - High (Completed)"]);
    assert_eq!(app.complete_task(7), Err("Task with id 7 not found".to_string()));
    assert_eq!(
        app.add_task(String::new(), "no title".to_string(), Priority::Low),
        Err("Task title cannot be empty".to_string())
    );
}

#[test]
fn second_task_meets_the_id_of_the_first() {
    let mut app = TodoApplication::new();
    assert!(app.add_task("one".to_string(), String::new(), Priority::Low).is_ok());
    assert_eq!(
        app.add_task("two".to_string(), String::new(), Priority::Low),
        Err("Task with id 1 already exists".to_string())
    );
    assert_eq!(app.list_all_tasks().len(), 1);
}

#[test]
fn task_starts_pending_and_moves_on() {
    let mut task = Task::new(
        TaskId::new(42),
        "title".to_string(),
        "description".to_string(),
        Priority::Medium,
    );
    assert_eq!(task.id().value(), 42);
    assert_eq!(task.title(), "title");
    assert_eq!(task.description(), "description");
    assert_eq!(task.priority(), Priority::Medium);
    assert_eq!(task.status(), TaskStatus::Pending);
    assert_eq!(task.to_text(), "[42] title - Medium (Pending)");
    task.start();
    assert_eq!(task.status(), TaskStatus::InProgress);
    assert_eq!(task.to_text(), "[42] title - Medium (InProgress)");
    task.start();
    assert_eq!(task.status(), TaskStatus::InProgress);
    task.complete();
    assert_eq!(task.status(), TaskStatus::Completed);
    task.start();
    assert_eq!(task.status(), TaskStatus::Completed);
    let copy = task.clone();
    assert_eq!(copy.to_text(), "[42] title - Medium (Completed)");
    assert_eq!(Task::new(TaskId::new(0), String::new(), String::new(), Priority::Low).to_text(), "[0]  - Low (Pending)");
    assert_eq!(task.id(), TaskId::new(42));
}

#[test]
fn repository_saves_updates_and_finds() {
    let mut repository = InMemoryTaskRepository::new();
    assert_eq!(repository.next_id().value(), 1);
    assert!(repository.find_by_id(TaskId::new(1)).is_none());
    assert_eq!(
        repository.update(task(1, "a", Priority::Low)),
        Err("Task with id 1 not found".to_string())
    );
    assert_eq!(repository.save(task(1, "a", Priority::Low)), Ok(()));
    assert_eq!(
        repository.save(task(1, "b", Priority::Low)),
        Err("Task with id 1 already exists".to_string())
    );
    assert_eq!(repository.find_by_id(TaskId::new(1)).unwrap().title(), "a");
    assert_eq!(repository.update(task(1, "c", Priority::High)), Ok(()));
    assert_eq!(repository.find_by_id(TaskId::new(1)).unwrap().title(), "c");
    assert_eq!(repository.save(task(4294967295, "last", Priority::Low)), Ok(()));
    assert_eq!(
        repository.save(task(4294967295, "last", Priority::Low)),
        Err("Task with id 4294967295 already exists".to_string())
    );
    assert_eq!(repository.next_id().value(), 1);
    let mut titles: Vec<String> =
        repository.find_all().iter().map(|task| task.title().to_string()).collect();
    titles.sort();
    assert_eq!(titles, vec!["c", "last"]);
}

#[test]
fn use_cases_on_a_repository() {
    let mut repository = InMemoryTaskRepository::new();
    for (id, priority) in [(10, Priority::Low), (20, Priority::High), (30, Priority::Low)] {
        repository.save(task(id, "t", priority)).unwrap();
    }
    {
        let mut add = AddTaskUseCase::new(&mut repository);
        assert_eq!(
            add.execute(String::new(), "d".to_string(), Priority::Low),
            Err("Task title cannot be empty".to_string())
        );
        assert_eq!(
            add.execute("new".to_string(), "d".to_string(), Priority::Medium),
            Ok(TaskId::new(1))
        );
        assert_eq!(
            add.execute("again".to_string(), "d".to_string(), Priority::Medium),
            Err("Task with id 1 already exists".to_string())
        );
    }
    {
        let mut complete = CompleteTaskUseCase::new(&mut repository);
        assert_eq!(complete.execute(TaskId::new(20)), Ok(()));
        assert_eq!(
            complete.execute(TaskId::new(21)),
            Err("Task with id 21 not found".to_string())
        );
    }
    assert_eq!(repository.find_by_id(TaskId::new(20)).unwrap().status(), TaskStatus::Completed);
    assert_eq!(repository.find_by_id(TaskId::new(10)).unwrap().status(), TaskStatus::Pending);
    let list = ListTasksUseCase::new(&repository);
    let mut all: Vec<u32> = list.execute().iter().map(|task| task.id().value()).collect();
    all.sort();
    assert_eq!(all, vec![1, 10, 20, 30]);
    let mut low: Vec<u32> =
        list.execute_by_priority(Priority::Low).iter().map(|task| task.id().value()).collect();
    low.sort();
    assert_eq!(low, vec![10, 30]);
    assert_eq!(list.execute_by_priority(Priority::High).len(), 1);
    let medium = list.execute_by_priority(Priority::Medium);
    assert_eq!(medium.len(), 1);
    assert_eq!(medium[0].title(), "new");
}
