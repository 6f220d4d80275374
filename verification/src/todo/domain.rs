//! Tasks and what identifies and describes them.

use vstd::prelude::*;

use crate::text::{decimal, push_decimal};

verus! {

/// The identifier of a task.
#[derive(Debug, Clone, Copy, PartialEq, Eq, Hash)]
pub struct TaskId(u32);

impl View for TaskId {
    type V = u32;

    closed spec fn view(&self) -> u32 {
        self.0
    }
}

impl TaskId {
    pub fn new(id: u32) -> (task_id: Self)
        ensures
            task_id@ == id,
    {
        TaskId(id)
    }

    pub fn value(&self) -> (id: u32)
        ensures
            id == self@,
    {
        self.0
    }

    /// An identifier is nothing but its number.
    pub proof fn lemma_same_number(a: TaskId, b: TaskId)
        ensures
            a@ == b@ <==> a == b,
    {
    }
}

/// How urgent a task is.
#[derive(Debug, Clone, Copy, PartialEq, Eq, Structural)]
pub enum Priority {
    Low,
    Medium,
    High,
}

/// How far a task has come.
#[derive(Debug, Clone, Copy, PartialEq, Eq, Structural)]
pub enum TaskStatus {
    Pending,
    InProgress,
    Completed,
}

/// The name of a priority.
pub open spec fn priority_name(priority: Priority) -> Seq<char> {
    match priority {
        Priority::Low => "Low"@,
        Priority::Medium => "Medium"@,
        Priority::High => "High"@,
    }
}

/// The name of a status.
pub open spec fn status_name(status: TaskStatus) -> Seq<char> {
    match status {
        TaskStatus::Pending => "Pending"@,
        TaskStatus::InProgress => "InProgress"@,
        TaskStatus::Completed => "Completed"@,
    }
}

impl Priority {
    /// The name of the priority.
    pub fn name(&self) -> (name: &'static str)
        ensures
            name@ == priority_name(*self),
    {
        match self {
            Priority::Low => "Low",
            Priority::Medium => "Medium",
            Priority::High => "High",
        }
    }
}

impl TaskStatus {
    /// The name of the status.
    pub fn name(&self) -> (name: &'static str)
        ensures
            name@ == status_name(*self),
    {
        match self {
            TaskStatus::Pending => "Pending",
            TaskStatus::InProgress => "InProgress",
            TaskStatus::Completed => "Completed",
        }
    }
}

/// A task.
#[derive(Debug)]
pub struct Task {
    id: TaskId,
    title: String,
    description: String,
    priority: Priority,
    status: TaskStatus,
}

/// A [`Task`] as contracts speak of it.
pub ghost struct TaskView {
    pub id: u32,
    pub title: Seq<char>,
    pub description: Seq<char>,
    pub priority: Priority,
    pub status: TaskStatus,
}

/// The task with the status that [`Task::start`] leaves.
pub open spec fn started(task: TaskView) -> TaskView {
    if task.status == TaskStatus::Pending {
        TaskView { status: TaskStatus::InProgress, ..task }
    } else {
        task
    }
}

/// The task with the status that [`Task::complete`] leaves.
pub open spec fn completed(task: TaskView) -> TaskView {
    TaskView { status: TaskStatus::Completed, ..task }
}

/// The line that shows a task: its number in brackets, its title, and its
/// priority and status by name.
pub open spec fn task_line(task: TaskView) -> Seq<char> {
    "["@ + decimal(task.id as nat) + "] "@ + task.title + " - "@ + priority_name(task.priority)
        + " ("@ + status_name(task.status) + ")"@
}

impl View for Task {
    type V = TaskView;

    closed spec fn view(&self) -> TaskView {
        TaskView {
            id: self.id@,
            title: self.title@,
            description: self.description@,
            priority: self.priority,
            status: self.status,
        }
    }
}

impl Clone for Task {
    fn clone(&self) -> (copy: Self)
        ensures
            copy@ == self@,
    {
        Task {
            id: self.id,
            title: self.title.clone(),
            description: self.description.clone(),
            priority: self.priority,
            status: self.status,
        }
    }
}

impl Task {
    /// A new task, pending.
    pub fn new(id: TaskId, title: String, description: String, priority: Priority) -> (task: Self)
        ensures
            task@ == (TaskView {
                id: id@,
                title: title@,
                description: description@,
                priority,
                status: TaskStatus::Pending,
            }),
    {
        Task { id, title, description, priority, status: TaskStatus::Pending }
    }

    pub fn id(&self) -> (id: TaskId)
        ensures
            id@ == self@.id,
    {
        self.id
    }

    pub fn title(&self) -> (title: &str)
        ensures
            title@ == self@.title,
    {
        self.title.as_str()
    }

    pub fn description(&self) -> (description: &str)
        ensures
            description@ == self@.description,
    {
        self.description.as_str()
    }

    pub fn priority(&self) -> (priority: Priority)
        ensures
            priority == self@.priority,
    {
        self.priority
    }

    pub fn status(&self) -> (status: TaskStatus)
        ensures
            status == self@.status,
    {
        self.status
    }

    /// Sets a pending task in progress; any other task stays as it is.
    pub fn start(&mut self)
        ensures
            final(self)@ == started(old(self)@),
    {
        if self.status == TaskStatus::Pending {
            self.status = TaskStatus::InProgress;
        }
    }

    /// Marks the task completed, whatever its status was.
    pub fn complete(&mut self)
        ensures
            final(self)@ == completed(old(self)@),
    {
        self.status = TaskStatus::Completed;
    }

    /// The line that shows the task.
    pub fn to_text(&self) -> (line: String)
        ensures
            line@ == task_line(self@),
    {
        let mut line = String::from_str("[");
        push_decimal(&mut line, self.id.value() as u64);
        line.append("] ");
        line.append(self.title.as_str());
        line.append(" - ");
        line.append(self.priority.name());
        line.append(" (");
        line.append(self.status.name());
        line.append(")");
        line
    }
}

} // verus!
