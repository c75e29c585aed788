//! The task commands: add, done, list and clean.
use vstd::prelude::*;
use crate::codec::{render_line, NewTask, NewTaskView, Priority, TaskFilter};
use crate::decimal::{decimal, push_decimal};
use crate::lines::join_lines;
use crate::tasks::{
    append_line, has_id, listing, max_id, purge_lines, set_status_lines, TaskError, TaskService,
};
use crate::text::{join_with, joined, push_str, string_of, string_views};

verus! {

/// The task commands.
pub enum TaskCommand {
    /// Add a new task to the vault.
    Add(TaskAddArgs),
    /// Mark an existing task as complete.
    Done(TaskDoneArgs),
    /// List tasks, optionally filtered by status.
    List(TaskListArgs),
    /// Remove completed tasks from the task list.
    Clean,
}

/// The arguments of `task add`.
pub struct TaskAddArgs {
    /// Task description, word by word.
    pub title: Vec<String>,
    /// Optional due date in YYYY-MM-DD format.
    pub due: Option<String>,
    /// Optional recurrence string (e.g., weekly).
    pub repeat: Option<String>,
    /// Optional priority marker (low, medium, high).
    pub priority: Option<TaskPriority>,
}

/// The priorities that `task add` takes.
#[derive(Clone, Copy, PartialEq, Eq, Structural, Debug)]
pub enum TaskPriority {
    Low,
    Medium,
    High,
}

/// The arguments of `task done`.
pub struct TaskDoneArgs {
    /// Task identifier to mark as done.
    pub id: usize,
}

/// The arguments of `task list`.
pub struct TaskListArgs {
    /// Filter tasks by completion status.
    pub status: Option<TaskStatus>,
}

/// The statuses that `task list` filters by.
#[derive(Clone, Copy, PartialEq, Eq, Structural, Debug)]
pub enum TaskStatus {
    Open,
    Done,
}

/// The priority of a task for the priority that was given on the command line.
pub open spec fn priority_of(p: Option<TaskPriority>) -> Option<Priority> {
    match p {
        Some(TaskPriority::Low) => Some(Priority::Low),
        Some(TaskPriority::Medium) => Some(Priority::Medium),
        Some(TaskPriority::High) => Some(Priority::High),
        None => None,
    }
}

/// The filter of a listing: the given status, or every record.
pub open spec fn filter_of(status: Option<TaskStatus>) -> TaskFilter {
    match status {
        Some(TaskStatus::Open) => TaskFilter::Open,
        Some(TaskStatus::Done) => TaskFilter::Done,
        None => TaskFilter::All,
    }
}

/// The task that the arguments of `add` describe: the words of the title
/// with single spaces between them, and the metadata as given.
pub open spec fn new_task_of(args: TaskAddArgs) -> NewTaskView {
    NewTaskView {
        title: joined(string_views(args.title@), " "@),
        due_date: crate::codec::text_view(args.due),
        recurrence: crate::codec::text_view(args.repeat),
        priority: priority_of(args.priority),
    }
}

/// What `add` prints for the new identifier.
pub open spec fn added_line(id: usize) -> Seq<char> {
    "Added task #"@ + decimal(id as nat)
}

/// What `done` prints for the identifier.
pub open spec fn done_line(id: usize) -> Seq<char> {
    "Marked task #"@ + decimal(id as nat) + " as done"@
}

impl TaskAddArgs {
    /// The task that these arguments describe.
    pub fn into_new_task(self) -> (t: NewTask)
        ensures
            t@ == new_task_of(self),
    {
        let title = join_with(&self.title, " ");
        let priority = match self.priority {
            Some(TaskPriority::Low) => Some(Priority::Low),
            Some(TaskPriority::Medium) => Some(Priority::Medium),
            Some(TaskPriority::High) => Some(Priority::High),
            None => None,
        };
        NewTask { title, due_date: self.due, recurrence: self.repeat, priority }
    }
}

/// Runs a task command on the ledger and hands back the lines to print.
///
/// `add` appends the task and reports its identifier, `done` marks the task
/// and reports it or fails where there is none, `list` prints the records
/// that pass the filter, and `clean` removes the finished tasks in silence.
pub fn handle(cmd: TaskCommand, service: &mut TaskService) -> (r: Result<Vec<String>, TaskError>)
    requires
        cmd is Add ==> old(service).has_room(),
    ensures
        match cmd {
            TaskCommand::Add(args) => {
                let id = (max_id(old(service).lines()) + 1) as usize;
                &&& final(service)@ == append_line(
                    old(service)@,
                    render_line(id, new_task_of(args)),
                )
                &&& r matches Ok(out) && string_views(out@) == seq![added_line(id)]
            },
            TaskCommand::Done(args) => if has_id(old(service).lines(), args.id) {
                &&& final(service)@ == join_lines(
                    set_status_lines(old(service).lines(), args.id, true),
                )
                &&& r matches Ok(out) && string_views(out@) == seq![done_line(args.id)]
            } else {
                &&& final(service)@ == old(service)@
                &&& r == Err::<Vec<String>, TaskError>(TaskError::NotFound { id: args.id })
            },
            TaskCommand::List(args) => {
                &&& final(service)@ == old(service)@
                &&& r matches Ok(out) && string_views(out@) == listing(
                    old(service).lines(),
                    filter_of(args.status),
                )
            },
            TaskCommand::Clean => {
                &&& final(service)@ == join_lines(purge_lines(old(service).lines()))
                &&& r matches Ok(out) && out@.len() == 0
            },
        },
{
    match cmd {
        TaskCommand::Add(args) => {
            let id = service.add_task(args.into_new_task());
            let mut line: Vec<char> = Vec::new();
            push_str(&mut line, "Added task #");
            push_decimal(&mut line, id);
            let mut out: Vec<String> = Vec::new();
            out.push(string_of(line.as_slice()));
            assert(string_views(out@) =~= seq![added_line(id)]);
            Ok(out)
        },
        TaskCommand::Done(args) => {
            match service.mark_done(args.id) {
                Ok(()) => {},
                Err(e) => {
                    return Err(e);
                },
            }
            let mut line: Vec<char> = Vec::new();
            push_str(&mut line, "Marked task #");
            push_decimal(&mut line, args.id);
            push_str(&mut line, " as done");
            let mut out: Vec<String> = Vec::new();
            out.push(string_of(line.as_slice()));
            assert(string_views(out@) =~= seq![done_line(args.id)]);
            Ok(out)
        },
        TaskCommand::List(args) => {
            let filter = match args.status {
                Some(TaskStatus::Open) => TaskFilter::Open,
                Some(TaskStatus::Done) => TaskFilter::Done,
                None => TaskFilter::All,
            };
            Ok(service.list_tasks(filter))
        },
        TaskCommand::Clean => {
            service.clean_completed();
            Ok(Vec::new())
        },
    }
}

} // verus!
