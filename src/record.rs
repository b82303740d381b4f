use vstd::prelude::*;

use crate::text::{decimal, usize_to_string};

verus! {

/// What the library knows of one delegated command.
pub struct RecordModel {
    pub pid: usize,
    pub command: Seq<char>,
    pub stdout_path: Seq<char>,
    pub stdin_path: Seq<char>,
    pub stderr_path: Seq<char>,
    pub group: Option<usize>,
}

/// What the operating system gave back for one started process: its id and
/// the three files its standard streams were redirected to.
pub struct Spawned {
    pub pid: usize,
    pub stdout_path: String,
    pub stdin_path: String,
    pub stderr_path: String,
}

/// The record of `command`, started in `group`, for the process `process`.
pub open spec fn spawned_model(command: Seq<char>, group: Option<usize>, process: Spawned) -> RecordModel {
    RecordModel {
        pid: process.pid,
        command,
        stdout_path: process.stdout_path@,
        stdin_path: process.stdin_path@,
        stderr_path: process.stderr_path@,
        group,
    }
}

/// One delegated invocation: the command line, the process it runs as, the
/// files of its three streams and an optional group tag.
#[derive(Debug)]
pub struct DelegateCommand {
    pid: usize,
    command: String,
    stdout_path: String,
    stdin_path: String,
    stderr_path: String,
    group: Option<usize>,
}

impl View for DelegateCommand {
    type V = RecordModel;

    closed spec fn view(&self) -> RecordModel {
        RecordModel {
            pid: self.pid,
            command: self.command@,
            stdout_path: self.stdout_path@,
            stdin_path: self.stdin_path@,
            stderr_path: self.stderr_path@,
            group: self.group,
        }
    }
}

/// The group column as shown to a user: the number, or `NULL` when absent.
pub open spec fn group_text(group: Option<usize>) -> Seq<char> {
    match group {
        Some(g) => decimal(g as nat),
        None => seq!['N', 'U', 'L', 'L'],
    }
}

/// The row shown for a record: pid, command, the three paths and the group.
pub open spec fn table_row(r: RecordModel) -> Seq<Seq<char>> {
    seq![
        decimal(r.pid as nat),
        r.command,
        r.stdout_path,
        r.stdin_path,
        r.stderr_path,
        group_text(r.group),
    ]
}

impl DelegateCommand {
    /// The record of `cmd`, tagged with `group`, for the process that was
    /// started for it.
    pub fn spawn(cmd: String, group: Option<usize>, process: Spawned) -> (r: DelegateCommand)
        ensures
            r@ == spawned_model(cmd@, group, process),
    {
        DelegateCommand {
            pid: process.pid,
            command: cmd,
            stdout_path: process.stdout_path,
            stdin_path: process.stdin_path,
            stderr_path: process.stderr_path,
            group,
        }
    }

    /// The record of the same command line and group, run again as `process`.
    pub fn clone_spawn(self, process: Spawned) -> (r: DelegateCommand)
        ensures
            r@ == spawned_model(self@.command, self@.group, process),
    {
        Self::spawn(self.command, self.group, process)
    }

    /// A copy with the same fields.
    pub fn duplicate(&self) -> (r: DelegateCommand)
        ensures
            r@ == self@,
    {
        DelegateCommand {
            pid: self.pid,
            command: self.command.clone(),
            stdout_path: self.stdout_path.clone(),
            stdin_path: self.stdin_path.clone(),
            stderr_path: self.stderr_path.clone(),
            group: self.group,
        }
    }

    /// The cells of this record's row in a listing.
    pub fn to_table_row(&self) -> (r: Vec<String>)
        ensures
            r@.len() == 6,
            forall|i: int| 0 <= i < 6 ==> (#[trigger] r@[i])@ == table_row(self@)[i],
    {
        let mut row: Vec<String> = Vec::new();
        row.push(usize_to_string(self.pid));
        row.push(self.command.clone());
        row.push(self.stdout_path.clone());
        row.push(self.stdin_path.clone());
        row.push(self.stderr_path.clone());
        let g = match self.group {
            Some(g) => usize_to_string(g),
            None => String::from_str("NULL"),
        };
        row.push(g);
        proof {
            reveal_strlit("NULL");
        }
        row
    }

    pub fn pid(&self) -> (r: usize)
        ensures
            r == self@.pid,
    {
        self.pid
    }

    pub fn command(&self) -> (r: &str)
        ensures
            r@ == self@.command,
    {
        self.command.as_str()
    }

    pub fn stdout_path(&self) -> (r: &str)
        ensures
            r@ == self@.stdout_path,
    {
        self.stdout_path.as_str()
    }

    pub fn stdin_path(&self) -> (r: &str)
        ensures
            r@ == self@.stdin_path,
    {
        self.stdin_path.as_str()
    }

    pub fn stderr_path(&self) -> (r: &str)
        ensures
            r@ == self@.stderr_path,
    {
        self.stderr_path.as_str()
    }

    pub fn group(&self) -> (r: Option<usize>)
        ensures
            r == self@.group,
    {
        self.group
    }
}

} // verus!
