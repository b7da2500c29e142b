//! The pipeline: from the lines of a task script to what is done with it,
//! for one file and for the entries of a batch directory in turn.

use crate::diagnostic::{empty_input, Diagnostic, Fault, LanguageError};
use crate::launch::{launch, launched, Host, HostModel, Launch, LaunchModel};
use crate::order::{children, get_directories, is_run_order, left_out};
use crate::text::texts;
use vstd::prelude::*;
use vstd::slice::slice_subrange;

verus! {

/// What is done with a task script that was read.
#[derive(Debug, PartialEq, Eq)]
pub enum Task {
    /// Its body is launched.
    Launch(Launch),
    /// Its name is listed.
    List,
    /// Its lines are shown, and nothing runs.
    DryRun,
    /// Nothing.
    Idle,
}

/// A task as plain values.
pub enum TaskModel {
    Launch(LaunchModel),
    List,
    DryRun,
    Idle,
}

impl View for Task {
    type V = TaskModel;

    open spec fn view(&self) -> TaskModel {
        match self {
            Task::Launch(launch) => TaskModel::Launch(launch@),
            Task::List => TaskModel::List,
            Task::DryRun => TaskModel::DryRun,
            Task::Idle => TaskModel::Idle,
        }
    }
}

/// What the pipeline comes to for the task script with the lines `buffer`,
/// read from the file `file`.
///
/// A script without lines is a fault before anything else is looked at. The
/// first line is the directive, the lines after it are the body. With a file
/// name and neither flag the body is launched; listing comes before the dry
/// run where both flags are set.
pub open spec fn started(
    buffer: Seq<Seq<char>>,
    file: Seq<char>,
    dry_run: bool,
    list: bool,
    host: HostModel,
) -> Result<TaskModel, Diagnostic> {
    if buffer.len() == 0 {
        Err(empty_input(file))
    } else if file.len() > 0 && !dry_run && !list {
        match launched(buffer[0], buffer.skip(1), file, host) {
            Ok(launch) => Ok(TaskModel::Launch(launch)),
            Err(diagnostic) => Err(diagnostic),
        }
    } else if list {
        Ok(TaskModel::List)
    } else if dry_run {
        Ok(TaskModel::DryRun)
    } else {
        Ok(TaskModel::Idle)
    }
}

/// Whether `got` is the task `expected`, or the diagnostic in its place.
pub open spec fn starts_as(
    got: Result<Task, LanguageError>,
    expected: Result<TaskModel, Diagnostic>,
) -> bool {
    match expected {
        Ok(task) => got is Ok && got->Ok_0@ == task,
        Err(diagnostic) => got is Err && got->Err_0@ == diagnostic,
    }
}

/// Decides what is done with the task script whose lines are `buffer` and
/// which was read from `file`.
pub fn start(buffer: &[String], file: &str, dry_run: bool, list: bool, host: &Host) -> (task:
    Result<Task, LanguageError>)
    ensures
        starts_as(task, started(texts(buffer@), file@, dry_run, list, host@)),
{
    if buffer.len() == 0 {
        return Err(LanguageError::empty(file));
    }
    if !file.is_empty() && !dry_run && !list {
        let body = slice_subrange(buffer, 1, buffer.len());
        assert(texts(body@) =~= texts(buffer@).skip(1));
        match launch(buffer[0].as_str(), body, file, host) {
            Ok(launch) => Ok(Task::Launch(launch)),
            Err(error) => Err(error),
        }
    } else if list {
        Ok(Task::List)
    } else if dry_run {
        Ok(Task::DryRun)
    } else {
        Ok(Task::Idle)
    }
}

/// A task script without lines is reported as empty input, whatever the
/// flags and the host are, and the source name changes nothing of the report
/// but the name it carries.
pub proof fn lemma_empty_script_is_empty_input(
    file: Seq<char>,
    dry_run: bool,
    list: bool,
    host: HostModel,
)
    ensures
        started(Seq::empty(), file, dry_run, list, host) == Err::<TaskModel, Diagnostic>(
            empty_input(file),
        ),
        empty_input(file).kind == Fault::EmptyInput,
        empty_input(file) == (Diagnostic { name: file, ..empty_input(Seq::empty()) }),
{
}

/// The path of the entry `name` of the directory `dir`.
pub open spec fn entry_path(dir: Seq<char>, name: Seq<char>) -> Seq<char> {
    dir + "/"@ + name
}

/// The run of a batch directory: the entries in run order, and how far the
/// run has come.
#[derive(Debug, PartialEq, Eq)]
pub struct Batch {
    dir: String,
    order: Vec<String>,
    next: usize,
    stopped: bool,
}

/// The run of a batch directory as plain values.
pub struct BatchModel {
    /// The directory.
    pub dir: Seq<char>,
    /// The names of the entries, in run order.
    pub order: Seq<Seq<char>>,
    /// How many entries have been handed out.
    pub next: nat,
    /// Whether the run was aborted.
    pub stopped: bool,
}

impl BatchModel {
    /// Whether the run has handed out no more entries than there are.
    pub open spec fn well_formed(self) -> bool {
        self.next <= self.order.len()
    }

    /// The path of the entry that is due: the next one in run order, unless
    /// the run was aborted or no entry is left.
    pub open spec fn due(self) -> Option<Seq<char>> {
        if !self.stopped && self.next < self.order.len() {
            Some(entry_path(self.dir, self.order[self.next as int]))
        } else {
            None
        }
    }

    /// The run after the entry that was due has been handed out.
    pub open spec fn handed_out(self) -> BatchModel {
        if self.due() is Some {
            BatchModel { next: self.next + 1, ..self }
        } else {
            self
        }
    }

    /// The run after `times` requests for an entry.
    pub open spec fn asked(self, times: nat) -> BatchModel
        decreases times,
    {
        if times == 0 {
            self
        } else {
            self.handed_out().asked((times - 1) as nat)
        }
    }

    /// The run after an abort.
    pub open spec fn aborted(self) -> BatchModel {
        BatchModel { stopped: true, ..self }
    }
}

impl View for Batch {
    type V = BatchModel;

    closed spec fn view(&self) -> BatchModel {
        BatchModel {
            dir: self.dir@,
            order: texts(self.order@),
            next: self.next as nat,
            stopped: self.stopped,
        }
    }
}

impl Batch {
    /// Hands out the path of the entry that is due, and moves on to the
    /// next. Returns `None` where no entry is left or the run was aborted.
    pub fn next_file(&mut self) -> (path: Option<String>)
        ensures
            match path {
                Some(path) => old(self)@.due() == Some(path@),
                None => old(self)@.due() is None,
            },
            final(self)@ == old(self)@.handed_out(),
    {
        if self.stopped || self.next >= self.order.len() {
            return None;
        }
        let mut path = self.dir.clone();
        path.append("/");
        path.append(self.order[self.next].as_str());
        self.next = self.next + 1;
        Some(path)
    }

    /// Aborts the run: an entry has failed, and none after it is to be
    /// opened or run.
    pub fn abort(&mut self)
        ensures
            final(self)@ == old(self)@.aborted(),
    {
        self.stopped = true;
    }
}

/// Prepares the run of the batch directory `dir` from its listing: the names
/// of every entry found, the directory's own name first. Returns the run,
/// which stands before the first entry in run order, and the names that are
/// left out of it.
pub fn runs(dir: &str, listing: Vec<String>) -> (run: (Batch, Vec<String>))
    ensures
        run.0@.dir == dir@,
        is_run_order(run.0@.order, children(texts(listing@))),
        run.0@.next == 0,
        !run.0@.stopped,
        run.0@.well_formed(),
        texts(run.1@) == left_out(children(texts(listing@))),
{
    let (order, ignored) = get_directories(listing);
    (Batch { dir: String::from_str(dir), order, next: 0, stopped: false }, ignored)
}

/// A run that has handed out no more entries than there are stays so,
/// whether it is asked for an entry or aborted.
pub proof fn lemma_run_stays_well_formed(run: BatchModel)
    requires
        run.well_formed(),
    ensures
        run.handed_out().well_formed(),
        run.aborted().well_formed(),
{
}

/// Once a run is aborted, no entry is handed out any more, however often
/// one is asked for.
pub proof fn lemma_aborted_run_hands_out_nothing(run: BatchModel, times: nat)
    ensures
        run.aborted().asked(times) == run.aborted(),
        run.aborted().asked(times).due() is None,
    decreases times,
{
    if times > 0 {
        lemma_aborted_run_hands_out_nothing(run, (times - 1) as nat);
    }
}

/// A run that is not aborted hands out its entries one by one in run order,
/// each once, and then nothing.
pub proof fn lemma_run_follows_the_order(run: BatchModel, times: nat)
    requires
        !run.stopped,
        run.next == 0,
    ensures
        run.asked(times).next == if times <= run.order.len() {
            times
        } else {
            run.order.len()
        },
        run.asked(times).due() == if times < run.order.len() {
            Some(entry_path(run.dir, run.order[times as int]))
        } else {
            None
        },
{
    lemma_asked_from(run, times);
}

/// Asking moves a run that is not aborted on by one entry each time, up to the end.
proof fn lemma_asked_from(run: BatchModel, times: nat)
    requires
        !run.stopped,
        run.next <= run.order.len(),
    ensures
        run.asked(times) == (BatchModel {
            next: if run.next + times <= run.order.len() {
                run.next + times
            } else {
                run.order.len()
            },
            ..run
        }),
    decreases times,
{
    if times > 0 {
        lemma_asked_from(run.handed_out(), (times - 1) as nat);
    }
}

} // verus!
