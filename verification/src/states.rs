//! What the states backend makes of the answers of its database: the job and task
//! states stored as numbers, the return codes of the stored procedures, and the
//! counts of a stage's tasks.
use vstd::prelude::*;

use crate::error::Error;
use crate::id::{uuid_text, Id};
use crate::status::{status_code, status_of_code, JobState, Status};

verus! {

/// The summary of the tasks of a job.
#[derive(Debug, Clone, Copy, PartialEq, Eq, Structural)]
pub struct TaskSummary {
    pub total_count: u64,
    pub not_started_count: u64,
    pub queued_count: u64,
    pub running_count: u64,
    pub finished_count: u64,
    pub failed_count: u64,
}

/// The character of a decimal digit.
pub open spec fn digit_char(d: int) -> char {
    ('0' as int + d) as char
}

/// The decimal digits of a natural number, most significant first.
pub open spec fn decimal_digits(n: nat) -> Seq<char>
    decreases n,
{
    if n < 10 {
        seq![digit_char(n as int)]
    } else {
        decimal_digits(n / 10).push(digit_char((n % 10) as int))
    }
}

/// The decimal form of an integer, with a leading `-` when it is negative.
pub open spec fn decimal(v: int) -> Seq<char> {
    if v < 0 {
        seq!['-'] + decimal_digits((-v) as nat)
    } else {
        decimal_digits(v as nat)
    }
}

/// The characters of a list of digits, taken from the last to the first.
spec fn reversed_digit_chars(ds: Seq<u64>) -> Seq<char> {
    Seq::new(ds.len(), |i: int| digit_char(ds[ds.len() - 1 - i] as int))
}

/// The text of a single decimal digit.
fn digit_text(d: u64) -> (t: &'static str)
    requires
        d < 10,
    ensures
        t@ == seq![digit_char(d as int)],
{
    proof {
        reveal_strlit("0");
        reveal_strlit("1");
        reveal_strlit("2");
        reveal_strlit("3");
        reveal_strlit("4");
        reveal_strlit("5");
        reveal_strlit("6");
        reveal_strlit("7");
        reveal_strlit("8");
        reveal_strlit("9");
    }
    match d {
        0 => "0",
        1 => "1",
        2 => "2",
        3 => "3",
        4 => "4",
        5 => "5",
        6 => "6",
        7 => "7",
        8 => "8",
        _ => "9",
    }
}

/// Writes a number in decimal, with a leading `-` when it is negative.
fn i32_text(v: i32) -> (text: String)
    ensures
        text@ == decimal(v as int),
{
    let negative = v < 0;
    let wide: i64 = v as i64;
    let mut n: u64 = if negative { (-wide) as u64 } else { wide as u64 };
    let ghost m: nat = n as nat;
    let mut ds: Vec<u64> = Vec::new();
    assert(reversed_digit_chars(ds@) =~= Seq::<char>::empty());
    assert(decimal_digits(m) =~= decimal_digits(n as nat) + reversed_digit_chars(ds@));
    while n >= 10
        invariant
            decimal_digits(m) == decimal_digits(n as nat) + reversed_digit_chars(ds@),
            forall|i: int| 0 <= i < ds@.len() ==> #[trigger] ds@[i] < 10,
        decreases n,
    {
        let d = n % 10;
        let ghost before = ds@;
        let ghost old_n = n;
        ds.push(d);
        n = n / 10;
        assert(decimal_digits(old_n as nat) == decimal_digits(n as nat).push(digit_char(d as int)));
        assert(reversed_digit_chars(ds@) =~= seq![digit_char(d as int)] + reversed_digit_chars(
            before,
        ));
        assert(decimal_digits(m) =~= decimal_digits(n as nat) + reversed_digit_chars(ds@));
    }
    assert(decimal_digits(n as nat) == seq![digit_char(n as int)]);
    let mut text = String::from_str(digit_text(n));
    let ghost tail = reversed_digit_chars(ds@);
    let mut k: usize = ds.len();
    assert(tail.take(0) =~= Seq::<char>::empty());
    assert(text@ =~= seq![digit_char(n as int)] + tail.take((ds@.len() - k) as int));
    while k > 0
        invariant
            k <= ds@.len(),
            tail == reversed_digit_chars(ds@),
            forall|i: int| 0 <= i < ds@.len() ==> #[trigger] ds@[i] < 10,
            text@ == seq![digit_char(n as int)] + tail.take((ds@.len() - k) as int),
        decreases k,
    {
        k = k - 1;
        let ghost before = text@;
        text = text.concat(digit_text(ds[k]));
        assert(tail.take((ds@.len() - k) as int) =~= tail.take((ds@.len() - k - 1) as int).push(
            digit_char(ds@[k as int] as int),
        ));
        assert(text@ =~= seq![digit_char(n as int)] + tail.take((ds@.len() - k) as int));
    }
    assert(tail.take(ds@.len() as int) =~= tail);
    if negative {
        proof {
            reveal_strlit("-");
        }
        let signed = String::from_str("-").concat(text.as_str());
        assert(signed@ =~= seq!['-'] + decimal_digits(m));
        signed
    } else {
        text
    }
}

/// The job state stored as a status number and a stage number.
pub open spec fn job_state_of_columns(status: i32, stage: i32) -> core::result::Result<JobState, Error> {
    match status_of_code(status) {
        Some(s) => Ok(JobState { status: s, stage: stage as usize }),
        None => Err(Error::InvalidStatusCode(status)),
    }
}

/// Reads a job state from its stored status number and stage number. A negative
/// stage is taken, as the conversion `as usize` does, modulo the size of `usize`.
pub fn job_state_from_columns(status: i32, stage: i32) -> (res: Result<JobState, Error>)
    ensures
        res == job_state_of_columns(status, stage),
{
    let status = Status::try_from(status)?;
    Ok(JobState { status, stage: stage as usize })
}

/// Reads the state of a job from the row that the database returned for it, if any.
pub fn job_state_from_row(row: Option<(i32, i32)>) -> (res: Result<Option<JobState>, Error>)
    ensures
        match row {
            None => res == Ok::<Option<JobState>, Error>(None),
            Some((status, stage)) => match job_state_of_columns(status, stage) {
                Ok(state) => res == Ok::<Option<JobState>, Error>(Some(state)),
                Err(e) => res == Err::<Option<JobState>, Error>(e),
            },
        },
{
    match row {
        Some((status, stage)) => Ok(Some(job_state_from_columns(status, stage)?)),
        None => Ok(None),
    }
}

/// Reads the job states of a list of rows, in order. The first row whose status
/// number names no status makes the whole list fail.
pub fn job_states_from_rows(rows: &Vec<(i32, i32)>) -> (res: Result<Vec<JobState>, Error>)
    ensures
        match res {
            Ok(states) => states@.len() == rows@.len() && forall|i: int|
                0 <= i < rows@.len() ==> job_state_of_columns(rows@[i].0, rows@[i].1) == Ok::<
                    JobState,
                    Error,
                >(#[trigger] states@[i]),
            Err(e) => exists|i: int|
                0 <= i < rows@.len() && status_of_code(#[trigger] rows@[i].0) is None && (forall|
                    j: int,
                | 0 <= j < i ==> status_of_code(#[trigger] rows@[j].0) is Some) && e
                    == Error::InvalidStatusCode(rows@[i].0),
        },
{
    let mut states: Vec<JobState> = Vec::new();
    let mut i: usize = 0;
    while i < rows.len()
        invariant
            i <= rows@.len(),
            states@.len() == i,
            forall|j: int|
                0 <= j < i ==> job_state_of_columns(rows@[j].0, rows@[j].1) == Ok::<
                    JobState,
                    Error,
                >(#[trigger] states@[j]),
        decreases rows@.len() - i,
    {
        let (status, stage) = rows[i];
        match job_state_from_columns(status, stage) {
            Ok(state) => states.push(state),
            Err(e) => {
                assert forall|j: int| 0 <= j < i implies status_of_code(
                    #[trigger] rows@[j].0,
                ) is Some by {
                    assert(job_state_of_columns(rows@[j].0, rows@[j].1) == Ok::<JobState, Error>(
                        states@[j],
                    ));
                }
                return Err(e);
            },
        }
        i = i + 1;
    }
    Ok(states)
}

/// Reads the state of a task from the row that the database returned for it, if any.
pub fn task_state_from_row(row: Option<i32>) -> (res: Result<Option<Status>, Error>)
    ensures
        match row {
            None => res == Ok::<Option<Status>, Error>(None),
            Some(code) => match status_of_code(code) {
                Some(s) => res == Ok::<Option<Status>, Error>(Some(s)),
                None => res == Err::<Option<Status>, Error>(Error::InvalidStatusCode(code)),
            },
        },
{
    match row {
        Some(code) => Ok(Some(Status::try_from(code)?)),
        None => Ok(None),
    }
}

/// Reads the task states of a list of rows, in order. The first status number that
/// names no status makes the whole list fail.
pub fn task_states_from_rows(codes: &Vec<i32>) -> (res: Result<Vec<Status>, Error>)
    ensures
        match res {
            Ok(states) => states@.len() == codes@.len() && forall|i: int|
                0 <= i < codes@.len() ==> status_of_code(codes@[i]) == Some(#[trigger] states@[i]),
            Err(e) => exists|i: int|
                0 <= i < codes@.len() && status_of_code(#[trigger] codes@[i]) is None && (forall|
                    j: int,
                | 0 <= j < i ==> status_of_code(#[trigger] codes@[j]) is Some) && e
                    == Error::InvalidStatusCode(codes@[i]),
        },
{
    let mut states: Vec<Status> = Vec::new();
    let mut i: usize = 0;
    while i < codes.len()
        invariant
            i <= codes@.len(),
            states@.len() == i,
            forall|j: int| 0 <= j < i ==> status_of_code(codes@[j]) == Some(#[trigger] states@[j]),
        decreases codes@.len() - i,
    {
        match Status::try_from(codes[i]) {
            Ok(state) => states.push(state),
            Err(e) => {
                assert forall|j: int| 0 <= j < i implies status_of_code(
                    #[trigger] codes@[j],
                ) is Some by {
                    assert(status_of_code(codes@[j]) == Some(states@[j]));
                }
                return Err(e);
            },
        }
        i = i + 1;
    }
    Ok(states)
}

/// The outcome of a change of a job's state: the database reports whether any row
/// changed, and none changes when the job does not exist.
pub fn job_state_update_outcome(job_id: Id, anything_changed: bool) -> (res: Result<(), Error>)
    ensures
        anything_changed ==> res is Ok,
        !anything_changed ==> res == Err::<(), Error>(Error::JobNotFound(job_id)),
{
    if !anything_changed {
        return Err(Error::JobNotFound(job_id));
    }
    Ok(())
}

/// The message for a task that is registered twice.
pub open spec fn task_exists_message(task_id: Id) -> Seq<char> {
    "Task "@ + uuid_text(task_id.value()) + " already exists"@
}

/// The outcome of the registration of a task, from the return code of the
/// database's `create_task`: 0 is success, 1 an unknown job, 2 a task that exists
/// already, 3 a job that is not running.
pub fn task_registration_outcome(job_id: Id, task_id: Id, ret_code: i32) -> (res: Result<(), Error>)
    ensures
        ret_code == 0 ==> res is Ok,
        ret_code == 1 ==> res == Err::<(), Error>(Error::JobNotFound(job_id)),
        ret_code == 2 ==> (res matches Err(Error::InternalError(m)) && m@ == task_exists_message(
            task_id,
        )),
        ret_code == 3 ==> res == Err::<(), Error>(Error::JobNotRunning(job_id)),
        !(0 <= ret_code <= 3) ==> (res matches Err(Error::InternalError(m)) && m@
            == "Unknown return code"@),
{
    match ret_code {
        0 => Ok(()),
        1 => Err(Error::JobNotFound(job_id)),
        2 => Err(
            Error::InternalError(
                String::from_str("Task ").concat(task_id.to_string().as_str()).concat(
                    " already exists",
                ),
            ),
        ),
        3 => Err(Error::JobNotRunning(job_id)),
        _ => Err(Error::InternalError(String::from_str("Unknown return code"))),
    }
}

/// The outcome of a change of a task's state, from the return code of the
/// database's `change_task_state`: -2 is a state the task cannot switch into, -1 an
/// unknown task, 0 a change after which the job's current stage is finished, 1 a
/// change after which it is not.
pub fn task_state_update_outcome(task_id: Id, state: Status, ret_code: i32) -> (res: Result<
    bool,
    Error,
>)
    ensures
        ret_code == -2 ==> res == Err::<bool, Error>(Error::TaskInvalidStateSwitch(task_id, state)),
        ret_code == -1 ==> res == Err::<bool, Error>(Error::TaskNotFound(task_id)),
        ret_code == 0 ==> res == Ok::<bool, Error>(true),
        ret_code == 1 ==> res == Ok::<bool, Error>(false),
        !(-2 <= ret_code <= 1) ==> (res matches Err(Error::InternalError(m)) && m@
            == "Unknown return code: "@ + decimal(ret_code as int)),
{
    match ret_code {
        -2 => Err(Error::TaskInvalidStateSwitch(task_id, state)),
        -1 => Err(Error::TaskNotFound(task_id)),
        0 => Ok(true),
        1 => Ok(false),
        _ => Err(
            Error::InternalError(
                String::from_str("Unknown return code: ").concat(i32_text(ret_code).as_str()),
            ),
        ),
    }
}

/// A count that the database may leave empty; an empty count is zero.
pub open spec fn count_of(count: Option<i64>) -> u64 {
    match count {
        Some(c) => c as u64,
        None => 0,
    }
}

/// A count that the database gives is taken as it is, and an empty one is zero.
pub proof fn lemma_count_of(c: i64)
    ensures
        0 <= c ==> count_of(Some(c)) == c,
        count_of(None) == 0,
{
}

fn count_value(count: Option<i64>) -> (c: u64)
    ensures
        c == count_of(count),
{
    match count {
        Some(c) => c as u64,
        None => 0,
    }
}

impl TaskSummary {
    /// The summary of a stage's tasks from the counts of the database: the total,
    /// and the counts per status, which are empty when no task has that status.
    pub fn from_counts(
        total_count: i64,
        not_started_count: Option<i64>,
        queued_count: Option<i64>,
        running_count: Option<i64>,
        finished_count: Option<i64>,
        failed_count: Option<i64>,
    ) -> (summary: TaskSummary)
        ensures
            summary.total_count == total_count as u64,
            summary.not_started_count == count_of(not_started_count),
            summary.queued_count == count_of(queued_count),
            summary.running_count == count_of(running_count),
            summary.finished_count == count_of(finished_count),
            summary.failed_count == count_of(failed_count),
            0 <= total_count ==> summary.total_count == total_count,
            not_started_count matches Some(c) ==> (0 <= c ==> summary.not_started_count == c),
            queued_count matches Some(c) ==> (0 <= c ==> summary.queued_count == c),
            running_count matches Some(c) ==> (0 <= c ==> summary.running_count == c),
            finished_count matches Some(c) ==> (0 <= c ==> summary.finished_count == c),
            failed_count matches Some(c) ==> (0 <= c ==> summary.failed_count == c),
            not_started_count is None ==> summary.not_started_count == 0,
            queued_count is None ==> summary.queued_count == 0,
            running_count is None ==> summary.running_count == 0,
            finished_count is None ==> summary.finished_count == 0,
            failed_count is None ==> summary.failed_count == 0,
    {
        TaskSummary {
            total_count: total_count as u64,
            not_started_count: count_value(not_started_count),
            queued_count: count_value(queued_count),
            running_count: count_value(running_count),
            finished_count: count_value(finished_count),
            failed_count: count_value(failed_count),
        }
    }
}

/// The columns under which a job state is stored: the number of its status and its
/// stage, which the database holds as an `i32`.
pub fn job_state_columns(state: JobState) -> (columns: (i32, i32))
    ensures
        columns == (status_code(state.status), state.stage as i32),
{
    (i32::from(state.status), state.stage as i32)
}

/// Reading back the columns under which a job state is stored gives the state
/// again, for every stage that the database's `i32` can hold.
pub proof fn lemma_job_state_columns_round_trip(state: JobState)
    requires
        state.stage <= i32::MAX,
    ensures
        job_state_of_columns(status_code(state.status), state.stage as i32) == Ok::<JobState, Error>(
            state,
        ),
{
}

} // verus!
