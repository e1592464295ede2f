use vstd::prelude::*;

use crate::error::Error;

verus! {

/// The status of a job or task.
#[derive(Debug, Clone, Copy, PartialEq, Eq, Structural, PartialOrd, Ord, Hash)]
pub enum Status {
    NotStarted,
    Queued,
    Running,
    Finished,
    Failed,
}

/// The number under which a status is stored.
pub open spec fn status_code(s: Status) -> i32 {
    match s {
        Status::NotStarted => 0,
        Status::Queued => 1,
        Status::Running => 2,
        Status::Finished => 3,
        Status::Failed => 4,
    }
}

/// The status stored under a number, if any.
pub open spec fn status_of_code(value: i32) -> Option<Status> {
    if value == 0 {
        Some(Status::NotStarted)
    } else if value == 1 {
        Some(Status::Queued)
    } else if value == 2 {
        Some(Status::Running)
    } else if value == 3 {
        Some(Status::Finished)
    } else if value == 4 {
        Some(Status::Failed)
    } else {
        None
    }
}

impl Status {
    /// Returns true if the status is either `Finished` or `Failed`.
    pub fn is_done(self) -> (done: bool)
        ensures
            done <==> (self == Status::Finished || self == Status::Failed),
    {
        match self {
            Status::Finished | Status::Failed => true,
            _ => false,
        }
    }
}

/// The name under which a status is shown.
pub open spec fn status_name(s: Status) -> Seq<char> {
    match s {
        Status::NotStarted => "Not Started"@,
        Status::Queued => "Queued"@,
        Status::Running => "Running"@,
        Status::Finished => "Finished"@,
        Status::Failed => "Failed"@,
    }
}

impl Status {
    /// Returns the name under which the status is shown.
    pub fn to_string(&self) -> (name: String)
        ensures
            name@ == status_name(*self),
    {
        let name = match self {
            Status::NotStarted => "Not Started",
            Status::Queued => "Queued",
            Status::Running => "Running",
            Status::Finished => "Finished",
            Status::Failed => "Failed",
        };
        String::from_str(name)
    }
}

/// Storing a status as its number and reading the number back gives the status again.
pub proof fn lemma_status_code_round_trip(s: Status)
    ensures
        status_of_code(status_code(s)) == Some(s),
{
}

/// A number that names a status is the number under which that status is stored,
/// and exactly the numbers 0 to 4 name a status.
pub proof fn lemma_code_status_round_trip(value: i32)
    ensures
        status_of_code(value) is Some <==> 0 <= value <= 4,
        status_of_code(value) matches Some(s) ==> status_code(s) == value,
{
}

/// The state of a job that consists of its status and the current stage.
#[derive(Debug, Clone, Copy, PartialEq, Eq, Structural)]
pub struct JobState {
    pub status: Status,
    pub stage: usize,
}

impl TryFrom<i32> for Status {
    type Error = Error;

    fn try_from(value: i32) -> (res: core::result::Result<Status, Error>) {
        match value {
            0 => Ok(Status::NotStarted),
            1 => Ok(Status::Queued),
            2 => Ok(Status::Running),
            3 => Ok(Status::Finished),
            4 => Ok(Status::Failed),
            _ => Err(Error::InvalidStatusCode(value)),
        }
    }
}

impl vstd::std_specs::convert::TryFromSpecImpl<i32> for Status {
    open spec fn obeys_try_from_spec() -> bool {
        true
    }

    open spec fn try_from_spec(value: i32) -> core::result::Result<Status, Error> {
        match status_of_code(value) {
            Some(s) => Ok(s),
            None => Err(Error::InvalidStatusCode(value)),
        }
    }
}

impl From<Status> for i32 {
    fn from(state: Status) -> (code: i32) {
        match state {
            Status::NotStarted => 0,
            Status::Queued => 1,
            Status::Running => 2,
            Status::Finished => 3,
            Status::Failed => 4,
        }
    }
}

impl vstd::std_specs::convert::FromSpecImpl<Status> for i32 {
    open spec fn obeys_from_spec() -> bool {
        true
    }

    open spec fn from_spec(state: Status) -> i32 {
        status_code(state)
    }
}

} // verus!
