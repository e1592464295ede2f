use vstd::prelude::*;

use crate::id::Id;
use crate::status::Status;

verus! {

/// The errors of the workflow engine.
#[derive(Debug)]
pub enum Error {
    /// An error of the RabbitMQ client.
    MessageQueue(Box<amqprs::error::Error>),
    /// An error of the message queue, as a message.
    MessageQueue2(String),
    /// A message without content was received from the queue.
    MessageQueueNoMessage,
    /// The task and job description could not be parsed.
    ParsingConfigError(Box<serde_yaml::Error>),
    /// A value could not be serialized or deserialized.
    Serialization(Box<serde_json::Error>),
    /// The task and job description is not valid.
    InvalidConfigError(String),
    /// An input or output error.
    IO(Box<std::io::Error>),
    /// The database connection pool could not be created.
    DBCreatePoolError(Box<deadpool_postgres::CreatePoolError>),
    /// No database connection could be taken from the pool.
    DBPoolError(Box<deadpool_postgres::PoolError>),
    /// An error of the Postgres database.
    DBError(Box<tokio_postgres::Error>),
    /// A status code that names no status.
    InvalidStatusCode(i32),
    /// An internal error.
    InternalError(String),
    /// The job was not found.
    JobNotFound(Id),
    /// The job is not running.
    JobNotRunning(Id),
    /// The task was not found.
    TaskNotFound(Id),
    /// The task cannot be switched into the state.
    TaskInvalidStateSwitch(Id, Status),
}

/// The result type used in this crate.
pub type Result<T> = core::result::Result<T, Error>;

} // verus!
