//! The options of the workflow engine's programs.
use vstd::prelude::*;

use crate::task_job_desc::TaskJobDesc;

verus! {

/// A value that must not be shown, such as a password.
#[derive(Debug, Clone)]
pub struct Secret {
    value: String,
}

impl Secret {
    /// The value that the secret keeps.
    pub closed spec fn value(&self) -> Seq<char> {
        self.value@
    }

    /// Keeps the given value as a secret.
    pub fn new(value: String) -> (s: Secret)
        ensures
            s.value() == value@,
    {
        Secret { value }
    }

    /// Returns the value that the secret keeps.
    pub fn secret(&self) -> (value: &str)
        ensures
            value@ == self.value(),
    {
        self.value.as_str()
    }
}

impl core::str::FromStr for Secret {
    type Err = core::convert::Infallible;

    /// Keeps the string as a secret; this never fails.
    fn from_str(s: &str) -> (res: core::result::Result<Secret, core::convert::Infallible>)
        ensures
            res matches Ok(secret) && secret.value() == s@,
    {
        Ok(Secret { value: s.to_owned() })
    }
}

/// The options to connect to a RabbitMQ server.
#[derive(Debug, Clone)]
pub struct RabbitMQOptions {
    /// The hostname of the RabbitMQ server.
    pub host: String,
    /// The port of the RabbitMQ server.
    pub port: u16,
    /// The username to use when connecting to the RabbitMQ server.
    pub user: String,
    /// The password to use when connecting to the RabbitMQ server.
    pub password: Secret,
}

/// The configuration for connecting to the postgres database.
#[derive(Debug, Clone)]
pub struct PostgresConfig {
    pub host: String,
    pub port: u16,
    pub user: String,
    pub password: Secret,
    pub dbname: String,
}

/// The common options for the worker and controller.
#[derive(Debug, Clone)]
pub struct Options {
    /// The root directory of the all the tasks and jobs.
    pub root_dir: std::path::PathBuf,
    /// The description of the tasks and jobs.
    pub task_job_desc: TaskJobDesc,
    /// The address where to expose the controller REST API.
    pub address: String,
    /// The RabbitMQ options.
    pub rabbitmq: RabbitMQOptions,
    /// The Postgres config.
    pub postgres: PostgresConfig,
}

/// The level up to which messages are logged.
#[derive(Debug, Clone, Copy, PartialEq, Eq, Structural)]
pub enum LogLevel {
    Off,
    Error,
    Warn,
    Info,
    Debug,
    Trace,
}

/// The configuration of a program, as its configuration file holds it.
#[derive(Debug)]
pub struct ProgramConfig {
    pub log: LogLevel,
    /// The root directory of the all the tasks and jobs.
    pub root_dir: std::path::PathBuf,
    /// The description of the tasks and jobs.
    pub task_job_desc: std::path::PathBuf,
    /// The address where to expose the controller REST API.
    pub address: String,
    /// The RabbitMQ options.
    pub rabbitmq: RabbitMQOptions,
    /// The Postgres config.
    pub postgres: PostgresConfig,
}

impl ProgramConfig {
    /// The program options: the configuration with the task and job description
    /// that its path names in place of that path.
    pub fn into_options(self, task_job_desc: TaskJobDesc) -> (options: Options)
        ensures
            options.root_dir == self.root_dir,
            options.task_job_desc == task_job_desc,
            options.address == self.address,
            options.rabbitmq == self.rabbitmq,
            options.postgres == self.postgres,
    {
        Options {
            root_dir: self.root_dir,
            task_job_desc,
            address: self.address,
            rabbitmq: self.rabbitmq,
            postgres: self.postgres,
        }
    }
}

} // verus!
