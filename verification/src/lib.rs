//! Verified core of a small distributed workflow engine: job and task states,
//! identifiers, the validation of task and job descriptions, and the decisions
//! that the state backend and the message queue take on the answers they get.

mod dict;
mod error;
mod id;
mod messaging;
mod options;
mod outside;
mod placeholder;
pub mod postgres;
mod states;
mod status;
mod task_job_desc;

pub use dict::{
    keys_distinct, lemma_entries_forall, lemma_map_of_entries_contains,
    lemma_map_of_entries_distinct, lemma_map_of_entries_first, map_of_entries, map_of_pairs,
    parameter_values, Dict, ParameterSet, ToParameterSet,
};
pub use error::{Error, Result};
pub use id::{
    hex_digit, hex_digits, lemma_id_is_its_value, random_version_variant, uuid_from_value, uuid_text, version_variant_bits,
    Id,
};
pub use messaging::message_payload;
pub use options::{LogLevel, Options, PostgresConfig, ProgramConfig, RabbitMQOptions, Secret};
pub use placeholder::{
    identifier_character, is_identifier_char, placeholder_at, placeholder_identifiers, placeholders, placeholders_from,
    run_end, word_character,
};
pub use states::{
    count_of, decimal, decimal_digits, digit_char, job_state_columns, job_state_from_columns,
    job_state_from_row, job_state_of_columns, lemma_job_state_columns_round_trip, job_state_update_outcome, job_states_from_rows,
    task_exists_message, task_registration_outcome, task_state_from_row,
    task_state_update_outcome, task_states_from_rows, TaskSummary,
};
pub use status::{
    lemma_code_status_round_trip, lemma_status_code_round_trip, status_code, status_name,
    status_of_code, JobState, Status,
};
pub use task_job_desc::{
    argument_problem, argument_problem_fn, first_message, identifier_problem,
    identifier_problem_fn, input_problem, input_problem_fn, job_provides_parameters,
    lemma_first_message_at, lemma_first_message_none, lemma_no_problem_iff_valid,
    missing_parameter_message, missing_task_class_message, no_command_message, task_problem,
    task_problem_fn, task_valid, unknown_identifier_message, unknown_spawn_task_message,
    JobDefinition, JobInput, JobInputSourceType, JobStage, TaskDefinition, TaskInput,
    TaskInputSourceType, TaskJobDesc,
};
