# workflow_core

The verified core of a simple distributed workflow engine, in which jobs consist
of stages and each stage of tasks that workers execute in parallel.

- `src/` is the library, verified with Verus:
  - `status.rs`: job and task status, its stored numbers and names, job states;
  - `id.rs`: identifiers (random UUIDs) and their text form;
  - `dict.rs`: the ordered string map used for descriptions and parameter sets;
  - `placeholder.rs`: the `{{identifier}}` placeholders in command arguments;
  - `task_job_desc.rs`: task and job descriptions and their validation, with the
    proof that the validation accepts exactly the valid descriptions;
  - `states.rs`: what the states backend makes of the database's answers;
  - `messaging.rs`, `options.rs`, `error.rs`: message payloads, options, errors;
  - `outside.rs`: the outside types that the library's values carry.
- `app/` is the controller program and the input and output around the library:
  configuration files, YAML descriptions, RabbitMQ and Postgres.
- `tests/` runs the library on concrete values.
