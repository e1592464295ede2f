use workflow_core::{
    identifier_character, placeholder_identifiers, Dict, Error, JobDefinition, JobInput, JobInputSourceType, JobStage,
    TaskDefinition, TaskInput, TaskInputSourceType, TaskJobDesc,
};

fn task(command: &str, args: &[&str], inputs: &[(&str, TaskInputSourceType)]) -> TaskDefinition {
    let mut input = Dict::new();
    for (name, source_type) in inputs {
        input.insert(
            name.to_string(),
            TaskInput { description: String::new(), secret: false, source_type: *source_type },
        );
    }
    TaskDefinition {
        description: String::new(),
        input,
        exec_command: command.to_string(),
        exec_args: args.iter().map(|a| a.to_string()).collect(),
    }
}

fn stage(task_class: &str, spawn_task: Option<&str>) -> JobStage {
    JobStage {
        name: format!("stage {}", task_class),
        spawn_task: spawn_task.map(|s| s.to_string()),
        task_class: task_class.to_string(),
        job_failed_on_error: true,
    }
}

fn job(inputs: &[&str], stages: Vec<JobStage>) -> JobDefinition {
    let mut input = Dict::new();
    for name in inputs {
        input.insert(
            name.to_string(),
            JobInput {
                description: String::new(),
                source_type: JobInputSourceType::Parameter,
                secret: false,
                key: None,
            },
        );
    }
    JobDefinition { description: String::new(), input, stages }
}

fn example() -> TaskJobDesc {
    let mut tasks = Dict::new();
    tasks.insert(
        "export-data".to_string(),
        task(
            "serialize_data",
            &["--data_id", "{{data_id}}", "--endpoint", "{{REST_ENDPOINT}}"],
            &[
                ("data_id", TaskInputSourceType::Parameter),
                ("REST_ENDPOINT", TaskInputSourceType::Environment),
            ],
        ),
    );
    tasks.insert(
        "download".to_string(),
        task(
            "wget",
            &["{{url}}", "-P", "{{output_path}}"],
            &[("url", TaskInputSourceType::Parameter), ("output_path", TaskInputSourceType::Parameter)],
        ),
    );
    tasks.insert("spawn-downloads".to_string(), task("list_urls", &[], &[]));
    let mut jobs = Dict::new();
    jobs.insert(
        "request-data".to_string(),
        job(
            &["data_id"],
            vec![stage("export-data", None), stage("download", Some("spawn-downloads"))],
        ),
    );
    TaskJobDesc { tasks, jobs }
}

fn message(res: Result<(), Error>) -> String {
    match res {
        Err(Error::InvalidConfigError(m)) => m,
        other => panic!("expected an invalid config error, got {:?}", other),
    }
}

#[test]
fn valid_description_passes() {
    assert!(example().is_valid().is_ok());
}

#[test]
fn empty_description_passes() {
    let desc = TaskJobDesc { tasks: Dict::new(), jobs: Dict::new() };
    assert!(desc.is_valid().is_ok());
}

#[test]
fn task_without_command_is_refused() {
    let mut desc = example();
    desc.tasks.insert("broken".to_string(), task("", &["{{unknown}}"], &[]));
    assert_eq!(message(desc.is_valid()), "Task broken has no exec_command");
}

#[test]
fn unknown_placeholder_is_refused() {
    let mut desc = example();
    desc.tasks.insert(
        "compress".to_string(),
        task("gzip", &["-{{level}}", "{{file}} {{other}}"], &[("file", TaskInputSourceType::Parameter)]),
    );
    assert_eq!(
        message(desc.is_valid()),
        "Task compress has an invalid input identifier in exec_args: level"
    );
}

#[test]
fn first_unknown_placeholder_in_argument_order_is_reported() {
    let mut desc = example();
    desc.tasks.insert(
        "compress".to_string(),
        task("gzip", &["{{file}}", "{{b}}{{a}}"], &[("file", TaskInputSourceType::Parameter)]),
    );
    assert_eq!(
        message(desc.is_valid()),
        "Task compress has an invalid input identifier in exec_args: b"
    );
}

#[test]
fn unknown_task_class_is_refused() {
    let mut desc = example();
    desc.jobs.insert("other".to_string(), job(&[], vec![stage("missing", None)]));
    assert_eq!(message(desc.is_valid()), "No task definition for the task class 'task'");
}

#[test]
fn unknown_spawn_task_is_refused() {
    let mut desc = example();
    desc.jobs.insert("other".to_string(), job(&[], vec![stage("download", Some("spawner"))]));
    assert_eq!(message(desc.is_valid()), "Job other has an invalid spawn task identifier: spawner");
}

#[test]
fn missing_job_parameter_is_refused() {
    let mut desc = example();
    desc.jobs.insert("fetch".to_string(), job(&["url"], vec![stage("download", None)]));
    // the names stand in the order in which the validation hands them to the message
    assert_eq!(
        message(desc.is_valid()),
        "Task download requires input parameter fetch but job output_path does not provide it."
    );
}

#[test]
fn environment_inputs_need_no_job_parameter() {
    let mut desc = example();
    desc.jobs.insert("export".to_string(), job(&["data_id"], vec![stage("export-data", None)]));
    assert!(desc.is_valid().is_ok());
}

#[test]
fn tasks_are_checked_before_jobs() {
    let mut desc = example();
    desc.jobs.insert("other".to_string(), job(&[], vec![stage("missing", None)]));
    desc.tasks.insert("broken".to_string(), task("", &[], &[]));
    assert_eq!(message(desc.is_valid()), "Task broken has no exec_command");
}

#[test]
fn placeholders_are_read_left_to_right() {
    assert_eq!(
        placeholder_identifiers("{{a}} x {{b,c-d}} {{}} {{{e}}} {{ f }} {{g}"),
        vec!["a".to_string(), "b,c-d".to_string(), "e".to_string()]
    );
    assert_eq!(placeholder_identifiers("--data_id={{data_id}}"), vec!["data_id".to_string()]);
    assert_eq!(placeholder_identifiers("{{a}}{{b}}"), vec!["a".to_string(), "b".to_string()]);
    assert!(placeholder_identifiers("no placeholder {here}").is_empty());
    assert!(placeholder_identifiers("").is_empty());
}

#[test]
fn placeholders_take_unicode_word_characters() {
    assert_eq!(placeholder_identifiers("{{größe}}"), vec!["größe".to_string()]);
    assert_eq!(placeholder_identifiers("{{_x1}}"), vec!["_x1".to_string()]);
    assert!(placeholder_identifiers("{{a.b}}").is_empty());
}

#[test]
fn placeholders_next_to_each_other() {
    assert_eq!(placeholder_identifiers("{{a}}-{{b}}"), vec!["a".to_string(), "b".to_string()]);
    assert!(placeholder_identifiers("{x} {{ y }} {{}}").is_empty());
}

#[test]
fn identifier_characters() {
    for c in ['a', 'Z', '0', '_', ',', '-', 'ß', 'é'] {
        assert!(identifier_character(c), "{:?}", c);
    }
    for c in ['{', '}', ' ', '.', '/', '€'] {
        assert!(!identifier_character(c), "{:?}", c);
    }
}
