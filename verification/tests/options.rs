use std::path::PathBuf;
use std::str::FromStr;

use workflow_core::{
    Dict, LogLevel, PostgresConfig, ProgramConfig, RabbitMQOptions, Secret, TaskJobDesc,
};

fn config() -> ProgramConfig {
    ProgramConfig {
        log: LogLevel::Info,
        root_dir: PathBuf::from("./task_volume"),
        task_job_desc: PathBuf::from("example/task_job_config.yaml"),
        address: "0.0.0.0:8080".to_string(),
        rabbitmq: RabbitMQOptions {
            host: "localhost".to_string(),
            port: 5672,
            user: "guest".to_string(),
            password: Secret::from_str("guest").unwrap(),
        },
        postgres: PostgresConfig {
            host: "localhost".to_string(),
            port: 5432,
            user: "postgres".to_string(),
            password: Secret::new("password".to_string()),
            dbname: "postgres".to_string(),
        },
    }
}

#[test]
fn secret_keeps_its_value() {
    assert_eq!(Secret::from_str("guest").unwrap().secret(), "guest");
    assert_eq!(Secret::new("pw".to_string()).secret(), "pw");
}

#[test]
fn options_take_the_configuration() {
    let desc = TaskJobDesc { tasks: Dict::new(), jobs: Dict::new() };
    let options = config().into_options(desc);
    assert_eq!(options.root_dir.to_string_lossy(), "./task_volume");
    assert_eq!(options.address, "0.0.0.0:8080");
    assert_eq!(options.rabbitmq.host, "localhost");
    assert_eq!(options.rabbitmq.port, 5672);
    assert_eq!(options.rabbitmq.user, "guest");
    assert_eq!(options.rabbitmq.password.secret(), "guest");
    assert_eq!(options.postgres.dbname, "postgres");
    assert_eq!(options.task_job_desc.tasks.len(), 0);
}
