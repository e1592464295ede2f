//! Declarations of the outside types that the library's values carry.
use vstd::prelude::*;

use amqprs::error::Error as AmqpError;
use serde_json::Error as JsonError;
use serde_yaml::Error as YamlError;
use std::io::Error as IoError;
use tokio_postgres::Error as PostgresError;

verus! {

#[verifier::external_type_specification]
#[verifier::external_body]
pub struct ExAmqpError(AmqpError);

#[verifier::external_type_specification]
#[verifier::external_body]
pub struct ExYamlError(YamlError);

#[verifier::external_type_specification]
#[verifier::external_body]
pub struct ExJsonError(JsonError);

#[verifier::external_type_specification]
#[verifier::external_body]
pub struct ExIoError(IoError);

#[verifier::external_type_specification]
#[verifier::external_body]
pub struct ExPostgresError(PostgresError);

#[verifier::external_type_specification]
#[verifier::external_body]
pub struct ExPoolConfigError(deadpool_postgres::ConfigError);

#[verifier::external_type_specification]
#[verifier::external_body]
#[verifier::reject_recursive_types(C)]
pub struct ExCreatePoolError<C>(deadpool::managed::CreatePoolError<C>);

#[verifier::external_type_specification]
#[verifier::external_body]
#[verifier::reject_recursive_types(E)]
pub struct ExPoolError<E>(deadpool::managed::PoolError<E>);

#[verifier::external_type_specification]
#[verifier::external_body]
pub struct ExUuid(uuid::Uuid);

#[verifier::external_type_specification]
#[verifier::external_body]
pub struct ExPathBuf(std::path::PathBuf);

/// `Clone` of `std::path::PathBuf`, which copies the path. The path is opaque
/// here, so nothing is stated of the copy.
pub assume_specification[ <std::path::PathBuf as Clone>::clone ](p: &std::path::PathBuf) -> std::path::PathBuf;

} // verus!
