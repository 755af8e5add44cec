pub mod db_repository;
pub mod domain;
pub mod errors;
pub mod handlers;
pub mod json_extractor;
pub mod infra_errors;
pub mod post_id;
pub mod response;
pub mod routes;
pub mod strutil;
