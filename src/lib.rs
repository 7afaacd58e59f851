//! Credential verification, ownership authorization and domain / record
//! validation for a multi-tenant DNS zone hosting service.
pub mod text;
pub mod errors;
pub mod models;
pub mod domain;
pub mod decimal;
pub mod address;
pub mod records;
pub mod token;
pub mod credential;
pub mod requests;
pub mod access;
pub mod accounts;
