//! Logic of the master server of a Minecraft launcher platform: the
//! content-addressed file store and its garbage collection, S3 request
//! signing, build manifests, the server list, restart schedules, the
//! rulebook and moderation, accounts and role hierarchies, OAuth
//! applications, launcher builds and start-up configuration.

pub mod text;
pub mod time;
pub mod digest;
pub mod store;
pub mod gc;
pub mod s3;
pub mod manifest;
pub mod servers;
pub mod schedule;
pub mod rules;
pub mod moderation;
pub mod accounts;
pub mod oauth;
pub mod launcher;
pub mod dotenv;
pub mod migrations;
pub mod web;
pub mod hierarchy;
pub mod error;
