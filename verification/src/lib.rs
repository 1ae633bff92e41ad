//! Verified core of a Terraform Enterprise variable patch tool: request
//! payloads and URLs, the reading of variable listings, retry decisions with
//! exponential backoff, and the digest work of the worker pool.

pub mod fdp;
pub mod json;
pub mod retry;
pub mod text;
pub mod tfe;
pub mod tfe_patch;
pub mod tfe_v2;
pub mod wpool;
pub mod yaml_data;

pub use wpool::InputData;
