//! Request signing and policy building for the STS `AssumeRole` API
//! (ACS3-HMAC-SHA256 signatures): the policy JSON, the form fields, the
//! canonical request, the signature and the headers of the request that
//! goes out, and what the answer gives back.

pub mod text;
pub mod encoding;
pub mod crypto;
pub mod policy;
pub mod headers;
pub mod sort;
pub mod signing;
pub mod client;
pub mod clock;
pub mod sts;
pub mod laws;

pub use client::StsClient;
pub use headers::Headers;
pub use policy::{Condition, Effects, Policy, StatementBlock, StringOrArray, Versions};
pub use signing::SignedRequest;
pub use sts::{
    AssumeRoleRequest, AssumeRoleResponse, AssumeRoleResponseCredentials, AssumeRoleResponseUser,
};
