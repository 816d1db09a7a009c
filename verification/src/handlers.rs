//! What the request handlers decide: which ranking a request asks for, and
//! what is shown of a ranked record.

pub mod presentation_models;
pub mod ranking;
