//! Descriptions of services that several schemas share.

pub mod s3;
pub mod tls;
