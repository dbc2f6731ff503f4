//! Digest lines for files, and their verification.
//!
//! A digest line is the SHA-256 digest of a file in hexadecimal, two spaces,
//! and the path of the file. The library writes such lines for files
//! (`generate`), reads them back (`checksum`), and checks the files that they
//! name against the recorded digests (`verify`, whose course `run` states),
//! reporting as a small set of policy flags asks (`config`, `report`).
//!
//! The library reads no file and writes to no stream. Its callers read the
//! files and hand over what they read; the library hands back the lines to
//! write.

pub mod checksum;
pub mod config;
pub mod digest;
pub mod generate;
pub mod report;
pub mod run;
pub mod text;
pub mod verify;

pub use crate::checksum::{parse_checksum, Checksum, ChecksumError};
pub use crate::config::{Config, Opt};
pub use crate::generate::generate;
pub use crate::report::{Report, VerificationOutcome};
pub use crate::verify::{verify_checksum, Verifier};
