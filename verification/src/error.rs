//! The errors that the library and the services around it report.

use std::time::Duration;
use vstd::prelude::*;

verus! {

/// An error of reading or writing, as the standard library reports it. It
/// is carried, never looked into.
#[verifier::external_type_specification]
#[verifier::external_body]
pub struct ExIoError(std::io::Error);

/// What can go wrong in a codec.
#[derive(Debug)]
pub enum CodecError {
    /// Samples could not be turned into bytes.
    Encoding(String),
    /// Bytes could not be turned into samples.
    Decoding(String),
    /// The codec cannot work at this rate, in samples per second.
    UnsupportedSampleRate(u32),
    /// The bytes are in a format that the codec does not know.
    InvalidFormat(String),
    /// The bytes are not what the format asks for.
    InvalidData(&'static str),
    /// The codec was asked for settings that it does not have.
    InvalidConfiguration(&'static str),
    /// A program that the codec relies on failed.
    ExternalCommand(String),
    /// Reading or writing failed.
    Io(std::io::Error),
}

/// What can go wrong when the configuration is loaded.
#[derive(Debug)]
pub enum ConfigError {
    /// A configuration file could not be used.
    File(String),
    /// The configuration could not be understood.
    Parse(String),
    /// A value is outside what the service accepts.
    InvalidValue(String),
}

/// What can go wrong in the local store.
#[derive(Debug)]
pub enum LocalError {
    /// The directory of the store could not be made.
    DirectoryCreation(std::io::Error),
    /// No file holds the audio asked for.
    FileNotFound(String),
    /// A file could not be read.
    FileRead(String),
    /// A file could not be written.
    FileWrite(std::io::Error),
    /// Old files could not be removed.
    FileCleanup(String),
}

/// What can go wrong in the object store.
#[derive(Debug)]
pub enum S3Error {
    /// The store is not configured.
    S3Config(String),
    /// An upload failed.
    S3Upload(String),
    /// A download failed.
    S3Download(String),
    /// The store did not answer in the time allowed.
    Timeout(Duration),
    /// The store could not be reached.
    ConnectionError(String),
}

/// What can go wrong when audio is persisted.
#[derive(Debug)]
pub enum StorageError {
    /// The local store failed.
    Local(LocalError),
    /// The object store failed.
    S3(S3Error),
}

/// What can go wrong in the HTTP service.
#[derive(Debug)]
pub enum ServerError {
    /// The service could not start.
    Init(String),
    /// A handler failed.
    RouteHandler(String),
    /// The request cannot be served as it stands.
    BadRequest(String),
    /// What was asked for does not exist.
    NotFound(String),
    /// The service failed.
    Internal(String),
}

} // verus!
