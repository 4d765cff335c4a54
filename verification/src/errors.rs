//! Error types of the pipeline.

use vstd::prelude::*;
use vstd::string::StringExecFns;

verus! {

/// Error raised by the audio tooling: file handling, configuration and the
/// speech-recognition services.
#[derive(Debug)]
pub enum AudioToolsError {
    IoError(String),
    ConfigError(String),
    AsrServiceError(String),
    FileProcessingError(String),
    AuthenticationError(String),
    NetworkError(String),
    General(String),
}

impl AudioToolsError {
    /// The message of this error, with a prefix naming its kind.
    pub open spec fn spec_message(&self) -> Seq<char> {
        match self {
            AudioToolsError::IoError(m) => "io error: "@ + m@,
            AudioToolsError::ConfigError(m) => "config error: "@ + m@,
            AudioToolsError::AsrServiceError(m) => "asr service error: "@ + m@,
            AudioToolsError::FileProcessingError(m) => "file processing error: "@ + m@,
            AudioToolsError::AuthenticationError(m) => "authentication error: "@ + m@,
            AudioToolsError::NetworkError(m) => "network error: "@ + m@,
            AudioToolsError::General(m) => "error: "@ + m@,
        }
    }

    pub fn message(&self) -> (r: String)
        ensures
            r@ == self.spec_message(),
    {
        match self {
            AudioToolsError::IoError(m) => {
                let mut s = String::from_str("io error: ");
                s.append(m.as_str());
                s
            },
            AudioToolsError::ConfigError(m) => {
                let mut s = String::from_str("config error: ");
                s.append(m.as_str());
                s
            },
            AudioToolsError::AsrServiceError(m) => {
                let mut s = String::from_str("asr service error: ");
                s.append(m.as_str());
                s
            },
            AudioToolsError::FileProcessingError(m) => {
                let mut s = String::from_str("file processing error: ");
                s.append(m.as_str());
                s
            },
            AudioToolsError::AuthenticationError(m) => {
                let mut s = String::from_str("authentication error: ");
                s.append(m.as_str());
                s
            },
            AudioToolsError::NetworkError(m) => {
                let mut s = String::from_str("network error: ");
                s.append(m.as_str());
                s
            },
            AudioToolsError::General(m) => {
                let mut s = String::from_str("error: ");
                s.append(m.as_str());
                s
            },
        }
    }
}

/// Error raised by the surrounding program: dependency checks, the external
/// media tool and the transcription services.
#[derive(Debug)]
pub enum AudioProcessorError {
    Io(String),
    DependencyCheckFailed(String),
    ExternalProgramNotFound(String),
    ProcessingError(String),
    HttpError(String),
    ASRServiceError(String),
    Interrupted,
}

impl AudioProcessorError {
    /// The message of this error, with a prefix naming its kind.
    pub open spec fn spec_message(&self) -> Seq<char> {
        match self {
            AudioProcessorError::Io(m) => "io error: "@ + m@,
            AudioProcessorError::DependencyCheckFailed(m) => "dependency check failed: "@ + m@,
            AudioProcessorError::ExternalProgramNotFound(m) => "external program not found: "@ + m@,
            AudioProcessorError::ProcessingError(m) => "processing error: "@ + m@,
            AudioProcessorError::HttpError(m) => "http error: "@ + m@,
            AudioProcessorError::ASRServiceError(m) => "asr service error: "@ + m@,
            AudioProcessorError::Interrupted => "interrupted by user"@,
        }
    }

    pub fn message(&self) -> (r: String)
        ensures
            r@ == self.spec_message(),
    {
        match self {
            AudioProcessorError::Io(m) => {
                let mut s = String::from_str("io error: ");
                s.append(m.as_str());
                s
            },
            AudioProcessorError::DependencyCheckFailed(m) => {
                let mut s = String::from_str("dependency check failed: ");
                s.append(m.as_str());
                s
            },
            AudioProcessorError::ExternalProgramNotFound(m) => {
                let mut s = String::from_str("external program not found: ");
                s.append(m.as_str());
                s
            },
            AudioProcessorError::ProcessingError(m) => {
                let mut s = String::from_str("processing error: ");
                s.append(m.as_str());
                s
            },
            AudioProcessorError::HttpError(m) => {
                let mut s = String::from_str("http error: ");
                s.append(m.as_str());
                s
            },
            AudioProcessorError::ASRServiceError(m) => {
                let mut s = String::from_str("asr service error: ");
                s.append(m.as_str());
                s
            },
            AudioProcessorError::Interrupted => String::from_str("interrupted by user"),
        }
    }
}

} // verus!
