//! Error values reported by the monitoring library.

use vstd::prelude::*;
use vstd::string::*;

verus! {

/// Failures that the monitoring functions report to their caller.
#[derive(Debug)]
pub enum MonitoringError {
    /// The host statistics could not be obtained.
    SysinfoError(String),
    /// No process could be found to attribute energy to.
    ProcessDiscoveryError(String),
    /// Any other failure, with its description.
    Other(String),
}

impl MonitoringError {
    /// The description that the error carries.
    pub open spec fn detail(&self) -> Seq<char> {
        match self {
            MonitoringError::SysinfoError(text) => text@,
            MonitoringError::ProcessDiscoveryError(text) => text@,
            MonitoringError::Other(text) => text@,
        }
    }

    /// The words that introduce errors of this kind.
    pub open spec fn heading(&self) -> Seq<char> {
        match self {
            MonitoringError::SysinfoError(_) => "Sysinfo error: "@,
            MonitoringError::ProcessDiscoveryError(_) => "Process discovery error: "@,
            MonitoringError::Other(_) => "Other error: "@,
        }
    }

    /// The error as one line of text: the kind, then the description.
    pub fn message(&self) -> (line: String)
        ensures
            line@ == self.heading() + self.detail(),
    {
        match self {
            MonitoringError::SysinfoError(text) => {
                let mut line = String::from_str("Sysinfo error: ");
                line.append(text.as_str());
                line
            },
            MonitoringError::ProcessDiscoveryError(text) => {
                let mut line = String::from_str("Process discovery error: ");
                line.append(text.as_str());
                line
            },
            MonitoringError::Other(text) => {
                let mut line = String::from_str("Other error: ");
                line.append(text.as_str());
                line
            },
        }
    }

    /// An error of the kind `Other` with the description `text`.
    pub fn other(text: &str) -> (error: Self)
        ensures
            error matches MonitoringError::Other(detail) && detail@ == text@,
    {
        MonitoringError::Other(String::from_str(text))
    }
}

} // verus!
