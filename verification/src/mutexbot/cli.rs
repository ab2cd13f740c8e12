//! What one invocation of the lock client is asked to do.

use vstd::prelude::*;
use vstd::string::StringExecFns;

verus! {

/// The verb of one invocation.
#[derive(Debug)]
#[allow(inconsistent_fields)]
pub enum Mode {
    /// Reserve a resource.
    Reserve { resource_name: String, notes: String, duration: Option<String> },
    /// Reserve a resource once no one else holds it.
    ReserveExclusive { resource_name: String, notes: String, duration: Option<String> },
    /// Release a resource.
    Release { resource_name: String },
    /// Release a resource whoever holds it.
    ForceRelease { resource_name: String },
}

/// What is known of a verb as plain values: the resource and the action
/// that the service is asked for.
pub open spec fn endpoint_text(resource_name: Seq<char>, action: Seq<char>) -> Seq<char> {
    "https://mutexbot.com/api/resources/global/"@ + resource_name + "/"@ + action
}

impl Mode {
    /// The resource that the verb is about.
    pub open spec fn resource(&self) -> Seq<char> {
        match self {
            Mode::Reserve { resource_name, .. } => resource_name@,
            Mode::ReserveExclusive { resource_name, .. } => resource_name@,
            Mode::Release { resource_name } => resource_name@,
            Mode::ForceRelease { resource_name } => resource_name@,
        }
    }

    /// The action that the verb asks the service for.
    pub open spec fn action(&self) -> Seq<char> {
        match self {
            Mode::Reserve { .. } => "reserve"@,
            Mode::ReserveExclusive { .. } => "reserve"@,
            Mode::Release { .. } => "release"@,
            Mode::ForceRelease { .. } => "force-release"@,
        }
    }

    /// The address at the service that carries out the verb.
    pub fn api_endpoint(&self) -> (r: String)
        ensures
            r@ == endpoint_text(self.resource(), self.action()),
    {
        let mut out = String::from_str("https://mutexbot.com/api/resources/global/");
        match self {
            Mode::Reserve { resource_name, .. } => {
                out.append(resource_name.as_str());
                out.append("/");
                out.append("reserve");
            },
            Mode::ReserveExclusive { resource_name, .. } => {
                out.append(resource_name.as_str());
                out.append("/");
                out.append("reserve");
            },
            Mode::Release { resource_name } => {
                out.append(resource_name.as_str());
                out.append("/");
                out.append("release");
            },
            Mode::ForceRelease { resource_name } => {
                out.append(resource_name.as_str());
                out.append("/");
                out.append("force-release");
            },
        }
        out
    }
}

/// The whole command line.
#[derive(Debug)]
pub struct Cli {
    /// The isolation channel of the resource, if it has one.
    pub isolation_channel: Option<String>,
    pub mode: Mode,
}

} // verus!
