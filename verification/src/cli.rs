//! What one invocation of the queue is asked to do.

use vstd::prelude::*;
use vstd::string::StringExecFns;

verus! {

/// The environments that deployments target.
#[derive(Clone, Copy, Debug, PartialEq, Eq, Structural)]
pub enum Environment {
    Dev,
    Prod,
}

impl Environment {
    /// The name under which the store knows the environment.
    pub open spec fn name(&self) -> Seq<char> {
        match self {
            Environment::Dev => "dev"@,
            Environment::Prod => "prod"@,
        }
    }

    /// The name under which the store knows the environment.
    pub fn as_ref(&self) -> (r: &'static str)
        ensures
            r@ == self.name(),
    {
        match self {
            Environment::Dev => "dev",
            Environment::Prod => "prod",
        }
    }

    /// The name of the environment as an owned text.
    pub fn to_string(&self) -> (r: String)
        ensures
            r@ == self.name(),
    {
        String::from_str(self.as_ref())
    }

    /// The environment that `name` names, if any.
    pub fn parse(name: &str) -> (r: Option<Environment>)
        ensures
            match r {
                Some(e) => e.name() == name@,
                None => name@ != "dev"@ && name@ != "prod"@,
            },
    {
        let text = String::from_str(name);
        if text == String::from_str("dev") {
            Some(Environment::Dev)
        } else if text == String::from_str("prod") {
            Some(Environment::Prod)
        } else {
            None
        }
    }
}

/// The two names differ, so a name stands for one environment only.
pub proof fn lemma_environment_names_differ()
    ensures
        "dev"@ != "prod"@,
{
    reveal_strlit("dev");
    reveal_strlit("prod");
    assert("dev"@.len() == 3);
    assert("prod"@.len() == 4);
}

/// The target and the labels of a deployment that asks for its turn.
#[derive(Debug)]
pub struct StartDeployment {
    pub environment: Environment,
    pub cloud_provider: String,
    pub region: String,
    pub cell_index: i32,
    pub component: String,
    pub version: Option<String>,
    pub url: Option<String>,
    pub note: Option<String>,
    pub concurrency_key: Option<String>,
}

/// Which deployments a cancellation reaches.
#[derive(Debug)]
pub enum CancelTarget {
    /// The one deployment with this id.
    Deployment { deployment_id: i64 },
    /// Every deployment of this component in this version, in all cells.
    Version { component: String, version: String },
    /// Every deployment to this location; to one cell of it where
    /// `cell_index` is given.
    Location {
        environment: Environment,
        cloud_provider: String,
        region: String,
        cell_index: Option<i32>,
    },
}

/// Whose heartbeat is to be written.
#[derive(Debug)]
pub enum HeartbeatTarget {
    /// The deployment with this id.
    Deployment { deployment_id: i64 },
    /// The most recent deployment that carries this URL.
    Url { url: String },
}

/// What a listing shows.
#[derive(Debug)]
pub enum ListEntity {
    /// Running deployments that take far longer than their history suggests.
    Outliers,
    /// The cells seen so far in one environment.
    Cells { environment: Environment },
}

/// The verb of one invocation.
#[derive(Debug)]
#[allow(inconsistent_fields)]
pub enum Mode {
    /// Queue a deployment and wait for its turn.
    Start(StartDeployment),
    /// Mark a running deployment as done.
    Finish { deployment_id: i64 },
    /// Cancel deployments.
    Cancel { cancellation_note: Option<String>, target: CancelTarget },
    /// Show what is known of a deployment.
    Info { deployment_id: i64 },
    /// List outliers or cells.
    List { entity: ListEntity },
    /// Keep a deployment's heartbeat fresh.
    Heartbeat { target: HeartbeatTarget },
}

/// The whole command line.
#[derive(Debug)]
pub struct Cli {
    /// Leave the schema of the store as it is.
    pub skip_migrations: bool,
    pub mode: Mode,
}

} // verus!
