//! A single-repository Git state worker: repository snapshots read through
//! libgit2, refresh plans derived from file-system events, versioned deltas,
//! and the JSON-RPC requests that expose them.
use vstd::prelude::*;

pub mod text;
pub mod plan;
pub mod model;
pub mod delta;
pub mod classify;
pub mod sys;
pub mod error;
pub mod git;
pub mod sort;
pub mod order;
pub mod read;
pub mod sections;
pub mod heads;
pub mod snapshot;
pub mod json;
pub mod protocol;
pub mod watch;
pub mod roots;
pub mod serve;
pub mod watchset;
pub mod values;

use crate::error::SnapshotError;
use crate::model::RepositorySnapshot;
use crate::snapshot::snapshot_repository;
use crate::text::own;

verus! {

/// Version of the JSON-RPC protocol spoken by this worker.
pub const PROTOCOL_VERSION: u32 = 1;

/// The configuration a worker starts with: the repository it owns.
#[derive(Debug, Clone, PartialEq, Eq)]
pub struct Config {
    pub repo: String,
}

impl Config {
    /// A configuration for the repository at `repo`.
    pub fn new(repo: String) -> (r: Config)
        ensures
            r.repo == repo,
    {
        Config { repo }
    }

    /// Checks that the configured path is inside a repository that can be
    /// read: the configuration back when a snapshot can be read, else the
    /// error of reading it.
    pub fn validate(self) -> (r: Result<Config, SnapshotError>)
        ensures
            r matches Ok(c) ==> c == self,
            r matches Err(SnapshotError::NotRepository { path: p }) ==> p@ == self.repo@,
    {
        let read = snapshot_repository(self.repo.as_str());
        self.validated(read)
    }

    /// The outcome of validating the configuration, given what reading a
    /// snapshot of its repository gave: the configuration back when a
    /// snapshot was read, else the error of reading it.
    pub fn validated(self, read: Result<RepositorySnapshot, SnapshotError>) -> (r: Result<Config, SnapshotError>)
        ensures
            r == match read {
                Ok(_) => Ok::<Config, SnapshotError>(self),
                Err(e) => Err(e),
            },
    {
        match read {
            Ok(_) => Ok(self),
            Err(e) => Err(e),
        }
    }
}

/// What the protocol offers.
#[derive(Debug, Clone, PartialEq, Eq)]
pub struct ProtocolCapabilities {
    pub jsonrpc: String,
    pub version: u32,
    pub transport: String,
    pub methods: Vec<String>,
    pub notifications: Vec<String>,
    pub non_goals: Vec<String>,
}

/// The texts of a list of strings.
pub open spec fn texts(v: Seq<String>) -> Seq<Seq<char>> {
    v.map_values(|s: String| s@)
}

/// The protocol this build speaks.
pub open spec fn is_current_protocol(p: ProtocolCapabilities) -> bool {
    &&& p.jsonrpc@ == "2.0"@
    &&& p.version == PROTOCOL_VERSION
    &&& p.transport@ == "stdio"@
    &&& texts(p.methods@) == seq![
        "initialize"@,
        "gitseer/getSnapshot"@,
        "gitseer/refresh"@,
        "gitseer/subscribe"@,
        "gitseer/unsubscribe"@,
    ]
    &&& texts(p.notifications@) == seq!["gitseer/snapshot"@, "gitseer/delta"@, "gitseer/goodbye"@]
    &&& texts(p.non_goals@) == seq![
        "multi-repository service mode"@,
        "OpenRepository/CloseRepository protocol"@,
        "git mutation API"@,
    ]
}

impl ProtocolCapabilities {
    /// The protocol this worker speaks: JSON-RPC 2.0 over stdio, its
    /// methods and notifications, and what it deliberately does not do.
    pub fn current() -> (r: ProtocolCapabilities)
        ensures
            is_current_protocol(r),
    {
        let methods = vec![
            own("initialize"),
            own("gitseer/getSnapshot"),
            own("gitseer/refresh"),
            own("gitseer/subscribe"),
            own("gitseer/unsubscribe"),
        ];
        let notifications = vec![own("gitseer/snapshot"), own("gitseer/delta"), own("gitseer/goodbye")];
        let non_goals = vec![
            own("multi-repository service mode"),
            own("OpenRepository/CloseRepository protocol"),
            own("git mutation API"),
        ];
        let r = ProtocolCapabilities {
            jsonrpc: own("2.0"),
            version: PROTOCOL_VERSION,
            transport: own("stdio"),
            methods,
            notifications,
            non_goals,
        };
        assert(texts(r.methods@) =~= seq![
            "initialize"@,
            "gitseer/getSnapshot"@,
            "gitseer/refresh"@,
            "gitseer/subscribe"@,
            "gitseer/unsubscribe"@,
        ]);
        assert(texts(r.notifications@) =~= seq!["gitseer/snapshot"@, "gitseer/delta"@, "gitseer/goodbye"@]);
        assert(texts(r.non_goals@) =~= seq![
            "multi-repository service mode"@,
            "OpenRepository/CloseRepository protocol"@,
            "git mutation API"@,
        ]);
        r
    }
}

/// What the worker does with its repository.
#[derive(Debug, Clone, Copy, PartialEq, Eq, Structural)]
pub struct RepositoryCapabilities {
    pub single_repository_process: bool,
    pub libgit2_backed: bool,
    pub filesystem_watch: bool,
}

impl RepositoryCapabilities {
    /// One repository per process, read through libgit2, watched on disk.
    pub open spec fn current_spec() -> RepositoryCapabilities {
        RepositoryCapabilities { single_repository_process: true, libgit2_backed: true, filesystem_watch: true }
    }

    /// One repository per process, read through libgit2, watched on disk.
    pub fn current() -> (r: RepositoryCapabilities)
        ensures
            r == RepositoryCapabilities::current_spec(),
    {
        RepositoryCapabilities { single_repository_process: true, libgit2_backed: true, filesystem_watch: true }
    }
}

/// What this worker is and offers.
#[derive(Debug, Clone, PartialEq, Eq)]
pub struct Capabilities {
    pub name: String,
    pub version: String,
    pub protocol: ProtocolCapabilities,
    pub repository: RepositoryCapabilities,
}

/// The capabilities of this build: its package name and version, the
/// protocol it speaks and what it does with its repository.
pub open spec fn is_current_capabilities(c: Capabilities) -> bool {
    &&& c.name@ == "gitseer"@
    &&& c.version@ == "0.1.0"@
    &&& is_current_protocol(c.protocol)
    &&& c.repository == RepositoryCapabilities::current_spec()
}

impl Capabilities {
    /// The capabilities of this build: its package name and version, the
    /// protocol and the repository capabilities.
    pub fn current() -> (r: Capabilities)
        ensures
            is_current_capabilities(r),
    {
        Capabilities {
            name: own("gitseer"),
            version: own("0.1.0"),
            protocol: ProtocolCapabilities::current(),
            repository: RepositoryCapabilities::current(),
        }
    }
}

} // verus!
