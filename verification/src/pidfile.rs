//! The PID file record of a running bridge and the process-identity check
//! that keeps a reused PID from being taken for the bridge.

use crate::clock::now_millis;
use vstd::prelude::*;

verus! {

/// What identifies a running process: its PID, its canonical executable path
/// and a platform process-start marker, the last two where they are known.
#[derive(Debug, Clone)]
pub struct ProcessIdentity {
    pub pid: u32,
    pub executable: Option<String>,
    pub start_marker: Option<String>,
}

/// The PID file of a running bridge.
#[derive(Debug, Clone)]
pub struct PidFile {
    pub pid: u32,
    pub port: u16,
    pub host: String,
    /// Milliseconds since the Unix epoch when the record was made.
    pub started_at: u64,
    /// Canonical executable path captured after spawn; absent in records that
    /// carry no identity evidence.
    pub executable: Option<String>,
    /// Platform process-start marker, which tells a reused PID apart.
    pub start_marker: Option<String>,
    /// Instance identifier for diagnostics.
    pub instance_id: Option<String>,
}

/// Whether `c` is a lowercase hexadecimal digit.
pub open spec fn is_lower_hex(c: char) -> bool {
    ('0' <= c && c <= '9') || ('a' <= c && c <= 'f')
}

/// A fresh random (version 4) UUID in its simple form.
///
/// Trusted: `uuid::Uuid::new_v4().simple().to_string()`, which the `uuid`
/// crate formats as 32 lowercase hexadecimal digits. Which digits come out is
/// random and not stated.
#[verifier::external_body]
fn random_instance_id() -> (id: String)
    ensures
        id@.len() == 32,
        forall|i: int| 0 <= i < 32 ==> is_lower_hex(#[trigger] id@[i]),
{
    uuid::Uuid::new_v4().simple().to_string()
}

/// Two optional texts are both present and equal.
pub open spec fn both_equal(a: Option<String>, b: Option<String>) -> bool {
    a matches Some(x) && b matches Some(y) && x@ == y@
}

fn both_equal_exec(a: &Option<String>, b: &Option<String>) -> (same: bool)
    ensures
        same == both_equal(*a, *b),
{
    match (a, b) {
        (Some(x), Some(y)) => crate::text::str_equal(x.as_str(), y.as_str()),
        _ => false,
    }
}

impl PidFile {
    /// A record for a process known only by its PID: it carries no identity
    /// evidence.
    pub fn new(pid: u32, port: u16, host: &str) -> (record: PidFile)
        ensures
            record.pid == pid,
            record.port == port,
            record.host@ == host@,
            record.executable is None,
            record.start_marker is None,
            record.instance_id matches Some(id) && id@.len() == 32,
            !record.has_identity_evidence_spec(),
    {
        PidFile::with_identity(ProcessIdentity { pid, executable: None, start_marker: None }, port, host)
    }

    /// A record for the process `identity`, stamped with the current time and
    /// a fresh instance identifier.
    pub fn with_identity(identity: ProcessIdentity, port: u16, host: &str) -> (record: PidFile)
        ensures
            record.pid == identity.pid,
            record.port == port,
            record.host@ == host@,
            record.executable == identity.executable,
            record.start_marker == identity.start_marker,
            record.instance_id matches Some(id) && id@.len() == 32,
    {
        let started_at = now_millis();
        PidFile {
            pid: identity.pid,
            port,
            host: host.to_string(),
            started_at,
            executable: identity.executable,
            start_marker: identity.start_marker,
            instance_id: Some(random_instance_id()),
        }
    }

    pub open spec fn has_identity_evidence_spec(&self) -> bool {
        self.executable is Some && self.start_marker is Some
    }

    /// Whether the record names both the executable and the start marker.
    pub fn has_identity_evidence(&self) -> (evidence: bool)
        ensures
            evidence == self.has_identity_evidence_spec(),
    {
        self.executable.is_some() && self.start_marker.is_some()
    }

    pub open spec fn owns_spec(&self, actual: ProcessIdentity) -> bool {
        &&& self.pid == actual.pid
        &&& self.has_identity_evidence_spec()
        &&& both_equal(self.executable, actual.executable)
        &&& both_equal(self.start_marker, actual.start_marker)
    }

    /// Whether the recorded process is `actual`: the same PID, and, with
    /// identity evidence on record, the same executable and the same start
    /// marker. Both executables are canonical paths, compared as text.
    pub fn owns(&self, actual: &ProcessIdentity) -> (owned: bool)
        ensures
            owned == self.owns_spec(*actual),
    {
        if self.pid != actual.pid || !self.has_identity_evidence() {
            return false;
        }
        let executable_matches = both_equal_exec(&self.executable, &actual.executable);
        let marker_matches = both_equal_exec(&self.start_marker, &actual.start_marker);
        executable_matches && marker_matches
    }
}

} // verus!
