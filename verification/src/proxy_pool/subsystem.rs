//! Lifecycle status of the proxy subsystem, as readiness probes report it.

use vstd::prelude::*;

verus! {

/// Longest error message kept, in UTF-8 bytes.
pub const MAX_SUBSYSTEM_ERROR_BYTES: usize = 512;

#[derive(Debug, Clone, Copy, PartialEq, Eq, Structural)]
pub enum ProxySubsystemPhase {
    Disabled,
    Starting,
    TransportVerifying,
    IdentityVerifying,
    RouteVerifying,
    Ready,
    Degraded,
}

#[derive(Debug, Clone, PartialEq, Eq)]
pub struct ProxySubsystemSnapshot {
    pub phase: ProxySubsystemPhase,
    pub ready: bool,
    pub last_transition_unix_secs: u64,
    pub last_success_unix_secs: Option<u64>,
    pub last_error: Option<String>,
    pub backoff_until_unix_secs: Option<u64>,
}

#[derive(Debug)]
pub struct ProxySubsystemStatus {
    pub phase: ProxySubsystemPhase,
    pub last_transition_unix_secs: u64,
    pub last_success_unix_secs: Option<u64>,
    pub last_error: Option<String>,
    pub backoff_until_unix_secs: Option<u64>,
}

/// The number of bytes UTF-8 spends on `c`.
pub open spec fn utf8_width(c: char) -> nat {
    if (c as u32) < 0x80 {
        1
    } else if (c as u32) < 0x800 {
        2
    } else if (c as u32) < 0x10000 {
        3
    } else {
        4
    }
}

/// The UTF-8 length of `s` in bytes.
pub open spec fn utf8_len(s: Seq<char>) -> nat
    decreases s.len(),
{
    if s.len() == 0 {
        0
    } else {
        utf8_len(s.drop_last()) + utf8_width(s.last())
    }
}

/// The longest prefix of `s` whose UTF-8 encoding fits in `limit` bytes:
/// `s` cut at the last character boundary at or before `limit`.
pub open spec fn bounded_prefix(s: Seq<char>, limit: nat) -> Seq<char>
    decreases s.len(),
{
    if utf8_len(s) <= limit {
        s
    } else {
        bounded_prefix(s.drop_last(), limit)
    }
}

proof fn lemma_utf8_len_prefix(s: Seq<char>, i: int)
    requires
        0 <= i < s.len(),
    ensures
        utf8_len(s.take(i + 1)) == utf8_len(s.take(i)) + utf8_width(s[i]),
{
    assert(s.take(i + 1).drop_last() =~= s.take(i));
}

proof fn lemma_utf8_len_monotone(s: Seq<char>, i: int, j: int)
    requires
        0 <= i <= j <= s.len(),
    ensures
        utf8_len(s.take(i)) <= utf8_len(s.take(j)),
    decreases j - i,
{
    if i < j {
        lemma_utf8_len_monotone(s, i, j - 1);
        lemma_utf8_len_prefix(s, j - 1);
    }
}

proof fn lemma_bounded_prefix_is_take(s: Seq<char>, limit: nat, k: int)
    requires
        0 <= k <= s.len(),
        utf8_len(s.take(k)) <= limit,
        k == s.len() || utf8_len(s.take(k + 1)) > limit,
    ensures
        bounded_prefix(s, limit) == s.take(k),
    decreases s.len(),
{
    if utf8_len(s) <= limit {
        if k < s.len() {
            lemma_utf8_len_monotone(s, k + 1, s.len() as int);
            assert(s.take(s.len() as int) =~= s);
        }
        assert(s.take(k) =~= s);
    } else {
        assert(s.take(s.len() as int) =~= s);
        assert(k < s.len());
        assert(s.drop_last().take(k) =~= s.take(k));
        if k + 1 <= s.len() - 1 {
            assert(s.drop_last().take(k + 1) =~= s.take(k + 1));
        }
        lemma_bounded_prefix_is_take(s.drop_last(), limit, k);
    }
}

/// `value` cut to at most `limit` UTF-8 bytes on a character boundary.
pub fn bounded_to_bytes(value: &str, limit: usize) -> (bounded: String)
    ensures
        bounded@ == bounded_prefix(value@, limit as nat),
        utf8_len(bounded@) <= limit,
{
    let chars = crate::text::str_chars(value);
    let mut bytes: usize = 0;
    let mut k: usize = 0;
    let mut full = false;
    while k < chars.len() && !full
        invariant
            k <= chars@.len(),
            bytes == utf8_len(chars@.take(k as int)),
            bytes <= limit,
            full ==> k < chars@.len() && bytes + utf8_width(chars@[k as int]) > limit,
        decreases chars@.len() - k, if full { 0int } else { 1int },
    {
        let u: u32 = chars[k] as u32;
        let width: usize = if u < 0x80 {
            1
        } else if u < 0x800 {
            2
        } else if u < 0x10000 {
            3
        } else {
            4
        };
        proof {
            lemma_utf8_len_prefix(chars@, k as int);
        }
        if width > limit - bytes {
            full = true;
        } else {
            bytes = bytes + width;
            k = k + 1;
        }
    }
    proof {
        if k < chars@.len() {
            lemma_utf8_len_prefix(chars@, k as int);
        }
        lemma_bounded_prefix_is_take(chars@, limit as nat, k as int);
    }
    crate::text::string_from_range(chars.as_slice(), 0, k)
}

/// An error message cut to at most 512 UTF-8 bytes on a character boundary.
pub fn bounded_error(value: &str) -> (bounded: String)
    ensures
        bounded@ == bounded_prefix(value@, MAX_SUBSYSTEM_ERROR_BYTES as nat),
        utf8_len(bounded@) <= MAX_SUBSYSTEM_ERROR_BYTES,
{
    bounded_to_bytes(value, MAX_SUBSYSTEM_ERROR_BYTES)
}

impl ProxySubsystemStatus {
    /// A status in `phase`, entered at `now_secs`.
    pub fn new_at(phase: ProxySubsystemPhase, now_secs: u64) -> (status: ProxySubsystemStatus)
        ensures
            status.phase == phase,
            status.last_transition_unix_secs == now_secs,
            status.last_success_unix_secs is None,
            status.last_error is None,
            status.backoff_until_unix_secs is None,
    {
        ProxySubsystemStatus {
            phase,
            last_transition_unix_secs: now_secs,
            last_success_unix_secs: None,
            last_error: None,
            backoff_until_unix_secs: None,
        }
    }

    /// A disabled subsystem, as of now.
    pub fn disabled() -> (status: ProxySubsystemStatus)
        ensures
            status.phase == ProxySubsystemPhase::Disabled,
            status.last_success_unix_secs is None,
            status.last_error is None,
            status.backoff_until_unix_secs is None,
    {
        Self::new_at(ProxySubsystemPhase::Disabled, crate::clock::unix_now_secs())
    }

    /// A starting subsystem, as of now.
    pub fn starting() -> (status: ProxySubsystemStatus)
        ensures
            status.phase == ProxySubsystemPhase::Starting,
            status.last_success_unix_secs is None,
            status.last_error is None,
            status.backoff_until_unix_secs is None,
    {
        Self::new_at(ProxySubsystemPhase::Starting, crate::clock::unix_now_secs())
    }

    /// Moves to `phase` at `now_secs` with an optional error (kept bounded);
    /// any phase but `Degraded` clears the backoff deadline.
    pub fn transition_at(&mut self, phase: ProxySubsystemPhase, error: Option<String>, now_secs: u64)
        ensures
            final(self).phase == phase,
            final(self).last_transition_unix_secs == now_secs,
            final(self).last_success_unix_secs == old(self).last_success_unix_secs,
            match error {
                Some(e) => final(self).last_error matches Some(k) && k@ == bounded_prefix(e@, MAX_SUBSYSTEM_ERROR_BYTES as nat),
                None => final(self).last_error is None,
            },
            final(self).backoff_until_unix_secs == (if phase == ProxySubsystemPhase::Degraded {
                old(self).backoff_until_unix_secs
            } else {
                None
            }),
    {
        self.phase = phase;
        self.last_transition_unix_secs = now_secs;
        self.last_error = match &error {
            Some(value) => Some(bounded_error(value.as_str())),
            None => None,
        };
        if phase != ProxySubsystemPhase::Degraded {
            self.backoff_until_unix_secs = None;
        }
    }

    /// Moves to `phase` now.
    pub fn transition(&mut self, phase: ProxySubsystemPhase, error: Option<String>)
        ensures
            final(self).phase == phase,
            final(self).last_success_unix_secs == old(self).last_success_unix_secs,
            match error {
                Some(e) => final(self).last_error matches Some(k) && k@ == bounded_prefix(e@, MAX_SUBSYSTEM_ERROR_BYTES as nat),
                None => final(self).last_error is None,
            },
            final(self).backoff_until_unix_secs == (if phase == ProxySubsystemPhase::Degraded {
                old(self).backoff_until_unix_secs
            } else {
                None
            }),
    {
        self.transition_at(phase, error, crate::clock::unix_now_secs());
    }

    /// Marks the subsystem ready at `now_secs`: error and backoff cleared,
    /// success stamped.
    pub fn mark_ready_at(&mut self, now_secs: u64)
        ensures
            final(self).phase == ProxySubsystemPhase::Ready,
            final(self).last_transition_unix_secs == now_secs,
            final(self).last_success_unix_secs == Some(now_secs),
            final(self).last_error is None,
            final(self).backoff_until_unix_secs is None,
    {
        self.phase = ProxySubsystemPhase::Ready;
        self.last_transition_unix_secs = now_secs;
        self.last_success_unix_secs = Some(now_secs);
        self.last_error = None;
        self.backoff_until_unix_secs = None;
    }

    /// Marks the subsystem ready now.
    pub fn mark_ready(&mut self)
        ensures
            final(self).phase == ProxySubsystemPhase::Ready,
            final(self).last_success_unix_secs == Some(final(self).last_transition_unix_secs),
            final(self).last_error is None,
            final(self).backoff_until_unix_secs is None,
    {
        self.mark_ready_at(crate::clock::unix_now_secs());
    }

    /// Marks the subsystem degraded at `now_secs` with a bounded error and
    /// the time until which recovery backs off.
    pub fn mark_degraded_at(&mut self, error: String, backoff_until: Option<u64>, now_secs: u64)
        ensures
            final(self).phase == ProxySubsystemPhase::Degraded,
            final(self).last_transition_unix_secs == now_secs,
            final(self).last_success_unix_secs == old(self).last_success_unix_secs,
            final(self).last_error matches Some(k) && k@ == bounded_prefix(error@, MAX_SUBSYSTEM_ERROR_BYTES as nat),
            final(self).backoff_until_unix_secs == backoff_until,
    {
        self.phase = ProxySubsystemPhase::Degraded;
        self.last_transition_unix_secs = now_secs;
        self.last_error = Some(bounded_error(error.as_str()));
        self.backoff_until_unix_secs = backoff_until;
    }

    /// Marks the subsystem degraded now.
    pub fn mark_degraded(&mut self, error: String, backoff_until: Option<u64>)
        ensures
            final(self).phase == ProxySubsystemPhase::Degraded,
            final(self).last_success_unix_secs == old(self).last_success_unix_secs,
            final(self).last_error matches Some(k) && k@ == bounded_prefix(error@, MAX_SUBSYSTEM_ERROR_BYTES as nat),
            final(self).backoff_until_unix_secs == backoff_until,
    {
        self.mark_degraded_at(error, backoff_until, crate::clock::unix_now_secs());
    }

    /// The subsystem is ready exactly in the `Ready` phase.
    pub fn is_ready(&self) -> (ready: bool)
        ensures
            ready == (self.phase == ProxySubsystemPhase::Ready),
    {
        self.phase == ProxySubsystemPhase::Ready
    }

    /// A copy of the status for reporting.
    pub fn snapshot(&self) -> (snap: ProxySubsystemSnapshot)
        ensures
            snap.phase == self.phase,
            snap.ready == (self.phase == ProxySubsystemPhase::Ready),
            snap.last_transition_unix_secs == self.last_transition_unix_secs,
            snap.last_success_unix_secs == self.last_success_unix_secs,
            snap.last_error == self.last_error,
            snap.backoff_until_unix_secs == self.backoff_until_unix_secs,
    {
        ProxySubsystemSnapshot {
            phase: self.phase,
            ready: self.is_ready(),
            last_transition_unix_secs: self.last_transition_unix_secs,
            last_success_unix_secs: self.last_success_unix_secs,
            last_error: crate::proxy_pool::types::clone_opt_string(&self.last_error),
            backoff_until_unix_secs: self.backoff_until_unix_secs,
        }
    }
}

} // verus!
