//! Construction and classification of probe results.
//!
//! The sockets and subprocesses themselves live outside this crate; they
//! hand in a plain description of what happened (an outcome, the elapsed
//! wall-clock milliseconds and the start timestamp), and the functions here
//! build the uniform result record from it: success flag, latency, and the
//! failure tag exactly as the error taxonomy prescribes.

use vstd::prelude::*;
use vstd::string::StrSliceExecFns;
use vstd::string::StringExecFns;
use crate::ping_parse::parse_ping_latency;
use crate::ping_parse::ping_latency;
use crate::types::ProbeResult;
use crate::types::result_wf;

verus! {

/// The two probe strategies.
#[derive(Clone, Copy, PartialEq, Eq, Structural, Debug)]
pub enum ProbeKind {
    Tcp,
    Ping,
}

/// The strategy a `probe_type` string selects: `"ping"` picks the ICMP
/// probe, anything else the TCP probe.
pub open spec fn kind_of(probe_type: Seq<char>) -> ProbeKind {
    if probe_type == "ping"@ {
        ProbeKind::Ping
    } else {
        ProbeKind::Tcp
    }
}

/// Select the probe strategy for a target's `probe_type` string.
pub fn probe_kind(probe_type: &String) -> (k: ProbeKind)
    ensures
        k == kind_of(probe_type@),
{
    if *probe_type == "ping".to_owned() {
        ProbeKind::Ping
    } else {
        ProbeKind::Tcp
    }
}

/// Select the probe strategy for the on-demand entry point, whose
/// `probe_type` is optional and defaults to TCP.
pub fn select_probe_kind(probe_type: &Option<String>) -> (k: ProbeKind)
    ensures
        k == (match probe_type {
            Some(s) => kind_of(s@),
            None => ProbeKind::Tcp,
        }),
{
    match probe_type {
        Some(s) => probe_kind(s),
        None => ProbeKind::Tcp,
    }
}

/// How one TCP connect attempt ended, as the code around the socket
/// reports it.
pub enum TcpOutcome {
    /// The connection was established within the timeout.
    Connected,
    /// Address resolution succeeded but returned no address.
    DnsEmpty,
    /// Address resolution itself failed; the cause text is attached.
    DnsError(String),
    /// The connect attempt failed (refused, timed out, unreachable); the
    /// operating system's error text is attached.
    ConnectError(String),
}

/// Build the result record of one TCP probe from its outcome. The probe
/// succeeds exactly when the connection was established; every failure
/// carries its tag from the error taxonomy: `dns_failed` for an empty
/// resolution, `dns_error: <cause>` for a failed one, and the OS error text
/// for a failed connect. The latency is always the elapsed wall-clock time.
pub fn tcp_result(outcome: TcpOutcome, elapsed_ms: u64, timestamp: u64) -> (r: ProbeResult)
    ensures
        r.id@ == Seq::<char>::empty(),
        r.timestamp == timestamp,
        r.latency_ms == elapsed_ms,
        r.ok == (outcome is Connected),
        result_wf(r),
        outcome is Connected ==> r.error is None,
        outcome is DnsEmpty ==> (r.error matches Some(e) && e@ == "dns_failed"@),
        outcome matches TcpOutcome::DnsError(cause) ==> (r.error matches Some(e) && e@
            == "dns_error: "@ + cause@),
        outcome matches TcpOutcome::ConnectError(cause) ==> (r.error matches Some(e) && e@
            == cause@),
{
    match outcome {
        TcpOutcome::Connected => ProbeResult {
            id: String::new(),
            ok: true,
            latency_ms: elapsed_ms,
            error: None,
            timestamp,
        },
        TcpOutcome::DnsEmpty => ProbeResult {
            id: String::new(),
            ok: false,
            latency_ms: elapsed_ms,
            error: Some("dns_failed".to_owned()),
            timestamp,
        },
        TcpOutcome::DnsError(cause) => ProbeResult {
            id: String::new(),
            ok: false,
            latency_ms: elapsed_ms,
            error: Some("dns_error: ".to_owned().concat(cause.as_str())),
            timestamp,
        },
        TcpOutcome::ConnectError(cause) => ProbeResult {
            id: String::new(),
            ok: false,
            latency_ms: elapsed_ms,
            error: Some(cause),
            timestamp,
        },
    }
}

/// An ASCII whitespace character, the kind trimmed from ping's stderr.
pub open spec fn is_space(c: char) -> bool {
    c == ' ' || c == '\t' || c == '\n' || c == '\r' || c as u32 == 11 || c as u32 == 12
}

/// First index at or after `j` holding no whitespace.
pub open spec fn trim_start_idx(s: Seq<char>, j: int) -> int
    decreases s.len() - j,
{
    if 0 <= j && j < s.len() && is_space(s[j]) {
        trim_start_idx(s, j + 1)
    } else {
        j
    }
}

/// One past the last non-whitespace index strictly before `j`.
pub open spec fn trim_end_idx(s: Seq<char>, j: int) -> int
    decreases j,
{
    if 0 < j && j <= s.len() && is_space(s[j - 1]) {
        trim_end_idx(s, j - 1)
    } else {
        j
    }
}

/// `s` with leading and trailing ASCII whitespace removed.
pub open spec fn trimmed(s: Seq<char>) -> Seq<char> {
    let a = trim_start_idx(s, 0);
    let b = trim_end_idx(s, s.len() as int);
    if 0 <= a && a <= b && b <= s.len() {
        s.subrange(a, b)
    } else {
        Seq::empty()
    }
}

fn is_space_exec(c: char) -> (b: bool)
    ensures
        b == is_space(c),
{
    let u = c as u32;
    c == ' ' || c == '\t' || c == '\n' || c == '\r' || u == 11 || u == 12
}

/// Remove leading and trailing ASCII whitespace.
pub fn trim(s: &str) -> (res: String)
    ensures
        res@ == trimmed(s@),
{
    let n = s.unicode_len();
    let mut a: usize = 0;
    while a < n && is_space_exec(s.get_char(a))
        invariant
            n == s@.len(),
            0 <= a <= n,
            trim_start_idx(s@, 0) == trim_start_idx(s@, a as int),
        decreases n - a,
    {
        a = a + 1;
    }
    proof {
        assert(trim_start_idx(s@, a as int) == a as int);
    }
    let mut b: usize = n;
    while b > a && is_space_exec(s.get_char(b - 1))
        invariant
            n == s@.len(),
            a <= b <= n,
            trim_start_idx(s@, 0) == a as int,
            trim_end_idx(s@, n as int) == trim_end_idx(s@, b as int),
        decreases b,
    {
        b = b - 1;
    }
    proof {
        if b > a {
            assert(trim_end_idx(s@, b as int) == b as int);
        } else {
            lemma_trim_start_prefix(s@, 0, a as int);
            lemma_trim_end_in_spaces(s@, b as int);
        }
    }
    s.substring_char(a, b).to_owned()
}

/// When every character before `j` is whitespace, the backward whitespace
/// scan from `j` runs all the way to the start.
proof fn lemma_trim_end_in_spaces(s: Seq<char>, j: int)
    requires
        0 <= j <= s.len(),
        forall|m: int| 0 <= m < j ==> is_space(s[m]),
    ensures
        trim_end_idx(s, j) == 0,
    decreases j,
{
    if 0 < j {
        lemma_trim_end_in_spaces(s, j - 1);
    }
}

/// Every character before the first non-whitespace index is whitespace.
proof fn lemma_trim_start_prefix(s: Seq<char>, j: int, a: int)
    requires
        0 <= j <= s.len(),
        trim_start_idx(s, j) == a,
    ensures
        forall|m: int| j <= m < a ==> is_space(s[m]),
    decreases s.len() - j,
{
    if 0 <= j && j < s.len() && is_space(s[j]) {
        lemma_trim_start_prefix(s, j + 1, a);
    }
}

/// How one run of the ping utility ended, as the code around the
/// subprocess reports it.
pub enum PingOutcome {
    /// The utility ran to completion; its exit status and captured output
    /// streams are attached.
    Exited { success: bool, stdout: String, stderr: String },
    /// The utility could not be launched (missing binary, permission
    /// denied); the cause text is attached.
    LaunchFailed(String),
}

/// Build the result record of one ICMP ping probe from its outcome. On a
/// successful exit the latency is the value parsed from the utility's
/// output, or the elapsed wall-clock time when no `time=`/`time<` token is
/// found. On a failing exit the error is `ping_failed: ` with the trimmed
/// stderr text; when the utility could not be launched it is
/// `ping_unavailable: ` with the cause. Failure latency is the elapsed
/// wall-clock time.
pub fn ping_result(outcome: PingOutcome, elapsed_ms: u64, timestamp: u64) -> (r: ProbeResult)
    ensures
        r.id@ == Seq::<char>::empty(),
        r.timestamp == timestamp,
        result_wf(r),
        r.ok == (outcome matches PingOutcome::Exited { success: true, .. }),
        outcome matches PingOutcome::Exited { success: true, stdout, .. } ==> r.latency_ms == (
        match ping_latency(stdout@) {
            Some(v) => v,
            None => elapsed_ms,
        }),
        outcome matches PingOutcome::Exited { success: false, stderr, .. } ==> r.latency_ms
            == elapsed_ms && (r.error matches Some(e) && e@ == "ping_failed: "@ + trimmed(
            stderr@,
        )),
        outcome matches PingOutcome::LaunchFailed(cause) ==> r.latency_ms == elapsed_ms && (
        r.error matches Some(e) && e@ == "ping_unavailable: "@ + cause@),
{
    match outcome {
        PingOutcome::Exited { success, stdout, stderr } => {
            if success {
                let latency = match parse_ping_latency(stdout.as_str()) {
                    Some(v) => v,
                    None => elapsed_ms,
                };
                ProbeResult {
                    id: String::new(),
                    ok: true,
                    latency_ms: latency,
                    error: None,
                    timestamp,
                }
            } else {
                let msg = "ping_failed: ".to_owned().concat(trim(stderr.as_str()).as_str());
                ProbeResult {
                    id: String::new(),
                    ok: false,
                    latency_ms: elapsed_ms,
                    error: Some(msg),
                    timestamp,
                }
            }
        },
        PingOutcome::LaunchFailed(cause) => ProbeResult {
            id: String::new(),
            ok: false,
            latency_ms: elapsed_ms,
            error: Some("ping_unavailable: ".to_owned().concat(cause.as_str())),
            timestamp,
        },
    }
}

/// The result record for a probe whose concurrent execution unit itself
/// failed to run to completion: an infrastructure fault, reported like any
/// other failure, never an abort of the batch.
pub fn task_failed_result() -> (r: ProbeResult)
    ensures
        r.id@ == Seq::<char>::empty(),
        !r.ok,
        r.latency_ms == 0,
        r.timestamp == 0,
        result_wf(r),
        r.error matches Some(e) && e@ == "task_failed"@,
{
    ProbeResult {
        id: String::new(),
        ok: false,
        latency_ms: 0,
        error: Some("task_failed".to_owned()),
        timestamp: 0,
    }
}

} // verus!
