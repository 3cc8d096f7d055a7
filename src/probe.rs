//! What the in-kernel probe writes into the ring for each exec and exit.
//!
//! The probe itself runs in a restricted environment; this module holds its
//! decisions and its byte layout, from the values the kernel helpers return.
use vstd::prelude::*;
use crate::record::{
    as_i32, decodes_exec, decodes_exit, le_u32, le_u64, ProcessExecEvent, ProcessExitEvent,
    COMM_LEN,
};

verus! {

/// Processes of users below this uid are not reported.
pub const MIN_UID: u32 = 1000;

/// Little-endian bytes of a 32-bit value.
pub open spec fn le32_bytes(v: u32) -> Seq<u8> {
    seq![(v % 256) as u8, ((v / 256) % 256) as u8, ((v / 65536) % 256) as u8, (v / 16777216) as u8]
}

/// Little-endian bytes of a 64-bit value.
pub open spec fn le64_bytes(v: u64) -> Seq<u8> {
    le32_bytes((v % 4294967296) as u32) + le32_bytes((v / 4294967296) as u32)
}

pub open spec fn zeros(n: nat) -> Seq<u8> {
    Seq::new(n, |i: int| 0u8)
}

/// The exec record for the given fields; the parent pid and path stay zero.
pub open spec fn exec_record(pid: u32, tgid: u32, uid: u32, ts: u64, comm: Seq<u8>) -> Seq<u8> {
    seq![1u8, 0u8, 0u8, 0u8] + le32_bytes(pid) + le32_bytes(tgid) + le32_bytes(0) + le32_bytes(uid)
        + zeros(4) + le64_bytes(ts) + comm + zeros(256)
}

/// The exit record for the given fields.
pub open spec fn exit_record(
    pid: u32,
    tgid: u32,
    uid: u32,
    exit_code: i32,
    ts: u64,
    comm: Seq<u8>,
) -> Seq<u8> {
    seq![2u8, 0u8, 0u8, 0u8] + le32_bytes(pid) + le32_bytes(tgid) + le32_bytes(uid) + le32_bytes(
        i32_bits(exit_code),
    ) + zeros(4) + le64_bytes(ts) + comm
}

/// Two's-complement bits of a signed 32-bit value.
pub open spec fn i32_bits(x: i32) -> u32 {
    if x < 0 {
        (x + 4294967296) as u32
    } else {
        x as u32
    }
}

/// The uid half of the combined uid/gid word.
pub open spec fn uid_of(uid_gid: u64) -> u32 {
    (uid_gid % 4294967296) as u32
}

/// The thread id half of the combined pid/tgid word.
pub open spec fn pid_of(pid_tgid: u64) -> u32 {
    (pid_tgid % 4294967296) as u32
}

/// The thread-group half of the combined pid/tgid word.
pub open spec fn tgid_of(pid_tgid: u64) -> u32 {
    (pid_tgid / 4294967296) as u32
}

pub open spec fn comm_bytes(comm: Option<[u8; COMM_LEN]>) -> Seq<u8> {
    match comm {
        Some(c) => c@,
        None => zeros(16),
    }
}

fn push_u32(out: &mut Vec<u8>, v: u32)
    ensures
        final(out)@ == old(out)@ + le32_bytes(v),
{
    out.push((v % 256) as u8);
    out.push(((v / 256) % 256) as u8);
    out.push(((v / 65536) % 256) as u8);
    out.push((v / 16777216) as u8);
    assert(out@ =~= old(out)@ + le32_bytes(v));
}

fn push_u64(out: &mut Vec<u8>, v: u64)
    ensures
        final(out)@ == old(out)@ + le64_bytes(v),
{
    push_u32(out, (v % 4294967296) as u32);
    push_u32(out, (v / 4294967296) as u32);
    assert(out@ =~= old(out)@ + le64_bytes(v));
}

fn push_zeros(out: &mut Vec<u8>, n: usize)
    ensures
        final(out)@ == old(out)@ + zeros(n as nat),
{
    let ghost start = out@;
    let mut i: usize = 0;
    while i < n
        invariant
            i <= n,
            out@ =~= start + zeros(i as nat),
        decreases n - i,
    {
        out.push(0u8);
        i = i + 1;
        assert(out@ =~= start + zeros(i as nat));
    }
}

fn push_comm(out: &mut Vec<u8>, comm: &Option<[u8; COMM_LEN]>)
    ensures
        final(out)@ == old(out)@ + comm_bytes(*comm),
{
    match comm {
        Some(c) => {
            let ghost start = out@;
            let mut i: usize = 0;
            while i < COMM_LEN
                invariant
                    i <= 16,
                    c@.len() == 16,
                    out@ =~= start + c@.subrange(0, i as int),
                decreases 16 - i,
            {
                out.push(c[i]);
                i = i + 1;
                assert(out@ =~= start + c@.subrange(0, i as int));
            }
            assert(c@.subrange(0, 16) =~= c@);
        },
        None => push_zeros(out, COMM_LEN),
    }
}

/// The exec record the probe submits for the current task, or `None` when
/// the task belongs to a system user (uid below `MIN_UID`).
/// `comm` is the task's command name, `None` when it could not be read.
pub fn exec_record_bytes(
    uid_gid: u64,
    pid_tgid: u64,
    timestamp_ns: u64,
    comm: Option<[u8; COMM_LEN]>,
) -> (r: Option<Vec<u8>>)
    ensures
        r is None <==> uid_of(uid_gid) < MIN_UID,
        r matches Some(v) ==> v@ == exec_record(
            pid_of(pid_tgid),
            tgid_of(pid_tgid),
            uid_of(uid_gid),
            timestamp_ns,
            comm_bytes(comm),
        ),
{
    let uid = (uid_gid % 4294967296) as u32;
    if uid < MIN_UID {
        return None;
    }
    let tgid = (pid_tgid / 4294967296) as u32;
    let pid = (pid_tgid % 4294967296) as u32;
    let mut out: Vec<u8> = Vec::new();
    out.push(1u8);
    out.push(0u8);
    out.push(0u8);
    out.push(0u8);
    push_u32(&mut out, pid);
    push_u32(&mut out, tgid);
    push_u32(&mut out, 0);
    push_u32(&mut out, uid);
    push_zeros(&mut out, 4);
    push_u64(&mut out, timestamp_ns);
    push_comm(&mut out, &comm);
    push_zeros(&mut out, 256);
    assert(out@ =~= exec_record(pid, tgid, uid, timestamp_ns, comm_bytes(comm)));
    Some(out)
}

/// The exit record the probe submits for the current task, or `None` when
/// the task belongs to a system user.
pub fn exit_record_bytes(
    uid_gid: u64,
    pid_tgid: u64,
    exit_code: i32,
    timestamp_ns: u64,
    comm: Option<[u8; COMM_LEN]>,
) -> (r: Option<Vec<u8>>)
    ensures
        r is None <==> uid_of(uid_gid) < MIN_UID,
        r matches Some(v) ==> v@ == exit_record(
            pid_of(pid_tgid),
            tgid_of(pid_tgid),
            uid_of(uid_gid),
            exit_code,
            timestamp_ns,
            comm_bytes(comm),
        ),
{
    let uid = (uid_gid % 4294967296) as u32;
    if uid < MIN_UID {
        return None;
    }
    let tgid = (pid_tgid / 4294967296) as u32;
    let pid = (pid_tgid % 4294967296) as u32;
    let mut out: Vec<u8> = Vec::new();
    out.push(2u8);
    out.push(0u8);
    out.push(0u8);
    out.push(0u8);
    push_u32(&mut out, pid);
    push_u32(&mut out, tgid);
    push_u32(&mut out, uid);
    let bits: u32 = if exit_code < 0 {
        (exit_code as i64 + 4294967296) as u32
    } else {
        exit_code as u32
    };
    push_u32(&mut out, bits);
    push_zeros(&mut out, 4);
    push_u64(&mut out, timestamp_ns);
    push_comm(&mut out, &comm);
    assert(out@ =~= exit_record(pid, tgid, uid, exit_code, timestamp_ns, comm_bytes(comm)));
    Some(out)
}

proof fn lemma_le32(v: u32)
    ensures
        le_u32(le32_bytes(v), 0) == v,
{
    let b = le32_bytes(v);
    assert(b[0] + b[1] * 256 + b[2] * 65536 + b[3] * 16777216 == v) by (nonlinear_arith)
        requires
            b[0] == v % 256,
            b[1] == (v / 256) % 256,
            b[2] == (v / 65536) % 256,
            b[3] == v / 16777216,
            0 <= v < 4294967296,
    ;
}

proof fn lemma_le64(v: u64)
    ensures
        le_u64(le64_bytes(v), 0) == v,
{
    let lo = (v % 4294967296) as u32;
    let hi = (v / 4294967296) as u32;
    lemma_le32(lo);
    lemma_le32(hi);
    let b = le64_bytes(v);
    assert(b.subrange(0, 4) =~= le32_bytes(lo));
    assert(b.subrange(4, 8) =~= le32_bytes(hi));
    assert(le_u32(b, 0) == le_u32(le32_bytes(lo), 0));
    assert(le_u32(b, 4) == le_u32(le32_bytes(hi), 0));
    assert(lo + hi * 4294967296 == v) by (nonlinear_arith)
        requires
            lo == v % 4294967296,
            hi == v / 4294967296,
            0 <= v,
    ;
}

proof fn lemma_le32_at(b: Seq<u8>, off: int, v: u32)
    requires
        0 <= off,
        off + 4 <= b.len(),
        b.subrange(off, off + 4) == le32_bytes(v),
    ensures
        le_u32(b, off) == v,
{
    lemma_le32(v);
    let w = b.subrange(off, off + 4);
    assert(w[0] == b[off] && w[1] == b[off + 1] && w[2] == b[off + 2] && w[3] == b[off + 3]);
}

proof fn lemma_le64_at(b: Seq<u8>, off: int, v: u64)
    requires
        0 <= off,
        off + 8 <= b.len(),
        b.subrange(off, off + 8) == le64_bytes(v),
    ensures
        le_u64(b, off) == v,
{
    lemma_le64(v);
    let w = b.subrange(off, off + 8);
    assert(forall|k: int| 0 <= k < 8 ==> w[k] == b[off + k]);
}

/// A record laid out by the probe decodes back to the values it was built from.
pub proof fn lemma_exec_record_round_trip(
    pid: u32,
    tgid: u32,
    uid: u32,
    ts: u64,
    comm: Seq<u8>,
    e: ProcessExecEvent,
)
    requires
        comm.len() == 16,
        decodes_exec(exec_record(pid, tgid, uid, ts, comm), e),
    ensures
        e.event_type == 1,
        e.pid == pid,
        e.tgid == tgid,
        e.ppid == 0,
        e.uid == uid,
        e.timestamp_ns == ts,
        e.comm@ == comm,
        e.filename@ == zeros(256),
{
    let b = exec_record(pid, tgid, uid, ts, comm);
    assert(b.subrange(4, 8) =~= le32_bytes(pid));
    assert(b.subrange(8, 12) =~= le32_bytes(tgid));
    assert(b.subrange(12, 16) =~= le32_bytes(0));
    assert(b.subrange(16, 20) =~= le32_bytes(uid));
    assert(b.subrange(24, 32) =~= le64_bytes(ts));
    assert(b.subrange(32, 48) =~= comm);
    assert(b.subrange(48, 304) =~= zeros(256));
    lemma_le32_at(b, 4, pid);
    lemma_le32_at(b, 8, tgid);
    lemma_le32_at(b, 12, 0);
    lemma_le32_at(b, 16, uid);
    lemma_le64_at(b, 24, ts);
}

/// An exit record laid out by the probe decodes back to the values it was built from.
pub proof fn lemma_exit_record_round_trip(
    pid: u32,
    tgid: u32,
    uid: u32,
    exit_code: i32,
    ts: u64,
    comm: Seq<u8>,
    e: ProcessExitEvent,
)
    requires
        comm.len() == 16,
        decodes_exit(exit_record(pid, tgid, uid, exit_code, ts, comm), e),
    ensures
        e.event_type == 2,
        e.pid == pid,
        e.tgid == tgid,
        e.uid == uid,
        e.exit_code == exit_code,
        e.timestamp_ns == ts,
        e.comm@ == comm,
{
    let b = exit_record(pid, tgid, uid, exit_code, ts, comm);
    assert(b.subrange(4, 8) =~= le32_bytes(pid));
    assert(b.subrange(8, 12) =~= le32_bytes(tgid));
    assert(b.subrange(12, 16) =~= le32_bytes(uid));
    assert(b.subrange(16, 20) =~= le32_bytes(i32_bits(exit_code)));
    assert(b.subrange(24, 32) =~= le64_bytes(ts));
    assert(b.subrange(32, 48) =~= comm);
    lemma_le32_at(b, 4, pid);
    lemma_le32_at(b, 8, tgid);
    lemma_le32_at(b, 12, uid);
    lemma_le32_at(b, 16, i32_bits(exit_code));
    lemma_le64_at(b, 24, ts);
    lemma_bits_i32(exit_code);
}

proof fn lemma_bits_i32(x: i32)
    ensures
        as_i32(i32_bits(x) as int) == x,
{
}

} // verus!
