//! Fixed-layout binary records carried from the kernel probe to userspace.
use vstd::prelude::*;
use vstd::utf8::{decode_utf8, valid_utf8};

verus! {

/// Length of the command-name field.
pub const COMM_LEN: usize = 16;

/// Length of the executable-path field.
pub const FILENAME_LEN: usize = 256;

/// Size in bytes of an encoded exec record.
pub const EXEC_RECORD_LEN: usize = 304;

/// Size in bytes of an encoded exit record.
pub const EXIT_RECORD_LEN: usize = 48;

/// Size of the event ring buffer (256 KiB).
pub const RING_BUF_SIZE: u32 = 262144;

/// Maximum number of watched pids.
pub const MAX_TRACKED_PIDS: u32 = 65536;

/// Maximum number of watched uids.
pub const MAX_TRACKED_UIDS: u32 = 256;

/// Record discriminator: the first byte of every record.
#[derive(Clone, Copy, Debug, PartialEq, Eq, Structural)]
pub enum EventType {
    Exec,
    Exit,
}

impl EventType {
    pub open spec fn spec_tag(self) -> u8 {
        match self {
            EventType::Exec => 1,
            EventType::Exit => 2,
        }
    }

    /// The tag byte that introduces a record of this kind.
    pub fn tag(self) -> (r: u8)
        ensures
            r == self.spec_tag(),
    {
        match self {
            EventType::Exec => 1,
            EventType::Exit => 2,
        }
    }

    /// The kind a tag byte announces, if any.
    pub fn from_tag(tag: u8) -> (r: Option<EventType>)
        ensures
            tag == 1 <==> r == Some(EventType::Exec),
            tag == 2 <==> r == Some(EventType::Exit),
            r is None <==> (tag != 1 && tag != 2),
    {
        if tag == 1 {
            Some(EventType::Exec)
        } else if tag == 2 {
            Some(EventType::Exit)
        } else {
            None
        }
    }
}

/// Sent when a process has replaced its image.
#[derive(Clone, Copy)]
pub struct ProcessExecEvent {
    pub event_type: u8,
    pub pad: [u8; 3],
    pub pid: u32,
    pub tgid: u32,
    pub ppid: u32,
    pub uid: u32,
    pub timestamp_ns: u64,
    pub comm: [u8; COMM_LEN],
    pub filename: [u8; FILENAME_LEN],
}

/// Sent just before a task is reaped.
#[derive(Clone, Copy)]
pub struct ProcessExitEvent {
    pub event_type: u8,
    pub pad: [u8; 3],
    pub pid: u32,
    pub tgid: u32,
    pub uid: u32,
    pub exit_code: i32,
    pub timestamp_ns: u64,
    pub comm: [u8; COMM_LEN],
}

/// Filter settings shared with the probe.
#[derive(Clone, Copy)]
pub struct FilterConfig {
    pub min_uid: u32,
    pub use_uid_whitelist: u8,
    pub pad: [u8; 3],
}

impl Default for FilterConfig {
    fn default() -> (r: Self)
        ensures
            r.min_uid == 1000,
            r.use_uid_whitelist == 0,
            r.pad@ == seq![0u8, 0u8, 0u8],
    {
        FilterConfig { min_uid: 1000, use_uid_whitelist: 0, pad: [0u8, 0u8, 0u8] }
    }
}

/// Little-endian value of the four bytes at `off`.
pub open spec fn le_u32(b: Seq<u8>, off: int) -> int {
    b[off] + b[off + 1] * 256 + b[off + 2] * 65536 + b[off + 3] * 16777216
}

/// Little-endian value of the eight bytes at `off`.
pub open spec fn le_u64(b: Seq<u8>, off: int) -> int {
    le_u32(b, off) + le_u32(b, off + 4) * 4294967296
}

/// Two's-complement reading of a 32-bit unsigned value.
pub open spec fn as_i32(v: int) -> int {
    if v < 2147483648 {
        v
    } else {
        v - 4294967296
    }
}

/// Length of the NUL-terminated prefix of a fixed-size string field.
pub open spec fn c_len(b: Seq<u8>) -> int
    decreases b.len(),
{
    if b.len() == 0 {
        0
    } else if b[0] == 0 {
        0
    } else {
        1 + c_len(b.drop_first())
    }
}

/// Text of a fixed-size string field: its NUL-terminated prefix when that is
/// valid UTF-8, else the marker `<invalid>`.
pub open spec fn field_text(b: Seq<u8>) -> Seq<char> {
    let p = b.subrange(0, c_len(b));
    if valid_utf8(p) {
        decode_utf8(p)
    } else {
        invalid_marker()
    }
}

pub open spec fn invalid_marker() -> Seq<char> {
    seq!['<', 'i', 'n', 'v', 'a', 'l', 'i', 'd', '>']
}

/// What a record decoded from `b` holds: each field read at its fixed offset.
pub open spec fn decodes_exec(b: Seq<u8>, e: ProcessExecEvent) -> bool {
    &&& e.event_type == b[0]
    &&& e.pad@ == b.subrange(1, 4)
    &&& e.pid == le_u32(b, 4)
    &&& e.tgid == le_u32(b, 8)
    &&& e.ppid == le_u32(b, 12)
    &&& e.uid == le_u32(b, 16)
    &&& e.timestamp_ns == le_u64(b, 24)
    &&& e.comm@ == b.subrange(32, 48)
    &&& e.filename@ == b.subrange(48, 304)
}

/// What an exit record decoded from `b` holds.
pub open spec fn decodes_exit(b: Seq<u8>, e: ProcessExitEvent) -> bool {
    &&& e.event_type == b[0]
    &&& e.pad@ == b.subrange(1, 4)
    &&& e.pid == le_u32(b, 4)
    &&& e.tgid == le_u32(b, 8)
    &&& e.uid == le_u32(b, 12)
    &&& e.exit_code == as_i32(le_u32(b, 16))
    &&& e.timestamp_ns == le_u64(b, 24)
    &&& e.comm@ == b.subrange(32, 48)
}

fn read_u32(b: &[u8], off: usize) -> (r: u32)
    requires
        off + 4 <= b@.len(),
    ensures
        r == le_u32(b@, off as int),
{
    b[off] as u32 + (b[off + 1] as u32) * 256 + (b[off + 2] as u32) * 65536 + (b[off + 3] as u32)
        * 16777216
}

fn read_u64(b: &[u8], off: usize) -> (r: u64)
    requires
        off + 8 <= b@.len(),
    ensures
        r == le_u64(b@, off as int),
{
    let _n = b.len();
    let lo = read_u32(b, off);
    let hi = read_u32(b, off + 4);
    lo as u64 + (hi as u64) * 4294967296
}

fn read_i32(b: &[u8], off: usize) -> (r: i32)
    requires
        off + 4 <= b@.len(),
    ensures
        r == as_i32(le_u32(b@, off as int)),
{
    let v = read_u32(b, off);
    if v < 2147483648 {
        v as i32
    } else {
        (v as i64 - 4294967296) as i32
    }
}

fn read_comm(b: &[u8], off: usize) -> (r: [u8; COMM_LEN])
    requires
        off + 16 <= b@.len(),
    ensures
        r@ == b@.subrange(off as int, off + 16),
{
    let n = b.len();
    let mut r = [0u8; COMM_LEN];
    let mut i: usize = 0;
    while i < COMM_LEN
        invariant
            off + 16 <= b@.len(),
            n == b@.len(),
            i <= 16,
            r@.len() == 16,
            forall|k: int| 0 <= k < i ==> r@[k] == b@[off + k],
        decreases 16 - i,
    {
        r[i] = b[off + i];
        i = i + 1;
    }
    assert(r@ =~= b@.subrange(off as int, off + 16));
    r
}

fn read_filename(b: &[u8], off: usize) -> (r: [u8; FILENAME_LEN])
    requires
        off + 256 <= b@.len(),
    ensures
        r@ == b@.subrange(off as int, off + 256),
{
    let n = b.len();
    let mut r = [0u8; FILENAME_LEN];
    let mut i: usize = 0;
    while i < FILENAME_LEN
        invariant
            off + 256 <= b@.len(),
            n == b@.len(),
            i <= 256,
            r@.len() == 256,
            forall|k: int| 0 <= k < i ==> r@[k] == b@[off + k],
        decreases 256 - i,
    {
        r[i] = b[off + i];
        i = i + 1;
    }
    assert(r@ =~= b@.subrange(off as int, off + 256));
    r
}

/// Relies on `core::str::from_utf8`: it succeeds exactly on valid UTF-8 and
/// then views the same bytes as text.
#[verifier::external_body]
fn utf8_text(b: &[u8]) -> (r: Option<&str>)
    ensures
        r is Some <==> valid_utf8(b@),
        r matches Some(s) ==> s@ == decode_utf8(b@),
{
    core::str::from_utf8(b).ok()
}

/// Index of the first NUL byte, or the field length when there is none.
fn nul_position(b: &[u8]) -> (r: usize)
    ensures
        r == c_len(b@),
{
    let n = b.len();
    let mut i: usize = 0;
    assert(b@.subrange(0, n as int) =~= b@);
    while i < n
        invariant
            n == b@.len(),
            i <= n,
            forall|k: int| 0 <= k < i ==> b@[k] != 0,
            c_len(b@) == i + c_len(b@.subrange(i as int, n as int)),
        decreases n - i,
    {
        let ghost rest = b@.subrange(i as int, n as int);
        assert(rest.drop_first() =~= b@.subrange(i + 1, n as int));
        if b[i] == 0 {
            return i;
        }
        i = i + 1;
    }
    i
}

/// Text of a NUL-padded field.
fn field_str(b: &[u8]) -> (r: &str)
    ensures
        r@ == field_text(b@),
{
    let len = nul_position(b);
    proof {
        lemma_c_len_bound(b@);
    }
    let prefix = vstd::slice::slice_subrange(b, 0, len);
    assert(prefix@ =~= b@.subrange(0, c_len(b@)));
    match utf8_text(prefix) {
        Some(s) => s,
        None => {
            proof {
                reveal_strlit("<invalid>");
            }
            assert("<invalid>"@ =~= invalid_marker());
            "<invalid>"
        },
    }
}

proof fn lemma_c_len_bound(b: Seq<u8>)
    ensures
        0 <= c_len(b) <= b.len(),
    decreases b.len(),
{
    if b.len() > 0 && b[0] != 0 {
        lemma_c_len_bound(b.drop_first());
    }
}

impl ProcessExecEvent {
    /// The command name, up to its first NUL.
    pub fn comm_str(&self) -> (r: &str)
        ensures
            r@ == field_text(self.comm@),
    {
        field_str(self.comm.as_slice())
    }

    /// The executable path, up to its first NUL.
    pub fn filename_str(&self) -> (r: &str)
        ensures
            r@ == field_text(self.filename@),
    {
        field_str(self.filename.as_slice())
    }

    /// Decodes an exec record from the start of `data`; `None` when it is too short.
    pub fn from_bytes(data: &[u8]) -> (r: Option<ProcessExecEvent>)
        ensures
            r is Some <==> data@.len() >= EXEC_RECORD_LEN,
            r matches Some(e) ==> decodes_exec(data@, e),
    {
        if data.len() < EXEC_RECORD_LEN {
            return None;
        }
        let pad = [data[1], data[2], data[3]];
        assert(pad@ =~= data@.subrange(1, 4));
        Some(
            ProcessExecEvent {
                event_type: data[0],
                pad,
                pid: read_u32(data, 4),
                tgid: read_u32(data, 8),
                ppid: read_u32(data, 12),
                uid: read_u32(data, 16),
                timestamp_ns: read_u64(data, 24),
                comm: read_comm(data, 32),
                filename: read_filename(data, 48),
            },
        )
    }
}

impl ProcessExitEvent {
    /// The command name, up to its first NUL.
    pub fn comm_str(&self) -> (r: &str)
        ensures
            r@ == field_text(self.comm@),
    {
        field_str(self.comm.as_slice())
    }

    /// Decodes an exit record from the start of `data`; `None` when it is too short.
    pub fn from_bytes(data: &[u8]) -> (r: Option<ProcessExitEvent>)
        ensures
            r is Some <==> data@.len() >= EXIT_RECORD_LEN,
            r matches Some(e) ==> decodes_exit(data@, e),
    {
        if data.len() < EXIT_RECORD_LEN {
            return None;
        }
        let pad = [data[1], data[2], data[3]];
        assert(pad@ =~= data@.subrange(1, 4));
        Some(
            ProcessExitEvent {
                event_type: data[0],
                pad,
                pid: read_u32(data, 4),
                tgid: read_u32(data, 8),
                uid: read_u32(data, 12),
                exit_code: read_i32(data, 16),
                timestamp_ns: read_u64(data, 24),
                comm: read_comm(data, 32),
            },
        )
    }
}

} // verus!
