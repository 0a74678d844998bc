//! The request rules of the server: which `vCont` action applies to the
//! tracee, the thread list, the advertised features, and chunked `qXfer`
//! reads.

use crate::text::{parse_hex, parsed_hex, str_eq};
use vstd::prelude::*;

verus! {

/// Error code reported when the annex of an `exec-file` read is not a
/// hexadecimal pid.
pub const ERROR_PARSE_STRING: u8 = 255;

/// A process or thread named in a request.
#[derive(Clone, Copy, Debug, PartialEq, Eq, Structural)]
pub enum Id {
    /// This one.
    Id(u32),
    /// Every one.
    All,
    /// Any one.
    Any,
}

/// A thread named by process and thread id.
#[derive(Clone, Copy, Debug, PartialEq, Eq, Structural)]
pub struct ThreadId {
    pub pid: Id,
    pub tid: Id,
}

/// An action of a `vCont` request, with signals in GDB's numbering.
#[derive(Clone, Copy, Debug, PartialEq, Eq, Structural)]
pub enum VCont {
    Continue,
    ContinueWithSignal(u8),
    Step,
    StepWithSignal(u8),
    Stop,
    /// Step while the instruction pointer is in `[start, end)`.
    RangeStep(u64, u64),
}

/// The `vCont` actions that the server supports.
#[derive(Clone, Copy, Debug, PartialEq, Eq, Structural)]
pub enum VContFeature {
    Continue,
    ContinueWithSignal,
    Step,
    StepWithSignal,
    RangeStep,
}

/// What to do to the tracee for an applicable `vCont` action, with signals
/// in the host's numbering.
#[derive(Clone, Copy, Debug, PartialEq, Eq, Structural)]
pub enum Resume {
    /// Continue, delivering the signal if any.
    Continue(Option<u8>),
    /// Step one instruction, delivering the signal if any.
    Step(Option<u8>),
    /// Step while the instruction pointer is in `[start, end)`.
    Range(u64, u64),
}

/// A `qXfer` object that the server can read.
#[derive(Clone, Copy, Debug, PartialEq, Eq, Structural)]
pub enum XferObject {
    /// `features`, annex `target.xml`: the target description.
    TargetXml,
    /// `exec-file`, annex a hexadecimal pid: the path of its executable.
    ExecFile(usize),
}

/// Why a `qXfer` read is refused.
#[derive(Clone, Copy, Debug, PartialEq, Eq, Structural)]
pub enum XferError {
    /// The object and annex name nothing that the server offers.
    Unimplemented,
    /// The annex of `exec-file` is not a hexadecimal pid.
    BadPid,
}

/// Whether an action with thread filter `filter` applies to the tracee
/// `pid`: no filter, or one whose pid and tid are each `All`, `Any` or `pid`.
pub open spec fn applies(filter: Option<ThreadId>, pid: u32) -> bool {
    match filter {
        None => true,
        Some(t) => !(t.pid is Id && t.pid->Id_0 != pid) && !(t.tid is Id && t.tid->Id_0 != pid),
    }
}

fn filter_applies(filter: Option<ThreadId>, pid: u32) -> (r: bool)
    ensures
        r == applies(filter, pid),
{
    match filter {
        None => true,
        Some(t) => {
            let pid_ok = match t.pid {
                Id::Id(p) => p == pid,
                _ => true,
            };
            let tid_ok = match t.tid {
                Id::Id(p) => p == pid,
                _ => true,
            };
            pid_ok && tid_ok
        },
    }
}

/// The index of the first action of a `vCont` request that applies to the
/// tracee `pid`; only that one is carried out.
pub fn first_applicable(actions: &Vec<(VCont, Option<ThreadId>)>, pid: u32) -> (r: Option<usize>)
    ensures
        match r {
            Some(i) => i < actions@.len() && applies(actions@[i as int].1, pid) && forall|j: int|
                0 <= j < i ==> !applies(#[trigger] actions@[j].1, pid),
            None => forall|j: int| 0 <= j < actions@.len() ==> !applies(#[trigger] actions@[j].1, pid),
        },
{
    let mut i: usize = 0;
    while i < actions.len()
        invariant
            i <= actions@.len(),
            forall|j: int| 0 <= j < i ==> !applies(#[trigger] actions@[j].1, pid),
        decreases actions@.len() - i,
    {
        if filter_applies(actions[i].1, pid) {
            return Some(i);
        }
        i = i + 1;
    }
    None
}

/// What an action asks of the tracee, given `native`, the host number of the
/// signal that it carries (`None` where it carries none, or where the signal
/// has no host number). `Stop` is not supported.
pub open spec fn resume_of(action: VCont, native: Option<u8>) -> Option<Resume> {
    match action {
        VCont::Continue => Some(Resume::Continue(None)),
        VCont::ContinueWithSignal(_) => Some(Resume::Continue(native)),
        VCont::Step => Some(Resume::Step(None)),
        VCont::StepWithSignal(_) => Some(Resume::Step(native)),
        VCont::RangeStep(start, end) => Some(Resume::Range(start, end)),
        VCont::Stop => None,
    }
}

/// What an action asks of the tracee; see `resume_of`.
pub fn resume_for(action: VCont, native: Option<u8>) -> (r: Option<Resume>)
    ensures
        r == resume_of(action, native),
{
    match action {
        VCont::Continue => Some(Resume::Continue(None)),
        VCont::ContinueWithSignal(_) => Some(Resume::Continue(native)),
        VCont::Step => Some(Resume::Step(None)),
        VCont::StepWithSignal(_) => Some(Resume::Step(native)),
        VCont::RangeStep(start, end) => Some(Resume::Range(start, end)),
        VCont::Stop => None,
    }
}

/// The signal, in GDB's numbering, that an action carries.
pub fn signal_of_action(action: VCont) -> (r: Option<u8>)
    ensures
        r == match action {
            VCont::ContinueWithSignal(sig) => Some(sig),
            VCont::StepWithSignal(sig) => Some(sig),
            _ => None,
        },
{
    match action {
        VCont::ContinueWithSignal(sig) => Some(sig),
        VCont::StepWithSignal(sig) => Some(sig),
        _ => None,
    }
}

/// The thread list of the tracee `pid`: on a fresh listing (`reset`) its one
/// thread, whose pid and tid are both `pid`; after that, nothing more.
pub fn thread_list(pid: u32, reset: bool) -> (r: Vec<ThreadId>)
    ensures
        reset ==> r@ == seq![ThreadId { pid: Id::Id(pid), tid: Id::Id(pid) }],
        !reset ==> r@.len() == 0,
{
    let mut r: Vec<ThreadId> = Vec::new();
    if reset {
        r.push(ThreadId { pid: Id::Id(pid), tid: Id::Id(pid) });
    }
    r
}

/// The `qSupported` features that the server advertises.
pub fn supported_features() -> (r: Vec<String>)
    ensures
        r@.len() == 2,
        r@[0]@ == "qXfer:features:read+"@,
        r@[1]@ == "qXfer:exec-file:read+"@,
{
    let mut r: Vec<String> = Vec::new();
    r.push(String::from_str("qXfer:features:read+"));
    r.push(String::from_str("qXfer:exec-file:read+"));
    r
}

/// The `vCont` actions that the server supports: `c`, `C`, `s`, `S` and `r`.
pub fn supported_vcont() -> (r: Vec<VContFeature>)
    ensures
        r@ == seq![
            VContFeature::Continue,
            VContFeature::ContinueWithSignal,
            VContFeature::Step,
            VContFeature::StepWithSignal,
            VContFeature::RangeStep,
        ],
{
    let mut r: Vec<VContFeature> = Vec::new();
    r.push(VContFeature::Continue);
    r.push(VContFeature::ContinueWithSignal);
    r.push(VContFeature::Step);
    r.push(VContFeature::StepWithSignal);
    r.push(VContFeature::RangeStep);
    assert(r@ =~= seq![
        VContFeature::Continue,
        VContFeature::ContinueWithSignal,
        VContFeature::Step,
        VContFeature::StepWithSignal,
        VContFeature::RangeStep,
    ]);
    r
}

/// The object that a `qXfer` read names.
pub open spec fn xfer_object_of(object: Seq<char>, annex: Seq<char>) -> Result<XferObject, XferError> {
    if object == "features"@ && annex == "target.xml"@ {
        Ok(XferObject::TargetXml)
    } else if object == "exec-file"@ {
        match parsed_hex(annex) {
            Some(pid) => Ok(XferObject::ExecFile(pid)),
            None => Err(XferError::BadPid),
        }
    } else {
        Err(XferError::Unimplemented)
    }
}

/// Resolves the object and annex of a `qXfer` read.
pub fn xfer_object(object: &str, annex: &str) -> (r: Result<XferObject, XferError>)
    ensures
        r == xfer_object_of(object@, annex@),
{
    if str_eq(object, "features") && str_eq(annex, "target.xml") {
        Ok(XferObject::TargetXml)
    } else if str_eq(object, "exec-file") {
        match parse_hex(annex) {
            Some(pid) => Ok(XferObject::ExecFile(pid)),
            None => Err(XferError::BadPid),
        }
    } else {
        Err(XferError::Unimplemented)
    }
}

/// The reply to a read of `length` bytes at `offset` of `source`: the bytes
/// there, cut at the end of `source`, and whether the read started at or past
/// the end (then with no bytes).
pub open spec fn xfer_chunk_of(source: Seq<u8>, offset: nat, length: nat) -> (Seq<u8>, bool) {
    if offset >= source.len() {
        (Seq::empty(), true)
    } else if offset + length >= source.len() {
        (source.subrange(offset as int, source.len() as int), false)
    } else {
        (source.subrange(offset as int, (offset + length) as int), false)
    }
}

/// Serves a chunked `qXfer` read of `length` bytes at `offset` of `source`.
pub fn xfer_chunk(source: &[u8], offset: u64, length: u64) -> (r: (Vec<u8>, bool))
    ensures
        r.0@ == xfer_chunk_of(source@, offset as nat, length as nat).0,
        r.1 == xfer_chunk_of(source@, offset as nat, length as nat).1,
{
    let len = source.len();
    if offset >= len as u64 {
        return (Vec::new(), true);
    }
    let start = offset as usize;
    let end: usize = if length >= (len - start) as u64 {
        len
    } else {
        start + length as usize
    };
    let mut out: Vec<u8> = Vec::new();
    let mut i: usize = start;
    while i < end
        invariant
            start <= i <= end,
            end <= len,
            len == source@.len(),
            out@ == source@.subrange(start as int, i as int),
        decreases end - i,
    {
        out.push(source[i]);
        assert(out@ =~= source@.subrange(start as int, (i + 1) as int));
        i = i + 1;
    }
    (out, false)
}

/// An executable path as GDB should see it: without a leading `file:`,
/// which GDB would take for a URL scheme.
pub open spec fn without_file_scheme(path: Seq<u8>) -> Seq<u8> {
    if path.len() >= 5 && path.subrange(0, 5) == seq![102u8, 105u8, 108u8, 101u8, 58u8] {
        path.skip(5)
    } else {
        path
    }
}

/// Strips a leading `file:` from an executable path.
pub fn strip_file_scheme(path: &[u8]) -> (r: Vec<u8>)
    ensures
        r@ == without_file_scheme(path@),
{
    let n = path.len();
    let prefixed = n >= 5 && path[0] == 102u8 && path[1] == 105u8 && path[2] == 108u8 && path[3]
        == 101u8 && path[4] == 58u8;
    let start: usize = if prefixed {
        5
    } else {
        0
    };
    proof {
        if n >= 5 {
            if prefixed {
                assert(path@.subrange(0, 5) =~= seq![102u8, 105u8, 108u8, 101u8, 58u8]);
            } else {
                assert(path@.subrange(0, 5) != seq![102u8, 105u8, 108u8, 101u8, 58u8]) by {
                    let s = path@.subrange(0, 5);
                    if s == seq![102u8, 105u8, 108u8, 101u8, 58u8] {
                        assert(s[0] == path@[0] && s[1] == path@[1] && s[2] == path@[2] && s[3]
                            == path@[3] && s[4] == path@[4]);
                    }
                }
            }
        }
    }
    let mut out: Vec<u8> = Vec::new();
    let mut i: usize = start;
    while i < n
        invariant
            start <= i <= n,
            n == path@.len(),
            out@ == path@.subrange(start as int, i as int),
        decreases n - i,
    {
        out.push(path[i]);
        assert(out@ =~= path@.subrange(start as int, (i + 1) as int));
        i = i + 1;
    }
    assert(path@.subrange(0, n as int) =~= path@);
    assert(path@.skip(start as int) =~= path@.subrange(start as int, n as int));
    out
}

/// The bytes that reading `source` from `offset` on yields when each read asks
/// for `length` bytes and starts where the last one ended, up to the read that
/// reports the end.
pub open spec fn xfer_all(source: Seq<u8>, offset: nat, length: nat) -> Seq<u8>
    decreases source.len() - offset,
{
    let (bytes, eof) = xfer_chunk_of(source, offset, length);
    if eof || length == 0 {
        bytes
    } else {
        bytes + xfer_all(source, offset + bytes.len(), length)
    }
}

/// Reading a source in chunks of any positive size, each read starting where
/// the last one ended, yields every byte from the first offset on, and the
/// last read reports the end.
pub proof fn lemma_xfer_reads_all(source: Seq<u8>, offset: nat, length: nat)
    requires
        length > 0,
    ensures
        offset <= source.len() ==> xfer_all(source, offset, length) == source.subrange(
            offset as int,
            source.len() as int,
        ),
        offset > source.len() ==> xfer_all(source, offset, length) == Seq::<u8>::empty(),
    decreases source.len() - offset,
{
    let (bytes, eof) = xfer_chunk_of(source, offset, length);
    if offset >= source.len() {
        if offset == source.len() {
            assert(source.subrange(offset as int, source.len() as int) =~= Seq::<u8>::empty());
        }
    } else {
        let next = offset + bytes.len();
        lemma_xfer_reads_all(source, next, length);
        assert(bytes + source.subrange(next as int, source.len() as int) =~= source.subrange(
            offset as int,
            source.len() as int,
        ));
    }
}

} // verus!
