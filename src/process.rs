//! A process handle that is owned by one value and released at most once.
use vstd::prelude::*;

use crate::text::{decode_utf16_lossy, nul_from, wide_name};

verus! {

/// The raw handle value that stands for "no handle": what a failed open
/// request returns, and what a released `Process` holds.
pub const NULL_HANDLE: usize = 0;

/// An error reported by the operating system, by its error code.
#[derive(Debug, Clone, Copy, PartialEq, Eq, Structural)]
pub struct OsError {
    pub code: u32,
}

/// What a `Process` holds, as plain values.
pub struct ProcessView {
    pub pid: u32,
    pub name: Seq<char>,
    pub handle: usize,
}

/// One exclusively owned reference to a running process: its id, its display
/// name, and the raw OS handle, which is `NULL_HANDLE` once released.
#[derive(Debug, PartialEq, Eq)]
pub struct Process {
    pid: u32,
    name: String,
    handle: usize,
}

impl View for Process {
    type V = ProcessView;

    closed spec fn view(&self) -> ProcessView {
        ProcessView { pid: self.pid, name: self.name@, handle: self.handle }
    }
}

impl Process {
    /// The process id.
    pub fn pid(&self) -> (r: u32)
        ensures
            r == self@.pid,
    {
        self.pid
    }

    /// Wraps a raw handle that the caller has already opened and hands over.
    pub fn new(handle: usize, pid: u32, name: &str) -> (r: Process)
        ensures
            r@ == (ProcessView { pid, name: name@, handle }),
    {
        Process { pid, name: name.to_owned(), handle }
    }

    /// Builds the process that an open request by id produced: `opened` is the
    /// raw handle that the request returned, and `module_name` the buffer that
    /// the base-name query for that handle filled in. A null handle means the
    /// process was not found or not accessible, and gives `None`.
    pub fn from_pid(opened: usize, pid: u32, module_name: &[u16]) -> (r: Option<Process>)
        ensures
            r is None <==> opened == NULL_HANDLE,
            r matches Some(p) ==> p@ == (ProcessView {
                pid,
                name: wide_name(module_name@),
                handle: opened,
            }),
    {
        if opened == NULL_HANDLE {
            return None;
        }
        let name = get_process_name(module_name);
        Some(Process { pid, name, handle: opened })
    }

    /// Builds the process that an open request by id produced, under a name the
    /// caller already knows. A null handle gives `None`.
    pub fn from_pid_and_name(opened: usize, pid: u32, name: &str) -> (r: Option<Process>)
        ensures
            r is None <==> opened == NULL_HANDLE,
            r matches Some(p) ==> p@ == (ProcessView { pid, name: name@, handle: opened }),
    {
        if opened == NULL_HANDLE {
            return None;
        }
        Some(Process::new(opened, pid, name))
    }

    /// The pid to reopen out of a search by name: that of the first process of
    /// a successful, non-empty result. A failed search counts as no match.
    pub fn find_first_by_name(found: &Result<Vec<Process>, OsError>) -> (r: Option<u32>)
        ensures
            r == first_pid(*found),
    {
        match found {
            Ok(list) => {
                if list.len() > 0 {
                    Some(list[0].pid)
                } else {
                    None
                }
            },
            Err(_) => None,
        }
    }

    /// The raw handle that a release must hand to the OS, or `None` when this
    /// process holds none and a release makes no OS call.
    pub fn release_request(&self) -> (r: Option<usize>)
        ensures
            r == release_of(self@),
    {
        if self.handle == NULL_HANDLE {
            None
        } else {
            Some(self.handle)
        }
    }

    /// Completes a release: `released` is what the OS answered to the request
    /// that `release_request` named. When nothing was held there was no request;
    /// the call succeeds and changes nothing. Otherwise the OS answer is
    /// returned; on success the handle becomes `NULL_HANDLE`, and on failure the
    /// process is left as it was, so that the release can be retried.
    pub fn close(&mut self, released: Result<(), OsError>) -> (r: Result<(), OsError>)
        ensures
            r == close_result(old(self)@, released),
            final(self)@ == closed_state(old(self)@, released),
    {
        if self.handle == NULL_HANDLE {
            return Ok(());
        }
        if released.is_ok() {
            self.handle = NULL_HANDLE;
        }
        released
    }
}

/// The pid of the first process of a successful, non-empty search.
pub open spec fn first_pid(found: Result<Vec<Process>, OsError>) -> Option<u32> {
    match found {
        Ok(list) => if list@.len() > 0 {
            Some(list@[0]@.pid)
        } else {
            None
        },
        Err(_) => None,
    }
}

/// The handle a release hands to the OS, if any.
pub open spec fn release_of(p: ProcessView) -> Option<usize> {
    if p.handle == NULL_HANDLE {
        None
    } else {
        Some(p.handle)
    }
}

/// What `close` returns.
pub open spec fn close_result(p: ProcessView, released: Result<(), OsError>) -> Result<(), OsError> {
    if p.handle == NULL_HANDLE {
        Ok(())
    } else {
        released
    }
}

/// What a process holds after `close`.
pub open spec fn closed_state(p: ProcessView, released: Result<(), OsError>) -> ProcessView {
    if p.handle != NULL_HANDLE && released is Ok {
        ProcessView { handle: NULL_HANDLE, ..p }
    } else {
        p
    }
}

/// Once a `close` has succeeded, a second `close` succeeds whatever it is
/// handed, and changes nothing.
pub proof fn lemma_close_twice(p: ProcessView, first: Result<(), OsError>, second: Result<(), OsError>)
    requires
        close_result(p, first) is Ok,
    ensures
        close_result(closed_state(p, first), second) is Ok,
        closed_state(closed_state(p, first), second) == closed_state(p, first),
{
}

/// Once a `close` has succeeded, the process holds no handle, so its release
/// at the end of its life makes no OS call.
pub proof fn lemma_closed_needs_no_release(p: ProcessView, released: Result<(), OsError>)
    requires
        close_result(p, released) is Ok,
    ensures
        release_of(closed_state(p, released)) is None,
{
}


/// Decodes the base-name buffer that a module-name query fills in: the code units up to the first nul,
/// read as UTF-16 with unpaired surrogates replaced.
pub fn get_process_name(buf: &[u16]) -> (r: String)
    ensures
        r@ == wide_name(buf@),
{
    let mut i: usize = 0;
    while i < buf.len() && buf[i] != 0u16
        invariant
            0 <= i <= buf@.len(),
            nul_from(buf@, 0u16, 0) == nul_from(buf@, 0u16, i as int),
        decreases buf@.len() - i,
    {
        i = i + 1;
    }
    let mut head: Vec<u16> = Vec::new();
    let mut k: usize = 0;
    while k < i
        invariant
            0 <= k <= i <= buf@.len(),
            head@ == buf@.take(k as int),
        decreases i - k,
    {
        head.push(buf[k]);
        k = k + 1;
        assert(head@ =~= buf@.take(k as int));
    }
    decode_utf16_lossy(head.as_slice())
}

} // verus!
