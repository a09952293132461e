use vstd::prelude::*;

verus! {

/// The user tag that the library reserves for the timeout requests it injects.
/// No operation submitted by a caller may carry it.
pub const TIMEOUT_USER_DATA: u64 = 0xffff_ffff_ffff_ffff;

/// The error number that a negative kernel return value `ret` stands for. The
/// negation wraps for `i32::MIN`, which no kernel call returns.
pub open spec fn errno_of(ret: i32) -> i32 {
    if ret == i32::MIN { i32::MIN } else { (-ret) as i32 }
}

/// An error reported by the kernel, as an error number.
#[derive(Clone, Copy, Debug, PartialEq, Eq, Structural)]
pub struct OsError {
    code: i32,
}

impl OsError {
    pub closed spec fn code(self) -> i32 {
        self.code
    }

    /// The error with the error number `code`.
    pub fn from_raw_os_error(code: i32) -> (r: OsError)
        ensures
            r.code() == code,
    {
        OsError { code }
    }

    /// The error number.
    pub fn raw_os_error(&self) -> (r: Option<i32>)
        ensures
            r == Some(self.code()),
    {
        Some(self.code)
    }
}

/// A completed IO event, copied out of the completion ring.
#[derive(Clone, Copy, Debug, PartialEq, Eq, Structural)]
pub struct CompletionQueueEvent {
    user_data: u64,
    res: i32,
    flags: u32,
}

impl CompletionQueueEvent {
    pub closed spec fn tag(self) -> u64 {
        self.user_data
    }

    pub closed spec fn res(self) -> i32 {
        self.res
    }

    pub closed spec fn cqe_flags(self) -> u32 {
        self.flags
    }

    /// The event with the given tag, result and flags.
    pub fn new(user_data: u64, res: i32, flags: u32) -> (r: CompletionQueueEvent)
        ensures
            r.tag() == user_data,
            r.res() == res,
            r.cqe_flags() == flags,
    {
        CompletionQueueEvent { user_data, res, flags }
    }

    /// Whether this event is a timeout that the library injected.
    pub fn is_timeout(&self) -> (r: bool)
        ensures
            r == (self.tag() == TIMEOUT_USER_DATA),
    {
        self.user_data == TIMEOUT_USER_DATA
    }

    /// The tag of the submission that this event completes.
    pub fn user_data(&self) -> (r: u64)
        ensures
            r == self.tag(),
    {
        self.user_data
    }

    /// The raw result: a count, or a negated error number.
    pub fn raw_result(&self) -> (r: i32)
        ensures
            r == self.res(),
    {
        self.res
    }

    /// The extension flags the kernel set on this event.
    pub fn flags(&self) -> (r: u32)
        ensures
            r == self.cqe_flags(),
    {
        self.flags
    }

    /// The result as a count, or the error it reports.
    pub fn result(&self) -> (r: Result<u32, OsError>)
        ensures
            self.res() >= 0 ==> r == Ok::<u32, OsError>(self.res() as u32),
            self.res() < 0 ==> (r matches Err(e) && e.code() == errno_of(self.res())),
    {
        crate::resultify(self.res)
    }
}

} // verus!
