//! Registration tables: files, buffers, an eventfd and personalities pinned
//! ahead of time into kernel-visible tables.
use vstd::prelude::*;
use crate::cqe::{errno_of, OsError};

verus! {

/// Error number: the resource is busy.
pub const EBUSY: i32 = 16;
/// Error number: no such device or address.
pub const ENXIO: i32 = 6;
/// Error number: invalid argument.
pub const EINVAL: i32 = 22;
/// Error number: result out of range.
pub const ERANGE: i32 = 34;

/// The most buffers that can be registered at once.
pub const MAX_BUFFERS: usize = 1024;

/// The descriptor value that reserves a table entry without a file.
pub const PLACEHOLDER_FD: i32 = -1;

/// A member of the registered file table, or a placeholder that only
/// reserves an entry. A placeholder is never a valid IO target.
#[derive(Clone, Copy, Debug, PartialEq, Eq, Structural)]
pub struct RegisteredFd {
    index: i32,
}

impl RegisteredFd {
    /// A handle holds a table index, which is never negative, or the
    /// placeholder value.
    #[verifier::type_invariant]
    spec fn inv(self) -> bool {
        self.index >= 0 || self.index == PLACEHOLDER_FD
    }

    /// The table index, or `PLACEHOLDER_FD` for a placeholder.
    pub closed spec fn raw_index(self) -> i32 {
        self.index
    }

    pub open spec fn is_placeholder_spec(self) -> bool {
        self.raw_index() == PLACEHOLDER_FD
    }

    /// The handle for the table entry `index` that was given the descriptor `fd`.
    pub fn new(index: usize, fd: i32) -> (r: RegisteredFd)
        requires
            index <= i32::MAX,
        ensures
            fd == PLACEHOLDER_FD ==> r.is_placeholder_spec(),
            fd != PLACEHOLDER_FD ==> r.raw_index() == index as i32,
    {
        if fd == PLACEHOLDER_FD {
            RegisteredFd::placeholder()
        } else {
            RegisteredFd { index: index as i32 }
        }
    }

    /// A placeholder, used to reserve kernel fileset entries.
    pub fn placeholder() -> (r: RegisteredFd)
        ensures
            r.is_placeholder_spec(),
    {
        RegisteredFd { index: PLACEHOLDER_FD }
    }

    /// The table index of this file, or `None` for a placeholder.
    pub fn index(self) -> (r: Option<u32>)
        ensures
            self.is_placeholder_spec() ==> r is None,
            !self.is_placeholder_spec() ==> r == Some(self.raw_index() as u32),
            !self.is_placeholder_spec() ==> 0 <= self.raw_index() && (r matches Some(i) && i <= i32::MAX),
    {
        proof { use_type_invariant(&self); }
        if self.is_placeholder() {
            None
        } else {
            Some(self.index as u32)
        }
    }

    /// Whether this is a placeholder.
    pub fn is_placeholder(self) -> (r: bool)
        ensures
            r == self.is_placeholder_spec(),
    {
        self.index == PLACEHOLDER_FD
    }

    /// The index to put in a slot's descriptor field. Using a placeholder as
    /// an IO target is a precondition violation.
    pub fn as_raw_fd(&self) -> (r: i32)
        requires
            !self.is_placeholder_spec(),
        ensures
            r == self.raw_index(),
            r >= 0,
    {
        proof { use_type_invariant(self); }
        self.index
    }
}

} // verus!

verus! {

/// A set of credentials registered with the kernel.
#[derive(Clone, Copy, Debug, PartialEq, Eq, Structural, Hash, PartialOrd, Ord)]
pub struct Personality {
    id: u16,
}

impl Personality {
    pub closed spec fn id_spec(self) -> u16 {
        self.id
    }

    /// The personality with the kernel id `id`.
    pub fn from_id(id: u16) -> (r: Personality)
        ensures
            r.id_spec() == id,
    {
        Personality { id }
    }

    /// The kernel id.
    pub fn id(&self) -> (r: u16)
        ensures
            r == self.id_spec(),
    {
        self.id
    }
}

impl From<u16> for Personality {
    fn from(id: u16) -> (r: Personality) {
        Personality { id }
    }
}

impl vstd::std_specs::convert::FromSpecImpl<u16> for Personality {
    open spec fn obeys_from_spec() -> bool {
        true
    }

    closed spec fn from_spec(id: u16) -> Personality {
        Personality { id }
    }
}

} // verus!

verus! {

/// `handles` are the handles for the descriptors `fds` registered at table
/// indices `offset`, `offset + 1`, ...: a placeholder for each placeholder
/// descriptor, the index for every other one.
pub open spec fn handles_for(handles: Seq<RegisteredFd>, fds: Seq<i32>, offset: int) -> bool {
    &&& handles.len() == fds.len()
    &&& forall|i: int| #![trigger handles[i]] 0 <= i < fds.len() ==> {
        &&& (fds[i] == PLACEHOLDER_FD ==> handles[i].is_placeholder_spec())
        &&& (fds[i] != PLACEHOLDER_FD ==> handles[i].raw_index() == offset + i)
    }
}

/// `table` with the entries from `offset` on replaced by `fds`.
pub open spec fn table_updated(table: Seq<i32>, offset: int, fds: Seq<i32>) -> Seq<i32> {
    Seq::new(table.len(), |k: int| if offset <= k < offset + fds.len() { fds[k - offset] } else { table[k] })
}

/// The outcome of a kernel call that returns nothing on success.
pub open spec fn outcome_ok(outcome: i32) -> bool {
    outcome >= 0
}

/// `r` is the error of the failed kernel call that returned `outcome`.
pub open spec fn is_kernel_error<T>(r: Result<T, OsError>, outcome: i32) -> bool {
    r matches Err(e) && e.code() == errno_of(outcome)
}

/// `r` is the error with number `code`.
pub open spec fn is_error<T>(r: Result<T, OsError>, code: i32) -> bool {
    r matches Err(e) && e.code() == code
}

/// The registration tables as the kernel has been told them. Each operation
/// takes the return value of the matching kernel call and applies it only
/// when the call succeeded and the table's own rules allow it.
#[derive(Debug)]
pub struct Registrar {
    files: Option<Vec<i32>>,
    buffers: Option<usize>,
    eventfd: Option<i32>,
}

impl Registrar {
    /// The registered file table, if any.
    pub closed spec fn files_spec(&self) -> Option<Seq<i32>> {
        match self.files {
            Some(v) => Some(v@),
            None => None,
        }
    }

    /// The number of registered buffers, if any are.
    pub closed spec fn buffers_spec(&self) -> Option<usize> {
        self.buffers
    }

    /// The registered eventfd, if any.
    pub closed spec fn eventfd_spec(&self) -> Option<i32> {
        self.eventfd
    }

    pub open spec fn wf(&self) -> bool {
        self.files_spec() matches Some(t) ==> t.len() <= i32::MAX
    }

    /// No table registered.
    pub fn new() -> (r: Registrar)
        ensures
            r.wf(),
            r.files_spec() is None,
            r.buffers_spec() is None,
            r.eventfd_spec() is None,
    {
        Registrar { files: None, buffers: None, eventfd: None }
    }

    fn kernel_error(outcome: i32) -> (r: OsError)
        requires
            outcome < 0,
        ensures
            r.code() == errno_of(outcome),
    {
        match crate::resultify(outcome) {
            Err(e) => e,
            Ok(_) => OsError::from_raw_os_error(0),
        }
    }

    /// Registers the file table `files`, given the return value `outcome` of
    /// the kernel's registration call. Fails with `EBUSY` when a table is
    /// registered, with `EINVAL` when `files` is empty, and with the kernel's
    /// error when the call failed; otherwise returns one handle per
    /// descriptor, in order, a placeholder for each `PLACEHOLDER_FD`.
    pub fn register_files(&mut self, files: &[i32], outcome: i32) -> (r: Result<Vec<RegisteredFd>, OsError>)
        requires
            old(self).wf(),
            files@.len() <= i32::MAX,
        ensures
            final(self).wf(),
            final(self).buffers_spec() == old(self).buffers_spec(),
            final(self).eventfd_spec() == old(self).eventfd_spec(),
            old(self).files_spec() is Some ==> is_error(r, EBUSY),
            old(self).files_spec() is None && files@.len() == 0 ==> is_error(r, EINVAL),
            old(self).files_spec() is None && files@.len() > 0 && !outcome_ok(outcome) ==> is_kernel_error(r, outcome),
            r is Err ==> final(self).files_spec() == old(self).files_spec(),
            r is Ok <==> old(self).files_spec() is None && files@.len() > 0 && outcome_ok(outcome),
            r matches Ok(v) ==> handles_for(v@, files@, 0) && final(self).files_spec() == Some(files@),
    {
        if self.files.is_some() {
            return Err(OsError::from_raw_os_error(EBUSY));
        }
        if files.len() == 0 {
            return Err(OsError::from_raw_os_error(EINVAL));
        }
        if outcome < 0 {
            return Err(Registrar::kernel_error(outcome));
        }
        let mut table: Vec<i32> = Vec::new();
        let mut handles: Vec<RegisteredFd> = Vec::new();
        let mut i: usize = 0;
        while i < files.len()
            invariant
                i <= files@.len(),
                files@.len() <= i32::MAX,
                table@ == files@.take(i as int),
                handles_for(handles@, files@.take(i as int), 0),
            decreases files@.len() - i,
        {
            let fd = files[i];
            table.push(fd);
            handles.push(RegisteredFd::new(i, fd));
            proof {
                assert(table@ =~= files@.take(i as int + 1));
                let t = files@.take(i as int + 1);
                assert forall|j: int| #![trigger handles@[j]] 0 <= j < t.len() implies
                    (t[j] == PLACEHOLDER_FD ==> handles@[j].is_placeholder_spec())
                    && (t[j] != PLACEHOLDER_FD ==> handles@[j].raw_index() == j) by {
                    if j < i {
                        assert(t[j] == files@.take(i as int)[j]);
                    }
                }
            }
            i = i + 1;
        }
        proof {
            assert(files@.take(files@.len() as int) =~= files@);
        }
        self.files = Some(table);
        Ok(handles)
    }

    /// Replaces table entries from `offset` on with `files`, given the return
    /// value `outcome` of the kernel's update call. Fails with `ENXIO` when no
    /// table is registered, with `EINVAL` when `files` is empty or runs past
    /// the end of the table, and with the kernel's error when the call failed;
    /// otherwise returns one handle per descriptor, indexed from `offset`.
    pub fn update_registered_files(&mut self, offset: usize, files: &[i32], outcome: i32) -> (r: Result<Vec<RegisteredFd>, OsError>)
        requires
            old(self).wf(),
        ensures
            final(self).wf(),
            final(self).buffers_spec() == old(self).buffers_spec(),
            final(self).eventfd_spec() == old(self).eventfd_spec(),
            old(self).files_spec() is None ==> is_error(r, ENXIO),
            old(self).files_spec() matches Some(t) ==> {
                &&& files@.len() == 0 ==> is_error(r, EINVAL)
                &&& files@.len() > 0 && offset + files@.len() > t.len() ==> is_error(r, EINVAL)
                &&& files@.len() > 0 && offset + files@.len() <= t.len() && !outcome_ok(outcome) ==> is_kernel_error(r, outcome)
                &&& (r is Ok <==> files@.len() > 0 && offset + files@.len() <= t.len() && outcome_ok(outcome))
                &&& r matches Ok(v) ==> handles_for(v@, files@, offset as int)
                    && final(self).files_spec() == Some(table_updated(t, offset as int, files@))
            },
            r is Err ==> final(self).files_spec() == old(self).files_spec(),
    {
        let len = match &self.files {
            None => { return Err(OsError::from_raw_os_error(ENXIO)); },
            Some(t) => t.len(),
        };
        if files.len() == 0 || offset > len || files.len() > len - offset {
            return Err(OsError::from_raw_os_error(EINVAL));
        }
        if outcome < 0 {
            return Err(Registrar::kernel_error(outcome));
        }
        let mut table = self.files.take().unwrap();
        let ghost t0 = table@;
        let mut handles: Vec<RegisteredFd> = Vec::new();
        let mut i: usize = 0;
        while i < files.len()
            invariant
                i <= files@.len(),
                offset + files@.len() <= t0.len(),
                t0.len() <= i32::MAX,
                table@ == table_updated(t0, offset as int, files@.take(i as int)),
                handles_for(handles@, files@.take(i as int), offset as int),
            decreases files@.len() - i,
        {
            let fd = files[i];
            table.set(offset + i, fd);
            handles.push(RegisteredFd::new(offset + i, fd));
            proof {
                let t = files@.take(i as int + 1);
                assert(table@ =~= table_updated(t0, offset as int, t));
                assert forall|j: int| #![trigger handles@[j]] 0 <= j < t.len() implies
                    (t[j] == PLACEHOLDER_FD ==> handles@[j].is_placeholder_spec())
                    && (t[j] != PLACEHOLDER_FD ==> handles@[j].raw_index() == offset + j) by {
                    if j < i {
                        assert(t[j] == files@.take(i as int)[j]);
                    }
                }
            }
            i = i + 1;
        }
        proof {
            assert(files@.take(files@.len() as int) =~= files@);
        }
        self.files = Some(table);
        Ok(handles)
    }

    /// Unregisters the file table, given the return value `outcome` of the
    /// kernel's call. Fails with `ENXIO` when no table is registered, and with
    /// the kernel's error when the call failed.
    pub fn unregister_files(&mut self, outcome: i32) -> (r: Result<(), OsError>)
        requires
            old(self).wf(),
        ensures
            final(self).wf(),
            final(self).buffers_spec() == old(self).buffers_spec(),
            final(self).eventfd_spec() == old(self).eventfd_spec(),
            old(self).files_spec() is None ==> is_error(r, ENXIO),
            old(self).files_spec() is Some && !outcome_ok(outcome) ==> is_kernel_error(r, outcome),
            r is Ok <==> old(self).files_spec() is Some && outcome_ok(outcome),
            r is Ok ==> final(self).files_spec() is None,
            r is Err ==> final(self).files_spec() == old(self).files_spec(),
    {
        if self.files.is_none() {
            return Err(OsError::from_raw_os_error(ENXIO));
        }
        if outcome < 0 {
            return Err(Registrar::kernel_error(outcome));
        }
        self.files = None;
        Ok(())
    }

    /// Registers `count` buffers, given the return value `outcome` of the
    /// kernel's call. Fails with `EBUSY` when buffers are registered, with
    /// `EINVAL` when `count` is zero or above `MAX_BUFFERS`, and with the
    /// kernel's error when the call failed; otherwise returns the buffer
    /// indices `0..count`, for fixed-buffer operations.
    pub fn register_buffers(&mut self, count: usize, outcome: i32) -> (r: Result<Vec<u16>, OsError>)
        requires
            old(self).wf(),
        ensures
            final(self).wf(),
            final(self).files_spec() == old(self).files_spec(),
            final(self).eventfd_spec() == old(self).eventfd_spec(),
            old(self).buffers_spec() is Some ==> is_error(r, EBUSY),
            old(self).buffers_spec() is None && (count == 0 || count > MAX_BUFFERS) ==> is_error(r, EINVAL),
            old(self).buffers_spec() is None && 0 < count <= MAX_BUFFERS && !outcome_ok(outcome) ==> is_kernel_error(r, outcome),
            r is Ok <==> old(self).buffers_spec() is None && 0 < count <= MAX_BUFFERS && outcome_ok(outcome),
            r matches Ok(v) ==> final(self).buffers_spec() == Some(count)
                && v@.len() == count && forall|i: int| 0 <= i < count ==> #[trigger] v@[i] == i,
            r is Err ==> final(self).buffers_spec() == old(self).buffers_spec(),
    {
        if self.buffers.is_some() {
            return Err(OsError::from_raw_os_error(EBUSY));
        }
        if count == 0 || count > MAX_BUFFERS {
            return Err(OsError::from_raw_os_error(EINVAL));
        }
        if outcome < 0 {
            return Err(Registrar::kernel_error(outcome));
        }
        let mut indices: Vec<u16> = Vec::new();
        let mut i: usize = 0;
        while i < count
            invariant
                i <= count,
                count <= MAX_BUFFERS,
                indices@.len() == i,
                forall|j: int| 0 <= j < i ==> #[trigger] indices@[j] == j,
            decreases count - i,
        {
            indices.push(i as u16);
            i = i + 1;
        }
        self.buffers = Some(count);
        Ok(indices)
    }

    /// Unregisters the buffers, given the return value `outcome` of the
    /// kernel's call. Fails with `ENXIO` when none are registered, and with
    /// the kernel's error when the call failed.
    pub fn unregister_buffers(&mut self, outcome: i32) -> (r: Result<(), OsError>)
        requires
            old(self).wf(),
        ensures
            final(self).wf(),
            final(self).files_spec() == old(self).files_spec(),
            final(self).eventfd_spec() == old(self).eventfd_spec(),
            old(self).buffers_spec() is None ==> is_error(r, ENXIO),
            old(self).buffers_spec() is Some && !outcome_ok(outcome) ==> is_kernel_error(r, outcome),
            r is Ok <==> old(self).buffers_spec() is Some && outcome_ok(outcome),
            r is Ok ==> final(self).buffers_spec() is None,
            r is Err ==> final(self).buffers_spec() == old(self).buffers_spec(),
    {
        if self.buffers.is_none() {
            return Err(OsError::from_raw_os_error(ENXIO));
        }
        if outcome < 0 {
            return Err(Registrar::kernel_error(outcome));
        }
        self.buffers = None;
        Ok(())
    }

    /// Registers the eventfd `eventfd` to be signalled on completions, given
    /// the return value `outcome` of the kernel's call. Fails with `EBUSY`
    /// when one is registered, and with the kernel's error when the call
    /// failed.
    pub fn register_eventfd(&mut self, eventfd: i32, outcome: i32) -> (r: Result<(), OsError>)
        requires
            old(self).wf(),
        ensures
            final(self).wf(),
            final(self).files_spec() == old(self).files_spec(),
            final(self).buffers_spec() == old(self).buffers_spec(),
            old(self).eventfd_spec() is Some ==> is_error(r, EBUSY),
            old(self).eventfd_spec() is None && !outcome_ok(outcome) ==> is_kernel_error(r, outcome),
            r is Ok <==> old(self).eventfd_spec() is None && outcome_ok(outcome),
            r is Ok ==> final(self).eventfd_spec() == Some(eventfd),
            r is Err ==> final(self).eventfd_spec() == old(self).eventfd_spec(),
    {
        if self.eventfd.is_some() {
            return Err(OsError::from_raw_os_error(EBUSY));
        }
        if outcome < 0 {
            return Err(Registrar::kernel_error(outcome));
        }
        self.eventfd = Some(eventfd);
        Ok(())
    }

    /// Like `register_eventfd`, for an eventfd signalled only on completions
    /// that did not finish inline.
    pub fn register_eventfd_async(&mut self, eventfd: i32, outcome: i32) -> (r: Result<(), OsError>)
        requires
            old(self).wf(),
        ensures
            final(self).wf(),
            final(self).files_spec() == old(self).files_spec(),
            final(self).buffers_spec() == old(self).buffers_spec(),
            old(self).eventfd_spec() is Some ==> is_error(r, EBUSY),
            old(self).eventfd_spec() is None && !outcome_ok(outcome) ==> is_kernel_error(r, outcome),
            r is Ok <==> old(self).eventfd_spec() is None && outcome_ok(outcome),
            r is Ok ==> final(self).eventfd_spec() == Some(eventfd),
            r is Err ==> final(self).eventfd_spec() == old(self).eventfd_spec(),
    {
        self.register_eventfd(eventfd, outcome)
    }

    /// Unregisters the eventfd, given the return value `outcome` of the
    /// kernel's call. Fails with `ENXIO` when none is registered, and with the
    /// kernel's error when the call failed.
    pub fn unregister_eventfd(&mut self, outcome: i32) -> (r: Result<(), OsError>)
        requires
            old(self).wf(),
        ensures
            final(self).wf(),
            final(self).files_spec() == old(self).files_spec(),
            final(self).buffers_spec() == old(self).buffers_spec(),
            old(self).eventfd_spec() is None ==> is_error(r, ENXIO),
            old(self).eventfd_spec() is Some && !outcome_ok(outcome) ==> is_kernel_error(r, outcome),
            r is Ok <==> old(self).eventfd_spec() is Some && outcome_ok(outcome),
            r is Ok ==> final(self).eventfd_spec() is None,
            r is Err ==> final(self).eventfd_spec() == old(self).eventfd_spec(),
    {
        if self.eventfd.is_none() {
            return Err(OsError::from_raw_os_error(ENXIO));
        }
        if outcome < 0 {
            return Err(Registrar::kernel_error(outcome));
        }
        self.eventfd = None;
        Ok(())
    }

    /// The personality the kernel registered, given the return value
    /// `outcome` of its call: the kernel's error when the call failed, and
    /// `ERANGE` for an id that does not fit 16 bits.
    pub fn register_personality(&self, outcome: i32) -> (r: Result<Personality, OsError>)
        ensures
            !outcome_ok(outcome) ==> is_kernel_error(r, outcome),
            outcome > u16::MAX ==> is_error(r, ERANGE),
            0 <= outcome <= u16::MAX ==> (r matches Ok(p) && p.id_spec() == outcome as u16),
    {
        if outcome < 0 {
            return Err(Registrar::kernel_error(outcome));
        }
        if outcome > 0xffff {
            return Err(OsError::from_raw_os_error(ERANGE));
        }
        Ok(Personality { id: outcome as u16 })
    }

    /// The result of unregistering `personality`, given the return value
    /// `outcome` of the kernel's call.
    pub fn unregister_personality(&self, personality: Personality, outcome: i32) -> (r: Result<(), OsError>)
        ensures
            outcome_ok(outcome) ==> r is Ok,
            !outcome_ok(outcome) ==> is_kernel_error(r, outcome),
    {
        if outcome < 0 {
            return Err(Registrar::kernel_error(outcome));
        }
        Ok(())
    }
}

/// A handle registered for the placeholder descriptor is a placeholder, so
/// no operation may target it; every other handle holds its real,
/// non-negative table index, never the placeholder value.
pub proof fn lemma_placeholder_never_indexes(handles: Seq<RegisteredFd>, fds: Seq<i32>, offset: int)
    requires
        handles_for(handles, fds, offset),
        offset >= 0,
    ensures
        forall|i: int| #![trigger handles[i]] 0 <= i < fds.len() && fds[i] == PLACEHOLDER_FD ==>
            handles[i].is_placeholder_spec(),
        forall|i: int| #![trigger handles[i]] 0 <= i < fds.len() && fds[i] != PLACEHOLDER_FD ==>
            !handles[i].is_placeholder_spec() && handles[i].raw_index() >= 0,
{
}

} // verus!
