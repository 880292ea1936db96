use vstd::prelude::*;

verus! {

/// A pointer into the memory of a WebAssembly guest, with a length: the
/// address in the upper 32 bits, the length in the lower 32 bits.
pub type FatPtr = u64;

/// The fat pointer of `len` bytes at the address `ptr`.
pub open spec fn fat_ptr_spec(ptr: u32, len: u32) -> int {
    ptr * 0x1_0000_0000 + len
}

/// Packs an address and a length into a fat pointer.
pub fn to_fat_ptr(ptr: u32, len: u32) -> (res: FatPtr)
    ensures
        res == fat_ptr_spec(ptr, len),
{
    let res = (ptr as u64) << 32u64 | (len as u64);
    assert(((ptr as u64) << 32u64 | (len as u64)) == (ptr as u64) * 0x1_0000_0000u64 + (len as u64)) by (bit_vector);
    assert((ptr as u64) * 0x1_0000_0000u64 + (len as u64) == ptr * 0x1_0000_0000 + len) by (nonlinear_arith);
    res
}

/// Unpacks a fat pointer into its address and its length.
pub fn from_fat_ptr(ptr: FatPtr) -> (res: (u32, u32))
    ensures
        ptr == fat_ptr_spec(res.0, res.1),
{
    let address = (ptr >> 32u64) as u32;
    let len = (ptr & 0xffff_ffffu64) as u32;
    assert(ptr == ((ptr >> 32u64) as u32 as u64) * 0x1_0000_0000u64 + ((ptr & 0xffff_ffffu64) as u32 as u64)) by (bit_vector);
    assert(((ptr >> 32u64) as u32 as u64) * 0x1_0000_0000u64 + ((ptr & 0xffff_ffffu64) as u32 as u64) == address * 0x1_0000_0000 + len) by (nonlinear_arith)
        requires
            address == (ptr >> 32u64) as u32,
            len == (ptr & 0xffff_ffffu64) as u32,
    ;
    (address, len)
}

/// Unpacking a fat pointer gives back the address and the length it was
/// made of.
pub proof fn lemma_fat_ptr_round_trip(ptr: u32, len: u32, other_ptr: u32, other_len: u32)
    requires
        fat_ptr_spec(ptr, len) == fat_ptr_spec(other_ptr, other_len),
    ensures
        ptr == other_ptr,
        len == other_len,
{
    assert(ptr == other_ptr && len == other_len) by (nonlinear_arith)
        requires
            ptr * 0x1_0000_0000 + len == other_ptr * 0x1_0000_0000 + other_len,
            0 <= len < 0x1_0000_0000,
            0 <= other_len < 0x1_0000_0000,
            0 <= ptr,
            0 <= other_ptr,
    ;
}

/// The status of an async value that is not resolved yet.
pub const FUTURE_STATUS_PENDING: u32 = 0;

/// The status of an async value that is resolved.
pub const FUTURE_STATUS_READY: u32 = 1;

/// A value that the host or the guest resolves later: its status, and the
/// address and length of its result once it is ready.
#[derive(Clone, Copy, Debug)]
pub struct AsyncValue {
    pub status: u32,
    pub ptr: u32,
    pub len: u32,
}

impl AsyncValue {
    /// A pending value, with no result yet.
    pub fn new() -> (res: Self)
        ensures
            res.status == FUTURE_STATUS_PENDING,
            res.ptr == 0,
            res.len == 0,
    {
        AsyncValue { status: FUTURE_STATUS_PENDING, ptr: 0, len: 0 }
    }

    /// A pending value, with no result yet.
    pub fn default() -> (res: Self)
        ensures
            res.status == FUTURE_STATUS_PENDING,
            res.ptr == 0,
            res.len == 0,
    {
        Self::new()
    }

    /// The fat pointer to the result.
    pub fn buffer_ptr(&self) -> (res: FatPtr)
        ensures
            res == fat_ptr_spec(self.ptr, self.len),
    {
        to_fat_ptr(self.ptr, self.len)
    }

    /// The value that is ready with the result behind `result_ptr`.
    pub fn resolved(result_ptr: FatPtr) -> (res: Self)
        ensures
            res.status == FUTURE_STATUS_READY,
            result_ptr == fat_ptr_spec(res.ptr, res.len),
    {
        let (ptr, len) = from_fat_ptr(result_ptr);
        AsyncValue { status: FUTURE_STATUS_READY, ptr, len }
    }
}

/// What polling a future that the host resolves finds.
pub enum PollDecision {
    /// The value is pending: the waker is to be kept until it is resolved.
    Pending,
    /// The value is ready, with its result behind this fat pointer.
    Ready(FatPtr),
}

/// A future value that will be resolved by the host runtime, by the fat
/// pointer to its `AsyncValue`.
pub struct HostFuture {
    pub ptr: FatPtr,
}

impl HostFuture {
    /// A future for the async value at the given pointer.
    pub fn new(async_value_ptr: FatPtr) -> (res: Self)
        ensures
            res.ptr == async_value_ptr,
    {
        HostFuture { ptr: async_value_ptr }
    }

    /// The address of the future's `AsyncValue`.
    pub fn value_address(&self) -> (res: u32)
        ensures
            exists|len: u32| self.ptr == fat_ptr_spec(res, len),
    {
        let (ptr, _) = from_fat_ptr(self.ptr);
        ptr
    }

    /// What a poll decides, given the future's `AsyncValue`: pending while
    /// it is pending, ready with its result once it is ready. A value of any
    /// other status is refused.
    pub fn poll_value(value: &AsyncValue) -> (res: PollDecision)
        requires
            value.status == FUTURE_STATUS_PENDING || value.status == FUTURE_STATUS_READY,
        ensures
            value.status == FUTURE_STATUS_PENDING ==> res is Pending,
            value.status == FUTURE_STATUS_READY ==> (res matches PollDecision::Ready(p) && p == fat_ptr_spec(value.ptr, value.len)),
    {
        if value.status == FUTURE_STATUS_PENDING {
            PollDecision::Pending
        } else {
            PollDecision::Ready(value.buffer_ptr())
        }
    }
}

/// Whether a length leaves the bits that fat pointers reserve for
/// extensions (the upper eight of the length) clear.
pub open spec fn len_fits(len: u32) -> bool {
    len < 0x0100_0000
}

/// Whether a length leaves the extension bits of a fat pointer clear.
pub fn fat_ptr_len_fits(len: u32) -> (res: bool)
    ensures
        res == len_fits(len),
{
    let res = len & 0xff00_0000u32 == 0;
    assert((len & 0xff00_0000u32 == 0) == (len < 0x0100_0000u32)) by (bit_vector);
    res
}

/// The errors that a plugin reports to its runtime.
#[derive(Debug)]
pub enum FPGuestError {
    /// Deserialization of data failed, possible mismatch between guest and
    /// runtime protocol version.
    SerdeError {
        /// Path to the failed field that failed to serde.
        path: String,
        message: String,
    },
    InvalidFatPtr,
}

impl FPGuestError {
    /// The message of the error.
    pub fn to_string(&self) -> (res: String)
        ensures
            res@ == match *self {
                FPGuestError::SerdeError { path, .. } => "Failed to serde field: "@ + path@,
                FPGuestError::InvalidFatPtr => "Received an invalid `FatPtr`"@,
            },
    {
        match self {
            FPGuestError::SerdeError { path, .. } => {
                let mut s = "Failed to serde field: ".to_owned();
                s.append(path.as_str());
                s
            },
            FPGuestError::InvalidFatPtr => "Received an invalid `FatPtr`".to_owned(),
        }
    }
}

/// The error for a fat pointer from the host whose length runs into the
/// extension bits, if it does.
pub fn check_fat_ptr(fat_ptr: FatPtr) -> (res: Result<(u32, u32), FPGuestError>)
    ensures
        match res {
            Ok((ptr, len)) => fat_ptr == fat_ptr_spec(ptr, len) && len_fits(len),
            Err(e) => e is InvalidFatPtr && exists|p: u32, l: u32| fat_ptr == fat_ptr_spec(p, l) && !len_fits(l),
        },
{
    let (ptr, len) = from_fat_ptr(fat_ptr);
    if !fat_ptr_len_fits(len) {
        return Err(FPGuestError::InvalidFatPtr);
    }
    Ok((ptr, len))
}

/// Converts values to and from the types in which they cross the
/// WebAssembly boundary.
pub trait WasmAbi: Sized {
    type AbiType;

    fn to_abi(self) -> Self::AbiType;

    fn from_abi(value: Self::AbiType) -> Self;
}

impl WasmAbi for bool {
    type AbiType = u8;

    fn to_abi(self) -> (res: u8)
        ensures
            res == (if self { 1u8 } else { 0u8 }),
    {
        if self { 1 } else { 0 }
    }

    fn from_abi(value: u8) -> (res: bool)
        ensures
            res == (value != 0),
    {
        value != 0
    }
}

impl WasmAbi for u8 {
    type AbiType = u8;

    fn to_abi(self) -> (res: u8)
        ensures
            res == self,
    {
        self
    }

    fn from_abi(value: u8) -> (res: u8)
        ensures
            res == value,
    {
        value
    }
}

impl WasmAbi for u32 {
    type AbiType = u32;

    fn to_abi(self) -> (res: u32)
        ensures
            res == self,
    {
        self
    }

    fn from_abi(value: u32) -> (res: u32)
        ensures
            res == value,
    {
        value
    }
}

impl WasmAbi for u64 {
    type AbiType = u64;

    fn to_abi(self) -> (res: u64)
        ensures
            res == self,
    {
        self
    }

    fn from_abi(value: u64) -> (res: u64)
        ensures
            res == value,
    {
        value
    }
}

impl WasmAbi for i32 {
    type AbiType = i32;

    fn to_abi(self) -> (res: i32)
        ensures
            res == self,
    {
        self
    }

    fn from_abi(value: i32) -> (res: i32)
        ensures
            res == value,
    {
        value
    }
}

impl WasmAbi for i64 {
    type AbiType = i64;

    fn to_abi(self) -> (res: i64)
        ensures
            res == self,
    {
        self
    }

    fn from_abi(value: i64) -> (res: i64)
        ensures
            res == value,
    {
        value
    }
}


/// The queue of tasks that the guest's executor runs in order, by task
/// number, and whether it is running them now.
pub struct Queue {
    tasks: Vec<u64>,
    is_spinning: bool,
}

impl View for Queue {
    type V = (Seq<u64>, bool);

    closed spec fn view(&self) -> (Seq<u64>, bool) {
        (self.tasks@, self.is_spinning)
    }
}

impl Queue {
    /// An empty queue, not running.
    pub fn new() -> (res: Self)
        ensures
            res@ == (Seq::<u64>::empty(), false),
    {
        Queue { tasks: Vec::new(), is_spinning: false }
    }

    /// Puts `task` at the back of the queue. The result tells whether the
    /// caller is to run the queue now: it is, unless the queue is running
    /// already, in which case the running loop picks the task up.
    pub fn push_task(&mut self, task: u64) -> (res: bool)
        ensures
            final(self)@.0 == old(self)@.0.push(task),
            final(self)@.1,
            res == !old(self)@.1,
    {
        self.tasks.push(task);
        let was_spinning = self.is_spinning;
        self.is_spinning = true;
        !was_spinning
    }

    /// The next task to run while the queue runs: the one at the front, or
    /// none once the queue is empty, after which it no longer runs.
    pub fn next_task(&mut self) -> (res: Option<u64>)
        ensures
            old(self)@.0.len() == 0 ==> res is None && final(self)@ == (old(self)@.0, false),
            old(self)@.0.len() > 0 ==> res == Some(old(self)@.0[0]) && final(self)@ == (old(self)@.0.drop_first(), old(self)@.1),
    {
        if self.tasks.len() == 0 {
            self.is_spinning = false;
            None
        } else {
            let t = self.tasks.remove(0);
            assert(self.tasks@ =~= old(self)@.0.drop_first());
            Some(t)
        }
    }
}

/// Tasks come out of the queue in the order in which they went in: after
/// `task` is pushed onto a queue holding `tasks`, the queue first hands out
/// the tasks that were there, then `task`.
pub proof fn lemma_queue_first_in_first_out(tasks: Seq<u64>, task: u64)
    ensures
        tasks.len() > 0 ==> tasks.push(task)[0] == tasks[0] && tasks.push(task).drop_first() == tasks.drop_first().push(task),
        tasks.len() == 0 ==> tasks.push(task)[0] == task && tasks.push(task).drop_first().len() == 0,
{
    if tasks.len() > 0 {
        assert(tasks.push(task).drop_first() =~= tasks.drop_first().push(task));
    }
}

} // verus!
