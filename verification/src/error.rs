//! What can go wrong, and how it is told.

use crate::layout::ShmState;
use crate::text;
use vstd::prelude::*;
use vstd::string::*;

verus! {

/// A failure that the operating system or the queue's name is to blame for.
#[derive(Clone, Copy, Debug, PartialEq, Eq, Structural)]
pub enum IoFailure {
    /// The error code of a POSIX shared-memory or mapping call.
    Os(i32),
    /// The queue's name holds a NUL byte; the value is the first one's position.
    InteriorNul(usize),
}

/// Error type returned by producer and consumer operations.
#[derive(Clone, Copy, Debug, PartialEq, Eq, Structural)]
pub enum ShmError {
    /// The shared-memory queue exists but is not ready for consumers.
    QueueNotReady(ShmState),
    /// Another live producer already owns the queue. The value is its process ID.
    QueueAlreadyAcquired(i32),
    /// The consumer could not find a live producer heartbeat.
    NoActiveProducer,
    /// The producer could not find a live consumer heartbeat.
    NoActiveConsumer,
    /// No unread item is currently available for this consumer.
    NoData,
    /// The shared-memory contents do not look like a valid queue.
    CorruptedQueue,
    /// The queue version does not match the requested version.
    VersionMismatch,
    /// The queue magic number does not match the requested magic number.
    BadMagicNum,
    /// The configured ring-buffer length is not a non-zero power of two.
    LengthNotPowerOfTwo,
    /// The mapped data buffer was not aligned for the payload type.
    UnalignedPtr,
    /// All configured consumer heartbeat slots are currently in use.
    MaxConsumerLimitReached,
    /// A failure of a POSIX shared-memory or mapping call, or of the name.
    Io(IoFailure),
}

/// Convenient result alias for queue operations.
pub type ShmResult<T> = Result<T, ShmError>;

impl vstd::std_specs::convert::FromSpecImpl<IoFailure> for ShmError {
    open spec fn obeys_from_spec() -> bool {
        true
    }

    open spec fn from_spec(value: IoFailure) -> Self {
        ShmError::Io(value)
    }
}

impl From<IoFailure> for ShmError {
    fn from(value: IoFailure) -> (r: Self) {
        ShmError::Io(value)
    }
}

impl ShmError {
    /// The sentence that tells a person what went wrong. `io_text` is what
    /// there is to say of an `Io` failure.
    pub open spec fn text(self, io_text: Seq<char>) -> Seq<char> {
        match self {
            ShmError::QueueNotReady(state) => "shared-memory queue is not ready: "@
                + state.text(),
            ShmError::QueueAlreadyAcquired(pid) =>
                "shared-memory queue is already acquired by producer pid "@ + text::signed_decimal(
                pid as int,
            ),
            ShmError::NoActiveProducer => "no active producer heartbeat found"@,
            ShmError::NoActiveConsumer => "no active consumer heartbeat found"@,
            ShmError::NoData => "no unread data is currently available"@,
            ShmError::CorruptedQueue => "shared-memory queue is corrupted or incompatible"@,
            ShmError::VersionMismatch => "shared-memory queue version does not match"@,
            ShmError::BadMagicNum => "shared-memory queue magic number does not match"@,
            ShmError::LengthNotPowerOfTwo =>
                "shared-memory queue length must be a non-zero power of two"@,
            ShmError::UnalignedPtr => "shared-memory data buffer is not properly aligned"@,
            ShmError::MaxConsumerLimitReached => "maximum consumer limit reached"@,
            ShmError::Io(_) => "shared-memory OS error: "@ + io_text,
        }
    }

    /// The error as a sentence. Only an `Io` failure makes use of `io_text`.
    pub fn message(&self, io_text: &str) -> (r: String)
        ensures
            r@ == self.text(io_text@),
    {
        match *self {
            ShmError::QueueNotReady(state) => {
                let mut out = "shared-memory queue is not ready: ".to_owned();
                out.append(state.name());
                out
            },
            ShmError::QueueAlreadyAcquired(pid) => {
                let mut out =
                    "shared-memory queue is already acquired by producer pid ".to_owned();
                text::push_signed(&mut out, pid);
                out
            },
            ShmError::NoActiveProducer => "no active producer heartbeat found".to_owned(),
            ShmError::NoActiveConsumer => "no active consumer heartbeat found".to_owned(),
            ShmError::NoData => "no unread data is currently available".to_owned(),
            ShmError::CorruptedQueue => {
                "shared-memory queue is corrupted or incompatible".to_owned()
            },
            ShmError::VersionMismatch => "shared-memory queue version does not match".to_owned(),
            ShmError::BadMagicNum => {
                "shared-memory queue magic number does not match".to_owned()
            },
            ShmError::LengthNotPowerOfTwo => {
                "shared-memory queue length must be a non-zero power of two".to_owned()
            },
            ShmError::UnalignedPtr => {
                "shared-memory data buffer is not properly aligned".to_owned()
            },
            ShmError::MaxConsumerLimitReached => "maximum consumer limit reached".to_owned(),
            ShmError::Io(_) => {
                let mut out = "shared-memory OS error: ".to_owned();
                out.append(io_text);
                out
            },
        }
    }

    /// The failure underneath, where there is one.
    pub fn source(&self) -> (r: Option<IoFailure>)
        ensures
            r == match *self {
                ShmError::Io(failure) => Some(failure),
                _ => None,
            },
    {
        match *self {
            ShmError::Io(failure) => Some(failure),
            _ => None,
        }
    }
}

/// An error tells its details: the state that a queue is in, the process that owns it as a
/// number that reads back, and what there is to say of a failure of the system.
pub proof fn law_error_tells_its_details(error: ShmError, io_text: Seq<char>)
    ensures
        ({
            let told = error.text(io_text);
            match error {
                ShmError::QueueNotReady(state) => told == "shared-memory queue is not ready: "@
                    + state.text(),
                ShmError::QueueAlreadyAcquired(pid) => {
                    let before = "shared-memory queue is already acquired by producer pid "@;
                    let number = told.skip(before.len() as int);
                    &&& told == before + number
                    &&& pid < 0 <==> number[0] == '-'
                    &&& pid >= 0 ==> text::number_of(number, 10) == pid
                    &&& pid < 0 ==> text::number_of(number.skip(1), 10) == -pid
                },
                ShmError::Io(_) => told == "shared-memory OS error: "@ + io_text,
                _ => forall|other: Seq<char>| error.text(other) == told,
            }
        }),
{
    if let ShmError::QueueAlreadyAcquired(pid) = error {
        text::law_signed_number_reads_back(pid as int);
        let before = "shared-memory queue is already acquired by producer pid "@;
        assert(error.text(io_text).skip(before.len() as int) =~= text::signed_decimal(pid as int));
    }
}

} // verus!
