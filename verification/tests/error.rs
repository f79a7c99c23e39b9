use shmfeeder::error::{IoFailure, ShmError};
use shmfeeder::layout::ShmState;

#[test]
fn messages_are_sentences() {
    let cases = [
        (
            ShmError::QueueNotReady(ShmState::ShuttingDown),
            "shared-memory queue is not ready: ShuttingDown",
        ),
        (
            ShmError::QueueAlreadyAcquired(4711),
            "shared-memory queue is already acquired by producer pid 4711",
        ),
        (
            ShmError::QueueAlreadyAcquired(0),
            "shared-memory queue is already acquired by producer pid 0",
        ),
        (
            ShmError::QueueAlreadyAcquired(i32::MIN),
            "shared-memory queue is already acquired by producer pid -2147483648",
        ),
        (ShmError::NoActiveProducer, "no active producer heartbeat found"),
        (ShmError::NoActiveConsumer, "no active consumer heartbeat found"),
        (ShmError::NoData, "no unread data is currently available"),
        (ShmError::CorruptedQueue, "shared-memory queue is corrupted or incompatible"),
        (ShmError::VersionMismatch, "shared-memory queue version does not match"),
        (ShmError::BadMagicNum, "shared-memory queue magic number does not match"),
        (
            ShmError::LengthNotPowerOfTwo,
            "shared-memory queue length must be a non-zero power of two",
        ),
        (ShmError::UnalignedPtr, "shared-memory data buffer is not properly aligned"),
        (ShmError::MaxConsumerLimitReached, "maximum consumer limit reached"),
        (ShmError::Io(IoFailure::Os(2)), "shared-memory OS error: No such file"),
    ];
    for (error, text) in cases {
        assert_eq!(error.message("No such file"), text);
    }
}

#[test]
fn only_io_failures_have_a_source() {
    let failure = IoFailure::InteriorNul(3);
    assert_eq!(ShmError::from(failure), ShmError::Io(failure));
    assert_eq!(ShmError::from(failure).source(), Some(failure));
    assert_eq!(ShmError::NoData.source(), None);
}
