//! What the reader takes on trust: the shared, locked source and the calls
//! that read from it.
//!
//! Nothing in this file is proved. A source may hand out any bytes and fail
//! at any call, so the contracts here say next to nothing of what comes back;
//! what is made of it is decided, and proved, elsewhere.

use vstd::prelude::*;
use std::io::Read;
use std::io::Seek;
use std::io::SeekFrom;
use std::sync::Arc;
use std::sync::Mutex;
use std::sync::MutexGuard;
use io_partition::PartitionMutex;

verus! {

/// `std::io::Error`, carried through as it came.
#[verifier::external_type_specification]
#[verifier::external_body]
pub struct ExIoError(std::io::Error);

/// `std::io::SeekFrom`, with its three variants as they are: the place that
/// a seek starts from, and the distance.
#[verifier::external_type_specification]
pub struct ExSeekFrom(SeekFrom);

/// `std::sync::Mutex`, the lock round the source.
#[verifier::external_type_specification]
#[verifier::external_body]
#[verifier::reject_recursive_types(T)]
pub struct ExMutex<T: ?Sized>(Mutex<T>);

/// `std::sync::MutexGuard`, the source while it is locked.
#[verifier::external_type_specification]
#[verifier::external_body]
#[verifier::reject_recursive_types(T)]
pub struct ExMutexGuard<'a, T: ?Sized + 'a>(MutexGuard<'a, T>);

/// `Mutex::new`: a lock that nobody holds, round the value given.
pub assume_specification<T>[ Mutex::<T>::new ](t: T) -> (mutex: Mutex<T>)
;

/// `Arc::clone`: one more handle on the same lock.
#[verifier::external_body]
pub(crate) fn share<F>(file: &Arc<Mutex<F>>) -> (shared: Arc<Mutex<F>>)
    ensures
        shared == *file,
{
    Arc::clone(file)
}

/// `Mutex::lock`: waits until the lock is free and takes it; `None` where a
/// thread panicked while it held the lock. A thread that holds the lock
/// already must not call this: it would wait for itself. The archive locks
/// only a lock that it has just made.
#[verifier::external_body]
pub(crate) fn lock<'a, F>(file: &'a Arc<Mutex<F>>) -> (guard: Option<MutexGuard<'a, F>>) {
    file.lock().ok()
}

/// `Seek::seek`: moves the source to `target` and gives the new position,
/// counted from the start. Of the position nothing is claimed.
#[verifier::external_body]
pub(crate) fn seek<F: Seek>(source: &mut MutexGuard<'_, F>, target: SeekFrom) -> (position: Result<
    u64,
    std::io::Error,
>) {
    source.seek(target)
}

/// `Read::read_exact`: the next `length` bytes of the source, or an error
/// where it cannot give that many. Claimed is the number of the bytes, not
/// what they are.
#[verifier::external_body]
pub(crate) fn read_chunk<F: Read>(source: &mut MutexGuard<'_, F>, length: usize) -> (chunk: Result<
    Vec<u8>,
    std::io::Error,
>)
    ensures
        chunk matches Ok(bytes) ==> bytes@.len() == length,
{
    let mut buffer = vec![0u8; length];
    source.read_exact(&mut buffer)?;
    Ok(buffer)
}

/// `PartitionMutex::new`: a reader of the `length` bytes of `file` that
/// start at `start`, or the error that the source or a poisoned lock gave.
/// It takes the lock while it looks at the source, and waits for it. Of the
/// reader nothing is claimed but that it reads and seeks.
#[verifier::external_body]
pub(crate) fn open_partition<F: Read + Seek>(
    file: Arc<Mutex<F>>,
    start: u64,
    length: u64,
) -> (partition: Result<impl Read + Seek, std::io::Error>) {
    PartitionMutex::new(file, start, length)
}

} // verus!
