//! The intercepted entry points of the asset API, as far as they decide and
//! compute. Each takes the handle it was called with and answers `None`
//! where the handle is not served from a buffer: the call then belongs to the
//! real asset API. Where it answers `Some`, that is what the call returns.

use crate::buffer::{Buffer, BufferView, SeekFrom};
use crate::redirect::{slot_after_close, FileLoader};
use crate::registry::{Handle, HandleRegistry};
use vstd::prelude::*;

verus! {

/// `libc::SEEK_SET`, the `whence` of a seek from the start: 0.
#[verifier::external_body]
fn whence_set() -> (whence: i32)
    ensures
        whence == 0,
{
    libc::SEEK_SET
}

/// `libc::SEEK_CUR`, the `whence` of a seek from the current position: 1.
#[verifier::external_body]
fn whence_cur() -> (whence: i32)
    ensures
        whence == 1,
{
    libc::SEEK_CUR
}

/// `libc::SEEK_END`, the `whence` of a seek from the end: 2.
#[verifier::external_body]
fn whence_end() -> (whence: i32)
    ensures
        whence == 2,
{
    libc::SEEK_END
}

/// The value by which every entry point reports a failure.
pub open spec fn failure() -> int {
    -1
}

/// The seek that `offset` and `whence` ask for: from the start for `whence`
/// 0, where `offset` must not be negative, from the current position for 1,
/// from the end for 2, and none for any other `whence`.
pub open spec fn seek_request(offset: i64, whence: i32) -> Option<SeekFrom> {
    if whence == 0 {
        if offset >= 0 {
            Some(SeekFrom::Start(offset as u64))
        } else {
            None
        }
    } else if whence == 1 {
        Some(SeekFrom::Current(offset))
    } else if whence == 2 {
        Some(SeekFrom::End(offset))
    } else {
        None
    }
}

/// The seek that `offset` and `whence` ask for is one that `file` accepts
/// under `limit`.
pub open spec fn seek_succeeds(file: BufferView, offset: i64, whence: i32, limit: int) -> bool {
    seek_request(offset, whence) matches Some(pos) && file.seek_accepted(pos, limit)
}

/// What a seek on `file` returns: the new position, or the failure value.
pub open spec fn seek_result(file: BufferView, offset: i64, whence: i32, limit: int) -> int {
    if seek_succeeds(file, offset, whence, limit) {
        file.sought_position(seek_request(offset, whence)->0) as int
    } else {
        failure()
    }
}

/// `file` after a seek: moved where the seek succeeds, as it was otherwise.
pub open spec fn seek_effect(file: BufferView, offset: i64, whence: i32, limit: int) -> BufferView {
    if seek_succeeds(file, offset, whence, limit) {
        file.after_seek(seek_request(offset, whence)->0)
    } else {
        file
    }
}

/// `value` where it is at most `limit`, the failure value otherwise.
pub open spec fn fitted(value: int, limit: int) -> int {
    if value <= limit {
        value
    } else {
        failure()
    }
}

fn seek_bounded(offset: i64, whence: i32, file: &mut Buffer, limit: i64) -> (at: i64)
    requires
        0 <= limit,
    ensures
        at == seek_result(old(file)@, offset, whence, limit as int),
        final(file)@ == seek_effect(old(file)@, offset, whence, limit as int),
{
    let pos = if whence == whence_set() {
        if offset < 0 {
            return -1;
        }
        SeekFrom::Start(offset as u64)
    } else if whence == whence_cur() {
        SeekFrom::Current(offset)
    } else if whence == whence_end() {
        SeekFrom::End(offset)
    } else {
        return -1;
    };
    match file.seek_within(pos, limit as u64) {
        Ok(at) => at as i64,
        Err(_) => -1,
    }
}

/// Seeks in `file` as the asset API's seek does: `whence` says where
/// `offset` counts from. Returns the new position, or -1 where `whence` is
/// none of the three, where the position asked for is negative and where it
/// is larger than a signed 64-bit offset; the position of `file` is then
/// left as it was.
pub fn seek_facade(offset: i64, whence: i32, file: &mut Buffer) -> (at: i64)
    ensures
        at == seek_result(old(file)@, offset, whence, i64::MAX as int),
        final(file)@ == seek_effect(old(file)@, offset, whence, i64::MAX as int),
{
    seek_bounded(offset, whence, file, i64::MAX)
}

/// Takes note of an open: where the path was redirected, `resolved` holds
/// its buffer, and `aasset`, the handle that the real open returned, is
/// served from it from now on. Nothing changes for a path that was not
/// redirected.
pub fn open<'a>(registry: &mut HandleRegistry<'a>, aasset: Handle, resolved: Option<Buffer<'a>>)
    ensures
        final(registry)@ == match resolved {
            Some(buffer) => old(registry)@.insert(aasset, buffer@),
            None => old(registry)@,
        },
{
    match resolved {
        Some(buffer) => registry.register(aasset, buffer),
        None => {},
    }
}

/// The seek with 64-bit offsets.
pub fn seek64(registry: &mut HandleRegistry, aasset: Handle, off: i64, whence: i32) -> (at: Option<
    i64,
>)
    ensures
        match at {
            Some(at) => {
                &&& old(registry)@.contains_key(aasset)
                &&& at == seek_result(old(registry)@[aasset], off, whence, i64::MAX as int)
                &&& final(registry)@ == old(registry)@.insert(
                    aasset,
                    seek_effect(old(registry)@[aasset], off, whence, i64::MAX as int),
                )
            },
            None => !old(registry)@.contains_key(aasset) && final(registry)@ == old(registry)@,
        },
{
    let file = match registry.lookup_mut(aasset) {
        Some(file) => file,
        None => {
            return None;
        },
    };
    Some(seek_facade(off, whence, file))
}

/// The seek with 32-bit offsets. A position that no 32-bit offset can report
/// is refused like any other that is out of range.
pub fn seek(registry: &mut HandleRegistry, aasset: Handle, off: i32, whence: i32) -> (at: Option<
    i32,
>)
    ensures
        match at {
            Some(at) => {
                &&& old(registry)@.contains_key(aasset)
                &&& at == seek_result(old(registry)@[aasset], off as i64, whence, i32::MAX as int)
                &&& final(registry)@ == old(registry)@.insert(
                    aasset,
                    seek_effect(old(registry)@[aasset], off as i64, whence, i32::MAX as int),
                )
            },
            None => !old(registry)@.contains_key(aasset) && final(registry)@ == old(registry)@,
        },
{
    let file = match registry.lookup_mut(aasset) {
        Some(file) => file,
        None => {
            return None;
        },
    };
    Some(seek_bounded(off as i64, whence, file, 0x7fff_ffff) as i32)
}

/// Reads from the buffer of `aasset` into `buf`. Returns the number of bytes
/// read, 0 at the end of the content, or -1 where that number is larger than
/// the call can report; the bytes are read all the same.
pub fn read(registry: &mut HandleRegistry, aasset: Handle, buf: &mut [u8]) -> (count: Option<i32>)
    ensures
        match count {
            Some(count) => {
                &&& old(registry)@.contains_key(aasset)
                &&& count == fitted(
                    old(registry)@[aasset].readable(old(buf)@.len()) as int,
                    i32::MAX as int,
                )
                &&& final(buf)@ == old(registry)@[aasset].read_bytes(old(buf)@.len()) + old(
                    buf,
                )@.skip(old(registry)@[aasset].readable(old(buf)@.len()) as int)
                &&& final(registry)@ == old(registry)@.insert(
                    aasset,
                    old(registry)@[aasset].after_read(old(buf)@.len()),
                )
            },
            None => {
                &&& !old(registry)@.contains_key(aasset)
                &&& final(registry)@ == old(registry)@
                &&& final(buf)@ == old(buf)@
            },
        },
{
    let file = match registry.lookup_mut(aasset) {
        Some(file) => file,
        None => {
            return None;
        },
    };
    let read_total = file.read(buf);
    Some(fit_i32(read_total))
}

fn fit_i32(value: usize) -> (fit: i32)
    ensures
        fit == fitted(value as int, i32::MAX as int),
{
    if value <= 0x7fff_ffff {
        value as i32
    } else {
        -1
    }
}

fn fit_i64(value: usize) -> (fit: i64)
    ensures
        fit == fitted(value as int, i64::MAX as int),
{
    if value as u64 <= 0x7fff_ffff_ffff_ffff {
        value as i64
    } else {
        -1
    }
}

/// The size of the content as a 32-bit offset, or -1 where it does not fit.
pub fn len(registry: &HandleRegistry, aasset: Handle) -> (size: Option<i32>)
    ensures
        match size {
            Some(size) => registry@.contains_key(aasset) && size == fitted(
                registry@[aasset].content.len() as int,
                i32::MAX as int,
            ),
            None => !registry@.contains_key(aasset),
        },
{
    match registry.lookup(aasset) {
        Some(file) => Some(fit_i32(file.length())),
        None => None,
    }
}

/// The size of the content as a 64-bit offset, or -1 where it does not fit.
pub fn len64(registry: &HandleRegistry, aasset: Handle) -> (size: Option<i64>)
    ensures
        match size {
            Some(size) => registry@.contains_key(aasset) && size == fitted(
                registry@[aasset].content.len() as int,
                i64::MAX as int,
            ),
            None => !registry@.contains_key(aasset),
        },
{
    match registry.lookup(aasset) {
        Some(file) => Some(fit_i64(file.length())),
        None => None,
    }
}

/// The number of bytes from the position to the end as a 32-bit offset, or
/// -1 where it does not fit.
pub fn rem(registry: &HandleRegistry, aasset: Handle) -> (left: Option<i32>)
    ensures
        match left {
            Some(left) => registry@.contains_key(aasset) && left == fitted(
                registry@[aasset].remaining() as int,
                i32::MAX as int,
            ),
            None => !registry@.contains_key(aasset),
        },
{
    match registry.lookup(aasset) {
        Some(file) => Some(fit_i32(file.remaining())),
        None => None,
    }
}

/// The number of bytes from the position to the end as a 64-bit offset, or
/// -1 where it does not fit.
pub fn rem64(registry: &HandleRegistry, aasset: Handle) -> (left: Option<i64>)
    ensures
        match left {
            Some(left) => registry@.contains_key(aasset) && left == fitted(
                registry@[aasset].remaining() as int,
                i64::MAX as int,
            ),
            None => !registry@.contains_key(aasset),
        },
{
    match registry.lookup(aasset) {
        Some(file) => Some(fit_i64(file.remaining())),
        None => None,
    }
}

/// Takes note of a close: the handle leaves the registry, and its buffer
/// goes to `loader`, which keeps it for the next open of the same path.
/// Returns whether the handle was served from a buffer.
pub fn close<'a>(registry: &mut HandleRegistry<'a>, loader: &mut FileLoader<'a>, aasset: Handle) -> (served:
    bool)
    ensures
        served == old(registry)@.contains_key(aasset),
        final(registry)@ == old(registry)@.remove(aasset),
        final(loader)@ == if served {
            slot_after_close(old(registry)@[aasset])
        } else {
            old(loader)@
        },
{
    match registry.retire(aasset) {
        Some(buffer) => {
            loader.retire(buffer);
            true
        },
        None => false,
    }
}

/// The whole content of the buffer of `aasset`.
pub fn get_buffer<'r>(registry: &'r HandleRegistry, aasset: Handle) -> (bytes: Option<&'r [u8]>)
    ensures
        match bytes {
            Some(bytes) => registry@.contains_key(aasset) && bytes@ == registry@[aasset].content,
            None => !registry@.contains_key(aasset),
        },
{
    match registry.lookup(aasset) {
        Some(file) => Some(file.get_ref()),
        None => None,
    }
}

/// A buffer has no file descriptor: asking for one fails with -1.
pub fn fd_dummy(registry: &HandleRegistry, aasset: Handle) -> (fd: Option<i32>)
    ensures
        fd == if registry@.contains_key(aasset) {
            Some(-1i32)
        } else {
            None
        },
{
    if registry.contains(aasset) {
        Some(-1)
    } else {
        None
    }
}

/// As [`fd_dummy`], for the call with 64-bit offsets.
pub fn fd_dummy64(registry: &HandleRegistry, aasset: Handle) -> (fd: Option<i32>)
    ensures
        fd == if registry@.contains_key(aasset) {
            Some(-1i32)
        } else {
            None
        },
{
    fd_dummy(registry, aasset)
}

/// A buffer is not memory that the asset API allocated: the answer is 0.
pub fn is_alloc(registry: &HandleRegistry, aasset: Handle) -> (allocated: Option<i32>)
    ensures
        allocated == if registry@.contains_key(aasset) {
            Some(0i32)
        } else {
            None
        },
{
    if registry.contains(aasset) {
        Some(0)
    } else {
        None
    }
}

/// A seek that is out of range reports the failure value and moves
/// nothing: so it is for a position below zero, for one above the limit, and
/// for a `whence` that names no origin. A seek that succeeds reports the
/// position it arrived at, which is never the failure value.
pub proof fn lemma_refused_seek_keeps_position(
    file: BufferView,
    offset: i64,
    whence: i32,
    limit: int,
)
    requires
        file.wf(),
        0 <= limit,
    ensures
        seek_request(offset, whence) is None ==> !seek_succeeds(file, offset, whence, limit),
        seek_request(offset, whence) matches Some(pos) ==> (seek_succeeds(
            file,
            offset,
            whence,
            limit,
        ) <==> 0 <= file.seek_target(pos) <= limit),
        !seek_succeeds(file, offset, whence, limit) ==> {
            &&& seek_result(file, offset, whence, limit) == failure()
            &&& seek_effect(file, offset, whence, limit) == file
        },
        seek_succeeds(file, offset, whence, limit) ==> {
            &&& 0 <= seek_result(file, offset, whence, limit) <= limit
            &&& seek_result(file, offset, whence, limit) != failure()
            &&& seek_effect(file, offset, whence, limit).cursor == seek_result(
                file,
                offset,
                whence,
                limit,
            )
            &&& seek_effect(file, offset, whence, limit).wf()
        },
{
}

} // verus!
