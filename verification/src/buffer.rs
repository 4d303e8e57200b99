//! The seekable in-memory byte source that stands in for a redirected file.

use vstd::prelude::*;

verus! {

/// The bytes behind a [`Buffer`]: produced here and owned, or lent by whoever
/// loaded them.
#[derive(Clone, Debug)]
pub enum ByteSource<'a> {
    /// Bytes that the buffer owns.
    Owned(Vec<u8>),
    /// Bytes whose storage belongs to someone else and outlives the buffer.
    Borrowed(&'a [u8]),
}

impl<'a> View for ByteSource<'a> {
    type V = Seq<u8>;

    open spec fn view(&self) -> Seq<u8> {
        match self {
            ByteSource::Owned(bytes) => bytes@,
            ByteSource::Borrowed(bytes) => bytes@,
        }
    }
}

impl<'a> ByteSource<'a> {
    /// The bytes, whichever store holds them.
    pub fn as_slice(&self) -> (bytes: &[u8])
        ensures
            bytes@ == self@,
    {
        match self {
            ByteSource::Owned(bytes) => bytes.as_slice(),
            ByteSource::Borrowed(bytes) => bytes,
        }
    }

    /// The number of bytes.
    pub fn len(&self) -> (n: usize)
        ensures
            n == self@.len(),
    {
        self.as_slice().len()
    }

    /// Whether there are no bytes at all.
    pub fn is_empty(&self) -> (empty: bool)
        ensures
            empty == (self@.len() == 0),
    {
        self.len() == 0
    }
}

/// Where a seek starts from, and how far it goes.
#[derive(Clone, Copy, Debug, PartialEq, Eq)]
pub enum SeekFrom {
    /// An absolute position.
    Start(u64),
    /// An offset from the current position.
    Current(i64),
    /// An offset from the end of the content.
    End(i64),
}

/// Why a seek was refused.
#[derive(Clone, Copy, Debug, PartialEq, Eq)]
pub enum SeekError {
    /// The position asked for is negative or too large to be reported.
    OutOfRange,
}

/// What a [`Buffer`] is: a name, the bytes, who owns them, and a read
/// position.
pub struct BufferView {
    pub name: Seq<u8>,
    pub content: Seq<u8>,
    pub owned: bool,
    pub cursor: nat,
}

impl BufferView {
    /// The position is inside the content or at its end.
    pub open spec fn wf(self) -> bool {
        self.cursor <= self.content.len()
    }

    /// The number of bytes between the position and the end.
    pub open spec fn remaining(self) -> nat {
        (self.content.len() - self.cursor) as nat
    }

    /// How many bytes a read into `room` bytes of space delivers.
    pub open spec fn readable(self, room: nat) -> nat {
        if room <= self.remaining() {
            room
        } else {
            self.remaining()
        }
    }

    /// The bytes that a read into `room` bytes of space delivers.
    pub open spec fn read_bytes(self, room: nat) -> Seq<u8> {
        self.content.subrange(self.cursor as int, (self.cursor + self.readable(room)) as int)
    }

    /// The buffer after a read into `room` bytes of space.
    pub open spec fn after_read(self, room: nat) -> BufferView {
        BufferView { cursor: self.cursor + self.readable(room), ..self }
    }

    /// The position that `pos` asks for, before any bound is applied.
    pub open spec fn seek_target(self, pos: SeekFrom) -> int {
        match pos {
            SeekFrom::Start(at) => at as int,
            SeekFrom::Current(by) => self.cursor + by,
            SeekFrom::End(by) => self.content.len() + by,
        }
    }

    /// A seek to `pos` is accepted: its target is not negative and not
    /// above `limit`.
    pub open spec fn seek_accepted(self, pos: SeekFrom, limit: int) -> bool {
        0 <= self.seek_target(pos) <= limit
    }

    /// The position after an accepted seek to `pos`: the target, or the end
    /// of the content where the target lies beyond it.
    pub open spec fn sought_position(self, pos: SeekFrom) -> nat {
        if self.seek_target(pos) <= self.content.len() {
            self.seek_target(pos) as nat
        } else {
            self.content.len()
        }
    }

    /// The buffer after an accepted seek to `pos`.
    pub open spec fn after_seek(self, pos: SeekFrom) -> BufferView {
        BufferView { cursor: self.sought_position(pos), ..self }
    }

    /// The buffer with its position back at the start.
    pub open spec fn rewound(self) -> BufferView {
        BufferView { cursor: 0, ..self }
    }
}

/// The largest position that a seek reports: the largest signed 64-bit offset.
pub open spec fn max_offset() -> int {
    i64::MAX as int
}

/// A named, seekable, read-only byte source held in memory.
#[derive(Debug)]
pub struct Buffer<'a> {
    name: Vec<u8>,
    object: ByteSource<'a>,
    cursor: u64,
}

impl<'a> View for Buffer<'a> {
    type V = BufferView;

    closed spec fn view(&self) -> BufferView {
        BufferView {
            name: self.name@,
            content: self.object@,
            owned: self.object is Owned,
            cursor: self.cursor as nat,
        }
    }
}

impl<'a> Buffer<'a> {
    #[verifier::type_invariant]
    closed spec fn position_in_content(&self) -> bool {
        self.cursor <= self.object@.len()
    }

    /// A buffer called `name` over `object`, positioned at the start.
    pub fn new(name: Vec<u8>, object: ByteSource<'a>) -> (buffer: Self)
        ensures
            buffer@ == (BufferView {
                name: name@,
                content: object@,
                owned: object is Owned,
                cursor: 0,
            }),
            buffer@.wf(),
    {
        Buffer { name, object, cursor: 0 }
    }

    /// The name the buffer was made with.
    pub fn name(&self) -> (name: &[u8])
        ensures
            name@ == self@.name,
    {
        self.name.as_slice()
    }

    /// The whole content, whatever the position.
    pub fn get_ref(&self) -> (bytes: &[u8])
        ensures
            bytes@ == self@.content,
    {
        self.object.as_slice()
    }

    /// Whether the buffer owns its bytes.
    pub fn is_owned(&self) -> (owned: bool)
        ensures
            owned == self@.owned,
    {
        match self.object {
            ByteSource::Owned(_) => true,
            ByteSource::Borrowed(_) => false,
        }
    }

    /// The read position.
    pub fn position(&self) -> (at: u64)
        ensures
            at == self@.cursor,
            self@.wf(),
    {
        proof {
            use_type_invariant(self);
        }
        self.cursor
    }

    /// The size of the content.
    pub fn length(&self) -> (n: usize)
        ensures
            n == self@.content.len(),
    {
        self.object.len()
    }

    /// The number of bytes from the position to the end.
    pub fn remaining(&self) -> (n: usize)
        ensures
            n == self@.remaining(),
            self@.wf(),
    {
        proof {
            use_type_invariant(self);
        }
        self.object.len() - self.cursor as usize
    }

    /// Puts the position back at the start.
    pub fn rewind(&mut self)
        ensures
            final(self)@ == old(self)@.rewound(),
    {
        self.cursor = 0;
    }

    /// Copies bytes from the position into `dst`, as many as there are and
    /// as `dst` has room for, and moves the position past them. At the end of
    /// the content nothing is copied and 0 is returned.
    pub fn read(&mut self, dst: &mut [u8]) -> (n: usize)
        ensures
            old(self)@.wf(),
            n == old(self)@.readable(old(dst)@.len()),
            final(dst)@ == old(self)@.read_bytes(old(dst)@.len()) + old(dst)@.skip(n as int),
            final(self)@ == old(self)@.after_read(old(dst)@.len()),
    {
        proof {
            use_type_invariant(&*self);
        }
        let start = self.cursor as usize;
        let end = self.object.len();
        let left = end - start;
        let n = if dst.len() <= left {
            dst.len()
        } else {
            left
        };
        let src = self.object.as_slice();
        let mut i: usize = 0;
        while i < n
            invariant
                i <= n,
                start + n <= end,
                end == src@.len(),
                n <= dst@.len(),
                dst@.len() == old(dst)@.len(),
                dst@ == src@.subrange(start as int, start + i) + old(dst)@.skip(i as int),
            decreases n - i,
        {
            dst[i] = src[start + i];
            i += 1;
        }
        self.cursor = (start + n) as u64;
        n
    }

    /// Moves the position to `pos`. A target below zero or above the largest
    /// signed 64-bit offset is refused and leaves the position where it was;
    /// a target beyond the end of the content puts the position at the end.
    pub fn seek(&mut self, pos: SeekFrom) -> (moved: Result<u64, SeekError>)
        ensures
            old(self)@.wf(),
            match moved {
                Ok(at) => {
                    &&& old(self)@.seek_accepted(pos, max_offset())
                    &&& final(self)@ == old(self)@.after_seek(pos)
                    &&& at == final(self)@.cursor
                },
                Err(why) => {
                    &&& !old(self)@.seek_accepted(pos, max_offset())
                    &&& final(self)@ == old(self)@
                    &&& why == SeekError::OutOfRange
                },
            },
    {
        self.seek_within(pos, 0x7fff_ffff_ffff_ffff)
    }

    /// Moves the position to `pos` as [`Buffer::seek`] does, but refuses
    /// every target above `limit`.
    pub fn seek_within(&mut self, pos: SeekFrom, limit: u64) -> (moved: Result<u64, SeekError>)
        ensures
            old(self)@.wf(),
            match moved {
                Ok(at) => {
                    &&& old(self)@.seek_accepted(pos, limit as int)
                    &&& final(self)@ == old(self)@.after_seek(pos)
                    &&& at == final(self)@.cursor
                },
                Err(why) => {
                    &&& !old(self)@.seek_accepted(pos, limit as int)
                    &&& final(self)@ == old(self)@
                    &&& why == SeekError::OutOfRange
                },
            },
    {
        proof {
            use_type_invariant(&*self);
        }
        let end = self.object.len();
        let target: i128 = match pos {
            SeekFrom::Start(at) => at as i128,
            SeekFrom::Current(by) => self.cursor as i128 + by as i128,
            SeekFrom::End(by) => end as i128 + by as i128,
        };
        if target < 0 || target > limit as i128 {
            return Err(SeekError::OutOfRange);
        }
        let at: u64 = if target <= end as i128 {
            target as u64
        } else {
            end as u64
        };
        self.cursor = at;
        Ok(at)
    }
}

/// Seeking and then reading delivers the content from the position that the
/// seek arrived at: the position asked for, or the end of the content where
/// that lies beyond it.
pub proof fn lemma_seek_then_read(buffer: BufferView, pos: SeekFrom, limit: int, room: nat)
    requires
        buffer.wf(),
        buffer.seek_accepted(pos, limit),
    ensures
        buffer.after_seek(pos).wf(),
        buffer.seek_target(pos) <= buffer.content.len() ==> buffer.after_seek(pos).cursor
            == buffer.seek_target(pos),
        buffer.after_seek(pos).read_bytes(room) == buffer.content.skip(
            buffer.after_seek(pos).cursor as int,
        ).take(buffer.after_seek(pos).readable(room) as int),
        buffer.after_seek(pos).read_bytes(room).len() == buffer.after_seek(pos).readable(room),
        buffer.after_seek(pos).after_read(room).wf(),
{
    let sought = buffer.after_seek(pos);
    assert(sought.read_bytes(room) == buffer.content.skip(sought.cursor as int).take(
        sought.readable(room) as int,
    ));
}

/// Rewinding puts the position at the start whatever it was, so the next
/// read delivers the content from its first byte.
pub proof fn lemma_rewind_restarts(buffer: BufferView, room: nat)
    ensures
        buffer.rewound().cursor == 0,
        buffer.rewound().wf(),
        buffer.rewound().content == buffer.content,
        buffer.rewound().read_bytes(room) == buffer.content.take(
            buffer.rewound().readable(room) as int,
        ),
{
}

} // verus!
