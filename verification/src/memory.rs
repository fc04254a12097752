//! Position-addressable byte storage: the seekable-stream capability and the
//! stream backed by a buffer in memory.

use crate::error::BinaryError;
use vstd::prelude::*;

verus! {

/// Who owns the bytes of a stream, and whether a write may extend them.
pub enum Ownership {
    /// The stream owns a growable buffer.
    Owned,
    /// The stream borrows a growable buffer.
    BorrowedGrowable,
    /// The stream borrows a byte range of fixed length.
    BorrowedFixed,
}

/// The mathematical model of a stream: its bytes, its cursor and its
/// ownership mode.
pub struct StreamView {
    /// The whole content of the backing storage.
    pub bytes: Seq<u8>,
    /// The cursor, counted from the first byte. It may lie beyond the end.
    pub position: nat,
    /// The ownership mode, fixed when the stream is made.
    pub ownership: Ownership,
}

impl StreamView {
    /// Whether a write extends the storage.
    pub open spec fn growable(self) -> bool {
        !(self.ownership is BorrowedFixed)
    }

    /// Whether `n` bytes lie between the cursor and the end.
    pub open spec fn readable(self, n: nat) -> bool {
        self.position + n <= self.bytes.len()
    }

    /// The `n` bytes that start at the cursor.
    pub open spec fn window(self, n: nat) -> Seq<u8> {
        self.bytes.subrange(self.position as int, (self.position + n) as int)
    }

    /// The stream with its cursor moved to `to`.
    pub open spec fn after_seek(self, to: nat) -> StreamView {
        StreamView { position: to, ..self }
    }

    /// The stream with its cursor moved to `to` where a position is given,
    /// and as it is where none is.
    pub open spec fn after_seek_if(self, to: Option<usize>) -> StreamView {
        match to {
            Some(position) => self.after_seek(position as nat),
            None => self,
        }
    }

    /// The stream after `n` bytes were read at the cursor.
    pub open spec fn after_read(self, n: nat) -> StreamView {
        StreamView { position: self.position + n, ..self }
    }

    /// Whether `n` bytes may be written: the cursor must stay representable,
    /// and a fixed range takes only writes of exactly its own length.
    pub open spec fn writable(self, n: nat) -> bool {
        &&& self.position + n <= usize::MAX
        &&& self.growable() || n == self.bytes.len()
    }

    /// The offset at which written bytes land: the end of a growable buffer,
    /// the start of a fixed range. The cursor plays no part in it.
    pub open spec fn write_offset(self) -> nat {
        if self.growable() {
            self.bytes.len()
        } else {
            0
        }
    }

    /// The stream after `data` was written: appended to a growable buffer, or
    /// laid over a fixed range from its first byte; the cursor moves on by the
    /// number of bytes written.
    pub open spec fn after_write(self, data: Seq<u8>) -> StreamView {
        StreamView {
            bytes: if self.growable() {
                self.bytes + data
            } else {
                data
            },
            position: self.position + data.len(),
            ownership: self.ownership,
        }
    }
}

/// Byte storage that is addressed through a cursor.
pub trait SeekStream {
    /// The cursor.
    spec fn cursor(&self) -> nat;

    /// The number of bytes in the storage.
    spec fn length(&self) -> nat;

    /// Moves the cursor to `to`, which may lie beyond the end, and returns
    /// the new position. It always succeeds.
    fn seek(&mut self, to: usize) -> (r: Result<usize, BinaryError>)
        ensures
            r == Ok::<usize, BinaryError>(to),
            final(self).cursor() == to,
            final(self).length() == old(self).length(),
    ;

    /// Returns the cursor and changes nothing.
    fn tell(&mut self) -> (r: Result<usize, BinaryError>)
        ensures
            r matches Ok(position) && position == old(self).cursor(),
            final(self).cursor() == old(self).cursor(),
            final(self).length() == old(self).length(),
    ;

    /// Returns the length of the storage, wherever the cursor is.
    fn len(&self) -> (r: Result<usize, BinaryError>)
        ensures
            r matches Ok(length) && length == self.length(),
    ;
}

/// The bytes behind a stream, in one of the three ownership modes.
pub enum Backing<'a> {
    /// A growable buffer that the stream owns.
    Owned(Vec<u8>),
    /// A growable buffer borrowed for the life of the stream.
    Growable(&'a mut Vec<u8>),
    /// A byte range of fixed length borrowed for the life of the stream.
    Fixed(&'a mut [u8]),
}

impl<'a> Backing<'a> {
    /// The bytes held now.
    pub open spec fn bytes(self) -> Seq<u8> {
        match self {
            Backing::Owned(buffer) => buffer@,
            Backing::Growable(buffer) => buffer@,
            Backing::Fixed(range) => range@,
        }
    }

    /// The ownership mode.
    pub open spec fn ownership(self) -> Ownership {
        match self {
            Backing::Owned(_) => Ownership::Owned,
            Backing::Growable(_) => Ownership::BorrowedGrowable,
            Backing::Fixed(_) => Ownership::BorrowedFixed,
        }
    }
}

/// A stream of bytes in memory with a cursor.
///
/// The cursor is checked against the length only when bytes are read; it may
/// be moved anywhere.
pub struct MemoryStream<'a> {
    /// The bytes.
    pub backing: Backing<'a>,
    /// The cursor.
    pub position: usize,
}

impl<'a> View for MemoryStream<'a> {
    type V = StreamView;

    open spec fn view(&self) -> StreamView {
        StreamView {
            bytes: self.backing.bytes(),
            position: self.position as nat,
            ownership: self.backing.ownership(),
        }
    }
}

/// Copies `bytes` over a range of the same length.
fn overwrite(range: &mut [u8], bytes: &[u8])
    requires
        old(range)@.len() == bytes@.len(),
    ensures
        final(range)@ == bytes@,
{
    let mut copied: usize = 0;
    while copied < bytes.len()
        invariant
            copied <= bytes@.len(),
            range@.len() == bytes@.len(),
            forall|j: int| 0 <= j < copied ==> range@[j] == bytes@[j],
        decreases bytes@.len() - copied,
    {
        range[copied] = bytes[copied];
        copied += 1;
    }
}

impl<'a> MemoryStream<'a> {
    /// Makes a stream that owns an empty growable buffer.
    pub fn new() -> (stream: Self)
        ensures
            stream.backing is Owned,
            stream@.bytes == Seq::<u8>::empty(),
            stream@.position == 0,
    {
        MemoryStream { backing: Backing::Owned(Vec::new()), position: 0 }
    }

    /// Makes a stream that owns `buffer`, with the cursor at its start.
    pub fn new_owned(buffer: Vec<u8>) -> (stream: Self)
        ensures
            stream.backing == Backing::Owned(buffer),
            stream.position == 0,
    {
        MemoryStream { backing: Backing::Owned(buffer), position: 0 }
    }

    /// Makes a stream over a borrowed growable buffer, with the cursor at its
    /// start. What the stream writes is in `buffer` when the borrow ends.
    pub fn new_vec(buffer: &'a mut Vec<u8>) -> (stream: Self)
        ensures
            stream.backing matches Backing::Growable(held) && *held == *old(buffer) && *final(held)
                == *final(buffer),
            stream.position == 0,
    {
        MemoryStream { backing: Backing::Growable(buffer), position: 0 }
    }

    /// Makes a stream over a borrowed byte range of fixed length, with the
    /// cursor at its start. What the stream writes is in `range` when the
    /// borrow ends.
    pub fn new_slice(range: &'a mut [u8]) -> (stream: Self)
        ensures
            stream.backing matches Backing::Fixed(held) && held@ == old(range)@ && final(held)@
                == final(range)@,
            stream.position == 0,
    {
        MemoryStream { backing: Backing::Fixed(range), position: 0 }
    }

    /// The bytes of the stream as a slice.
    fn as_slice(&self) -> (bytes: &[u8])
        ensures
            bytes@ == self@.bytes,
    {
        match &self.backing {
            Backing::Owned(buffer) => buffer.as_slice(),
            Backing::Growable(buffer) => buffer.as_slice(),
            Backing::Fixed(range) => range,
        }
    }

    /// Tells whether a write extends the storage.
    pub fn is_growable(&self) -> (growable: bool)
        ensures
            growable == self@.growable(),
    {
        match &self.backing {
            Backing::Owned(_) => true,
            Backing::Growable(_) => true,
            Backing::Fixed(_) => false,
        }
    }

    /// Tells whether `count` bytes may be written.
    pub fn can_write(&self, count: usize) -> (ok: bool)
        ensures
            ok == self@.writable(count as nat),
    {
        count <= usize::MAX - self.position && (self.is_growable() || count
            == self.as_slice().len())
    }

    /// Returns a copy of the whole content, wherever the cursor is.
    pub fn get_buffer(&self) -> (bytes: Vec<u8>)
        ensures
            bytes@ == self@.bytes,
    {
        vstd::slice::slice_to_vec(self.as_slice())
    }

    /// Ends the stream and returns its content: the owned buffer itself, or a
    /// copy of a borrowed one.
    pub fn into_vec(self) -> (bytes: Vec<u8>)
        ensures
            bytes@ == self@.bytes,
    {
        match self.backing {
            Backing::Owned(buffer) => buffer,
            Backing::Growable(buffer) => vstd::slice::slice_to_vec(buffer.as_slice()),
            Backing::Fixed(range) => vstd::slice::slice_to_vec(range),
        }
    }

    /// Copies the bytes at the cursor into `buffer`, filling it, and moves
    /// the cursor past them.
    ///
    /// Fails with [`BinaryError::ReadPastEnd`] when fewer bytes than `buffer`
    /// holds lie between the cursor and the end; the cursor and `buffer` are
    /// then as they were.
    pub fn read(&mut self, buffer: &mut [u8]) -> (r: Result<usize, BinaryError>)
        ensures
            final(self).backing == old(self).backing,
            (match r {
                Ok(count) => {
                    &&& old(self)@.readable(old(buffer)@.len())
                    &&& count == old(buffer)@.len()
                    &&& final(buffer)@ == old(self)@.window(old(buffer)@.len())
                    &&& final(self)@ == old(self)@.after_read(old(buffer)@.len())
                },
                Err(error) => {
                    &&& !old(self)@.readable(old(buffer)@.len())
                    &&& error == BinaryError::ReadPastEnd
                    &&& final(buffer)@ == old(buffer)@
                    &&& final(self)@ == old(self)@
                },
            }),
    {
        let count = buffer.len();
        let start = self.position;
        let source = self.as_slice();
        let total = source.len();
        if count > total || start > total - count {
            return Err(BinaryError::ReadPastEnd);
        }
        let mut copied: usize = 0;
        while copied < count
            invariant
                copied <= count,
                count == buffer@.len(),
                start + count <= total,
                total == source@.len(),
                forall|j: int| 0 <= j < copied ==> buffer@[j] == source@[start + j],
            decreases count - copied,
        {
            buffer[copied] = source[start + copied];
            copied += 1;
        }
        self.position = start + count;
        Ok(count)
    }

    /// Writes `bytes` and moves the cursor on by their number.
    ///
    /// A growable buffer takes them at its end, wherever the cursor is. A
    /// fixed range is overwritten from its first byte, wherever the cursor
    /// is, and takes only as many bytes as it is long.
    ///
    /// Where the buffer is borrowed, the borrow still ends in the same place:
    /// its owner finds what was written.
    pub fn write(&mut self, bytes: &[u8]) -> (r: Result<usize, BinaryError>)
        requires
            old(self)@.writable(bytes@.len()),
        ensures
            r == Ok::<usize, BinaryError>(bytes@.len() as usize),
            final(self)@ == old(self)@.after_write(bytes@),
            old(self).backing matches Backing::Growable(before)
                ==> final(self).backing matches Backing::Growable(after)
                && *final(after) == *final(before),
            old(self).backing matches Backing::Fixed(before)
                ==> final(self).backing matches Backing::Fixed(after)
                && final(after)@ == final(before)@,
    {
        match &mut self.backing {
            Backing::Owned(buffer) => {
                buffer.extend_from_slice(bytes);
                assert(buffer@ =~= old(self)@.bytes + bytes@);
            },
            Backing::Growable(buffer) => {
                buffer.extend_from_slice(bytes);
                assert(buffer@ =~= old(self)@.bytes + bytes@);
            },
            Backing::Fixed(range) => overwrite(range, bytes),
        }
        self.position += bytes.len();
        Ok(bytes.len())
    }
}

impl<'a> From<MemoryStream<'a>> for Vec<u8> {
    /// Ends the stream and gives its content, as [`MemoryStream::into_vec`]
    /// does.
    fn from(stream: MemoryStream<'a>) -> (bytes: Vec<u8>)
        ensures
            bytes@ == stream@.bytes,
    {
        stream.into_vec()
    }
}

/// No spec function names the vector that the conversion builds: what it
/// holds is stated by the `ensures` of `from`.
impl<'a> vstd::std_specs::convert::FromSpecImpl<MemoryStream<'a>> for Vec<u8> {
    open spec fn obeys_from_spec() -> bool {
        false
    }

    open spec fn from_spec(stream: MemoryStream<'a>) -> Vec<u8> {
        arbitrary()
    }
}

impl<'a> SeekStream for MemoryStream<'a> {
    open spec fn cursor(&self) -> nat {
        self.position as nat
    }

    open spec fn length(&self) -> nat {
        self.backing.bytes().len()
    }

    fn seek(&mut self, to: usize) -> (r: Result<usize, BinaryError>)
        ensures
            final(self).backing == old(self).backing,
            final(self)@ == old(self)@.after_seek(to as nat),
    {
        self.position = to;
        Ok(self.position)
    }

    fn tell(&mut self) -> (r: Result<usize, BinaryError>)
        ensures
            *final(self) == *old(self),
    {
        Ok(self.position)
    }

    fn len(&self) -> (r: Result<usize, BinaryError>) {
        Ok(self.as_slice().len())
    }
}

/// Moving the cursor and asking for it gives the position that was set, and
/// leaves the bytes alone.
pub proof fn lemma_seek_then_tell(stream: StreamView, to: nat)
    ensures
        stream.after_seek(to).position == to,
        stream.after_seek(to).bytes == stream.bytes,
        stream.after_seek(to).ownership == stream.ownership,
{
}

/// A read of more bytes than remain is refused; a read of exactly the bytes
/// that remain is served and leaves the cursor at the end.
pub proof fn lemma_read_bounds(stream: StreamView, n: nat)
    requires
        stream.position <= stream.bytes.len(),
    ensures
        n > stream.bytes.len() - stream.position ==> !stream.readable(n),
        n == stream.bytes.len() - stream.position ==> stream.readable(n) && stream.after_read(
            n,
        ).position == stream.bytes.len(),
{
}

/// A cursor beyond the end leaves nothing to read, not even zero bytes.
pub proof fn lemma_read_beyond_end(stream: StreamView, n: nat)
    requires
        stream.position > stream.bytes.len(),
    ensures
        !stream.readable(n),
{
}

/// What was written can be read back at the offset where it landed.
pub proof fn lemma_write_then_read(stream: StreamView, data: Seq<u8>)
    requires
        stream.growable() || data.len() == stream.bytes.len(),
    ensures
        ({
            let back = stream.after_write(data).after_seek(stream.write_offset());
            &&& back.readable(data.len())
            &&& back.window(data.len()) == data
            &&& back.after_read(data.len()).position == back.bytes.len()
        }),
{
    let back = stream.after_write(data).after_seek(stream.write_offset());
    assert(back.window(data.len()) =~= data);
}

} // verus!
