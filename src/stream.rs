//! The backend stream capability, its abstract model, and an in-memory
//! implementation of it.
use vstd::prelude::*;
use crate::errors::{Fault, FaultCode};

verus! {

/// The reference point of a seek, with its offset.
#[derive(Clone, Copy, Debug, PartialEq, Eq, Structural)]
pub enum SeekFrom {
    Start(u64),
    End(i64),
    Current(i64),
}

/// The position a seek asks for, from the current position and length.
pub open spec fn seek_target(to: SeekFrom, pos: nat, len: nat) -> int {
    match to {
        SeekFrom::Start(n) => n as int,
        SeekFrom::End(k) => len + k,
        SeekFrom::Current(k) => pos + k,
    }
}

/// `new` is `old` with `bytes` written at `at`. Where `at` lies past the
/// old end, the bytes of the gap are the backend's choice.
pub open spec fn overwrites(old: Seq<u8>, new: Seq<u8>, at: nat, bytes: Seq<u8>) -> bool {
    &&& new.len() == (if at + bytes.len() > old.len() { at + bytes.len() } else { old.len() })
    &&& forall|i: int| 0 <= i < at && i < old.len() ==> new[i] == old[i]
    &&& forall|i: int| 0 <= i < bytes.len() ==> new[at + i] == bytes[i]
    &&& forall|i: int| at + bytes.len() <= i < old.len() ==> new[i] == old[i]
}

/// `new` is `old` cut or extended to `len` bytes; bytes added past the old
/// end are the backend's choice.
pub open spec fn resized(old: Seq<u8>, new: Seq<u8>, len: nat) -> bool {
    &&& new.len() == len
    &&& forall|i: int| 0 <= i < len && i < old.len() ==> new[i] == old[i]
}

/// A seekable byte stream of a storage backend, modelled as its content
/// and a cursor that may lie past the end.
///
/// Reads may return fewer bytes than asked, as `std::io::Read` allows;
/// writes may be short as well. A commit finalizes buffered writes and may
/// move the cursor anywhere.
pub trait Stream: Sized {
    /// The bytes of the stream.
    spec fn content(&self) -> Seq<u8>;

    /// The cursor position.
    spec fn position(&self) -> nat;

    /// Whether the backend reports faults only where the contracts below
    /// leave room for them: it never fails on its own account.
    spec fn faultless(&self) -> bool;

    /// The largest content length the backend can hold.
    spec fn room(&self) -> nat;

    /// Reads into the front of `buf`, at most its length.
    fn read(&mut self, buf: &mut Vec<u8>) -> (r: Result<usize, Fault>)
        requires
            old(self).content().len() <= u64::MAX,
            old(self).position() <= u64::MAX,
        ensures
            final(self).content().len() <= u64::MAX,
            final(self).position() <= u64::MAX,
            final(self).faultless() == old(self).faultless(),
            final(self).room() == old(self).room(),
            final(self).content() == old(self).content(),
            final(buf)@.len() == old(buf)@.len(),
            old(self).faultless() ==> r is Ok,
            r matches Ok(n) ==> {
                &&& n <= old(buf)@.len()
                &&& final(self).position() == old(self).position() + n
                &&& n > 0 ==> old(self).position() + n <= old(self).content().len()
                &&& n > 0 ==> final(buf)@.take(n as int) == old(self).content().subrange(
                    old(self).position() as int,
                    old(self).position() + n,
                )
                &&& n == 0 ==> old(buf)@.len() == 0 || old(self).position() >= old(self).content().len()
            },
    ;

    /// Writes a prefix of `data` at the cursor.
    fn write(&mut self, data: &[u8]) -> (r: Result<usize, Fault>)
        requires
            old(self).content().len() <= u64::MAX,
            old(self).position() <= u64::MAX,
        ensures
            final(self).content().len() <= u64::MAX,
            final(self).position() <= u64::MAX,
            final(self).faultless() == old(self).faultless(),
            final(self).room() == old(self).room(),
            old(self).faultless() && old(self).position() + data@.len() <= old(self).room() ==> (r matches Ok(n)
                && n == data@.len()),
            r matches Ok(n) ==> {
                &&& n <= data@.len()
                &&& overwrites(old(self).content(), final(self).content(), old(self).position(), data@.take(n as int))
                &&& final(self).position() == old(self).position() + n
            },
    ;

    /// Moves the cursor and returns its new position.
    fn seek(&mut self, to: SeekFrom) -> (r: Result<u64, Fault>)
        requires
            old(self).content().len() <= u64::MAX,
            old(self).position() <= u64::MAX,
        ensures
            final(self).content().len() <= u64::MAX,
            final(self).position() <= u64::MAX,
            final(self).faultless() == old(self).faultless(),
            final(self).room() == old(self).room(),
            final(self).content() == old(self).content(),
            old(self).faultless() && 0 <= seek_target(to, old(self).position(), old(self).content().len()) <= u64::MAX
                ==> r is Ok,
            r matches Ok(p) ==> {
                &&& p == seek_target(to, old(self).position(), old(self).content().len())
                &&& final(self).position() == p
            },
    ;

    /// Cuts or extends the content to `len` bytes; the cursor stays.
    fn set_len(&mut self, len: u64) -> (r: Result<(), Fault>)
        requires
            old(self).content().len() <= u64::MAX,
            old(self).position() <= u64::MAX,
        ensures
            final(self).content().len() <= u64::MAX,
            final(self).position() <= u64::MAX,
            final(self).faultless() == old(self).faultless(),
            final(self).room() == old(self).room(),
            old(self).faultless() && len <= old(self).room() ==> r is Ok,
            r is Ok ==> {
                &&& resized(old(self).content(), final(self).content(), len as nat)
                &&& final(self).position() == old(self).position()
            },
    ;

    /// Finalizes buffered writes. The content stays; the cursor may move.
    fn commit(&mut self)
        requires
            old(self).content().len() <= u64::MAX,
            old(self).position() <= u64::MAX,
        ensures
            final(self).content().len() <= u64::MAX,
            final(self).position() <= u64::MAX,
            final(self).faultless() == old(self).faultless(),
            final(self).room() == old(self).room(),
            final(self).content() == old(self).content(),
    ;

    /// The length of the content, as the backend reports it.
    fn len(&self) -> (r: Result<u64, Fault>)
        ensures
            self.faultless() ==> r is Ok,
            r matches Ok(l) ==> l == self.content().len(),
    ;
}

/// The content length and the cursor are both within `u64`.
pub open spec fn fits<S: Stream>(s: &S) -> bool {
    &&& s.content().len() <= u64::MAX
    &&& s.position() <= u64::MAX
}

/// Reports the cursor position.
pub trait Tell: Stream {
    fn tell(&mut self) -> (r: Result<u64, Fault>)
        requires
            old(self).content().len() <= u64::MAX,
            old(self).position() <= u64::MAX,
        ensures
            final(self).content().len() <= u64::MAX,
            final(self).position() <= u64::MAX,
            final(self).faultless() == old(self).faultless(),
            final(self).room() == old(self).room(),
            final(self).content() == old(self).content(),
            old(self).faultless() ==> r is Ok,
            r matches Ok(p) ==> {
                &&& p == old(self).position()
                &&& final(self).position() == p
            },
    ;
}

impl<S: Stream> Tell for S {
    fn tell(&mut self) -> (r: Result<u64, Fault>) {
        self.seek(SeekFrom::Current(0))
    }
}

/// A stream held in memory. It faults only on a seek before the start or
/// past `u64::MAX`, or on a write or length that memory cannot hold; the gap
/// that a write or an extension past the end leaves is zero-filled.
pub struct MemStream {
    data: Vec<u8>,
    pos: u64,
}

impl MemStream {
    pub fn new(data: Vec<u8>) -> (s: MemStream)
        ensures
            s.content() == data@,
            s.position() == 0,
            s.faultless(),
            s.room() == usize::MAX,
    {
        MemStream { data, pos: 0 }
    }

    /// The content as it now stands.
    pub fn bytes(&self) -> (b: &Vec<u8>)
        ensures
            b@ == self.content(),
    {
        &self.data
    }

    /// The cursor position.
    pub fn cursor(&self) -> (p: u64)
        ensures
            p == self.position(),
    {
        self.pos
    }
}

impl Stream for MemStream {
    closed spec fn content(&self) -> Seq<u8> {
        self.data@
    }

    closed spec fn position(&self) -> nat {
        self.pos as nat
    }

    closed spec fn faultless(&self) -> bool {
        true
    }

    closed spec fn room(&self) -> nat {
        usize::MAX as nat
    }

    fn read(&mut self, buf: &mut Vec<u8>) -> (r: Result<usize, Fault>)
        ensures
            r is Ok,
    {
        let len = self.data.len();
        if buf.len() == 0 || self.pos >= len as u64 {
            return Ok(0);
        }
        let start = self.pos as usize;
        let avail = len - start;
        let n = if buf.len() < avail { buf.len() } else { avail };
        let mut i: usize = 0;
        while i < n
            invariant
                self.data@ == old(self).data@,
                self.pos == old(self).pos,
                start == self.pos,
                len == self.data@.len(),
                start + n <= len,
                n <= buf@.len(),
                i <= n,
                buf@.len() == old(buf)@.len(),
                forall|j: int| 0 <= j < i ==> buf@[j] == self.data@[start + j],
            decreases n - i,
        {
            buf[i] = self.data[start + i];
            i = i + 1;
        }
        self.pos = self.pos + n as u64;
        assert(buf@.take(n as int) =~= self.data@.subrange(start as int, start + n));
        Ok(n)
    }

    fn write(&mut self, data: &[u8]) -> (r: Result<usize, Fault>)
        ensures
            r matches Ok(n) ==> n == data@.len() && forall|i: int|
                old(self).content().len() <= i < old(self).position() ==> final(self).content()[i] == 0,
    {
        let n = data.len();
        if n as u64 > u64::MAX - self.pos || self.pos + n as u64 > usize::MAX as u64 {
            return Err(Fault {
                code: FaultCode::Other,
                description: "write past the largest representable length".to_owned(),
            });
        }
        let start = self.pos as usize;
        let end = start + n;
        let ghost old_data = self.data@;
        if end > self.data.len() {
            self.data.resize(end, 0u8);
        }
        let mut i: usize = 0;
        while i < n
            invariant
                start + n == end,
                end <= self.data@.len(),
                self.data@.len() == (if end > old_data.len() { end as nat } else { old_data.len() }),
                i <= n,
                n == data@.len(),
                forall|j: int| 0 <= j < start && j < old_data.len() ==> self.data@[j] == old_data[j],
                forall|j: int| old_data.len() <= j < start ==> self.data@[j] == 0,
                forall|j: int| 0 <= j < i ==> self.data@[start + j] == data@[j],
                forall|j: int| end <= j < old_data.len() ==> self.data@[j] == old_data[j],
            decreases n - i,
        {
            self.data.set(start + i, data[i]);
            i = i + 1;
        }
        self.pos = end as u64;
        assert(data@.take(n as int) =~= data@);
        Ok(n)
    }

    fn seek(&mut self, to: SeekFrom) -> (r: Result<u64, Fault>)
        ensures
            r is Ok <==> 0 <= seek_target(to, old(self).position(), old(self).content().len()) <= u64::MAX,
    {
        let target: i128 = match to {
            SeekFrom::Start(n) => n as i128,
            SeekFrom::End(k) => self.data.len() as i128 + k as i128,
            SeekFrom::Current(k) => self.pos as i128 + k as i128,
        };
        if target < 0 || target > u64::MAX as i128 {
            return Err(Fault {
                code: FaultCode::InvalidArgument,
                description: "seek to a position outside the stream's range".to_owned(),
            });
        }
        self.pos = target as u64;
        Ok(self.pos)
    }

    fn set_len(&mut self, len: u64) -> (r: Result<(), Fault>)
        ensures
            r is Ok <==> len <= usize::MAX,
            r is Ok ==> forall|i: int| old(self).content().len() <= i < len ==> final(self).content()[i] == 0,
    {
        if len > usize::MAX as u64 {
            return Err(Fault {
                code: FaultCode::Other,
                description: "length larger than memory can hold".to_owned(),
            });
        }
        let n = len as usize;
        if n <= self.data.len() {
            self.data.truncate(n);
        } else {
            self.data.resize(n, 0u8);
        }
        Ok(())
    }

    fn commit(&mut self) {
    }

    fn len(&self) -> (r: Result<u64, Fault>)
        ensures
            r is Ok,
    {
        Ok(self.data.len() as u64)
    }
}

} // verus!
