use vstd::prelude::*;

use crate::sink::Sink;

verus! {

/// The buffered length at which a write forwards what is held before
/// taking the new bytes.
pub const CAPACITY: usize = 1024 * 1024;

/// Whether `incoming` more bytes may join `held` bytes without a flush.
pub open spec fn fits(held: nat, incoming: nat) -> bool {
    held + incoming < CAPACITY
}

/// What the buffer holds after a successful write of `bytes` onto `held`:
/// the two joined when they fit, else the new bytes alone.
pub open spec fn held_after_write(held: Seq<u8>, bytes: Seq<u8>) -> Seq<u8> {
    if fits(held.len(), bytes.len()) {
        held + bytes
    } else {
        bytes
    }
}

/// Wraps a sink and buffers what is written to it.
///
/// Bytes are held in memory until a write would bring the buffer to
/// `CAPACITY` bytes or beyond, or until `flush` is called. Nothing is
/// flushed when the writer is dropped: call `flush` first.
pub struct WriteBufVec<T: Sink> {
    len: usize,
    buf: Vec<u8>,
    writer: T,
    calls: Ghost<Seq<(Seq<u8>, Result<usize, std::io::Error>)>>,
}

impl<T: Sink> WriteBufVec<T> {
    /// The tracked length agrees with the buffer.
    pub closed spec fn wf(&self) -> bool {
        self.len == self.buf@.len()
    }

    /// The bytes accepted and not yet forwarded, oldest first.
    pub closed spec fn buffered(&self) -> Seq<u8> {
        self.buf@
    }

    /// Every call made on the sink, oldest first: the bytes handed over,
    /// and what the sink returned.
    pub closed spec fn sink_calls(&self) -> Seq<(Seq<u8>, Result<usize, std::io::Error>)> {
        self.calls@
    }

    /// What the sink returned to the latest call made on it.
    pub open spec fn last_result(&self) -> Result<usize, std::io::Error> {
        self.sink_calls().last().1
    }

    /// The wrapped sink.
    pub closed spec fn sink(&self) -> T {
        self.writer
    }

    /// Outputs a new writer wrapping around `writer`, with nothing buffered.
    pub fn new(writer: T) -> (r: Self)
        ensures
            r.wf(),
            r.buffered() == Seq::<u8>::empty(),
            r.sink_calls().len() == 0,
            r.sink() == writer,
    {
        WriteBufVec { len: 0, buf: Vec::new(), writer, calls: Ghost(Seq::empty()) }
    }

    /// The number of bytes currently inside the buffer.
    pub fn len(&self) -> (r: usize)
        requires
            self.wf(),
        ensures
            r == self.buffered().len(),
    {
        self.len
    }

    /// The wrapped sink.
    pub fn get_ref(&self) -> (r: &T)
        ensures
            *r == self.sink(),
    {
        &self.writer
    }

    /// Hands the whole buffer to the sink in one call and passes on the
    /// sink's error, if any; the buffer is kept either way.
    pub fn flush(&mut self) -> (r: Result<(), std::io::Error>)
        requires
            old(self).wf(),
        ensures
            final(self).wf(),
            final(self).buffered() == old(self).buffered(),
            final(self).sink_calls() == old(self).sink_calls().push(
                (old(self).buffered(), final(self).last_result()),
            ),
            T::wrote(old(self).sink(), old(self).buffered(), final(self).sink(), final(self).last_result()),
            match r {
                Ok(_) => final(self).last_result() is Ok,
                Err(e) => final(self).last_result() == Err::<usize, std::io::Error>(e),
            },
    {
        let res = self.writer.write(self.buf.as_slice());
        proof {
            self.calls@ = self.calls@.push((self.buf@, res));
        }
        match res {
            Ok(_) => Ok(()),
            Err(e) => Err(e),
        }
    }

    /// Accepts all of `bytes`, or none of them.
    ///
    /// When the buffer and `bytes` together stay under `CAPACITY`, the bytes
    /// are appended and the sink is not called. Otherwise the buffer is
    /// flushed first; if that fails the error is returned and the buffer is
    /// left as it was, else the buffer is replaced by `bytes`, whatever
    /// their length.
    pub fn write(&mut self, bytes: &[u8]) -> (r: Result<usize, std::io::Error>)
        requires
            old(self).wf(),
        ensures
            final(self).wf(),
            match r {
                Ok(n) => n == bytes@.len() && final(self).buffered() == held_after_write(
                    old(self).buffered(),
                    bytes@,
                ),
                Err(_) => final(self).buffered() == old(self).buffered(),
            },
            if fits(old(self).buffered().len(), bytes@.len()) {
                &&& r is Ok
                &&& final(self).sink_calls() == old(self).sink_calls()
                &&& final(self).sink() == old(self).sink()
            } else {
                &&& final(self).sink_calls() == old(self).sink_calls().push(
                    (old(self).buffered(), final(self).last_result()),
                )
                &&& T::wrote(
                    old(self).sink(),
                    old(self).buffered(),
                    final(self).sink(),
                    final(self).last_result(),
                )
                &&& match r {
                    Ok(_) => final(self).last_result() is Ok,
                    Err(e) => final(self).last_result() == Err::<usize, std::io::Error>(e),
                }
            },
    {
        let l = bytes.len();
        if l < CAPACITY && self.len < CAPACITY - l {
            self.len = self.len + l;
            self.buf.extend_from_slice(bytes);
            assert(self.buf@ =~= old(self).buf@ + bytes@);
            Ok(l)
        } else {
            match self.flush() {
                Ok(()) => {},
                Err(e) => return Err(e),
            }
            self.buf.clear();
            self.buf.extend_from_slice(bytes);
            assert(self.buf@ =~= bytes@);
            self.len = l;
            Ok(l)
        }
    }
}

} // verus!
