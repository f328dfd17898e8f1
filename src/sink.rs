use vstd::prelude::*;

verus! {

/// The I/O error of the standard library, carried through unchanged.
#[verifier::external_type_specification]
#[verifier::external_body]
pub struct ExIoError(std::io::Error);

/// A destination for bytes, such as a file, a socket or standard output.
///
/// Only `write` is used: a call hands over one slice and reports how many
/// of its bytes the destination took, or why it took none.
pub trait Sink: Sized {
    /// How a write of `bytes` that returned `r` took the sink from `pre`
    /// to `post`. A sink that promises nothing keeps this default.
    open spec fn wrote(pre: Self, bytes: Seq<u8>, post: Self, r: Result<usize, std::io::Error>) -> bool {
        true
    }

    fn write(&mut self, bytes: &[u8]) -> (r: Result<usize, std::io::Error>)
        ensures
            Self::wrote(*old(self), bytes@, *final(self), r),
    ;
}

/// An in-memory sink: every byte handed to it is appended.
impl Sink for Vec<u8> {
    open spec fn wrote(
        pre: Self,
        bytes: Seq<u8>,
        post: Self,
        r: Result<usize, std::io::Error>,
    ) -> bool {
        post@ == pre@ + bytes && r is Ok && r->Ok_0 == bytes.len()
    }

    fn write(&mut self, bytes: &[u8]) -> (r: Result<usize, std::io::Error>) {
        self.extend_from_slice(bytes);
        assert(self@ =~= old(self)@ + bytes@);
        Ok(bytes.len())
    }
}

} // verus!
