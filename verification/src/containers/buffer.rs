//! A byte buffer of a fixed size.
use vstd::prelude::*;

verus! {

/// Why bytes do not fit in a buffer.
#[derive(Debug, Clone, Copy, PartialEq, Eq, Structural)]
pub struct FormatError {
    struct_size: usize,
    attempted_size: usize,
}

impl FormatError {
    pub closed spec fn spec_struct_size(&self) -> usize {
        self.struct_size
    }

    pub closed spec fn spec_attempted_size(&self) -> usize {
        self.attempted_size
    }

    /// The size of the buffer.
    pub fn struct_size(&self) -> (r: usize)
        ensures
            r == self.spec_struct_size(),
    {
        self.struct_size
    }

    /// The number of bytes that did not fit.
    pub fn attempted_size(&self) -> (r: usize)
        ensures
            r == self.spec_attempted_size(),
    {
        self.attempted_size
    }
}

/// `N` bytes.
#[derive(Debug)]
pub struct Buffer<const N: usize> {
    bytes: [u8; N],
}

impl<const N: usize> View for Buffer<N> {
    type V = Seq<u8>;

    closed spec fn view(&self) -> Seq<u8> {
        self.bytes@
    }
}

impl<const N: usize> Buffer<N> {
    /// A zeroed buffer.
    pub fn new() -> (r: Buffer<N>)
        ensures
            r@ == Seq::new(N as nat, |i: int| 0u8),
    {
        let r = Buffer { bytes: [0u8; N] };
        assert(r@ =~= Seq::new(N as nat, |i: int| 0u8));
        r
    }

    /// The bytes.
    pub fn as_slice(&self) -> (r: &[u8])
        ensures
            r@ == self@,
    {
        self.bytes.as_slice()
    }

    /// A buffer holding these `N` bytes.
    pub fn from_array(bytes: [u8; N]) -> (r: Buffer<N>)
        ensures
            r@ == bytes@,
    {
        Buffer { bytes }
    }

    /// A buffer that begins with `value` and is zero after it; bytes that do
    /// not fit are refused.
    pub fn try_from_bytes(value: &[u8]) -> (r: Result<Buffer<N>, FormatError>)
        ensures
            value@.len() > N ==> (r matches Err(e) && e.spec_struct_size() == N && e.spec_attempted_size()
                == value@.len()),
            value@.len() <= N ==> (r matches Ok(b) && b@ == value@ + Seq::new(
                (N - value@.len()) as nat,
                |i: int| 0u8,
            )),
    {
        if value.len() > N {
            return Err(FormatError { struct_size: N, attempted_size: value.len() });
        }
        let mut dst = Self::new();
        let mut i: usize = 0;
        while i < value.len()
            invariant
                value@.len() <= N,
                i <= value@.len(),
                dst.bytes@.len() == N,
                forall|k: int| 0 <= k < i ==> dst.bytes@[k] == value@[k],
                forall|k: int| i <= k < N ==> dst.bytes@[k] == 0,
            decreases value.len() - i,
        {
            dst.bytes[i] = value[i];
            i = i + 1;
        }
        assert(dst@ =~= value@ + Seq::new((N - value@.len()) as nat, |i: int| 0u8));
        Ok(dst)
    }
}

} // verus!
