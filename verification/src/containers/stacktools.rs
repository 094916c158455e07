//! A UTF-8 string stored in a fixed-size byte array.
use vstd::prelude::*;
use vstd::string::StringSliceAdditionalSpecFns;
use vstd::utf8::*;

use crate::text::{digits, push_str, push_usize};
use crate::wire::{get_bytes, put_bytes, DecodeFailure};

verus! {

broadcast use vstd::utf8::group_utf8_lib;

#[verifier::external_type_specification]
#[verifier::external_body]
pub struct ExUtf8Error(core::str::Utf8Error);

#[verifier::external_type_specification]
#[verifier::external_body]
pub struct ExFmtError(core::fmt::Error);

/// `std::str::from_utf8`: the bytes as a string slice when they are valid
/// UTF-8, whose bytes are then exactly the input; an error otherwise.
#[verifier::external_body]
fn str_from_utf8(bytes: &[u8]) -> (r: Result<&str, core::str::Utf8Error>)
    ensures
        r is Ok <==> valid_utf8(bytes@),
        r matches Ok(s) ==> s.spec_bytes() == bytes@,
{
    core::str::from_utf8(bytes)
}

/// The error value of `core::fmt::Write` (`core::fmt::Error`).
#[verifier::external_body]
fn fmt_error() -> (r: core::fmt::Error) {
    core::fmt::Error::default()
}

/// The number of bytes of `b` that remain once trailing zero bytes are removed.
pub open spec fn trimmed_len(b: Seq<u8>) -> nat
    decreases b.len(),
{
    if b.len() > 0 && b.last() == 0 {
        trimmed_len(b.drop_last())
    } else {
        b.len()
    }
}

proof fn lemma_trimmed_len(b: Seq<u8>)
    ensures
        trimmed_len(b) <= b.len(),
        trimmed_len(b) < b.len() ==> b[trimmed_len(b) as int] == 0,
        trimmed_len(b) > 0 ==> b[trimmed_len(b) - 1] != 0,
        forall|i: int| trimmed_len(b) <= i < b.len() ==> b[i] == 0,
    decreases b.len(),
{
    if b.len() > 0 && b.last() == 0 {
        lemma_trimmed_len(b.drop_last());
        assert forall|i: int| trimmed_len(b) <= i < b.len() implies b[i] == 0 by {
            if i < b.len() - 1 {
                assert(b[i] == b.drop_last()[i]);
            }
        }
    }
}

proof fn lemma_trimmed_len_of(b: Seq<u8>, n: int)
    requires
        0 <= n <= b.len(),
        n > 0 ==> b[n - 1] != 0,
        forall|i: int| n <= i < b.len() ==> b[i] == 0,
    ensures
        trimmed_len(b) == n,
    decreases b.len(),
{
    if b.len() > n {
        lemma_trimmed_len_of(b.drop_last(), n);
    }
}

/// A UTF-8 string of at most `N` bytes held in an array of `N` bytes.
///
/// The string is the first `len` bytes of the array; the bytes after it are
/// written out with it when it is encoded.
#[derive(Debug, PartialEq, Eq)]
pub struct StackStr<const N: usize> {
    len: usize,
    buf: [u8; N],
}

/// Why a string could not become a [`StackStr`].
#[derive(Debug, PartialEq, Eq)]
pub enum TryFromStrErr {
    /// The string is longer than the array.
    Length { max: usize, actual: usize },
    /// The bytes are not UTF-8.
    NotUtf8(core::str::Utf8Error),
}

/// `std::str::Utf8Error`'s text (its `Display`). Nothing is stated of it.
#[verifier::external_body]
fn utf8_error_text(e: &core::str::Utf8Error) -> (r: String) {
    format!("{e}")
}

impl TryFromStrErr {
    /// The text shown for the error.
    pub fn message(&self) -> (r: String)
        ensures
            self matches TryFromStrErr::Length { max, actual } ==> r@ == "invalid length of str (max: "@
                + digits(max as nat, 10) + ", actual: "@ + digits(actual as nat, 10) + ")"@,
    {
        match self {
            TryFromStrErr::Length { max, actual } => {
                let mut out = String::new();
                push_str(&mut out, "invalid length of str (max: ");
                push_usize(&mut out, *max);
                push_str(&mut out, ", actual: ");
                push_usize(&mut out, *actual);
                push_str(&mut out, ")");
                assert(out@ =~= "invalid length of str (max: "@ + digits(*max as nat, 10) + ", actual: "@
                    + digits(*actual as nat, 10) + ")"@);
                out
            },
            TryFromStrErr::NotUtf8(e) => utf8_error_text(e),
        }
    }
}

impl<const N: usize> StackStr<N> {
    #[verifier::type_invariant]
    spec fn inv(&self) -> bool {
        &&& self.len <= N
        &&& valid_utf8(self.buf@.subrange(0, self.len as int))
    }

    /// What every string holds: a length within the array and UTF-8 bytes.
    pub closed spec fn valid(&self) -> bool {
        self.inv()
    }

    /// The bytes of the string.
    pub closed spec fn bytes(&self) -> Seq<u8> {
        self.buf@.subrange(0, self.len as int)
    }

    /// All `N` bytes of the array, as they are encoded.
    pub closed spec fn raw(&self) -> Seq<u8> {
        self.buf@
    }

    /// An empty string over a zeroed array.
    pub fn new() -> (r: Self)
        ensures
            r.bytes() == Seq::<u8>::empty(),
            r.raw() == Seq::new(N as nat, |i: int| 0u8),
    {
        let r = Self { len: 0, buf: [0u8; N] };
        assert(r.buf@.subrange(0, 0) =~= Seq::<u8>::empty());
        assert(r.raw() =~= Seq::new(N as nat, |i: int| 0u8));
        r
    }

    /// The length of the string in bytes.
    pub fn len(&self) -> (r: usize)
        ensures
            r == self.bytes().len(),
    {
        proof {
            use_type_invariant(self);
        }
        self.len
    }

    /// Whether the string is empty.
    pub fn is_empty(&self) -> (r: bool)
        ensures
            r == (self.bytes().len() == 0),
    {
        proof {
            use_type_invariant(self);
        }
        self.len == 0
    }

    /// The string as a string slice.
    pub fn as_str(&self) -> (r: &str)
        ensures
            r.spec_bytes() == self.bytes(),
    {
        proof {
            use_type_invariant(self);
        }
        let bytes = &self.buf.as_slice()[0..self.len];
        match str_from_utf8(bytes) {
            Ok(s) => s,
            Err(_) => {
                assert(false);
                ""
            },
        }
    }

    /// Writes `value` over each byte of the string, keeping its length; the
    /// bytes after the string are left as they are. A byte that is written
    /// must be ASCII, so that the string stays UTF-8; an empty string takes
    /// any byte, and is left as it is.
    pub fn fill(&mut self, value: u8)
        requires
            old(self).bytes().len() == 0 || value < 0x80,
        ensures
            final(self).bytes() == Seq::new(old(self).bytes().len(), |i: int| value),
            final(self).raw() == Seq::new(
                N as nat,
                |i: int| if i < old(self).bytes().len() { value } else { old(self).raw()[i] },
            ),
    {
        proof {
            use_type_invariant(&*self);
        }
        let n = self.len;
        self.len = 0;
        assert(self.buf@.subrange(0, 0) =~= Seq::<u8>::empty());
        let mut i: usize = 0;
        while i < n
            invariant
                n <= N,
                i <= n,
                n > 0 ==> value < 0x80,
                self.len == 0,
                self.buf@.len() == N,
                forall|k: int| 0 <= k < i ==> self.buf@[k] == value,
                forall|k: int| i <= k < N ==> self.buf@[k] == old(self).buf@[k],
            decreases n - i,
        {
            self.buf[i] = value;
            i = i + 1;
        }
        proof {
            let b = self.buf@;
            assert(b.subrange(0, 0) =~= Seq::<u8>::empty());
            assert forall|k: int| 0 <= 0 <= k < n <= b.len() implies #[trigger] is_leading_byte_width_1(b[k]) by {}
            partial_valid_utf8_extend_ascii_block(b, 0, n as int);
        }
        self.len = n;
        assert(self.bytes() =~= Seq::new(old(self).bytes().len(), |i: int| value));
        assert(self.raw() =~= Seq::new(
            N as nat,
            |i: int| if i < old(self).bytes().len() { value } else { old(self).raw()[i] },
        ));
    }

    /// Empties the string; the array is left as it is.
    pub fn clear(&mut self)
        ensures
            final(self).bytes() == Seq::<u8>::empty(),
            final(self).raw() == old(self).raw(),
    {
        self.len = 0;
        assert(self.buf@.subrange(0, 0) =~= Seq::<u8>::empty());
    }

    /// A string made of the first `len` bytes of `buf`, which must be UTF-8.
    pub fn from_raw_parts(buf: [u8; N], len: usize) -> (r: Self)
        requires
            len <= N,
            valid_utf8(buf@.subrange(0, len as int)),
        ensures
            r.bytes() == buf@.subrange(0, len as int),
            r.raw() == buf@,
    {
        Self { len, buf }
    }

    /// The string whose UTF-8 bytes are `bytes`, when they are UTF-8 and fit.
    pub fn from_utf8_bytes(bytes: &[u8]) -> (r: Result<Self, TryFromStrErr>)
        ensures
            !valid_utf8(bytes@) ==> r matches Err(TryFromStrErr::NotUtf8(_)),
            valid_utf8(bytes@) && bytes@.len() <= N ==> (r matches Ok(s) && s.bytes() == bytes@
                && s.raw() == bytes@ + Seq::new((N - bytes@.len()) as nat, |i: int| 0u8)),
            valid_utf8(bytes@) && bytes@.len() > N ==> r == Err::<Self, TryFromStrErr>(
                TryFromStrErr::Length { max: N, actual: bytes@.len() as usize },
            ),
    {
        match str_from_utf8(bytes) {
            Ok(s) => Self::try_from(s),
            Err(e) => Err(TryFromStrErr::NotUtf8(e)),
        }
    }

    /// Appends `s` when it fits in the bytes left, and fails otherwise.
    pub fn write_str(&mut self, s: &str) -> (r: Result<(), core::fmt::Error>)
        ensures
            r is Ok <==> old(self).bytes().len() + s.spec_bytes().len() <= N,
            r is Ok ==> final(self).bytes() == old(self).bytes() + s.spec_bytes(),
            r is Ok ==> final(self).raw() == old(self).raw().subrange(0, old(self).bytes().len() as int)
                + s.spec_bytes() + old(self).raw().subrange(
                (old(self).bytes().len() + s.spec_bytes().len()) as int,
                N as int,
            ),
            r is Err ==> *final(self) == *old(self),
    {
        proof {
            use_type_invariant(&*self);
        }
        let bytes = s.as_bytes();
        if bytes.len() > N - self.len {
            return Err(fmt_error());
        }
        let start = self.len;
        let mut k: usize = 0;
        while k < bytes.len()
            invariant
                start == self.len,
                start + bytes@.len() <= N,
                k <= bytes@.len(),
                self.buf@.len() == N,
                valid_utf8(self.buf@.subrange(0, start as int)),
                forall|i: int| 0 <= i < start ==> self.buf@[i] == old(self).buf@[i],
                forall|i: int| 0 <= i < k ==> self.buf@[start + i] == bytes@[i],
                forall|i: int| start + bytes@.len() <= i < N ==> self.buf@[i] == old(self).buf@[i],
            decreases bytes.len() - k,
        {
            assert(self.buf@.subrange(0, start as int) =~= self.buf@.update(start + k, bytes@[k as int]).subrange(0, start as int));
            self.buf[start + k] = bytes[k];
            k = k + 1;
        }
        proof {
            let old_bytes = self.buf@.subrange(0, start as int);
            assert(self.buf@.subrange(0, start + bytes@.len()) =~= old_bytes + bytes@);
            encode_utf8_valid_utf8(s@);
        }
        self.len = start + bytes.len();
        assert(self.raw() =~= old(self).raw().subrange(0, old(self).bytes().len() as int)
            + s.spec_bytes() + old(self).raw().subrange(
            (old(self).bytes().len() + s.spec_bytes().len()) as int,
            N as int,
        ));
        Ok(())
    }

    /// Appends the array, all `N` bytes, to `out`.
    pub fn encode(&self, out: &mut Vec<u8>)
        ensures
            final(out)@ == old(out)@ + self.raw(),
    {
        put_bytes(out, &self.buf);
    }

    /// Reads `N` bytes at `pos`: they must be UTF-8 as a whole, and the
    /// string is what is left once trailing zero bytes are removed.
    pub fn decode(src: &[u8], pos: usize) -> (r: Result<Self, DecodeFailure>)
        requires
            pos <= src@.len(),
        ensures
            pos + N > src@.len() ==> r == Err::<Self, DecodeFailure>(DecodeFailure::UnexpectedEnd),
            pos + N <= src@.len() ==> {
                let b = src@.subrange(pos as int, pos + N);
                &&& !valid_utf8(b) ==> r == Err::<Self, DecodeFailure>(DecodeFailure::Utf8)
                &&& valid_utf8(b) ==> (r matches Ok(s) && s.raw() == b && s.bytes() == b.subrange(
                    0,
                    trimmed_len(b) as int,
                ))
            },
    {
        let buf: [u8; N] = match get_bytes::<N>(src, pos) {
            Ok(b) => b,
            Err(e) => return Err(e),
        };
        match str_from_utf8(buf.as_slice()) {
            Ok(_) => {},
            Err(_) => return Err(DecodeFailure::Utf8),
        }
        let mut j: usize = N;
        while j > 0 && buf[j - 1] == 0
            invariant
                j <= N,
                buf@.len() == N,
                forall|i: int| j <= i < N ==> buf@[i] == 0,
            decreases j,
        {
            j = j - 1;
        }
        proof {
            lemma_trimmed_len_of(buf@, j as int);
            if j < N {
                is_char_boundary_iff_not_is_continuation_byte(buf@, j as int);
                valid_utf8_split(buf@, j as int);
            } else {
                assert(buf@.subrange(0, j as int) =~= buf@);
            }
        }
        Ok(Self { len: j, buf })
    }
}

/// `raw` is the UTF-8 bytes `bytes` followed by zero bytes up to `n`
/// bytes, and `bytes` does not end in a zero byte.
pub open spec fn zero_padded(bytes: Seq<u8>, raw: Seq<u8>, n: nat) -> bool {
    &&& bytes.len() <= n
    &&& valid_utf8(bytes)
    &&& raw == bytes + Seq::new((n - bytes.len()) as nat, |i: int| 0u8)
    &&& bytes.len() > 0 ==> bytes.last() != 0
}

/// Zero-padded UTF-8 bytes are UTF-8 as a whole, and trimming their
/// trailing zero bytes leaves exactly the unpadded bytes.
pub proof fn lemma_trim_zero_padded(bytes: Seq<u8>, raw: Seq<u8>, n: nat)
    requires
        zero_padded(bytes, raw, n),
    ensures
        raw.len() == n,
        valid_utf8(raw),
        raw.subrange(0, trimmed_len(raw) as int) == bytes,
{
    let z = Seq::new((n - bytes.len()) as nat, |i: int| 0u8);
    assert(raw.subrange(0, bytes.len() as int) =~= bytes);
    assert(z.subrange(0, 0) =~= Seq::<u8>::empty());
    assert forall|k: int| 0 <= 0 <= k < z.len() <= z.len() implies #[trigger] is_leading_byte_width_1(z[k]) by {}
    partial_valid_utf8_extend_ascii_block(z, 0, z.len() as int);
    assert(z.subrange(0, z.len() as int) =~= z);
    valid_utf8_concat(bytes, z);
    lemma_trimmed_len_of(raw, bytes.len() as int);
}

/// Decoding the array of a zero-padded string gives the string back: the
/// array is UTF-8 as a whole, and trimming its trailing zero bytes leaves
/// exactly the string's bytes.
pub proof fn lemma_decode_of_encode<const N: usize>(s: StackStr<N>)
    requires
        s.valid(),
        zero_padded(s.bytes(), s.raw(), N as nat),
    ensures
        valid_utf8(s.raw()),
        s.raw().subrange(0, trimmed_len(s.raw()) as int) == s.bytes(),
{
    lemma_trim_zero_padded(s.bytes(), s.raw(), N as nat);
}

/// Two strings with the same bytes and the same array are the same value.
pub proof fn lemma_same_string<const N: usize>(a: StackStr<N>, b: StackStr<N>)
    requires
        a.bytes() == b.bytes(),
        a.raw() == b.raw(),
        a.valid(),
        b.valid(),
    ensures
        a == b,
{
    assert(a.len == a.bytes().len());
    assert(b.len == b.bytes().len());
    assert forall|i: int| 0 <= i < N implies a.buf[i] == b.buf[i] by {
        assert(a.buf@[i] == b.buf@[i]);
    }
    assert(a.buf =~= b.buf);
}

impl<'a, const N: usize> vstd::std_specs::convert::TryFromSpecImpl<&'a str> for StackStr<N> {
    open spec fn obeys_try_from_spec() -> bool {
        false
    }

    open spec fn try_from_spec(v: &'a str) -> Result<Self, TryFromStrErr> {
        arbitrary()
    }
}

impl<'a, const N: usize> TryFrom<&'a str> for StackStr<N> {
    type Error = TryFromStrErr;

    /// The string when it fits in `N` bytes, over an otherwise zeroed array.
    fn try_from(value: &'a str) -> (r: Result<Self, Self::Error>)
        ensures
            value.spec_bytes().len() <= N ==> (r matches Ok(s) && s.bytes() == value.spec_bytes()
                && s.raw() == value.spec_bytes() + Seq::new(
                (N - value.spec_bytes().len()) as nat,
                |i: int| 0u8,
            )),
            value.spec_bytes().len() > N ==> r == Err::<Self, TryFromStrErr>(
                TryFromStrErr::Length { max: N, actual: value.spec_bytes().len() as usize },
            ),
    {
        let mut s = Self::new();
        match s.write_str(value) {
            Ok(()) => {
                assert(s.raw() =~= value.spec_bytes() + Seq::new(
                    (N - value.spec_bytes().len()) as nat,
                    |i: int| 0u8,
                ));
                Ok(s)
            },
            Err(_) => Err(TryFromStrErr::Length { max: N, actual: value.len() }),
        }
    }
}

} // verus!
