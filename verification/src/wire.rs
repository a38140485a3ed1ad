//! Reading and writing values in their wire form: packed bits, little endian.

use vstd::prelude::*;

verus! {

/// A value could not be moved between its wire form and memory.
#[derive(Clone, Copy, Debug, PartialEq, Eq)]
pub enum CodecError {
    /// The buffer is too short to read the value from.
    ReadBufferTooShort,
    /// The buffer is too short to write the value into.
    WriteBufferTooShort,
    /// The bytes do not encode any value of the type.
    InvalidValue,
}

/// A type that can be read from the wire.
pub trait WireRead: Sized {
    /// The value encoded at the beginning of `buf`.
    spec fn unpacked(buf: Seq<u8>) -> Result<Self, CodecError>;

    /// Unpack this type from the beginning of the given buffer.
    fn unpack_from_slice(buf: &[u8]) -> (r: Result<Self, CodecError>)
        ensures
            r == Self::unpacked(buf@),
    ;
}

/// A type that can be written to the wire.
pub trait WireWrite {
    /// The bytes that stand for this value on the wire.
    spec fn packed(&self) -> Seq<u8>;

    /// Length in bytes of this item when packed.
    fn packed_len(&self) -> (len: usize)
        requires
            self.packed().len() <= usize::MAX,
        ensures
            len == self.packed().len(),
    ;

    /// Pack this value into the beginning of `buf`, which must be long enough. Returns the bytes
    /// written; the bytes after them stay as they were.
    fn pack_to_slice_unchecked<'buf>(&self, buf: &'buf mut [u8]) -> (out: &'buf [u8])
        requires
            self.packed().len() <= old(buf)@.len(),
        ensures
            out@ == self.packed(),
            final(buf)@ == self.packed() + old(buf)@.skip(self.packed().len() as int),
    ;

    /// Pack this value into the beginning of `buf`, or refuse a buffer that is too short for it
    /// and leave that untouched.
    fn pack_to_slice<'buf>(&self, buf: &'buf mut [u8]) -> (r: Result<&'buf [u8], CodecError>)
        requires
            self.packed().len() <= usize::MAX,
        ensures
            self.packed().len() <= old(buf)@.len() ==> {
                &&& r matches Ok(out) && out@ == self.packed()
                &&& final(buf)@ == self.packed() + old(buf)@.skip(self.packed().len() as int)
            },
            self.packed().len() > old(buf)@.len() ==> {
                &&& r == Err::<&[u8], CodecError>(CodecError::WriteBufferTooShort)
                &&& final(buf)@ == old(buf)@
            },
    {
        if buf.len() < self.packed_len() {
            Err(CodecError::WriteBufferTooShort)
        } else {
            Ok(self.pack_to_slice_unchecked(buf))
        }
    }
}

/// The number whose little endian form is the first two bytes of `b`.
pub open spec fn le_u16(b: Seq<u8>) -> u16 {
    (b[0] + 0x100 * b[1]) as u16
}

/// The number whose little endian form is the first four bytes of `b`.
pub open spec fn le_u32(b: Seq<u8>) -> u32 {
    (b[0] + 0x100 * b[1] + 0x1_0000 * b[2] + 0x100_0000 * b[3]) as u32
}

/// The little endian form of a 16 bit number.
pub open spec fn u16_le(v: u16) -> Seq<u8> {
    seq![(v % 0x100) as u8, (v / 0x100) as u8]
}

/// The little endian form of a 32 bit number.
pub open spec fn u32_le(v: u32) -> Seq<u8> {
    seq![
        (v % 0x100) as u8,
        (v / 0x100 % 0x100) as u8,
        (v / 0x1_0000 % 0x100) as u8,
        (v / 0x100_0000) as u8,
    ]
}

/// `ethercrab_wire::WireError`, the error of the wire primitives. It is opaque: nothing is claimed of
/// which error it is.
#[verifier::external_type_specification]
#[verifier::external_body]
pub struct ExternalWireError(ethercrab_wire::WireError);

/// `<u16 as EtherCrabWireRead>::unpack_from_slice`: reads the first two bytes as a little endian
/// number and fails only where there are fewer than two.
#[verifier::external_body]
pub(crate) fn unpack_u16(buf: &[u8]) -> (r: Result<u16, ethercrab_wire::WireError>)
    ensures
        r is Ok <==> buf@.len() >= 2,
        r matches Ok(v) ==> v == le_u16(buf@),
{
    <u16 as ethercrab_wire::EtherCrabWireRead>::unpack_from_slice(buf)
}

/// `<u32 as EtherCrabWireRead>::unpack_from_slice`: reads the first four bytes as a little endian
/// number and fails only where there are fewer than four.
#[verifier::external_body]
pub(crate) fn unpack_u32(buf: &[u8]) -> (r: Result<u32, ethercrab_wire::WireError>)
    ensures
        r is Ok <==> buf@.len() >= 4,
        r matches Ok(v) ==> v == le_u32(buf@),
{
    <u32 as ethercrab_wire::EtherCrabWireRead>::unpack_from_slice(buf)
}

/// `<u16 as EtherCrabWireWrite>::pack_to_slice_unchecked`: writes the number in little endian form
/// over the first two bytes, which must be there, and returns them.
#[verifier::external_body]
pub(crate) fn pack_u16<'buf>(value: u16, buf: &'buf mut [u8]) -> (out: &'buf [u8])
    requires
        old(buf)@.len() >= 2,
    ensures
        out@ == u16_le(value),
        final(buf)@ == u16_le(value) + old(buf)@.skip(2),
{
    ethercrab_wire::EtherCrabWireWrite::pack_to_slice_unchecked(&value, buf)
}

/// `<u32 as EtherCrabWireWrite>::pack_to_slice_unchecked`: writes the number in little endian form
/// over the first four bytes, which must be there, and returns them.
#[verifier::external_body]
pub(crate) fn pack_u32<'buf>(value: u32, buf: &'buf mut [u8]) -> (out: &'buf [u8])
    requires
        old(buf)@.len() >= 4,
    ensures
        out@ == u32_le(value),
        final(buf)@ == u32_le(value) + old(buf)@.skip(4),
{
    ethercrab_wire::EtherCrabWireWrite::pack_to_slice_unchecked(&value, buf)
}

/// `<&[u8] as EtherCrabWireWrite>::pack_to_slice_unchecked`: copies the bytes over the beginning
/// of a buffer at least as long, and returns the part written.
#[verifier::external_body]
pub(crate) fn pack_bytes<'buf>(bytes: &[u8], buf: &'buf mut [u8]) -> (out: &'buf [u8])
    requires
        bytes@.len() <= old(buf)@.len(),
    ensures
        out@ == bytes@,
        final(buf)@ == bytes@ + old(buf)@.skip(bytes@.len() as int),
{
    ethercrab_wire::EtherCrabWireWrite::pack_to_slice_unchecked(&bytes, buf)
}

/// Raw bytes are their own wire form.
impl WireWrite for &[u8] {
    open spec fn packed(&self) -> Seq<u8> {
        self@
    }

    fn packed_len(&self) -> (len: usize) {
        self.len()
    }

    fn pack_to_slice_unchecked<'buf>(&self, buf: &'buf mut [u8]) -> (out: &'buf [u8]) {
        pack_bytes(self, buf)
    }
}

/// Raw bytes are their own wire form.
impl<const N: usize> WireWrite for [u8; N] {
    open spec fn packed(&self) -> Seq<u8> {
        self@
    }

    fn packed_len(&self) -> (len: usize) {
        N
    }

    fn pack_to_slice_unchecked<'buf>(&self, buf: &'buf mut [u8]) -> (out: &'buf [u8]) {
        let bytes = self.as_slice();
        assert(bytes@ == self.packed());
        pack_bytes(bytes, buf)
    }
}

/// A reference is written as what it refers to.
impl<T: WireWrite> WireWrite for &T {
    open spec fn packed(&self) -> Seq<u8> {
        (**self).packed()
    }

    fn packed_len(&self) -> (len: usize) {
        (**self).packed_len()
    }

    fn pack_to_slice_unchecked<'buf>(&self, buf: &'buf mut [u8]) -> (out: &'buf [u8]) {
        (**self).pack_to_slice_unchecked(buf)
    }
}

/// The first byte of a 16 bit number counts ones and the second counts 256s.
pub proof fn law_u16_bytes(v: u16, b: Seq<u8>)
    ensures
        u16_le(v).len() == 2,
        v == u16_le(v)[0] + 256 * u16_le(v)[1],
        b.len() >= 2 ==> le_u16(b) == b[0] + 256 * b[1],
{
}

/// The bytes of a 32 bit number count ones, 256s, 65536s and 16777216s, in this order.
pub proof fn law_u32_bytes(v: u32, b: Seq<u8>)
    ensures
        u32_le(v).len() == 4,
        v == u32_le(v)[0] + 256 * u32_le(v)[1] + 65536 * u32_le(v)[2] + 16777216 * u32_le(v)[3],
        b.len() >= 4 ==> le_u32(b) == b[0] + 256 * b[1] + 65536 * b[2] + 16777216 * b[3],
{
}

/// Raw bytes go on the wire as they are, and a reference as what it refers to.
pub proof fn law_raw_bytes<const N: usize, T: WireWrite>(bytes: &[u8], array: [u8; N], value: &T)
    ensures
        <&[u8] as WireWrite>::packed(&bytes) == bytes@,
        <[u8; N] as WireWrite>::packed(&array) == array@,
        <&T as WireWrite>::packed(&value) == value.packed(),
{
}

} // verus!
