//! NBT compounds carried through the relay, parsed and written by the nbt
//! crate.

use vstd::prelude::*;
use vstd::slice::slice_subrange;
use nbt::Blob;

verus! {

#[verifier::external_type_specification]
#[verifier::external_body]
pub struct ExBlob(nbt::Blob);

/// How many bytes `nbt::from_reader` consumes when it reads an NBT compound
/// from the front of `bytes`, or `None` when it fails.
pub uninterp spec fn nbt_blob_len(bytes: Seq<u8>) -> Option<nat>;

/// Whether `written` is one of the byte strings that `nbt::to_writer`
/// (without a header) can write, with success, for the compound that
/// `nbt::from_reader` reads from `source`. The crate keeps a compound's
/// entries in a hash map, so their order, and with it the bytes, may differ
/// from one write to the next; the set of such byte strings depends on
/// `source` alone.
pub uninterp spec fn nbt_written(source: Seq<u8>, written: Seq<u8>) -> bool;

/// Whether `nbt::to_writer` succeeds on the compound read from `source`.
pub open spec fn nbt_writable(source: Seq<u8>) -> bool {
    exists|written: Seq<u8>| nbt_written(source, written)
}

/// An NBT compound, with the bytes it was read from.
pub struct NbtCompound {
    blob: Blob,
    source: Ghost<Seq<u8>>,
}

impl NbtCompound {
    /// The bytes the compound was read from.
    pub closed spec fn source(&self) -> Seq<u8> {
        self.source@
    }
}

/// `nbt::from_reader` into a `Blob`, reading from a byte slice: the compound
/// and what remains after it. What the compound holds is not stated.
#[verifier::external_body]
fn take_blob<'a>(bytes: &'a [u8]) -> (r: Option<(Blob, &'a [u8])>)
    ensures
        match nbt_blob_len(bytes@) {
            Some(n) => r matches Some((_, rest)) && n <= bytes@.len() && rest@ == bytes@.skip(n as int),
            None => r is None,
        },
{
    let mut rest = bytes;
    match nbt::from_reader::<&mut &[u8], Blob>(&mut rest) {
        Ok(b) => Some((b, rest)),
        Err(_) => None,
    }
}

/// Reads an NBT compound at `pos`: the compound, which remembers the bytes
/// it was read from, and the position after it.
pub fn read_compound(buf: &[u8], pos: usize) -> (r: Option<(NbtCompound, usize)>)
    requires
        pos <= buf@.len(),
    ensures
        match nbt_blob_len(buf@.skip(pos as int)) {
            Some(n) => r matches Some((c, q)) && q == pos + n && q <= buf@.len()
                && c.source() == buf@.subrange(pos as int, q as int),
            None => r is None,
        },
{
    let tail = slice_subrange(buf, pos, buf.len());
    assert(tail@ =~= buf@.skip(pos as int));
    match take_blob(tail) {
        Some((blob, rest)) => {
            let q = buf.len() - rest.len();
            let ghost source = buf@.subrange(pos as int, q as int);
            Some((NbtCompound { blob, source: Ghost(source) }, q))
        },
        None => None,
    }
}

/// `nbt::to_writer` of a compound without a header, into a `Vec<u8>`. The
/// bytes already there stay in front, and the compound's opening (tag 0x0a
/// and an empty name, `0x0a 0x00 0x00`) is written whatever comes back. It
/// succeeds exactly when the compound can be written; then what it appended
/// is one of the writings of the compound and ends with the closing 0x00.
/// Which of those writings it is (the order of the entries) is not stated.
#[verifier::external_body]
pub(crate) fn put_blob(out: &mut Vec<u8>, compound: &NbtCompound) -> (r: bool)
    ensures
        final(out)@.len() >= old(out)@.len() + 3,
        final(out)@.subrange(0, old(out)@.len() + 3int) == old(out)@ + seq![0x0au8, 0x00u8, 0x00u8],
        r == nbt_writable(compound.source()),
        r ==> final(out)@.len() >= old(out)@.len() + 4 && final(out)@.last() == 0
            && nbt_written(compound.source(), final(out)@.skip(old(out)@.len() as int)),
{
    nbt::to_writer(out, &compound.blob, None).is_ok()
}

} // verus!
