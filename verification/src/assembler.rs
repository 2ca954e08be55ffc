//! The unit assembler interface the compiler delegates to, the value types it
//! produces, and a byte-for-byte reference assembler.

use vstd::prelude::*;

use crate::isa::BasicInstr;
use crate::isa::Instruction;

verus! {

/// Content-derived identifier of an assembled binary unit.
#[derive(Clone, Copy, PartialEq, Eq, Hash, Debug)]
pub struct LibId(pub u128);

/// An assembled binary unit: the packed encoding of an instruction sequence.
/// Its view is the sequence of bytes it holds.
#[derive(Clone, PartialEq, Eq, Debug)]
pub struct Lib {
    bytes: Vec<u8>,
}

impl View for Lib {
    type V = Seq<u8>;

    closed spec fn view(&self) -> Seq<u8> {
        self.bytes@
    }
}

impl Lib {
    /// Wraps assembled bytes into a binary unit.
    pub fn new(bytes: Vec<u8>) -> (r: Lib)
        ensures
            r@ == bytes@,
    {
        Lib { bytes }
    }

    /// The bytes of the unit.
    pub fn bytes(&self) -> (r: &Vec<u8>)
        ensures
            r@ == self@,
    {
        &self.bytes
    }
}

/// An entry-point reference: a unit identifier paired with the byte offset of
/// a callable location inside that unit's bytecode.
#[derive(Clone, Copy, PartialEq, Eq, Hash, Debug)]
pub struct LibSite {
    /// Identifier of the unit holding the routine.
    pub lib_id: LibId,
    /// Byte offset of the routine's entry point within the unit.
    pub offset: u16,
}

impl LibSite {
    /// Builds an entry-point reference from its two components.
    pub fn new(lib_id: LibId, offset: u16) -> (r: LibSite)
        ensures
            r == (LibSite { lib_id, offset }),
    {
        LibSite { lib_id, offset }
    }
}

/// Failure of the unit assembler to encode an instruction sequence.
#[derive(Clone, Copy, PartialEq, Eq, Debug)]
pub struct AssemblerError;

/// The unit assembler: encodes a patched instruction sequence into a binary
/// unit and derives a content-based identifier for it. Both operations are
/// pinned to spec-level functions of their input alone, so any assembler
/// implementing this trait is deterministic.
pub trait Assembler<Isa: Instruction> {
    /// What `assemble` returns, as a function of the instruction sequence.
    spec fn assemble_spec(code: Seq<Isa>) -> Result<Seq<u8>, AssemblerError>;

    /// What `lib_id` returns, as a function of the unit's content.
    spec fn id_spec(bytes: Seq<u8>) -> LibId;

    /// Encodes the instruction sequence into a binary unit.
    fn assemble(code: &Vec<Isa>) -> (r: Result<Lib, AssemblerError>)
        ensures
            match r {
                Ok(lib) => Self::assemble_spec(code@) == Ok::<Seq<u8>, AssemblerError>(lib@),
                Err(e) => Self::assemble_spec(code@) == Err::<Seq<u8>, AssemblerError>(e),
            },
    ;

    /// Derives the content identifier of an assembled unit.
    fn lib_id(lib: &Lib) -> (r: LibId)
        ensures
            r == Self::id_spec(lib@),
    ;
}

/// Modulus keeping the running content checksum inside `u128` arithmetic.
pub const ID_MODULUS: u128 = 0x1_0000_0000_0000_0000_0000_0000_0000;

/// Content checksum of a byte string: a base-257 fold of the bytes, each
/// offset by one so that trailing zero bytes still change the value.
pub open spec fn spec_checksum(s: Seq<u8>) -> u128
    decreases s.len(),
{
    if s.len() == 0 {
        0u128
    } else {
        ((spec_checksum(s.drop_last()) * 257 + s.last() + 1) % (ID_MODULUS as int)) as u128
    }
}

/// Byte `j` of one instruction's encoding under [`ByteAssembler`]: a flag
/// byte (bit 0: entry point, bit 1: carries a goto field), then the goto
/// field in little-endian order if present, then zero padding up to the
/// instruction's declared byte length.
pub open spec fn instr_byte(i: BasicInstr, j: int) -> u8 {
    match i.goto {
        Some(g) => if j == 0 {
            if i.entry {
                3u8
            } else {
                2u8
            }
        } else if j == 1 {
            (g % 256) as u8
        } else if j == 2 {
            (g / 256) as u8
        } else {
            0u8
        },
        None => if j == 0 {
            if i.entry {
                1u8
            } else {
                0u8
            }
        } else {
            0u8
        },
    }
}

/// Whether one instruction fits its declared byte length under this
/// encoding: at least the flag byte, and room for the goto field if present.
pub open spec fn encodable(i: BasicInstr) -> bool {
    i.byte_len >= 1 && (i.goto is Some ==> i.byte_len >= 3)
}

/// The encoding of one instruction: exactly `byte_len` bytes.
pub open spec fn encode_instr(i: BasicInstr) -> Seq<u8> {
    Seq::new(i.byte_len as nat, |j: int| instr_byte(i, j))
}

/// The concatenated encodings of the first `k` instructions.
pub open spec fn encoded_to(code: Seq<BasicInstr>, k: int) -> Seq<u8>
    decreases k,
{
    if k <= 0 {
        Seq::empty()
    } else {
        encoded_to(code, k - 1) + encode_instr(code[k - 1])
    }
}

/// The reference unit assembler for [`BasicInstr`] sequences: each
/// instruction becomes exactly `byte_len` bytes, so byte offsets computed
/// over the sequence are exact positions in the emitted bytecode. It refuses
/// an instruction whose declared length cannot hold its encoding.
pub struct ByteAssembler;

impl Assembler<BasicInstr> for ByteAssembler {
    open spec fn assemble_spec(code: Seq<BasicInstr>) -> Result<Seq<u8>, AssemblerError> {
        if forall|k: int| 0 <= k < code.len() ==> encodable(#[trigger] code[k]) {
            Ok(encoded_to(code, code.len() as int))
        } else {
            Err(AssemblerError)
        }
    }

    open spec fn id_spec(bytes: Seq<u8>) -> LibId {
        LibId(spec_checksum(bytes))
    }

    fn assemble(code: &Vec<BasicInstr>) -> (r: Result<Lib, AssemblerError>) {
        let mut bytes: Vec<u8> = Vec::new();
        let mut k: usize = 0;
        while k < code.len()
            invariant
                k <= code@.len(),
                forall|j: int| 0 <= j < k ==> encodable(#[trigger] code@[j]),
                bytes@ == encoded_to(code@, k as int),
            decreases code@.len() - k,
        {
            let i = code[k];
            let has_goto = i.goto.is_some();
            if i.byte_len == 0 || (has_goto && i.byte_len < 3) {
                proof {
                    assert(!encodable(code@[k as int]));
                }
                return Err(AssemblerError);
            }
            let ghost prev = bytes@;
            let flag: u8 = if i.entry {
                if has_goto { 3 } else { 1 }
            } else {
                if has_goto { 2 } else { 0 }
            };
            bytes.push(flag);
            let mut emitted: u16 = 1;
            match i.goto {
                Some(g) => {
                    bytes.push((g % 256) as u8);
                    bytes.push((g / 256) as u8);
                    emitted = 3;
                },
                None => {},
            }
            proof {
                assert(bytes@ =~= prev + encode_instr(i).take(emitted as int));
            }
            while emitted < i.byte_len
                invariant
                    encodable(i),
                    1 <= emitted <= i.byte_len,
                    i.goto is Some ==> emitted >= 3,
                    bytes@ == prev + encode_instr(i).take(emitted as int),
                decreases i.byte_len - emitted,
            {
                bytes.push(0u8);
                proof {
                    assert(bytes@ =~= prev + encode_instr(i).take(emitted as int + 1));
                }
                emitted = emitted + 1;
            }
            proof {
                assert(encode_instr(i).take(i.byte_len as int) =~= encode_instr(i));
                assert(bytes@ == encoded_to(code@, k as int + 1));
            }
            k = k + 1;
        }
        Ok(Lib::new(bytes))
    }

    fn lib_id(lib: &Lib) -> (r: LibId) {
        let bytes = lib.bytes();
        let mut h: u128 = 0;
        let mut k: usize = 0;
        while k < bytes.len()
            invariant
                k <= lib@.len(),
                bytes@ == lib@,
                h == spec_checksum(lib@.take(k as int)),
                h < ID_MODULUS,
            decreases lib@.len() - k,
        {
            let b = bytes[k];
            h = (h * 257 + b as u128 + 1) % ID_MODULUS;
            proof {
                assert(lib@.take(k as int + 1).drop_last() =~= lib@.take(k as int));
                assert(lib@.take(k as int + 1).last() == lib@[k as int]);
            }
            k = k + 1;
        }
        proof {
            assert(lib@.take(lib@.len() as int) =~= lib@);
        }
        LibId(h)
    }
}

} // verus!
