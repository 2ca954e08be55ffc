//! The two-pass compiler: scans an instruction sequence for routine entry
//! points, patches local goto references to absolute byte offsets, and folds
//! the result into an immutable compiled unit.

use vstd::prelude::*;

use crate::assembler::Assembler;
use crate::assembler::AssemblerError;
use crate::assembler::Lib;
use crate::assembler::LibId;
use crate::assembler::LibSite;
use crate::isa::Instruction;

verus! {

/// Byte offset of instruction `k` in the emitted bytecode: the sum of the
/// encoded byte lengths of the instructions before it.
pub open spec fn byte_offset<Isa: Instruction>(code: Seq<Isa>, k: int) -> int
    decreases k,
{
    if k <= 0 {
        0
    } else {
        byte_offset(code, k - 1) + code[k - 1].len_spec()
    }
}

/// The whole sequence stays inside the 16-bit address space of a unit.
pub open spec fn fits<Isa: Instruction>(code: Seq<Isa>) -> bool {
    byte_offset(code, code.len() as int) <= u16::MAX
}

/// The routine table over the first `k` instructions: one byte offset per
/// entry-point instruction, in order of appearance.
pub open spec fn table_to<Isa: Instruction>(code: Seq<Isa>, k: int) -> Seq<u16>
    decreases k,
{
    if k <= 0 {
        Seq::empty()
    } else if code[k - 1].is_entry_spec() {
        table_to(code, k - 1).push(byte_offset(code, k - 1) as u16)
    } else {
        table_to(code, k - 1)
    }
}

/// The routine table of the whole sequence.
pub open spec fn routine_table<Isa: Instruction>(code: Seq<Isa>) -> Seq<u16> {
    table_to(code, code.len() as int)
}

/// Positions of the entry-point instructions among the first `k`, in order.
pub open spec fn entry_positions_to<Isa: Instruction>(code: Seq<Isa>, k: int) -> Seq<int>
    decreases k,
{
    if k <= 0 {
        Seq::empty()
    } else if code[k - 1].is_entry_spec() {
        entry_positions_to(code, k - 1).push(k - 1)
    } else {
        entry_positions_to(code, k - 1)
    }
}

/// Positions of all entry-point instructions, in order.
pub open spec fn entry_positions<Isa: Instruction>(code: Seq<Isa>) -> Seq<int> {
    entry_positions_to(code, code.len() as int)
}

/// Whether an instruction's goto field (if any) names one of `routines` known
/// routine indices.
pub open spec fn goto_ok<Isa: Instruction>(i: Isa, routines: int) -> bool {
    match i.goto_spec() {
        Some(g) => (g as int) < routines,
        None => true,
    }
}

/// Every goto reference in the sequence resolves against the sequence's own
/// routine table.
pub open spec fn refs_ok<Isa: Instruction>(code: Seq<Isa>) -> bool {
    forall|k: int|
        0 <= k < code.len() ==> goto_ok(#[trigger] code[k], routine_table(code).len() as int)
}

/// An instruction with its goto field resolved against routine table `tbl`:
/// a valid routine index is replaced by that routine's byte offset; anything
/// else is left as it stands.
pub open spec fn patch_one<Isa: Instruction>(i: Isa, tbl: Seq<u16>) -> Isa {
    match i.goto_spec() {
        Some(g) => if (g as int) < tbl.len() {
            i.with_goto_spec(tbl[g as int])
        } else {
            i
        },
        None => i,
    }
}

/// The first `n` instructions patched against `tbl`, the rest untouched.
pub open spec fn patched_to<Isa: Instruction>(code: Seq<Isa>, tbl: Seq<u16>, n: int) -> Seq<Isa> {
    Seq::new(
        code.len(),
        |k: int|
            if k < n {
                patch_one(code[k], tbl)
            } else {
                code[k]
            },
    )
}

/// The whole sequence patched against `tbl`.
pub open spec fn patched<Isa: Instruction>(code: Seq<Isa>, tbl: Seq<u16>) -> Seq<Isa> {
    patched_to(code, tbl, code.len() as int)
}

/// How patching shows through the capability set at position `k`: a goto
/// naming a valid routine index is rewritten to exactly that routine's table
/// entry, with byte length and entry-point flag untouched; an instruction
/// without a goto field is untouched entirely.
pub open spec fn patch_observed<Isa: Instruction>(
    before: Seq<Isa>,
    tbl: Seq<u16>,
    after: Seq<Isa>,
    k: int,
) -> bool {
    match before[k].goto_spec() {
        Some(g) => (g as int) < tbl.len() ==> {
            &&& after[k].goto_spec() == Some(tbl[g as int])
            &&& after[k].len_spec() == before[k].len_spec()
            &&& after[k].is_entry_spec() == before[k].is_entry_spec()
        },
        None => after[k] == before[k],
    }
}

/// Why a compilation attempt was abandoned. Every kind is terminal: the
/// caller discards the whole compilation.
#[derive(Clone, Debug, PartialEq, Eq)]
pub enum CompilerError<Isa> {
    /// The unit assembler failed on the patched sequence; the failure is
    /// propagated unchanged.
    Assemble(AssemblerError),
    /// An instruction (first payload, a copy of it) at the given position in
    /// the sequence, sitting at the given byte offset, references a goto
    /// target absent from the code. The last payload is the full routine
    /// table: the set of valid target offsets.
    InvalidRef(Isa, usize, u16, Vec<u16>),
    /// Advancing past the instruction at this position would push the code
    /// beyond the 16-bit address space of a unit.
    CodeSizeOverflow(usize),
}

/// An immutable compiled unit: content-derived identifier, assembled binary
/// unit, and the routine table mapping each routine index to the byte offset
/// of its entry point. Created only by a fully successful [`CompiledLib::compile`].
pub struct CompiledLib {
    id: LibId,
    lib: Lib,
    routines: Vec<u16>,
}

/// What a successful compilation of `code` pins down: the routine table, the
/// assembled bytecode, and the identifier are all functions of `code` (and
/// the chosen assembler) alone.
pub open spec fn is_compiled_of<Isa: Instruction, A: Assembler<Isa>>(
    unit: CompiledLib,
    code: Seq<Isa>,
) -> bool {
    &&& fits(code)
    &&& refs_ok(code)
    &&& unit.routines_seq() == routine_table(code)
    &&& A::assemble_spec(patched(code, routine_table(code)))
        == Ok::<Seq<u8>, AssemblerError>(unit.bytecode())
    &&& unit.id() == A::id_spec(unit.bytecode())
}

impl CompiledLib {
    /// The routine table: the byte offset of each routine's entry point, in
    /// scan order.
    pub closed spec fn routines_seq(&self) -> Seq<u16> {
        self.routines@
    }

    /// The unit's content-derived identifier.
    pub closed spec fn id(&self) -> LibId {
        self.id
    }

    /// The bytes of the assembled binary unit.
    pub closed spec fn bytecode(&self) -> Seq<u8> {
        self.lib@
    }

    /// Compiles a library from the provided instructions: scans the sequence
    /// for routine entry points, rewrites every local goto field from a
    /// routine index to that routine's absolute byte offset, and assembles
    /// the patched sequence into a binary unit.
    ///
    /// On success the sequence is left fully patched. On an unresolvable
    /// reference the first offending instruction is reported with its
    /// position, its byte offset and the full routine table, and the sequence
    /// is left patched only before that position.
    pub fn compile<Isa, A>(code: &mut Vec<Isa>) -> (r: Result<CompiledLib, CompilerError<Isa>>)
        where Isa: Instruction, A: Assembler<Isa>,
        ensures
            match r {
                Ok(unit) => {
                    &&& is_compiled_of::<Isa, A>(unit, old(code)@)
                    &&& final(code)@ == patched(old(code)@, routine_table(old(code)@))
                    &&& forall|k: int|
                        0 <= k < old(code)@.len() ==> patch_observed(
                            old(code)@,
                            routine_table(old(code)@),
                            final(code)@,
                            k,
                        )
                },
                Err(CompilerError::Assemble(e)) => {
                    &&& fits(old(code)@)
                    &&& refs_ok(old(code)@)
                    &&& final(code)@ == patched(old(code)@, routine_table(old(code)@))
                    &&& A::assemble_spec(patched(old(code)@, routine_table(old(code)@)))
                        == Err::<Seq<u8>, AssemblerError>(e)
                },
                Err(CompilerError::InvalidRef(instr, no, off, tbl)) => {
                    &&& fits(old(code)@)
                    &&& !refs_ok(old(code)@)
                    &&& tbl@ == routine_table(old(code)@)
                    &&& no < old(code)@.len()
                    &&& instr == old(code)@[no as int]
                    &&& match old(code)@[no as int].goto_spec() {
                        Some(g) => (g as int) >= tbl@.len(),
                        None => false,
                    }
                    &&& forall|j: int|
                        0 <= j < no ==> goto_ok(#[trigger] old(code)@[j], tbl@.len() as int)
                    &&& off as int == byte_offset(old(code)@, no as int)
                    &&& final(code)@ == patched_to(old(code)@, tbl@, no as int)
                },
                Err(CompilerError::CodeSizeOverflow(no)) => {
                    &&& !fits(old(code)@)
                    &&& no < old(code)@.len()
                    &&& byte_offset(old(code)@, no as int) <= u16::MAX
                    &&& byte_offset(old(code)@, no as int + 1) > u16::MAX
                    &&& final(code)@ == old(code)@
                },
            },
    {
        let ghost code0: Seq<Isa> = code@;
        let mut routines: Vec<u16> = Vec::new();
        let mut cursor: u16 = 0;
        let mut k: usize = 0;
        while k < code.len()
            invariant
                code0 == old(code)@,
                code@ == code0,
                k <= code0.len(),
                routines@ == table_to(code0, k as int),
                cursor as int == byte_offset(code0, k as int),
            decreases code0.len() - k,
        {
            if code[k].is_local_goto_target() {
                routines.push(cursor);
            }
            let len = code[k].code_byte_len();
            if len > u16::MAX - cursor {
                proof {
                    lemma_byte_offset_monotone(code0, k as int + 1, code0.len() as int);
                }
                return Err(CompilerError::CodeSizeOverflow(k));
            }
            cursor = cursor + len;
            k = k + 1;
        }
        let ghost tbl: Seq<u16> = routines@;
        let mut cursor: u16 = 0;
        let mut no: usize = 0;
        while no < code.len()
            invariant
                code0 == old(code)@,
                code@.len() == code0.len(),
                no <= code0.len(),
                routines@ == tbl,
                tbl == routine_table(code0),
                fits(code0),
                cursor as int == byte_offset(code0, no as int),
                forall|j: int| no <= j < code0.len() ==> code@[j] == code0[j],
                forall|j: int| 0 <= j < no ==> code@[j] == patch_one(#[trigger] code0[j], tbl),
                forall|j: int| 0 <= j < no ==> goto_ok(#[trigger] code0[j], tbl.len() as int),
                forall|j: int| 0 <= j < no ==> patch_observed(code0, tbl, code@, j),
            decreases code0.len() - no,
        {
            let len = code[no].code_byte_len();
            match code[no].local_goto_pos() {
                None => {},
                Some(g) => {
                    if (g as usize) < routines.len() {
                        let target = routines[g as usize];
                        let ghost before_seq = code@;
                        let slot = &mut code[no];
                        slot.set_local_goto_pos(target);
                        proof {
                            assert(patch_observed(code0, tbl, code@, no as int));
                            assert forall|j: int| 0 <= j < no implies patch_observed(
                                code0,
                                tbl,
                                code@,
                                j,
                            ) by {
                                assert(code@[j] == before_seq[j]);
                                assert(patch_observed(code0, tbl, before_seq, j));
                            }
                        }
                    } else {
                        let offending = code[no].dup();
                        proof {
                            assert(!goto_ok(code0[no as int], tbl.len() as int));
                            assert(!refs_ok(code0));
                            assert(code@ =~= patched_to(code0, tbl, no as int));
                        }
                        return Err(CompilerError::InvalidRef(offending, no, cursor, routines));
                    }
                },
            }
            proof {
                lemma_byte_offset_monotone(code0, no as int + 1, code0.len() as int);
            }
            cursor = cursor + len;
            no = no + 1;
        }
        proof {
            assert(code@ =~= patched(code0, tbl));
        }
        let lib = match A::assemble(&*code) {
            Ok(lib) => lib,
            Err(e) => {
                return Err(CompilerError::Assemble(e));
            },
        };
        let id = A::lib_id(&lib);
        Ok(CompiledLib { id, lib, routines })
    }

    /// Number of routines (entry points) the unit declares.
    pub fn routines_count(&self) -> (r: usize)
        ensures
            r == self.routines_seq().len(),
    {
        self.routines.len()
    }

    /// Returns the entry-point reference for the given routine: the unit's
    /// identifier paired with the routine's byte offset. Routine numbers come
    /// from the same compilation, so a caller checks `routines_count` first;
    /// a number outside the table is a caller contract violation.
    pub fn routine(&self, no: u16) -> (r: LibSite)
        requires
            (no as int) < self.routines_seq().len(),
        ensures
            r == (LibSite { lib_id: self.id(), offset: self.routines_seq()[no as int] }),
    {
        let pos = self.routines[no as usize];
        LibSite::new(self.id, pos)
    }

    /// Read-only borrow of the assembled binary unit.
    pub fn as_lib(&self) -> (r: &Lib)
        ensures
            r@ == self.bytecode(),
    {
        &self.lib
    }

    /// Ownership transfer of the assembled binary unit.
    pub fn into_lib(self) -> (r: Lib)
        ensures
            r@ == self.bytecode(),
    {
        self.lib
    }
}

/// Byte offsets never decrease along the sequence.
pub proof fn lemma_byte_offset_monotone<Isa: Instruction>(code: Seq<Isa>, j: int, k: int)
    requires
        0 <= j <= k,
    ensures
        byte_offset(code, j) <= byte_offset(code, k),
    decreases k - j,
{
    if j < k {
        lemma_byte_offset_monotone(code, j, k - 1);
    }
}

proof fn lemma_no_entries_to<Isa: Instruction>(code: Seq<Isa>, k: int)
    requires
        0 <= k <= code.len(),
        forall|j: int| 0 <= j < k ==> !(#[trigger] code[j]).is_entry_spec(),
    ensures
        table_to(code, k) == Seq::<u16>::empty(),
    decreases k,
{
    if k > 0 {
        lemma_no_entries_to(code, k - 1);
    }
}

/// A sequence with no routine entry points has an empty routine table; if no
/// instruction carries a goto field either, every reference resolves, so
/// compilation cannot fail on references.
pub proof fn lemma_no_entry_points<Isa: Instruction>(code: Seq<Isa>)
    requires
        forall|k: int| 0 <= k < code.len() ==> !(#[trigger] code[k]).is_entry_spec(),
    ensures
        routine_table(code).len() == 0,
        (forall|k: int| 0 <= k < code.len() ==> (#[trigger] code[k]).goto_spec() is None)
            ==> refs_ok(code),
{
    lemma_no_entries_to(code, code.len() as int);
    if forall|k: int| 0 <= k < code.len() ==> (#[trigger] code[k]).goto_spec() is None {
        assert forall|k: int| 0 <= k < code.len() implies goto_ok(
            #[trigger] code[k],
            routine_table(code).len() as int,
        ) by {
            assert(code[k].goto_spec() is None);
        }
    }
}

proof fn lemma_table_entries_to<Isa: Instruction>(code: Seq<Isa>, k: int)
    requires
        0 <= k <= code.len(),
    ensures
        table_to(code, k).len() == entry_positions_to(code, k).len(),
        forall|i: int|
            0 <= i < table_to(code, k).len() ==> {
                &&& 0 <= #[trigger] entry_positions_to(code, k)[i] < k
                &&& code[entry_positions_to(code, k)[i]].is_entry_spec()
                &&& table_to(code, k)[i] == byte_offset(code, entry_positions_to(code, k)[i]) as u16
            },
        forall|i: int, j: int|
            0 <= i < j < entry_positions_to(code, k).len()
                ==> #[trigger] entry_positions_to(code, k)[i]
                    < #[trigger] entry_positions_to(code, k)[j],
    decreases k,
{
    if k > 0 {
        lemma_table_entries_to(code, k - 1);
    }
}

/// The i-th routine-table entry is exactly the byte offset of the i-th
/// entry-point instruction: the sum of the byte lengths of all instructions
/// standing before it in the sequence.
pub proof fn lemma_routine_offset<Isa: Instruction>(code: Seq<Isa>, i: int)
    requires
        fits(code),
        0 <= i < entry_positions(code).len(),
    ensures
        routine_table(code).len() == entry_positions(code).len(),
        code[entry_positions(code)[i]].is_entry_spec(),
        routine_table(code)[i] as int == byte_offset(code, entry_positions(code)[i]),
{
    lemma_table_entries_to(code, code.len() as int);
    let p = entry_positions(code)[i];
    lemma_byte_offset_monotone(code, 0, p);
    lemma_byte_offset_monotone(code, p, code.len() as int);
}

/// The routine table never decreases: a routine appearing later in the
/// sequence sits at an equal or greater byte offset (equal only where
/// zero-length instructions separate the two entry points).
pub proof fn lemma_routine_table_monotone<Isa: Instruction>(code: Seq<Isa>, i: int, j: int)
    requires
        fits(code),
        0 <= i <= j < routine_table(code).len(),
    ensures
        routine_table(code)[i] <= routine_table(code)[j],
{
    lemma_table_entries_to(code, code.len() as int);
    let pi = entry_positions(code)[i];
    let pj = entry_positions(code)[j];
    lemma_byte_offset_monotone(code, 0, pi);
    lemma_byte_offset_monotone(code, pi, pj);
    lemma_byte_offset_monotone(code, pj, code.len() as int);
}

/// Compilation is deterministic: two units compiled from the same
/// instruction sequence by the same assembler carry identical routine
/// tables, identical bytecode, and identical identifiers.
pub proof fn lemma_compile_deterministic<Isa: Instruction, A: Assembler<Isa>>(
    code: Seq<Isa>,
    u1: CompiledLib,
    u2: CompiledLib,
)
    requires
        is_compiled_of::<Isa, A>(u1, code),
        is_compiled_of::<Isa, A>(u2, code),
    ensures
        u1.routines_seq() == u2.routines_seq(),
        u1.bytecode() == u2.bytecode(),
        u1.id() == u2.id(),
{
}

/// A routine entry point heading the sequence sits at byte offset zero; the
/// same entry point standing behind one non-entry instruction sits at that
/// instruction's byte length instead.
pub proof fn lemma_prefix_shifts_entry<Isa: Instruction>(first: Isa, entry: Isa)
    requires
        entry.is_entry_spec(),
        !first.is_entry_spec(),
    ensures
        routine_table(seq![entry]) == seq![0u16],
        routine_table(seq![first, entry]) == seq![first.len_spec()],
{
    let s1 = seq![entry];
    assert(s1[0] == entry);
    assert(byte_offset(s1, 0) == 0);
    assert(table_to(s1, 0) == Seq::<u16>::empty());
    assert(table_to(s1, 1) =~= seq![0u16]);
    let s2 = seq![first, entry];
    assert(s2[0] == first && s2[1] == entry);
    assert(byte_offset(s2, 0) == 0);
    assert(byte_offset(s2, 1) == first.len_spec());
    assert(table_to(s2, 0) == Seq::<u16>::empty());
    assert(table_to(s2, 1) == Seq::<u16>::empty());
    assert(table_to(s2, 2) =~= seq![first.len_spec()]);
}

} // verus!
