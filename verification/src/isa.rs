//! The instruction capability set the compiler consumes, and a minimal
//! reference instruction implementing it.

use vstd::prelude::*;

verus! {

/// One virtual-machine instruction, seen through the narrow capability set
/// the compiler needs: its encoded byte length, whether it marks a routine
/// entry point, and a local-goto field that holds a routine index and can be
/// read and overwritten. Everything else about the instruction is opaque.
pub trait Instruction: Sized {
    /// Byte length of the instruction's encoded form.
    spec fn len_spec(&self) -> u16;

    /// Whether the instruction marks a routine entry point.
    spec fn is_entry_spec(&self) -> bool;

    /// The local-goto field, if the instruction carries one.
    spec fn goto_spec(&self) -> Option<u16>;

    /// The same instruction with its local-goto field overwritten.
    spec fn with_goto_spec(&self, pos: u16) -> Self;

    /// Byte length of the instruction's encoded form.
    fn code_byte_len(&self) -> (r: u16)
        ensures
            r == self.len_spec(),
    ;

    /// Whether the instruction marks a routine entry point.
    fn is_local_goto_target(&self) -> (r: bool)
        ensures
            r == self.is_entry_spec(),
    ;

    /// Reads the local-goto field, if the instruction carries one.
    fn local_goto_pos(&self) -> (r: Option<u16>)
        ensures
            r == self.goto_spec(),
    ;

    /// Overwrites the local-goto field; every other capability of the
    /// instruction is left unchanged.
    fn set_local_goto_pos(&mut self, pos: u16)
        requires
            old(self).goto_spec() is Some,
        ensures
            *final(self) == old(self).with_goto_spec(pos),
            final(self).goto_spec() == Some(pos),
            final(self).len_spec() == old(self).len_spec(),
            final(self).is_entry_spec() == old(self).is_entry_spec(),
    ;

    /// An exact copy of the instruction.
    fn dup(&self) -> (r: Self)
        ensures
            r == *self,
    ;
}

/// A minimal instruction: exactly the capabilities the compiler reads, held
/// as plain fields. It serves as the reference implementation of
/// [`Instruction`] and as the instruction type the test suite compiles.
#[derive(Clone, Copy, PartialEq, Eq, Debug)]
pub struct BasicInstr {
    /// Encoded byte length of the instruction.
    pub byte_len: u16,
    /// Whether the instruction marks a routine entry point.
    pub entry: bool,
    /// Local-goto field: a routine index before patching, an absolute byte
    /// offset after.
    pub goto: Option<u16>,
}

impl Instruction for BasicInstr {
    open spec fn len_spec(&self) -> u16 {
        self.byte_len
    }

    open spec fn is_entry_spec(&self) -> bool {
        self.entry
    }

    open spec fn goto_spec(&self) -> Option<u16> {
        self.goto
    }

    open spec fn with_goto_spec(&self, pos: u16) -> Self {
        BasicInstr { byte_len: self.byte_len, entry: self.entry, goto: Some(pos) }
    }

    fn code_byte_len(&self) -> u16 {
        self.byte_len
    }

    fn is_local_goto_target(&self) -> bool {
        self.entry
    }

    fn local_goto_pos(&self) -> Option<u16> {
        self.goto
    }

    fn set_local_goto_pos(&mut self, pos: u16) {
        self.goto = Some(pos);
    }

    fn dup(&self) -> Self {
        *self
    }
}

} // verus!
