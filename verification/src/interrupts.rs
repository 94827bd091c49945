//! The interrupt dispatch layer, as data: which handler each of the
//! 256 vectors carries, where the two chained interrupt controllers
//! place the external interrupt lines, and which controllers must be
//! told when a handled interrupt ends. Loading the table and talking
//! to the controller ports is hardware work left to the boot code;
//! everything decided here is checked.

use vstd::prelude::*;

verus! {

/// The vector offset of the primary interrupt controller: its eight
/// lines arrive as vectors 32 through 39, just above the CPU-reserved
/// exception vectors.
pub const PIC_1_OFFSET: u8 = 32;

/// The vector offset of the secondary interrupt controller: its
/// eight lines arrive as vectors 40 through 47.
pub const PIC_2_OFFSET: u8 = PIC_1_OFFSET + 8;

/// How many interrupt vectors the dispatch table has.
pub const IDT_ENTRIES: usize = 256;

/// The CPU exception vectors the kernel installs handlers for.
pub const BREAKPOINT_VECTOR: u8 = 3;

pub const DOUBLE_FAULT_VECTOR: u8 = 8;

pub const PAGE_FAULT_VECTOR: u8 = 14;

/// The entry of the interrupt stack table that carries the dedicated
/// known-good stack for the double fault handler.
pub const DOUBLE_FAULT_IST_INDEX: u16 = 0;

/// The external interrupt lines the kernel listens to.
#[derive(Clone, Copy, PartialEq, Eq, Structural, Debug)]
pub enum InterruptIndex {
    Timer,
    Keyboard,
}

impl InterruptIndex {
    /// The vector each line arrives at: the timer on line 0 of the
    /// primary controller, the keyboard on line 1.
    pub open spec fn spec_u8(self) -> u8 {
        match self {
            InterruptIndex::Timer => PIC_1_OFFSET,
            InterruptIndex::Keyboard => (PIC_1_OFFSET + 1) as u8,
        }
    }

    pub fn as_u8(self) -> (r: u8)
        ensures
            r == self.spec_u8(),
    {
        match self {
            InterruptIndex::Timer => PIC_1_OFFSET,
            InterruptIndex::Keyboard => PIC_1_OFFSET + 1,
        }
    }

    pub fn as_usize(self) -> (r: usize)
        ensures
            r == self.spec_u8() as usize,
    {
        self.as_u8() as usize
    }
}

/// The external interrupt vectors never overlap the CPU-reserved
/// exception vectors (0 through 31) or each other.
pub proof fn lemma_interrupt_vectors_disjoint(a: InterruptIndex, b: InterruptIndex)
    ensures
        a.spec_u8() >= 32,
        a != b ==> a.spec_u8() != b.spec_u8(),
{
}

/// The handler a dispatch-table entry points at.
#[derive(Clone, Copy, PartialEq, Eq, Structural, Debug)]
pub enum HandlerKind {
    Unset,
    Breakpoint,
    DoubleFault,
    PageFault,
    Timer,
    Keyboard,
}

/// One dispatch-table entry: its handler, and the interrupt-stack
/// entry the CPU must switch to before running it, if any.
#[derive(Clone, Copy, PartialEq, Eq, Structural, Debug)]
pub struct IdtEntry {
    pub handler: HandlerKind,
    pub stack_index: Option<u16>,
}

/// The interrupt dispatch table: one entry per vector, built once at
/// boot and read-only afterwards.
pub struct InterruptDescriptorTable {
    entries: Vec<IdtEntry>,
}

impl View for InterruptDescriptorTable {
    type V = Seq<IdtEntry>;

    closed spec fn view(&self) -> Seq<IdtEntry> {
        self.entries@
    }
}

impl InterruptDescriptorTable {
    pub open spec fn wf(self) -> bool {
        self@.len() == IDT_ENTRIES
    }

    /// A table with every vector unset.
    pub fn new() -> (r: InterruptDescriptorTable)
        ensures
            r.wf(),
            forall|v: int| 0 <= v < IDT_ENTRIES ==> r@[v] == (IdtEntry {
                handler: HandlerKind::Unset,
                stack_index: None,
            }),
    {
        let mut entries: Vec<IdtEntry> = Vec::new();
        let mut i: usize = 0;
        while i < IDT_ENTRIES
            invariant
                i <= IDT_ENTRIES,
                entries@.len() == i,
                forall|v: int| 0 <= v < i ==> entries@[v] == (IdtEntry {
                    handler: HandlerKind::Unset,
                    stack_index: None,
                }),
            decreases IDT_ENTRIES - i,
        {
            entries.push(IdtEntry { handler: HandlerKind::Unset, stack_index: None });
            i = i + 1;
        }
        InterruptDescriptorTable { entries }
    }

    /// Points one vector at a handler, on the normal kernel stack.
    pub fn set_handler(&mut self, vector: u8, handler: HandlerKind)
        requires
            old(self).wf(),
        ensures
            final(self).wf(),
            final(self)@ == old(self)@.update(vector as int, IdtEntry {
                handler,
                stack_index: None,
            }),
    {
        self.entries[vector as usize] = IdtEntry { handler, stack_index: None };
    }

    /// Points one vector at a handler that runs on a dedicated
    /// interrupt stack, so it stays safe even after a stack
    /// overflow.
    pub fn set_handler_with_stack(&mut self, vector: u8, handler: HandlerKind,
        stack_index: u16)
        requires
            old(self).wf(),
        ensures
            final(self).wf(),
            final(self)@ == old(self)@.update(vector as int, IdtEntry {
                handler,
                stack_index: Some(stack_index),
            }),
    {
        self.entries[vector as usize] = IdtEntry { handler, stack_index: Some(stack_index) };
    }

    /// The entry installed at a vector.
    pub fn entry_at(&self, vector: u8) -> (r: IdtEntry)
        requires
            self.wf(),
        ensures
            r == self@[vector as int],
    {
        self.entries[vector as usize]
    }
}

/// Builds the kernel's dispatch table: breakpoint, page fault and
/// double fault handlers for the CPU exceptions the kernel survives
/// or reports, the double fault on its dedicated stack, and the
/// timer and keyboard handlers at the controller's vectors. Every
/// other vector stays unset. Loading the finished table into the CPU
/// is the boot code's hardware step.
pub fn init_idt() -> (idt: InterruptDescriptorTable)
    ensures
        idt.wf(),
        idt@[BREAKPOINT_VECTOR as int] == (IdtEntry {
            handler: HandlerKind::Breakpoint,
            stack_index: None,
        }),
        idt@[PAGE_FAULT_VECTOR as int] == (IdtEntry {
            handler: HandlerKind::PageFault,
            stack_index: None,
        }),
        idt@[DOUBLE_FAULT_VECTOR as int] == (IdtEntry {
            handler: HandlerKind::DoubleFault,
            stack_index: Some(DOUBLE_FAULT_IST_INDEX),
        }),
        idt@[InterruptIndex::Timer.spec_u8() as int] == (IdtEntry {
            handler: HandlerKind::Timer,
            stack_index: None,
        }),
        idt@[InterruptIndex::Keyboard.spec_u8() as int] == (IdtEntry {
            handler: HandlerKind::Keyboard,
            stack_index: None,
        }),
        forall|v: int| 0 <= v < IDT_ENTRIES && v != BREAKPOINT_VECTOR as int
            && v != PAGE_FAULT_VECTOR as int && v != DOUBLE_FAULT_VECTOR as int
            && v != InterruptIndex::Timer.spec_u8() as int
            && v != InterruptIndex::Keyboard.spec_u8() as int ==> idt@[v] == (IdtEntry {
            handler: HandlerKind::Unset,
            stack_index: None,
        }),
{
    let mut idt = InterruptDescriptorTable::new();
    idt.set_handler(BREAKPOINT_VECTOR, HandlerKind::Breakpoint);
    idt.set_handler(PAGE_FAULT_VECTOR, HandlerKind::PageFault);
    idt.set_handler_with_stack(DOUBLE_FAULT_VECTOR, HandlerKind::DoubleFault,
        DOUBLE_FAULT_IST_INDEX);
    idt.set_handler(InterruptIndex::Timer.as_u8(), HandlerKind::Timer);
    idt.set_handler(InterruptIndex::Keyboard.as_u8(), HandlerKind::Keyboard);
    idt
}

/// Which controllers must be told that a handled interrupt ended.
/// Omitting the notification, or sending it for the wrong vector,
/// stalls or misroutes every later interrupt of that class.
#[derive(Clone, Copy, PartialEq, Eq, Structural, Debug)]
pub enum EndOfInterrupt {
    /// The vector belongs to the primary controller: acknowledge it
    /// alone.
    Primary,
    /// The vector belongs to the secondary controller, which is
    /// chained through the primary: acknowledge both.
    Both,
    /// The vector belongs to neither controller: acknowledge
    /// nothing.
    Neither,
}

/// Which end-of-interrupt notifications a vector requires: the
/// primary controller owns vectors 32 through 39, the secondary owns
/// 40 through 47 and is chained through the primary.
pub open spec fn spec_end_of_interrupt(vector: u8) -> EndOfInterrupt {
    if PIC_2_OFFSET <= vector < PIC_2_OFFSET + 8 {
        EndOfInterrupt::Both
    } else if PIC_1_OFFSET <= vector < PIC_1_OFFSET + 8 {
        EndOfInterrupt::Primary
    } else {
        EndOfInterrupt::Neither
    }
}

/// Decides which controllers a handler must acknowledge before it
/// returns; the boot code performs the port writes this names.
pub fn end_of_interrupt(vector: u8) -> (r: EndOfInterrupt)
    ensures
        r == spec_end_of_interrupt(vector),
{
    if PIC_2_OFFSET <= vector && vector < PIC_2_OFFSET + 8 {
        EndOfInterrupt::Both
    } else if PIC_1_OFFSET <= vector && vector < PIC_1_OFFSET + 8 {
        EndOfInterrupt::Primary
    } else {
        EndOfInterrupt::Neither
    }
}

} // verus!
