//! Interrupt dispatch: the 256-entry vector table, the chained
//! interrupt-controller protocol, and the exception and device handlers.
//!
//! Hardware effects are modelled as data. A handler returns the diagnostic it
//! reports and the outcome of the interrupt (resume or halt); controller
//! commands are returned as the exact sequence of [`PortWrite`]s that must be
//! sent, in order, to the controller I/O ports. The caller that owns the real
//! ports performs the writes; everything decided here is proved.

use vstd::prelude::*;
use vstd::utf8::encode_utf8;
use crate::vga_buffer::{Writer, run, step};
use crate::keyboard::{DecodedKey, KeyboardDecoder, write_decoded_key};

verus! {

/// First vector of the master controller: hardware interrupt lines start
/// right above the 32 CPU-reserved exception vectors.
pub const PIC_1_OFFSET: u8 = 32;

/// First vector of the slave controller.
pub const PIC_2_OFFSET: u8 = 40;

/// Vector of the breakpoint exception, fixed by the CPU.
pub const BREAKPOINT_VECTOR: u8 = 3;

/// Vector of the double-fault exception, fixed by the CPU.
pub const DOUBLE_FAULT_VECTOR: u8 = 8;

/// Command port of the master controller.
pub const PIC_1_COMMAND_PORT: u16 = 0x20;

/// Data port of the master controller.
pub const PIC_1_DATA_PORT: u16 = 0x21;

/// Command port of the slave controller.
pub const PIC_2_COMMAND_PORT: u16 = 0xa0;

/// Data port of the slave controller.
pub const PIC_2_DATA_PORT: u16 = 0xa1;

/// Unused port written between initialization bytes to give the controllers
/// time to settle.
pub const WAIT_PORT: u16 = 0x80;

/// Command byte that begins controller initialization.
pub const CMD_INIT: u8 = 0x11;

/// Command byte that acknowledges an interrupt (end of interrupt).
pub const CMD_END_OF_INTERRUPT: u8 = 0x20;

/// Mode byte selecting 8086/88 operation.
pub const MODE_8086: u8 = 0x01;

/// Heartbeat glyph the timer handler emits.
pub const HEARTBEAT_BYTE: u8 = 0x2e;

/// The two hardware interrupt lines this kernel claims, as contiguous vectors
/// starting at the master controller's offset.
#[derive(Clone, Copy, PartialEq, Eq, Structural, Debug)]
pub enum InterruptIndex {
    Timer,
    Keyboard,
}

impl InterruptIndex {
    /// The interrupt vector this line is mapped to.
    pub open spec fn spec_u8(self) -> u8 {
        match self {
            InterruptIndex::Timer => PIC_1_OFFSET,
            InterruptIndex::Keyboard => (PIC_1_OFFSET + 1) as u8,
        }
    }

    /// The interrupt vector this line is mapped to.
    pub fn as_u8(self) -> (r: u8)
        ensures
            r == self.spec_u8(),
    {
        match self {
            InterruptIndex::Timer => PIC_1_OFFSET,
            InterruptIndex::Keyboard => PIC_1_OFFSET + 1,
        }
    }
}

/// One command to send to a controller: `value` written to I/O port `port`.
#[derive(Clone, Copy, PartialEq, Eq, Structural, Debug)]
pub struct PortWrite {
    pub port: u16,
    pub value: u8,
}

/// The pair of chained interrupt controllers: the slave's output line feeds
/// one input line of the master. Each is configured with the first vector of
/// the 8 hardware lines it handles.
#[derive(Clone, Copy, PartialEq, Eq, Structural, Debug)]
pub struct PicPair {
    pub master_offset: u8,
    pub slave_offset: u8,
}

impl PicPair {
    /// Both offsets lie above the CPU-reserved vectors and leave room for 8
    /// lines each.
    pub open spec fn wf(self) -> bool {
        &&& 32 <= self.master_offset <= 247
        &&& 32 <= self.slave_offset <= 247
    }

    /// A controller pair with the given vector offsets. Offsets below 32
    /// would collide with CPU exception vectors and are rejected.
    pub fn new(offset1: u8, offset2: u8) -> (p: PicPair)
        requires
            32 <= offset1 <= 247,
            32 <= offset2 <= 247,
        ensures
            p.wf(),
            p.master_offset == offset1,
            p.slave_offset == offset2,
    {
        PicPair { master_offset: offset1, slave_offset: offset2 }
    }

    /// Whether the master controller handles this vector.
    pub open spec fn spec_master_handles(self, vector: u8) -> bool {
        self.master_offset <= vector < self.master_offset + 8
    }

    /// Whether the slave controller handles this vector.
    pub open spec fn spec_slave_handles(self, vector: u8) -> bool {
        self.slave_offset <= vector < self.slave_offset + 8
    }

    /// Whether either controller handles this vector.
    pub open spec fn spec_handles(self, vector: u8) -> bool {
        self.spec_master_handles(vector) || self.spec_slave_handles(vector)
    }

    /// Whether either controller handles this vector.
    pub fn handles_interrupt(&self, vector: u8) -> (r: bool)
        requires
            self.wf(),
        ensures
            r == self.spec_handles(vector),
    {
        (self.master_offset <= vector && vector < self.master_offset + 8) || (self.slave_offset
            <= vector && vector < self.slave_offset + 8)
    }

    /// The exact command writes that acknowledge `vector`: for a vector
    /// handled by the slave, the slave is acknowledged first and then the
    /// master (the slave is chained through the master); for a vector handled
    /// by the master alone, only the master; for a vector neither handles,
    /// nothing.
    pub open spec fn spec_end_of_interrupt(self, vector: u8) -> Seq<PortWrite> {
        if self.spec_slave_handles(vector) {
            seq![
                PortWrite { port: PIC_2_COMMAND_PORT, value: CMD_END_OF_INTERRUPT },
                PortWrite { port: PIC_1_COMMAND_PORT, value: CMD_END_OF_INTERRUPT },
            ]
        } else if self.spec_master_handles(vector) {
            seq![PortWrite { port: PIC_1_COMMAND_PORT, value: CMD_END_OF_INTERRUPT }]
        } else {
            Seq::empty()
        }
    }

    /// Acknowledgment of `vector`: the command writes a device handler must
    /// send as its last action, in order.
    pub fn notify_end_of_interrupt(&self, vector: u8) -> (w: Vec<PortWrite>)
        requires
            self.wf(),
        ensures
            w@ == self.spec_end_of_interrupt(vector),
    {
        let mut w: Vec<PortWrite> = Vec::new();
        if self.slave_offset <= vector && vector < self.slave_offset + 8 {
            w.push(PortWrite { port: PIC_2_COMMAND_PORT, value: CMD_END_OF_INTERRUPT });
            w.push(PortWrite { port: PIC_1_COMMAND_PORT, value: CMD_END_OF_INTERRUPT });
        } else if self.master_offset <= vector && vector < self.master_offset + 8 {
            w.push(PortWrite { port: PIC_1_COMMAND_PORT, value: CMD_END_OF_INTERRUPT });
        }
        proof {
            assert(w@ =~= self.spec_end_of_interrupt(vector));
        }
        w
    }

    /// The standard four-step initialization sequence for both controllers,
    /// with a settle write after each byte: begin-initialization on both
    /// command ports, then on the data ports the vector offsets, the chaining
    /// configuration (slave on master line 2), the 8086 mode, and finally the
    /// restored interrupt masks (read from the data ports before the
    /// sequence and passed in here).
    pub open spec fn spec_initialization(self, saved_mask1: u8, saved_mask2: u8) -> Seq<
        PortWrite,
    > {
        seq![
            PortWrite { port: PIC_1_COMMAND_PORT, value: CMD_INIT },
            PortWrite { port: WAIT_PORT, value: 0 },
            PortWrite { port: PIC_2_COMMAND_PORT, value: CMD_INIT },
            PortWrite { port: WAIT_PORT, value: 0 },
            PortWrite { port: PIC_1_DATA_PORT, value: self.master_offset },
            PortWrite { port: WAIT_PORT, value: 0 },
            PortWrite { port: PIC_2_DATA_PORT, value: self.slave_offset },
            PortWrite { port: WAIT_PORT, value: 0 },
            PortWrite { port: PIC_1_DATA_PORT, value: 4 },
            PortWrite { port: WAIT_PORT, value: 0 },
            PortWrite { port: PIC_2_DATA_PORT, value: 2 },
            PortWrite { port: WAIT_PORT, value: 0 },
            PortWrite { port: PIC_1_DATA_PORT, value: MODE_8086 },
            PortWrite { port: WAIT_PORT, value: 0 },
            PortWrite { port: PIC_2_DATA_PORT, value: MODE_8086 },
            PortWrite { port: WAIT_PORT, value: 0 },
            PortWrite { port: PIC_1_DATA_PORT, value: saved_mask1 },
            PortWrite { port: PIC_2_DATA_PORT, value: saved_mask2 },
        ]
    }

    /// Initialization of both controllers. Must run once, before interrupts
    /// are unmasked. The caller reads the current interrupt masks from the
    /// data ports, passes them in, and then performs the returned writes in
    /// order.
    pub fn initialize(&self, saved_mask1: u8, saved_mask2: u8) -> (w: Vec<PortWrite>)
        requires
            self.wf(),
        ensures
            w@ == self.spec_initialization(saved_mask1, saved_mask2),
    {
        let mut w: Vec<PortWrite> = Vec::new();
        w.push(PortWrite { port: PIC_1_COMMAND_PORT, value: CMD_INIT });
        w.push(PortWrite { port: WAIT_PORT, value: 0 });
        w.push(PortWrite { port: PIC_2_COMMAND_PORT, value: CMD_INIT });
        w.push(PortWrite { port: WAIT_PORT, value: 0 });
        w.push(PortWrite { port: PIC_1_DATA_PORT, value: self.master_offset });
        w.push(PortWrite { port: WAIT_PORT, value: 0 });
        w.push(PortWrite { port: PIC_2_DATA_PORT, value: self.slave_offset });
        w.push(PortWrite { port: WAIT_PORT, value: 0 });
        w.push(PortWrite { port: PIC_1_DATA_PORT, value: 4 });
        w.push(PortWrite { port: WAIT_PORT, value: 0 });
        w.push(PortWrite { port: PIC_2_DATA_PORT, value: 2 });
        w.push(PortWrite { port: WAIT_PORT, value: 0 });
        w.push(PortWrite { port: PIC_1_DATA_PORT, value: MODE_8086 });
        w.push(PortWrite { port: WAIT_PORT, value: 0 });
        w.push(PortWrite { port: PIC_2_DATA_PORT, value: MODE_8086 });
        w.push(PortWrite { port: WAIT_PORT, value: 0 });
        w.push(PortWrite { port: PIC_1_DATA_PORT, value: saved_mask1 });
        w.push(PortWrite { port: PIC_2_DATA_PORT, value: saved_mask2 });
        proof {
            assert(w@ =~= self.spec_initialization(saved_mask1, saved_mask2));
        }
        w
    }
}

/// A device handler acknowledges its own vector with exactly one command
/// write: lines on the master controller take a single end-of-interrupt
/// command.
pub proof fn lemma_ack_exactly_once(p: PicPair, line: InterruptIndex)
    requires
        p.master_offset == PIC_1_OFFSET,
        p.slave_offset == PIC_2_OFFSET,
    ensures
        p.spec_end_of_interrupt(line.spec_u8()) =~= seq![
            PortWrite { port: PIC_1_COMMAND_PORT, value: CMD_END_OF_INTERRUPT },
        ],
{
}

/// Snapshot of the interrupted execution context that the CPU pushes for an
/// exception or interrupt handler.
#[derive(Clone, Copy, PartialEq, Eq, Structural, Debug)]
pub struct StackSnapshot {
    pub instruction_pointer: u64,
    pub code_segment: u64,
    pub cpu_flags: u64,
    pub stack_pointer: u64,
    pub stack_segment: u64,
}

/// One diagnostic report produced by an exception handler.
#[derive(Clone, Copy, PartialEq, Eq, Structural, Debug)]
pub enum Diagnostic {
    Breakpoint { stack_frame: StackSnapshot },
    DoubleFault { stack_frame: StackSnapshot, error_code: u64 },
}

/// What happens to the interrupted code after a handler finishes: it resumes
/// at the next instruction, or the whole system halts permanently.
#[derive(Clone, Copy, PartialEq, Eq, Structural, Debug)]
pub enum Outcome {
    Resume,
    Halt,
}

/// The breakpoint exception handler: produces exactly one diagnostic holding
/// the interrupted context, mutates nothing, and resumes the interrupted
/// code.
pub fn breakpoint_handler(stack_frame: &StackSnapshot) -> (r: (Diagnostic, Outcome))
    ensures
        r.0 == (Diagnostic::Breakpoint { stack_frame: *stack_frame }),
        r.1 == Outcome::Resume,
{
    (Diagnostic::Breakpoint { stack_frame: *stack_frame }, Outcome::Resume)
}

/// The double-fault handler: produces exactly one diagnostic holding the
/// interrupted context and the fault code, and halts the system — the
/// fault-handling path itself failed, so the handler never resumes.
pub fn double_fault_handler(stack_frame: &StackSnapshot, error_code: u64) -> (r: (
    Diagnostic,
    Outcome,
))
    ensures
        r.0 == (Diagnostic::DoubleFault { stack_frame: *stack_frame, error_code }),
        r.1 == Outcome::Halt,
{
    (Diagnostic::DoubleFault { stack_frame: *stack_frame, error_code }, Outcome::Halt)
}

/// The timer handler: emits one heartbeat glyph to the display, then — as its
/// unconditional last action — acknowledges the timer vector.
pub fn timer_interrupt_handler(writer: &mut Writer, pics: &PicPair) -> (acks: Vec<PortWrite>)
    requires
        old(writer).wf(),
        pics.wf(),
    ensures
        final(writer).wf(),
        final(writer).color() == old(writer).color(),
        final(writer)@ == step(old(writer)@, HEARTBEAT_BYTE, old(writer).color()),
        acks@ == pics.spec_end_of_interrupt(InterruptIndex::Timer.spec_u8()),
{
    writer.write_byte(HEARTBEAT_BYTE);
    pics.notify_end_of_interrupt(InterruptIndex::Timer.as_u8())
}

/// The keyboard handler: feeds the scancode byte (already read from the
/// keyboard port by the caller) to the decoder, writes the decoded key to
/// the display if and only if decoding completed — a malformed or
/// unfinished sequence is absorbed and writes nothing — and, as its
/// unconditional last action, whatever decoding produced, acknowledges the
/// keyboard vector. Returns what was decoded beside the acknowledgment
/// commands.
pub fn keyboard_interrupt_handler(
    keyboard: &mut KeyboardDecoder,
    writer: &mut Writer,
    pics: &PicPair,
    scancode: u8,
) -> (r: (Option<DecodedKey>, Vec<PortWrite>))
    requires
        old(writer).wf(),
        pics.wf(),
    ensures
        final(writer).wf(),
        final(writer).color() == old(writer).color(),
        final(writer)@ == (match r.0 {
            None => old(writer)@,
            Some(DecodedKey::Unicode(c)) => run(
                old(writer)@,
                encode_utf8(seq![c]),
                old(writer).color(),
            ),
            Some(DecodedKey::RawKey(name)) => run(
                old(writer)@,
                encode_utf8(name@),
                old(writer).color(),
            ),
        }),
        r.1@ == pics.spec_end_of_interrupt(InterruptIndex::Keyboard.spec_u8()),
{
    let decoded = if let Some(key_event) = keyboard.add_byte(scancode) {
        keyboard.process_keyevent(key_event)
    } else {
        None
    };
    match &decoded {
        Some(key) => write_decoded_key(writer, key),
        None => (),
    }
    let acks = pics.notify_end_of_interrupt(InterruptIndex::Keyboard.as_u8());
    (decoded, acks)
}

/// An entry of the vector table: the handler assigned to one vector. The
/// double-fault entry carries the index of the dedicated alternate stack it
/// must run on.
#[derive(Clone, Copy, PartialEq, Eq, Structural, Debug)]
pub enum VectorEntry {
    Unhandled,
    Breakpoint,
    DoubleFault { stack_index: u16 },
    Timer,
    Keyboard,
}

/// The handler owed to vector `v`: breakpoint and double-fault at their
/// CPU-fixed vectors, the two device lines at the master controller's offset,
/// every other vector unhandled.
pub open spec fn spec_vector_entry(v: int, double_fault_stack_index: u16) -> VectorEntry {
    if v == BREAKPOINT_VECTOR {
        VectorEntry::Breakpoint
    } else if v == DOUBLE_FAULT_VECTOR {
        VectorEntry::DoubleFault { stack_index: double_fault_stack_index }
    } else if v == InterruptIndex::Timer.spec_u8() {
        VectorEntry::Timer
    } else if v == InterruptIndex::Keyboard.spec_u8() {
        VectorEntry::Keyboard
    } else {
        VectorEntry::Unhandled
    }
}

/// The 256-entry table mapping every interrupt vector to its handler. Built
/// once at startup; the caller then installs it as the CPU's dispatch table
/// and treats it as immutable.
pub struct VectorTable {
    pub entries: Vec<VectorEntry>,
}

impl VectorTable {
    /// The table covers all 256 vectors.
    pub open spec fn wf(self) -> bool {
        self.entries@.len() == 256
    }

    /// The entry for `vector`.
    pub fn get(&self, vector: u8) -> (e: VectorEntry)
        requires
            self.wf(),
        ensures
            e == self.entries@[vector as int],
    {
        *vstd::slice::slice_index_get(self.entries.as_slice(), vector as usize)
    }
}

/// Builds the vector table: all 256 entries unhandled except the breakpoint
/// exception, the double-fault exception (bound to the alternate stack with
/// the given index, which the caller's descriptor table must already
/// provide), and the two device lines. The caller installs the result as the
/// CPU's dispatch table before unmasking interrupts.
#[verifier::loop_isolation(false)]
pub fn init_idt(double_fault_stack_index: u16) -> (t: VectorTable)
    ensures
        t.wf(),
        forall|v: int|
            0 <= v < 256 ==> #[trigger] t.entries@[v] == spec_vector_entry(
                v,
                double_fault_stack_index,
            ),
{
    let mut entries: Vec<VectorEntry> = Vec::new();
    let mut i: usize = 0;
    while i < 256
        invariant
            i <= 256,
            entries@.len() == i,
            forall|v: int|
                0 <= v < i ==> #[trigger] entries@[v] == spec_vector_entry(
                    v,
                    double_fault_stack_index,
                ),
        decreases 256 - i,
    {
        let entry = if i == BREAKPOINT_VECTOR as usize {
            VectorEntry::Breakpoint
        } else if i == DOUBLE_FAULT_VECTOR as usize {
            VectorEntry::DoubleFault { stack_index: double_fault_stack_index }
        } else if i == PIC_1_OFFSET as usize {
            VectorEntry::Timer
        } else if i == PIC_1_OFFSET as usize + 1 {
            VectorEntry::Keyboard
        } else {
            VectorEntry::Unhandled
        };
        entries.push(entry);
        i = i + 1;
    }
    VectorTable { entries }
}

} // verus!
