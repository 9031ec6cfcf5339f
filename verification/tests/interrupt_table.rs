use os_rust::interrupts::{
    breakpoint_handler, double_fault_handler, init_idt, keyboard_interrupt_handler,
    timer_interrupt_handler, Diagnostic, InterruptIndex, Outcome, PicPair, PortWrite, VectorEntry,
    CMD_END_OF_INTERRUPT, CMD_INIT, MODE_8086, PIC_1_COMMAND_PORT, PIC_1_DATA_PORT, PIC_1_OFFSET,
    PIC_2_COMMAND_PORT, PIC_2_DATA_PORT, PIC_2_OFFSET, StackSnapshot, WAIT_PORT,
};
use os_rust::keyboard::KeyboardDecoder;
use os_rust::vga_buffer::{Color, ColorCode, Writer, BUFFER_HEIGHT};

fn fresh_writer() -> Writer {
    Writer::new(ColorCode::new(Color::Yellow, Color::Black))
}

fn standard_pics() -> PicPair {
    PicPair::new(PIC_1_OFFSET, PIC_2_OFFSET)
}

fn snapshot() -> StackSnapshot {
    StackSnapshot {
        instruction_pointer: 0x1000,
        code_segment: 0x08,
        cpu_flags: 0x202,
        stack_pointer: 0x9000,
        stack_segment: 0x10,
    }
}

#[test]
fn interrupt_index_vectors() {
    assert_eq!(InterruptIndex::Timer.as_u8(), 32);
    assert_eq!(InterruptIndex::Keyboard.as_u8(), 33);
}

#[test]
fn vector_table_overrides_exactly_four_entries() {
    let table = init_idt(1);
    assert_eq!(table.get(3), VectorEntry::Breakpoint);
    assert_eq!(table.get(8), VectorEntry::DoubleFault { stack_index: 1 });
    assert_eq!(table.get(32), VectorEntry::Timer);
    assert_eq!(table.get(33), VectorEntry::Keyboard);
    for v in 0..=255u8 {
        if v != 3 && v != 8 && v != 32 && v != 33 {
            assert_eq!(table.get(v), VectorEntry::Unhandled);
        }
    }
}

#[test]
fn breakpoint_reports_once_and_resumes() {
    let frame = snapshot();
    let (diagnostic, outcome) = breakpoint_handler(&frame);
    assert_eq!(outcome, Outcome::Resume);
    assert_eq!(diagnostic, Diagnostic::Breakpoint { stack_frame: frame });
    // Still running: the handler returned normally.
}

#[test]
fn double_fault_reports_and_halts() {
    let frame = snapshot();
    let (diagnostic, outcome) = double_fault_handler(&frame, 0);
    assert_eq!(outcome, Outcome::Halt);
    assert_eq!(
        diagnostic,
        Diagnostic::DoubleFault {
            stack_frame: frame,
            error_code: 0
        }
    );
}

#[test]
fn master_line_acknowledged_with_single_command() {
    let pics = standard_pics();
    for vector in 32..40u8 {
        let writes = pics.notify_end_of_interrupt(vector);
        assert_eq!(
            writes,
            vec![PortWrite {
                port: PIC_1_COMMAND_PORT,
                value: CMD_END_OF_INTERRUPT
            }]
        );
    }
}

#[test]
fn slave_line_acknowledged_slave_then_master() {
    let pics = standard_pics();
    for vector in 40..48u8 {
        let writes = pics.notify_end_of_interrupt(vector);
        assert_eq!(
            writes,
            vec![
                PortWrite {
                    port: PIC_2_COMMAND_PORT,
                    value: CMD_END_OF_INTERRUPT
                },
                PortWrite {
                    port: PIC_1_COMMAND_PORT,
                    value: CMD_END_OF_INTERRUPT
                },
            ]
        );
    }
}

#[test]
fn unhandled_vector_not_acknowledged() {
    let pics = standard_pics();
    assert!(pics.notify_end_of_interrupt(3).is_empty());
    assert!(pics.notify_end_of_interrupt(31).is_empty());
    assert!(pics.notify_end_of_interrupt(48).is_empty());
    assert!(pics.handles_interrupt(32));
    assert!(pics.handles_interrupt(47));
    assert!(!pics.handles_interrupt(31));
    assert!(!pics.handles_interrupt(48));
}

#[test]
fn initialization_sequence_is_the_standard_one() {
    let pics = standard_pics();
    let writes = pics.initialize(0xfd, 0xff);
    let wait = PortWrite {
        port: WAIT_PORT,
        value: 0,
    };
    assert_eq!(
        writes,
        vec![
            PortWrite { port: PIC_1_COMMAND_PORT, value: CMD_INIT },
            wait,
            PortWrite { port: PIC_2_COMMAND_PORT, value: CMD_INIT },
            wait,
            PortWrite { port: PIC_1_DATA_PORT, value: 32 },
            wait,
            PortWrite { port: PIC_2_DATA_PORT, value: 40 },
            wait,
            PortWrite { port: PIC_1_DATA_PORT, value: 4 },
            wait,
            PortWrite { port: PIC_2_DATA_PORT, value: 2 },
            wait,
            PortWrite { port: PIC_1_DATA_PORT, value: MODE_8086 },
            wait,
            PortWrite { port: PIC_2_DATA_PORT, value: MODE_8086 },
            wait,
            PortWrite { port: PIC_1_DATA_PORT, value: 0xfd },
            PortWrite { port: PIC_2_DATA_PORT, value: 0xff },
        ]
    );
}

#[test]
fn timer_handler_heartbeat_then_ack() {
    let mut writer = fresh_writer();
    let pics = standard_pics();
    let acks = timer_interrupt_handler(&mut writer, &pics);
    assert_eq!(writer.read_cell(BUFFER_HEIGHT - 1, 0).ascii_character, b'.');
    assert_eq!(writer.column(), 1);
    assert_eq!(
        acks,
        vec![PortWrite {
            port: PIC_1_COMMAND_PORT,
            value: CMD_END_OF_INTERRUPT
        }]
    );
}

#[test]
fn keyboard_handler_acknowledges_whatever_the_byte() {
    let pics = standard_pics();
    let expected = vec![PortWrite {
        port: PIC_1_COMMAND_PORT,
        value: CMD_END_OF_INTERRUPT,
    }];
    // A completed sequence, a release, an extended-sequence prefix and a
    // malformed byte: each interrupt ends with exactly one acknowledgment.
    for scancode in [0x1eu8, 0x9e, 0xe0, 0x00] {
        let mut keyboard = KeyboardDecoder::new();
        let mut writer = fresh_writer();
        let (_, acks) = keyboard_interrupt_handler(&mut keyboard, &mut writer, &pics, scancode);
        assert_eq!(acks, expected);
    }
}
