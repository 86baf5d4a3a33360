use dcpu16::Register::{A, B};
use dcpu16::{Monitor, Processor, Program};

#[test]
fn monitor_identity() {
    let monitor = Monitor::new();
    assert_eq!(monitor.id(), 0x7349F615);
    assert_eq!(monitor.version(), 0x1802);
    assert_eq!(monitor.manufacturer(), 0x1C6C8B36);
    assert_eq!(monitor.screen_addr, 0);
    assert_eq!(monitor.palette_addr, 0);
}

#[test]
fn monitor_interrupt_maps_memory() {
    let mut monitor = Monitor::new();
    let mut machine = Processor::new();
    machine.set_register(A, 0);
    machine.set_register(B, 0x8000);
    monitor.handle_interrupt(&machine);
    assert_eq!(monitor.screen_addr, 0x8000);
    machine.set_register(A, 2);
    machine.set_register(B, 0x9000);
    monitor.handle_interrupt(&machine);
    assert_eq!(monitor.palette_addr, 0x9000);
    machine.set_register(A, 3);
    machine.set_register(B, 0x0004);
    monitor.handle_interrupt(&machine);
    assert_eq!(monitor.border_color, 0x0004);
    machine.set_register(A, 7);
    machine.set_register(B, 0x1111);
    monitor.handle_interrupt(&machine);
    assert_eq!(monitor.screen_addr, 0x8000);
    assert_eq!(monitor.font_addr, 0);
}

#[test]
fn quadrant_glyphs() {
    let monitor = Monitor::new();
    assert_eq!(monitor.get_2x2_char(0x0), " ");
    assert_eq!(monitor.get_2x2_char(0x5), "\u{2580}");
    assert_eq!(monitor.get_2x2_char(0xF), "\x1b[7m \x1b[27m");
    assert_eq!(monitor.get_2x2_char(0x10), "X");
    assert_eq!(monitor.get_wide_2x2_char(0x6), "\u{2584}\u{2580}");
    assert_eq!(monitor.get_wide_2x2_char(0xF), "\x1b[7m  \x1b[27m");
}

#[test]
fn glyph_from_pixels() {
    let monitor = Monitor::new();
    assert_eq!(
        monitor.get_8x4_char(0x0100_0000),
        "\u{2598} \x1b[2D\x1b[B  \x1b[2D\x1b[B  \x1b[2D\x1b[B  \x1b[3A"
    );
    assert_eq!(
        monitor.get_wide_8x4_char(0x0000_0080),
        "    \x1b[4D\x1b[B    \x1b[4D\x1b[B    \x1b[4D\x1b[B   \u{2584}\x1b[3A"
    );
}

#[test]
fn built_in_font_glyph() {
    let monitor = Monitor::new();
    let machine = Processor::new();
    assert_eq!(
        monitor.get_font_char(&machine, 0x41),
        "\u{2584}\u{2580}\u{2584} \x1b[4D\x1b[B\x1b[7m \x1b[27m\u{2584}\x1b[7m \x1b[27m \x1b[4D\x1b[B\x1b[7m \x1b[27m \x1b[7m \x1b[27m \x1b[4D\x1b[B\u{2580} \u{2580} \x1b[3A"
    );
}

#[test]
fn mapped_font_glyph() {
    let mut monitor = Monitor::new();
    let mut machine = Processor::new();
    monitor.font_addr = 0x2000;
    machine.set_memory(0x2002, 0x0100);
    machine.set_memory(0x2003, 0x0000);
    assert_eq!(
        monitor.get_font_char(&machine, 1),
        "\u{2580}   \x1b[4D\x1b[B    \x1b[4D\x1b[B    \x1b[4D\x1b[B    \x1b[3A"
    );
}

#[test]
fn palette_colors() {
    let mut monitor = Monitor::new();
    let mut machine = Processor::new();
    assert_eq!(monitor.get_ansi_color(&machine, 15), 231);
    assert_eq!(monitor.get_ansi_color(&machine, 1), 19);
    assert_eq!(monitor.get_ansi_color(&machine, 0), 16);
    assert_eq!(monitor.get_24bit_ansi_color(&machine, 6), "160;80;0");
    monitor.palette_addr = 0x0100;
    machine.set_memory(0x0102, 0x0F00);
    assert_eq!(monitor.get_24bit_ansi_color(&machine, 2), "240;0;0");
    assert_eq!(monitor.get_ansi_color(&machine, 2), 196);
}

#[test]
fn render_blank_screen() {
    let monitor = Monitor::new();
    let machine = Processor::new();
    let cell = "\x1b[38;5;16m\x1b[48;5;16m \x1b[7m \x1b[27m  \x1b[4D\x1b[B \x1b[7m \x1b[27m\u{2584}\u{2584}\x1b[4D\x1b[B    \x1b[4D\x1b[B    \x1b[3A";
    let row = cell.repeat(32);
    let mut expected = String::from("\x1b[0;0H");
    for y in 0..12 {
        if y > 0 {
            expected.push_str("\x1b[3B\n");
        }
        expected.push_str(&row);
    }
    assert_eq!(monitor.render_ansi(&machine), expected);
    let truecolor = monitor.render_24bit_ansi(&machine);
    assert!(truecolor.starts_with("\x1b[0;0H\x1b[38;2;0;0;0m\x1b[48;2;0;0;0m"));
    assert_eq!(truecolor.matches("\x1b[3B\n").count(), 11);
}

#[test]
fn program_from_big_endian_bytes() {
    let program = Program::from_bytes(&[0x7C, 0x01, 0xDE, 0xAD, 0xFF]);
    assert_eq!(program.words(), &vec![0x7C01, 0xDEAD]);
    let mut machine = Processor::new();
    machine.load_program(0, &program);
    machine.tick();
    assert_eq!(machine.get_register(A), 0xDEAD);
}

#[test]
fn reset_clears_the_processor() {
    let mut machine = Processor::new();
    machine.set_register(A, 5);
    machine.set_memory(0x1234, 9);
    machine.push(3);
    machine.reset();
    assert_eq!(machine.get_register(A), 0);
    assert_eq!(machine.get_register(dcpu16::Register::SP), 0);
    assert_eq!(machine.get_memory(0x1234), 0);
    assert_eq!(machine.cycle(), 0);
}
