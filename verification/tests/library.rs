use vole_machine::cpu::Cpu;
use vole_machine::display::{
    append_decimal, append_hex, append_hex_number, digit_text, hex_digit_text, Foreground,
    Terminal,
};
use vole_machine::driver::{read_stop_answer, IterationFormat};
use vole_machine::program::{program, Program, ProgramLibrary};
use vole_machine::state::Status;

#[test]
fn program_new_keeps_its_parts() {
    let p = Program::new(String::from("P"), vec![1, 2, 3], 0x42);
    assert_eq!(p.name, "P");
    assert_eq!(p.code, vec![1, 2, 3]);
    assert_eq!(p.start_address, 0x42);
    let q = p.duplicate();
    assert_eq!(q.name, "P");
    assert_eq!(q.code, vec![1, 2, 3]);
    assert_eq!(q.start_address, 0x42);
}

#[test]
fn library_holds_a_b_and_c() {
    let library = ProgramLibrary::init();
    assert_eq!(library.get_names(), vec!["A", "B", "C"]);
    assert_eq!(library.programs.len(), 3);
    assert_eq!(library.programs[0].start_address, 0x30);
    assert_eq!(library.programs[0].code.len(), 26);
    assert_eq!(&library.programs[0].code[..4], &[0x20, 0x03, 0x21, 0x01]);
    assert_eq!(&library.programs[0].code[20..], &[0xB2, 0x48, 0xB0, 0x38, 0xC0, 0x00]);
    assert_eq!(library.programs[1].start_address, 0x00);
    assert_eq!(
        library.programs[1].code,
        vec![0x20, 0x04, 0x21, 0x01, 0x40, 0x12, 0x51, 0x12, 0xB1, 0x0C, 0xB0, 0x06, 0xC0, 0x00]
    );
    assert_eq!(library.programs[2].start_address, 0x00);
    assert_eq!(
        library.programs[2].code,
        vec![0x25, 0x03, 0x20, 0xF9, 0x53, 0x05, 0x33, 0x00, 0xC0, 0x00, 0xC0, 0x00, 0xC0, 0x00]
    );
}

#[test]
fn retrieve_gives_the_named_program() {
    let library = ProgramLibrary::init();
    let b = library.retrieve(String::from("B"));
    assert_eq!(b.name, "B");
    assert_eq!(b.code[1], 0x04);
    let c = library.retrieve(String::from("C"));
    assert_eq!(c.name, "C");
    assert_eq!(c.code[1], 0x03);
}

#[test]
fn retrieve_gives_the_first_of_two_with_one_name() {
    let library = ProgramLibrary {
        programs: vec![
            Program::new(String::from("X"), vec![1], 1),
            Program::new(String::from("Y"), vec![2], 2),
            Program::new(String::from("Y"), vec![3], 3),
        ],
    };
    assert_eq!(library.find(&String::from("Y")), Some(1));
    assert_eq!(library.retrieve(String::from("Y")).code, vec![2]);
    assert_eq!(library.find(&String::from("Z")), None);
}

#[test]
fn program_choice_by_input() {
    let library = ProgramLibrary::init();
    let a = program(&library, String::from("A"));
    assert!(a.is_some());
    assert_eq!(a.unwrap().start_address, 0x30);
    assert!(program(&library, String::from("a")).is_none());
    assert!(program(&library, String::from("")).is_none());
    assert!(program(&library, String::from("D")).is_none());
}

#[test]
fn library_program_a_copies_sixteen_cells() {
    let library = ProgramLibrary::init();
    let mut cpu = Cpu::new();
    cpu.import(library.retrieve(String::from("A")));
    let mut expected = *cpu.memory();
    assert_eq!(cpu.run(10_000), Ok(Status::Halted));
    // the program copies cells 0..3 to cells 16..19, rewriting its own
    // two addresses as it goes
    expected[0x39] = 3;
    expected[0x3B] = 0x13;
    assert_eq!(cpu.memory(), &expected);
    assert_eq!(cpu.registers()[2], 3);
    assert_eq!(cpu.registers()[3], 0x13);
    assert_eq!(cpu.pc(), 0x48);
    assert_eq!(cpu.program_name(), "A");
}

#[test]
fn library_program_b_halts_with_four() {
    let library = ProgramLibrary::init();
    let mut cpu = Cpu::new();
    cpu.import(library.retrieve(String::from("B")));
    assert_eq!(cpu.run(u64::MAX), Ok(Status::Halted));
    assert_eq!(cpu.registers()[0], 4);
    assert_eq!(cpu.registers()[1], 4);
    assert_eq!(cpu.cycles(), 12);
}

#[test]
fn library_program_c_adds_and_stores() {
    let library = ProgramLibrary::init();
    let mut cpu = Cpu::new();
    cpu.import(library.retrieve(String::from("C")));
    assert_eq!(cpu.run(100), Ok(Status::Halted));
    // 0xF9 + 0x03 wraps to 0xFC, stored at cell 0
    assert_eq!(cpu.registers()[3], 0xFC);
    assert_eq!(cpu.memory()[0], 0xFC);
    assert_eq!(cpu.cycles(), 5);
}

#[test]
fn heat_colours() {
    assert_eq!(Foreground::heat_from(0), Foreground::White);
    assert_eq!(Foreground::heat_from(1), Foreground::Blue);
    assert_eq!(Foreground::heat_from(2), Foreground::Cyan);
    assert_eq!(Foreground::heat_from(3), Foreground::Green);
    assert_eq!(Foreground::heat_from(4), Foreground::Yellow);
    assert_eq!(Foreground::heat_from(5), Foreground::Red);
}

#[test]
fn colour_codes() {
    assert_eq!(Foreground::Black.code(), 0);
    assert_eq!(Foreground::Red.code(), 1);
    assert_eq!(Foreground::Green.code(), 2);
    assert_eq!(Foreground::Yellow.code(), 3);
    assert_eq!(Foreground::Blue.code(), 4);
    assert_eq!(Foreground::Magenta.code(), 5);
    assert_eq!(Foreground::Cyan.code(), 6);
    assert_eq!(Foreground::White.code(), 7);
}

#[test]
fn escape_sequences() {
    assert_eq!(Terminal::get_fg_color(Foreground::Red), "\x1B[31m");
    assert_eq!(Terminal::get_fg_color(Foreground::Magenta), "\x1B[35m");
    assert_eq!(Terminal::get_fg_color(Foreground::Black), "\x1B[30m");
    assert_eq!(Terminal::get_reset_all(), "\x1B[37m");
    assert_eq!(Terminal::get_rgb_fg_color(1, 20, 255), "\x1B[38;2;1;20;255m");
    assert_eq!(Terminal::get_rgb_fg_color(0, 100, 9), "\x1B[38;2;0;100;9m");
}

#[test]
fn decimal_text_of_every_byte() {
    for n in 0..=255u128 {
        let mut text = String::from(">");
        append_decimal(&mut text, n);
        assert_eq!(text, format!(">{}", n));
    }
    for d in 0..10u8 {
        assert_eq!(digit_text(d), format!("{}", d));
    }
}

#[test]
fn hex_text_of_every_byte() {
    for n in 0..=255u8 {
        let mut text = String::from(">");
        append_hex(&mut text, n);
        assert_eq!(text, format!(">{:02X}", n));
    }
    for d in 0..16u8 {
        assert_eq!(hex_digit_text(d), format!("{:X}", d));
    }
}

#[test]
fn pacing_keys() {
    assert_eq!(IterationFormat::from_key('m'), Some(IterationFormat::User));
    assert_eq!(IterationFormat::from_key('M'), Some(IterationFormat::User));
    assert_eq!(IterationFormat::from_key('a'), Some(IterationFormat::Auto));
    assert_eq!(IterationFormat::from_key('A'), Some(IterationFormat::Auto));
    assert_eq!(IterationFormat::from_key('n'), Some(IterationFormat::NoCycles));
    assert_eq!(IterationFormat::from_key('N'), Some(IterationFormat::NoCycles));
    assert_eq!(IterationFormat::from_key('y'), None);
    assert_eq!(IterationFormat::from_key(' '), None);
    assert_eq!(IterationFormat::default(), IterationFormat::Auto);
}

#[test]
fn stop_answers() {
    assert_eq!(read_stop_answer('n'), Some(true));
    assert_eq!(read_stop_answer('N'), Some(true));
    assert_eq!(read_stop_answer('y'), Some(false));
    assert_eq!(read_stop_answer('Y'), Some(false));
    assert_eq!(read_stop_answer('x'), None);
}

fn expected_registers(cpu: &Cpu) -> String {
    let mut text = String::from("\n");
    for i in 0..16 {
        text += &format!(" r{i:02X}");
    }
    text += "\n";
    for (i, &register) in cpu.registers().iter().enumerate() {
        text += &format!(
            "  \x1B[3{}m{register:02X}\x1B[37m",
            Foreground::heat_from(cpu.register_heat()[i]).code()
        );
    }
    text += "\n";
    text
}

fn expected_memory(cpu: &Cpu) -> String {
    let mut text = format!("\n{:<4}", " ");
    for i in 0..16 {
        text += &format!(" m{i:02X}");
    }
    for (i, &byte) in cpu.memory().iter().enumerate() {
        let pc_marker = if i == cpu.pc() as usize {
            String::from(" *\x1B[35m")
        } else {
            format!("  \x1B[3{}m", Foreground::heat_from(cpu.memory_heat()[i]).code())
        };
        let first_address = i - i % 16;
        if i % 16 == 0 {
            text += &format!("\n m{first_address:02X}");
        }
        text += &format!("{pc_marker}{byte:02X}\x1B[37m");
    }
    text += "\n";
    text
}

#[test]
fn registers_table_of_a_new_machine() {
    let cpu = Cpu::new();
    let mut expected = String::from(
        "\n r00 r01 r02 r03 r04 r05 r06 r07 r08 r09 r0A r0B r0C r0D r0E r0F\n",
    );
    for _ in 0..16 {
        expected += "  \x1B[37m00\x1B[37m";
    }
    expected += "\n";
    assert_eq!(cpu.render_registers(), expected);
}

#[test]
fn registers_table_shows_values_in_their_heat() {
    let mut cpu = Cpu::new();
    cpu.import(Program::new(
        String::from("t"),
        vec![0x21, 0xAB, 0x2F, 0x0C, 0x22, 0x10, 0x23, 0xFF, 0x24, 0x01, 0x25, 0x99],
        0,
    ));
    assert_eq!(cpu.run(6), Ok(Status::Continued));
    let text = cpu.render_registers();
    assert_eq!(text, expected_registers(&cpu));
    // register 5 was written in the last cycle, register 1 five cycles before
    assert!(text.contains("  \x1B[31m99\x1B[37m"));
    assert!(text.contains("  \x1B[37mAB\x1B[37m"));
    assert!(text.contains("  \x1B[34m0C\x1B[37m"));
    assert!(text.ends_with("  \x1B[34m0C\x1B[37m\n"));
}

#[test]
fn memory_table_marks_the_program_counter() {
    let mut cpu = Cpu::new();
    cpu.import(Program::new(String::from("t"), vec![0x21, 0xAB, 0x31, 0x42, 0xC0, 0x00], 0x10));
    let text = cpu.render_memory();
    assert_eq!(text, expected_memory(&cpu));
    assert!(text.starts_with(
        "\n     m00 m01 m02 m03 m04 m05 m06 m07 m08 m09 m0A m0B m0C m0D m0E m0F\n m00  \x1B[37m00"
    ));
    assert!(text.contains("\n m10 *\x1B[35m21\x1B[37m  \x1B[37mAB\x1B[37m"));
    assert!(text.contains("\n mF0  "));
    assert_eq!(text.matches('\n').count(), 18);

    assert_eq!(cpu.run(2), Ok(Status::Continued));
    let text = cpu.render_memory();
    assert_eq!(text, expected_memory(&cpu));
    assert!(text.contains("  \x1B[31mAB\x1B[37m"));
    assert!(text.contains(" *\x1B[35mC0\x1B[37m"));
}

#[test]
fn memory_table_after_a_whole_program() {
    let library = ProgramLibrary::init();
    let mut cpu = Cpu::new();
    cpu.import(library.retrieve(String::from("A")));
    assert_eq!(cpu.run(10_000), Ok(Status::Halted));
    assert_eq!(cpu.render_memory(), expected_memory(&cpu));
    assert_eq!(cpu.render_registers(), expected_registers(&cpu));
}

#[test]
fn numbers_in_decimal_and_hexadecimal() {
    for n in [0u128, 9, 10, 15, 16, 99, 100, 255, 256, 4095, 4096, 1_000_000, u64::MAX as u128,
        u128::MAX]
    {
        let mut decimal = String::new();
        append_decimal(&mut decimal, n);
        assert_eq!(decimal, format!("{}", n));
        let mut hex = String::new();
        append_hex_number(&mut hex, n);
        assert_eq!(hex, format!("{:X}", n));
    }
    let mut text = String::from("=");
    append_decimal(&mut text, 1203);
    assert_eq!(text, "=1203");
    let mut text = String::from("=");
    append_hex_number(&mut text, 0x1F0A);
    assert_eq!(text, "=1F0A");
}

#[test]
fn status_lines() {
    let mut cpu = Cpu::new();
    assert_eq!(cpu.render_status(), "\nProgram's Used CPU Cycles: 0x0::0\nProgram Counter: m0x0\n");
    cpu.import(Program::new(String::from("t"), vec![0xB0, 0x30], 0x30));
    assert_eq!(cpu.run(26), Ok(Status::Continued));
    assert_eq!(
        cpu.render_status(),
        "\nProgram's Used CPU Cycles: 0x1A::26\nProgram Counter: m0x30\n"
    );
    assert_eq!(
        cpu.render_status(),
        format!(
            "\nProgram's Used CPU Cycles: {0:#02X}::{0}\nProgram Counter: m{1:#02X}\n",
            cpu.cycles(),
            cpu.pc()
        )
    );
}

#[test]
fn whole_machine_as_text() {
    let library = ProgramLibrary::init();
    let mut cpu = Cpu::new();
    cpu.import(library.retrieve(String::from("C")));
    assert_eq!(cpu.run(3), Ok(Status::Continued));
    let expected = format!(
        "\nProgram's Used CPU Cycles: {0:#02X}::{0}\nProgram Counter: m{1:#02X}\n{2}{3}",
        cpu.cycles(),
        cpu.pc(),
        expected_registers(&cpu),
        expected_memory(&cpu)
    );
    assert_eq!(cpu.render(), expected);
}
