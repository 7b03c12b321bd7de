use hp16c::command::{parse_command, Command, Reply};
use hp16c::completion::Hp16cCompleter;
use hp16c::cpu::Hp16cCpu;
use hp16c::rom::{line_entry, Rom};
use hp16c::text::parse_numeral;

#[test]
fn table_lines_are_read() {
    assert_eq!(line_entry("1000:ABCD"), Some((0x1000, 0xABCD)));
    assert_eq!(line_entry("  1f : 2 "), None);
    assert_eq!(line_entry("\t1f:2e\r"), Some((0x1F, 0x2E)));
    assert_eq!(line_entry("+1f:+2"), Some((0x1F, 0x2)));
    assert_eq!(line_entry("# 12:34"), None);
    assert_eq!(line_entry(""), None);
    assert_eq!(line_entry("   "), None);
    assert_eq!(line_entry("1234"), None);
    assert_eq!(line_entry("10000:1"), None);
    assert_eq!(line_entry("1:2:3"), None);
    assert_eq!(line_entry("zz:1"), None);
    assert_eq!(line_entry(":1"), None);
    assert_eq!(line_entry("-1:1"), None);
    assert_eq!(line_entry("FFFF:0000"), Some((0xFFFF, 0)));
    assert_eq!(line_entry("\u{3000}12:34\u{a0}"), Some((0x12, 0x34)));
}

#[test]
fn rom_keeps_the_last_value_of_an_address() {
    let mut rom = Rom::new();
    rom.load_line("10:1");
    rom.load_line("not a line");
    rom.load_line("20:2");
    rom.load_line("10:3");
    assert_eq!(rom.size(), 2);
    assert_eq!(rom.read(0x10), 3);
    assert_eq!(rom.read(0x20), 2);
    assert_eq!(rom.read(0x30), 0);
}

#[test]
fn engine_loads_a_table_file() {
    let mut calc = Hp16cCpu::new();
    calc.push(7);
    let lines: Vec<String> = vec!["# table".to_string(), "0100:00FF".to_string(), String::new(), "0101:1".to_string()];
    calc.load_rom(&lines);
    assert_eq!(calc.rom.size(), 2);
    assert_eq!(calc.rom.read(0x100), 0xFF);
    assert_eq!(calc.rom.read(0x101), 1);
    assert_eq!(calc.x, 7);
}

#[test]
fn numerals_follow_the_radix() {
    assert_eq!(parse_numeral("ff", 0, 2, 16, u128::MAX), Some(255));
    assert_eq!(parse_numeral("102", 0, 3, 2, u128::MAX), None);
    assert_eq!(parse_numeral("777", 0, 3, 8, u128::MAX), Some(0o777));
    assert_eq!(parse_numeral("256", 0, 3, 10, 255), None);
    assert_eq!(parse_numeral("255", 0, 3, 10, 255), Some(255));
    assert_eq!(parse_numeral("+", 0, 1, 10, 255), None);
    let max = "340282366920938463463374607431768211455";
    assert_eq!(parse_numeral(max, 0, max.len(), 10, u128::MAX), Some(u128::MAX));
    let over = "340282366920938463463374607431768211456";
    assert_eq!(parse_numeral(over, 0, over.len(), 10, u128::MAX), None);
}

#[test]
fn commands_are_recognised() {
    assert_eq!(parse_command("  quit ", 16), Command::Quit);
    assert_eq!(parse_command("q", 16), Command::Quit);
    assert_eq!(parse_command("?", 16), Command::Help);
    assert_eq!(parse_command("", 16), Command::Empty);
    assert_eq!(parse_command("r^", 16), Command::RollUp);
    assert_eq!(parse_command("rv", 16), Command::RollDown);
    assert_eq!(parse_command("+", 16), Command::Add);
    assert_eq!(parse_command("~", 16), Command::Not);
    assert_eq!(parse_command("bin", 16), Command::SetBase(2));
    assert_eq!(parse_command("sto 5", 16), Command::Store(5));
    assert_eq!(parse_command("rcl 15", 16), Command::Recall(15));
    assert_eq!(parse_command("sto x", 16), Command::BadRegister);
    assert_eq!(parse_command("ws 32", 16), Command::WordSize(32));
    assert_eq!(parse_command("ws 300", 16), Command::BadWordSize);
    assert_eq!(parse_command("sl 3", 16), Command::ShiftLeft(3));
    assert_eq!(parse_command("sr", 16), Command::Unknown);
    assert_eq!(parse_command("sr -1", 16), Command::BadShift);
    assert_eq!(parse_command("ff", 16), Command::Number(255));
    assert_eq!(parse_command("12", 10), Command::Number(12));
    assert_eq!(parse_command("102", 2), Command::Unknown);
    assert_eq!(parse_command("hello", 16), Command::Unknown);
}

#[test]
fn commands_drive_the_engine() {
    let mut calc = Hp16cCpu::new();
    assert_eq!(calc.run_command("dec"), (Command::SetBase(10), Reply::Done));
    calc.run_command("10");
    calc.run_command("5");
    calc.run_command("+");
    assert_eq!(calc.x, 15);
    calc.run_command("enter");
    assert_eq!((calc.x, calc.y), (15, 15));
    calc.run_command("*");
    assert_eq!(calc.x, 225);
    assert_eq!(calc.run_command("sto 3").1, Reply::Done);
    assert_eq!(calc.memory[3], 225);
    assert_eq!(calc.run_command("sto three").1, Reply::InvalidRegister);
    assert_eq!(calc.run_command("ws 999").1, Reply::InvalidWordSize);
    assert_eq!(calc.run_command("sl 16").1, Reply::InvalidShift);
    assert_eq!(calc.run_command("sr 16").1, Reply::InvalidShift);
    assert_eq!(calc.run_command("sl 1").1, Reply::Done);
    assert_eq!(calc.x, 450);
    assert_eq!(calc.run_command("nonsense").1, Reply::Unknown);
    assert_eq!(calc.run_command("help").1, Reply::Help);
    calc.run_command("clr");
    assert_eq!((calc.x, calc.y, calc.z, calc.t), (0, 0, 0, 0));
    assert_eq!(calc.memory[3], 225);
    assert_eq!(calc.run_command("quit").1, Reply::Quit);
}

#[test]
fn completion_offers_matching_words() {
    let completer = Hp16cCompleter::new();
    let (start, words) = completer.complete("sw", 2);
    assert_eq!(start, 0);
    assert_eq!(words, vec!["SWAP".to_string()]);

    let (start, words) = completer.complete("5 rcl 1", 7);
    assert_eq!(start, 6);
    assert!(words.is_empty());

    let (start, words) = completer.complete("RCL", 3);
    assert_eq!(start, 0);
    assert_eq!(words.len(), 16);
    assert!(words.contains(&"RCL 15".to_string()));

    let (_, words) = completer.complete("ws", 2);
    let expected: Vec<String> = [1, 2, 4, 8, 16, 32, 64, 128].iter().map(|w| format!("WS {}", w)).collect();
    assert_eq!(words, expected);

    let (_, words) = completer.complete("s", 1);
    assert_eq!(words.len(), 1 + 16 + 8 + 8);

    let (start, words) = completer.complete("", 0);
    assert_eq!(start, 0);
    assert_eq!(words.len(), 13 + 16 + 16 + 8 + 8 + 8);
}
