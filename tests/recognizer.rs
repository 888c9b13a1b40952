use termiku::recognizer::{Parameter, TerminalInput, TerminalInputParser};
use termiku::utf8::{DecodeState, UTF8Decoder};

fn feed(bytes: &[u8]) -> Vec<TerminalInput> {
    let mut parser = TerminalInputParser::new();
    parser.parse_bytes(bytes)
}

fn is_control(e: &TerminalInput) -> bool {
    matches!(e, TerminalInput::Control(_) | TerminalInput::SyncControl(_, _))
}

fn chars_of(events: &[TerminalInput]) -> Vec<char> {
    let mut out = Vec::new();
    for e in events {
        match e {
            TerminalInput::Char(c) => out.push(*c),
            TerminalInput::SyncChar(a, b) => {
                out.push(*a);
                out.push(*b);
            }
            _ => {}
        }
    }
    out
}

#[test]
fn ascii_characters_come_out_one_by_one() {
    let events = feed(&[0x41, 0x42, 0x43]);
    assert_eq!(events.len(), 3);
    assert!(matches!(events[0], TerminalInput::Char('A')));
    assert!(matches!(events[1], TerminalInput::Char('B')));
    assert!(matches!(events[2], TerminalInput::Char('C')));
}

#[test]
fn cursor_position_sequence_is_one_control() {
    let events = feed(&[0x1B, 0x5B, 0x33, 0x3B, 0x37, 0x48]);
    for e in &events[..5] {
        assert!(matches!(e, TerminalInput::Continue));
    }
    match &events[5] {
        TerminalInput::Control(ctl) => {
            assert_eq!(ctl.start(), 0x5B);
            assert_eq!(ctl.end(), 0x48);
            assert_eq!(ctl.params(), &[Parameter::Value(3), Parameter::Value(7)]);
            assert!(ctl.bytes().is_empty());
            assert!(!ctl.is_private());
        }
        other => panic!("expected a control function, got {:?}", other),
    }
}

#[test]
fn four_byte_sequence_decodes_at_its_last_byte() {
    let events = feed(&[0xF0, 0x9F, 0x98, 0x80]);
    assert!(matches!(events[0], TerminalInput::Continue));
    assert!(matches!(events[1], TerminalInput::Continue));
    assert!(matches!(events[2], TerminalInput::Continue));
    assert!(matches!(events[3], TerminalInput::Char('\u{1F600}')));
}

#[test]
fn never_valid_byte_gives_replacement() {
    let events = feed(&[0xC0, 0x41]);
    assert_eq!(events.len(), 2);
    assert!(matches!(events[0], TerminalInput::Char('\u{FFFD}')));
    assert!(matches!(events[1], TerminalInput::Char('A')));
}

#[test]
fn overflowing_parameter_drops_the_sequence() {
    let events = feed(&[0x1B, 0x5B, 0x39, 0x39, 0x39, 0x39, 0x39, 0x39, 0x6D]);
    assert!(events.iter().all(|e| !is_control(e)));
    let mut parser = TerminalInputParser::new();
    parser.parse_bytes(&[0x1B, 0x5B, 0x39, 0x39, 0x39, 0x39, 0x39, 0x39, 0x6D]);
    assert!(matches!(parser.parse_byte(b'A'), TerminalInput::Char('A')));
}

#[test]
fn largest_parameter_is_kept() {
    let events = feed(b"\x1b[65535m");
    match events.last().unwrap() {
        TerminalInput::Control(ctl) => assert_eq!(ctl.params(), &[Parameter::Value(65535)]),
        other => panic!("expected a control function, got {:?}", other),
    }
    let events = feed(b"\x1b[65536m");
    assert!(events.iter().all(|e| !is_control(e)));
}

#[test]
fn overflow_in_a_later_parameter_drops_the_sequence() {
    let events = feed(b"\x1b[1;70000H");
    assert!(events.iter().all(|e| !is_control(e)));
}

#[test]
fn operating_system_command_collects_its_payload() {
    let events = feed(&[0x1B, 0x5D, 0x30, 0x3B, 0x68, 0x69, 0x1B, 0x5C]);
    for e in &events[..7] {
        assert!(matches!(e, TerminalInput::Continue));
    }
    match &events[7] {
        TerminalInput::Control(ctl) => {
            assert_eq!(ctl.start(), 0x5D);
            assert_eq!(ctl.bytes(), b"0;hi");
        }
        other => panic!("expected a control function, got {:?}", other),
    }
}

#[test]
fn identical_parsers_give_identical_events() {
    let input = b"ab\x1b[12;3Hc\xc3\xa9\xff\x1b]x\x1b\\";
    let a = feed(input);
    let b = feed(input);
    assert_eq!(format!("{:?}", a), format!("{:?}", b));
}

#[test]
fn no_control_before_the_final_byte() {
    let events = feed(b"\x1b[1;2");
    assert!(events.iter().all(|e| matches!(e, TerminalInput::Continue)));
    let events = feed(&[0xE2, 0x82]);
    assert!(events.iter().all(|e| matches!(e, TerminalInput::Continue)));
}

#[test]
fn every_encoded_scalar_comes_back() {
    for c in ['a', '~', 'é', 'ß', '€', '\u{FFFD}', '\u{10000}', '\u{1F600}', '\u{10FFFF}'] {
        let mut buf = [0u8; 4];
        let events = feed(c.encode_utf8(&mut buf).as_bytes());
        let (last, rest) = events.split_last().unwrap();
        assert!(matches!(last, TerminalInput::Char(d) if *d == c), "{:?}", c);
        assert!(rest.iter().all(|e| matches!(e, TerminalInput::Continue)));
    }
}

#[test]
fn stray_byte_then_valid_sequence_resynchronizes() {
    let events = feed(&[0x80, 0xC3, 0xA9]);
    assert_eq!(chars_of(&events), vec!['\u{FFFD}', 'é']);
    assert!(matches!(events[0], TerminalInput::Char('\u{FFFD}')));
}

#[test]
fn broken_sequence_then_lead_byte_keeps_the_lead() {
    // E2 expects two continuation bytes; C3 breaks it and starts a sequence of its own.
    let events = feed(&[0xE2, 0xC3, 0xA9]);
    assert_eq!(chars_of(&events), vec!['\u{FFFD}', 'é']);
    // A broken sequence followed by a lone byte that cannot start one.
    let events = feed(&[0xC3, 0xFF]);
    assert!(matches!(events[1], TerminalInput::SyncChar('\u{FFFD}', '\u{FFFD}')));
}

#[test]
fn high_byte_inside_a_sequence_poisons_it() {
    let events = feed(b"\x1b[1\xc3m");
    assert!(events.iter().all(|e| !is_control(e)));
}

#[test]
fn c0_controls_are_single_byte_functions() {
    let events = feed(b"\n");
    match &events[0] {
        TerminalInput::Control(ctl) => assert_eq!(ctl.start(), 0x0A),
        other => panic!("expected a control function, got {:?}", other),
    }
}

#[test]
fn private_marker_is_recorded() {
    let events = feed(b"\x1b[?1049h");
    match events.last().unwrap() {
        TerminalInput::Control(ctl) => {
            assert!(ctl.is_private());
            assert_eq!(ctl.params(), &[Parameter::Value(1049)]);
            assert_eq!(ctl.end(), b'h');
        }
        other => panic!("expected a control function, got {:?}", other),
    }
}

#[test]
fn empty_parameters_are_defaults() {
    let events = feed(b"\x1b[;5H");
    match events.last().unwrap() {
        TerminalInput::Control(ctl) => {
            assert_eq!(ctl.params(), &[Parameter::Default, Parameter::Value(5)])
        }
        other => panic!("expected a control function, got {:?}", other),
    }
}

#[test]
fn parameter_helpers() {
    assert_eq!(Parameter::new(7), Parameter::Value(7));
    assert_eq!(Parameter::Default.value_or(3), 3);
    assert_eq!(Parameter::Value(9).value_or(3), 9);
    let mut p = Parameter::Default;
    assert!(!p.add(5));
    assert_eq!(p, Parameter::Value(5));
    assert!(!p.add(2));
    assert_eq!(p, Parameter::Value(52));
    let mut d = Parameter::Value(6553);
    assert!(!d.add(5));
    assert_eq!(d, Parameter::Value(65535));
    assert!(d.add(0));
    assert_eq!(d, Parameter::Value(65535));
    let mut q = Parameter::Value(6553);
    assert!(q.add(6));
    assert_eq!(q, Parameter::Value(6553));
    assert_eq!(Parameter::default(), Parameter::Default);
}

#[test]
fn decoder_reports_each_outcome() {
    let mut d = UTF8Decoder::new();
    assert_eq!(d.decode_byte(0xC3), DecodeState::Continue);
    assert_eq!(d.decode_byte(0xA9), DecodeState::Done('é'));
    assert_eq!(d.decode_byte(0x80), DecodeState::Error);
    assert_eq!(d.decode_byte(0xE0), DecodeState::Continue);
    assert_eq!(d.decode_byte(0x80), DecodeState::Rewind);
    assert_eq!(d.decode_byte(0xED), DecodeState::Continue);
    assert_eq!(d.decode_byte(0xA0), DecodeState::Rewind);
    assert_eq!(d.decode_byte(0xF4), DecodeState::Continue);
    assert_eq!(d.decode_byte(0x90), DecodeState::Rewind);
    assert_eq!(d.decode_byte(0xE2), DecodeState::Continue);
    d.reset();
    assert_eq!(d.decode_byte(0x41), DecodeState::Done('A'));
}

#[test]
fn escape_final_is_complete_and_returns_to_ground() {
    let events = feed(b"\x1bDA");
    match &events[1] {
        TerminalInput::Control(ctl) => assert_eq!(ctl.start(), b'D'),
        other => panic!("expected a control function, got {:?}", other),
    }
    assert!(matches!(events[2], TerminalInput::Char('A')));
    let events = feed(b"\x1b\\B");
    assert!(matches!(events[2], TerminalInput::Char('B')));
}

#[test]
fn one_byte_control_carries_nothing_else() {
    let events = feed(b"\x1b[?3;7H\x07");
    match events.last().unwrap() {
        TerminalInput::Control(ctl) => {
            assert_eq!(ctl.start(), 0x07);
            assert!(ctl.params().is_empty());
            assert!(ctl.bytes().is_empty());
            assert!(!ctl.is_private());
        }
        other => panic!("expected a control function, got {:?}", other),
    }
}
