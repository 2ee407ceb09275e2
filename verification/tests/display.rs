use virtmach::atom::decode_atom;
use virtmach::{Program, VirtMach, Writer};

fn program(stream: &[u8]) -> Program {
    Program { source: 1, id: String::from("shown"), data: stream.to_vec() }
}

fn shown(stream: &[u8], at: usize) -> (String, usize) {
    VirtMach::decompile(&program(stream), at)
}

#[test]
fn decodes_register_forms() {
    assert_eq!(shown(&[0x10], 0), (String::from("reg r1"), 1));
    assert_eq!(shown(&[0xd7], 0), (String::from("sub r13"), 1));
    assert_eq!(shown(&[0xe5], 0), (String::from("pop r14"), 1));
    assert_eq!(shown(&[0xf0, 1, 2], 0), (String::from("reg r15"), 1));
}

#[test]
fn decodes_immediate_forms() {
    assert_eq!(shown(&[0xf1, 5, 0], 0), (String::from("set #5"), 3));
    assert_eq!(shown(&[0xef, 0xf6, 0xfe, 0xff], 1), (String::from("add #-2"), 4));
    assert_eq!(shown(&[0xfa, 0x00, 0x80], 0), (String::from("jmp #-32768"), 3));
    assert_eq!(shown(&[0xf4, 0xff, 0x7f], 0), (String::from("psh #32767"), 3));
    assert_eq!(shown(&[0xf2, 0x0a, 0x00], 0), (String::from("loa #10"), 3));
}

#[test]
fn decodes_interrupts_by_number() {
    assert_eq!(shown(&[0x09], 0), (String::from("int 0"), 1));
    assert_eq!(shown(&[0xe9], 0), (String::from("int 14"), 1));
}

#[test]
fn decodes_bare_opcodes() {
    let all = [0x0f, 0x1f, 0x2f, 0x3f, 0xdf, 0xef, 0xff];
    let names = ["ret", "clr", "inv", "neg", "brk", "hlt", "end"];
    for (i, name) in names.iter().enumerate() {
        assert_eq!(shown(&all, i), (String::from(*name), i + 1));
    }
}

#[test]
fn position_outside_gives_a_question_mark_and_zero() {
    assert_eq!(shown(&[0xef], 1), (String::from("?"), 0));
    assert_eq!(shown(&[], 0), (String::from("?"), 0));
    assert_eq!(shown(&[0xef], usize::MAX), (String::from("?"), 0));
}

#[test]
fn unknown_bytes_give_a_padded_question_mark() {
    assert_eq!(shown(&[0x0e], 0), (String::from("?  "), 1));
    assert_eq!(shown(&[0x5f], 0), (String::from("?  "), 1));
}

#[test]
fn truncated_immediate_shows_the_least_atom() {
    assert_eq!(shown(&[0xf1, 5], 0), (String::from("set #-32768"), 3));
}

#[test]
fn assembling_then_decoding_shows_the_instruction_again() {
    let listing = "reg r3\nset #-17\nloa r2\nsto #4\npsh r0\npop #3\nadd #max\nsub r13\ncal #6\nint #2\njmp #-3\njpz #0\njpc #1\njps #2\nret\nclr\ninv\nneg\nbrk\nhlt\nend";
    let compiled = VirtMach::compile("all", listing, &[]).unwrap();
    let stream = program(&compiled.data[1..]);
    let expected = [
        "reg r3", "set #-17", "loa r2", "sto #4", "psh r0", "pop #3", "add #32767", "sub r13",
        "cal #6", "int 2", "jmp #-3", "jpz #0", "jpc #1", "jps #2", "ret", "clr", "inv", "neg",
        "brk", "hlt", "end",
    ];
    let mut at = 0usize;
    for line in expected.iter() {
        let (text, next) = VirtMach::decompile(&stream, at);
        assert_eq!(text, *line);
        assert!(next > at);
        at = next;
    }
    assert_eq!(at, stream.data.len());
}

#[test]
fn atoms_are_little_endian() {
    assert_eq!(decode_atom(&[0x34, 0x12], 0), 0x1234);
    assert_eq!(decode_atom(&[0, 0xff, 0xff], 1), -1);
    assert_eq!(decode_atom(&[0x00, 0x80], 0), i16::MIN);
    assert_eq!(decode_atom(&[0x01], 0), i16::MIN);
    assert_eq!(decode_atom(&[0x01, 0x02], 1), i16::MIN);
    assert_eq!(decode_atom(&[0x01, 0x02], usize::MAX), i16::MIN);
}

#[test]
fn writer_keeps_what_fits() {
    let mut buffer = [0u8; 8];
    let mut writer = Writer::from_buffer(&mut buffer);
    assert_eq!(writer.to_str(), "");
    assert!(writer.write_str("abc"));
    assert_eq!(writer.to_str(), "abc");
    assert!(writer.write_str("de"));
    assert_eq!(writer.to_str(), "abcde");
    assert!(!writer.write_str("fghi"));
    assert_eq!(writer.to_str(), "abcdefgh");
    assert!(!writer.write_str("x"));
    assert!(writer.write_str(""));
    assert_eq!(writer.to_str(), "abcdefgh");
}

#[test]
fn writer_shows_nothing_where_the_text_is_cut_inside_a_character() {
    let mut buffer = [0u8; 2];
    let mut writer = Writer::from_buffer(&mut buffer);
    assert!(!writer.write_str("a\u{20ac}"));
    assert_eq!(writer.to_str(), "");
}
