use virtmach::assemble::{
    accepts_label, find_callee, find_interrupt, mnemonic, opcode_named, parse_list, strip_comment,
};
use virtmach::compile::{
    directive, distance, find_label, has_interrupt, lookup, Label,
};
use virtmach::interrupts::proc::to_atom;
use virtmach::interrupts::random::pick;
use virtmach::interrupts::{base_definitions, math};
use virtmach::text::{bytes_of, find, non_empty, parse_within, same, same_lower, space, split, trim};
use virtmach::{Argument, Define, ListingError, OpCode, VirtMach};

const ALL: [OpCode; 21] = [
    OpCode::REG,
    OpCode::SET,
    OpCode::LOA,
    OpCode::STO,
    OpCode::PSH,
    OpCode::POP,
    OpCode::ADD,
    OpCode::SUB,
    OpCode::CAL,
    OpCode::INT,
    OpCode::JMP,
    OpCode::JPZ,
    OpCode::JPC,
    OpCode::JPS,
    OpCode::RET,
    OpCode::CLR,
    OpCode::INV,
    OpCode::NEG,
    OpCode::BRK,
    OpCode::HLT,
    OpCode::END,
];

#[test]
fn opcode_bytes() {
    let bytes: Vec<u8> = ALL.iter().map(|op| op.byte()).collect();
    assert_eq!(
        bytes,
        vec![
            0x00, 0x01, 0x02, 0x03, 0x04, 0x05, 0x06, 0x07, 0x08, 0x09, 0x0a, 0x0b, 0x0c, 0x0d,
            0x0f, 0x1f, 0x2f, 0x3f, 0xdf, 0xef, 0xff
        ]
    );
    for op in ALL.iter() {
        assert_eq!(op.bare(), op.byte() & 0x0f == 0x0f);
    }
}

#[test]
fn every_byte_selects_at_most_one_opcode() {
    for byte in 0..=255u8 {
        let low = byte & 0x0f;
        let expected = if low < 0x0e {
            Some(ALL[low as usize])
        } else if low == 0x0e {
            None
        } else {
            ALL.iter().copied().find(|op| op.byte() == byte)
        };
        assert_eq!(OpCode::from_byte(byte), expected);
    }
}

#[test]
fn mnemonics_name_their_opcodes() {
    let names = [
        "reg", "set", "loa", "sto", "psh", "pop", "add", "sub", "cal", "int", "jmp", "jpz", "jpc",
        "jps", "ret", "clr", "inv", "neg", "brk", "hlt", "end",
    ];
    for (op, name) in ALL.iter().zip(names.iter()) {
        assert_eq!(mnemonic(*op), *name);
        assert_eq!(opcode_named(name.as_bytes()), Some(*op));
        assert_eq!(opcode_named(name.to_uppercase().as_bytes()), Some(*op));
    }
    assert_eq!(opcode_named(b""), None);
    assert_eq!(opcode_named(b"re"), None);
    assert_eq!(opcode_named(b"regs"), None);
    assert_eq!(opcode_named(b"r\xc5g"), None);
}

#[test]
fn opcodes_that_take_a_label() {
    let with_label: Vec<OpCode> = ALL.iter().copied().filter(|op| accepts_label(*op)).collect();
    assert_eq!(
        with_label,
        vec![OpCode::CAL, OpCode::INT, OpCode::JMP, OpCode::JPZ, OpCode::JPC, OpCode::JPS]
    );
}

#[test]
fn trimming() {
    assert_eq!(trim(b"  a b \t\r\n"), b"a b");
    assert_eq!(trim(b""), b"");
    assert_eq!(trim(b" \t "), b"");
    assert_eq!(trim(b"x"), b"x");
    assert_eq!(trim(b"\x0b\x0cx\x0b"), b"x");
    assert_eq!(trim(b"\xa0x"), b"\xa0x");
    assert!(space(b' ') && space(b'\t') && space(b'\n') && !space(b'a') && !space(0));
}

#[test]
fn finding_and_splitting() {
    assert_eq!(find(b"abc;def;", b';'), 3);
    assert_eq!(find(b"abc", b';'), 3);
    assert_eq!(find(b"", b';'), 0);
    assert_eq!(split(b"a,b,,c", b','), vec![&b"a"[..], &b"b"[..], &b""[..], &b"c"[..]]);
    assert_eq!(split(b"", b','), vec![&b""[..]]);
    assert_eq!(split(b",", b','), vec![&b""[..], &b""[..]]);
    assert_eq!(split(b"abc", b','), vec![&b"abc"[..]]);
    let pieces = split(b" def  a b ", b' ');
    assert_eq!(non_empty(&pieces), vec![&b"def"[..], &b"a"[..], &b"b"[..]]);
    assert_eq!(strip_comment(b"set #5 ; five ; more"), b"set #5 ");
    assert_eq!(strip_comment(b"set #5"), b"set #5");
}

#[test]
fn comparing() {
    assert!(same(b"abc", b"abc"));
    assert!(!same(b"abc", b"abd"));
    assert!(!same(b"abc", b"ab"));
    assert!(same(b"", b""));
    assert!(same_lower(b"HlT", b"hlt"));
    assert!(!same_lower(b"hlt", b"HLT"));
    assert!(!same_lower(b"hl", b"hlt"));
    assert_eq!(bytes_of("a\u{e9}"), vec![0x61, 0xc3, 0xa9]);
}

#[test]
fn reading_numbers() {
    assert_eq!(parse_within(b"0", 0, 255), Some(0));
    assert_eq!(parse_within(b"255", 0, 255), Some(255));
    assert_eq!(parse_within(b"256", 0, 255), None);
    assert_eq!(parse_within(b"+7", 0, 255), Some(7));
    assert_eq!(parse_within(b"-0", 0, 255), Some(0));
    assert_eq!(parse_within(b"-32768", -32768, 32767), Some(-32768));
    assert_eq!(parse_within(b"-32769", -32768, 32767), None);
    assert_eq!(parse_within(b"000032767", -32768, 32767), Some(32767));
    assert_eq!(parse_within(b"99999999999999999999999999", -32768, 32767), None);
    assert_eq!(parse_within(b"", -32768, 32767), None);
    assert_eq!(parse_within(b"+", -32768, 32767), None);
    assert_eq!(parse_within(b"-", -32768, 32767), None);
    assert_eq!(parse_within(b"1 ", -32768, 32767), None);
    assert_eq!(parse_within(b"--1", -32768, 32767), None);
    assert_eq!(parse_within(b"1a", -32768, 32767), None);
}

#[test]
fn distances_between_offsets() {
    assert_eq!(distance(3, 10), Some(7));
    assert_eq!(distance(10, 3), Some(-7));
    assert_eq!(distance(5, 5), Some(0));
    assert_eq!(distance(0, 32767), Some(32767));
    assert_eq!(distance(0, 32768), None);
    assert_eq!(distance(32768, 0), Some(-32768));
    assert_eq!(distance(32769, 0), None);
    assert_eq!(distance(usize::MAX, 0), None);
}

#[test]
fn labels_and_defines_are_looked_up() {
    let labels = vec![
        Label { name: b"a".to_vec(), address: 4 },
        Label { name: b"b".to_vec(), address: 9 },
        Label { name: b"a".to_vec(), address: 12 },
    ];
    assert_eq!(find_label(&labels, b"a"), Some(4));
    assert_eq!(find_label(&labels, b"b"), Some(9));
    assert_eq!(find_label(&labels, b"c"), None);
    let defines = vec![
        Define { key: b"k".to_vec(), value: b"1".to_vec() },
        Define { key: b"k".to_vec(), value: b"2".to_vec() },
    ];
    assert_eq!(lookup(&defines, b"k"), Some(&b"2"[..]));
    assert_eq!(lookup(&defines, b"j"), None);
}

#[test]
fn directives_one_by_one() {
    let defs = base_definitions();
    let mut defines: Vec<Define> = Vec::new();
    assert_eq!(directive(b"set #5", 1, &defs, &mut defines), Ok(()));
    assert!(defines.is_empty());
    assert_eq!(directive(b"  #def  total   r3  ; the sum", 2, &defs, &mut defines), Ok(()));
    assert_eq!(defines, vec![Define { key: b"total".to_vec(), value: b"r3".to_vec() }]);
    assert_eq!(directive(b"#req proc", 3, &defs, &mut defines), Ok(()));
    assert_eq!(
        directive(b"#req\tproc", 4, &defs, &mut defines),
        Err(ListingError::MalformedDefine(4, b"illegal keyword".to_vec()))
    );
    assert_eq!(
        directive(b"#def rx 1", 5, &defs, &mut defines),
        Err(ListingError::IllegalDefineValue(5, b"1".to_vec()))
    );
    assert_eq!(defines.len(), 1);
    assert!(has_interrupt(&defs, b"random"));
    assert!(!has_interrupt(&defs, b"surface"));
}

#[test]
fn functions_and_interrupts_are_found() {
    let defs = base_definitions();
    let callee = find_callee(&defs, b"mul").unwrap();
    assert_eq!((callee.index, callee.no, callee.arguments, callee.returns), (1, 6, 2, 1));
    let callee = find_callee(&defs, b"proc.version").unwrap();
    assert_eq!((callee.index, callee.no, callee.arguments, callee.returns), (0, 0, 0, 3));
    assert!(find_callee(&defs, b"proc.").is_none());
    assert!(find_callee(&defs, b".version").is_none());
    assert!(find_callee(&defs, b"procversion").is_none());
    assert!(find_callee(&defs, b"").is_none());
    assert_eq!(find_interrupt(&defs, b"math"), Some(1));
    assert_eq!(find_interrupt(&defs, b"Math"), None);
    let twice = vec![math::definition(), math::definition()];
    assert_eq!(find_interrupt(&twice, b"math"), Some(1));
}

#[test]
fn lists_of_arguments() {
    let none: Vec<Define> = Vec::new();
    assert_eq!(
        parse_list(b" r1 ,#2,, _ ,x", &none),
        vec![
            Argument::Register(1),
            Argument::Atom(2),
            Argument::Empty,
            Argument::Ignore,
            Argument::Label(b"x".to_vec())
        ]
    );
    assert_eq!(parse_list(b"", &none), vec![Argument::Empty]);
    assert_eq!(VirtMach::parse_argument(b"r1 ", &none), Argument::Label(b"r1 ".to_vec()));
}

#[test]
fn picking_between_bounds() {
    assert_eq!(pick(0, 9, 1013904223), 3);
    assert_eq!(pick(9, 0, 1013904223), 3);
    assert_eq!(pick(5, 5, 77), 5);
    assert_eq!(pick(-3, 4, 8), -3);
    assert_eq!(pick(-3, 4, 15), 4);
    assert_eq!(pick(i16::MIN, i16::MAX, 65535), i16::MAX);
    assert_eq!(pick(i16::MAX, i16::MIN, 65536), i16::MIN);
    assert_eq!(pick(i16::MIN, i16::MAX, u64::MAX), i16::MAX);
}

#[test]
fn counts_as_atoms() {
    assert_eq!(to_atom(0), 0);
    assert_eq!(to_atom(10), 10);
    assert_eq!(to_atom(32767), 32767);
    assert_eq!(to_atom(32768), i16::MIN);
    assert_eq!(to_atom(65535), -1);
    assert_eq!(to_atom(65536), 0);
    assert_eq!(to_atom(65536 + 5), 5);
}
