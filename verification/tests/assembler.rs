use virtmach::interrupts::{math, proc, random, SoftInterruptDef, SoftInterruptFunction};
use virtmach::{Argument, Define, ListingError, Program, VirtMach};

fn base() -> Vec<SoftInterruptDef> {
    vec![proc::definition(), math::definition(), random::definition()]
}

fn bytes(listing: &str) -> Vec<u8> {
    VirtMach::compile("test", listing, &base()).unwrap().data
}

fn failure(listing: &str) -> ListingError {
    VirtMach::compile("test", listing, &base()).unwrap_err()
}

fn text(s: &str) -> Vec<u8> {
    s.as_bytes().to_vec()
}

#[test]
fn compiles_the_small_program_to_its_bytes() {
    let program = VirtMach::compile("small", "reg r0\nset #5\nadd #3\nhlt", &[]).unwrap();
    assert_eq!(program.data, vec![2, 0x00, 0xf1, 5, 0, 0xf6, 3, 0, 0xef]);
    assert_eq!(program.id, "small");
    assert_eq!(program.source, 254);
}

#[test]
fn empty_listing_is_the_tag_alone() {
    assert_eq!(bytes(""), vec![2]);
    assert_eq!(bytes("\n\n  \n; only a comment\n"), vec![2]);
}

#[test]
fn unknown_label_is_reported_on_the_line_of_the_jump() {
    assert_eq!(failure("jmp missing\nhlt"), ListingError::UnknownLabel(1, text("missing")));
    assert_eq!(failure("hlt\nhlt\n cal nowhere ; x"), ListingError::UnknownLabel(3, text("nowhere")));
}

#[test]
fn forward_jump_holds_the_distance_to_its_label() {
    // jmp at 0..3, hlt at 3, label at 4
    assert_eq!(bytes("jmp target\nhlt\ntarget:\nend"), vec![2, 0xfa, 1, 0, 0xef, 0xff]);
}

#[test]
fn backward_jump_holds_a_negative_distance() {
    // label at 0, hlt at 0, jmp at 1..4: distance 0 - 4 = -4
    assert_eq!(bytes("start:\nhlt\njmp start"), vec![2, 0xef, 0xfa, 0xfc, 0xff]);
}

#[test]
fn first_label_of_a_name_wins() {
    assert_eq!(
        bytes("a:\nhlt\na:\njmp a"),
        vec![2, 0xef, 0xfa, 0xfc, 0xff]
    );
}

#[test]
fn jump_to_itself_and_every_jump_kind() {
    assert_eq!(
        bytes("l:\ncal l\njpz l\njpc l\njps l"),
        vec![2, 0xf8, 0xfd, 0xff, 0xfb, 0xfa, 0xff, 0xfc, 0xf7, 0xff, 0xfd, 0xf4, 0xff]
    );
}

#[test]
fn jump_takes_a_number_and_no_register() {
    assert_eq!(bytes("jmp #-3"), vec![2, 0xfa, 0xfd, 0xff]);
    assert_eq!(
        failure("jmp r1"),
        ListingError::IllegalArgument(1, text("did not expect a register"))
    );
}

#[test]
fn distance_beyond_an_atom_is_out_of_range() {
    let mut listing = String::from("jmp far\n");
    for _ in 0..11000 {
        listing.push_str("set #1\n");
    }
    listing.push_str("far:\nhlt\n");
    assert_eq!(
        VirtMach::compile("far", &listing, &[]).unwrap_err(),
        ListingError::IllegalArgument(1, text("out of range"))
    );
}

#[test]
fn register_forms_of_every_operand_opcode() {
    assert_eq!(
        bytes("reg r1\nset r2\nloa r3\nsto r4\npsh r5\npop r6\nadd r7\nsub r13"),
        vec![2, 0x10, 0x21, 0x32, 0x43, 0x54, 0x65, 0x76, 0xd7]
    );
}

#[test]
fn immediate_forms_and_the_extremes() {
    assert_eq!(bytes("set #min"), vec![2, 0xf1, 0x00, 0x80]);
    assert_eq!(bytes("set #max"), vec![2, 0xf1, 0xff, 0x7f]);
    assert_eq!(bytes("psh #-2"), vec![2, 0xf4, 0xfe, 0xff]);
    assert_eq!(bytes("pop #+7"), vec![2, 0xf5, 7, 0]);
    assert_eq!(bytes("loa #258"), vec![2, 0xf2, 2, 1]);
}

#[test]
fn bare_opcodes_in_any_case() {
    assert_eq!(
        bytes("RET\nClr\ninv\nNEG\nbrk\nHLT\nend"),
        vec![2, 0x0f, 0x1f, 0x2f, 0x3f, 0xdf, 0xef, 0xff]
    );
}

#[test]
fn comments_blanks_and_extra_words() {
    assert_eq!(bytes("  set    #5   ; five\n\thlt\t\n"), vec![2, 0xf1, 5, 0, 0xef]);
    assert_eq!(bytes("set #5 ignored words"), vec![2, 0xf1, 5, 0]);
}

#[test]
fn illegal_mnemonic() {
    assert_eq!(failure("hlt\nfoo r1"), ListingError::IllegalOp(2, text("foo")));
    assert_eq!(failure("Set\t#5"), ListingError::IllegalOp(1, text("Set\t#5")));
}

#[test]
fn illegal_arguments() {
    assert_eq!(
        failure("reg #5"),
        ListingError::IllegalArgument(1, text("did not expect a number"))
    );
    assert_eq!(
        failure("set"),
        ListingError::IllegalArgument(1, text("missing argument"))
    );
    assert_eq!(
        failure("set somewhere"),
        ListingError::IllegalArgument(1, text("did not expect a label"))
    );
    assert_eq!(
        failure("hlt r1"),
        ListingError::IllegalArgument(1, text("did not expect a register"))
    );
    assert_eq!(
        failure("hlt #1"),
        ListingError::IllegalArgument(1, text("did not expect a number"))
    );
    assert_eq!(
        failure("set _"),
        ListingError::IllegalArgument(1, text("unexpected _ argument"))
    );
    assert_eq!(
        failure("set r14"),
        ListingError::IllegalArgument(1, text("malformed register"))
    );
    assert_eq!(
        failure("set #40000"),
        ListingError::IllegalArgument(1, text("malformed value"))
    );
    assert_eq!(
        failure("set #"),
        ListingError::IllegalArgument(1, text("malformed value"))
    );
}

#[test]
fn interrupt_by_number_and_by_name() {
    assert_eq!(bytes("int #0\nint #14"), vec![2, 0x09, 0xe9]);
    assert_eq!(bytes("int proc\nint math\nint random"), vec![2, 0x09, 0x19, 0x29]);
    assert_eq!(
        failure("int #15"),
        ListingError::IllegalArgument(1, text("out of range"))
    );
    assert_eq!(
        failure("int #-1"),
        ListingError::IllegalArgument(1, text("out of range"))
    );
    assert_eq!(failure("int nothing"), ListingError::UnknownInterrupt(1, text("nothing")));
    assert_eq!(
        failure("int r1"),
        ListingError::IllegalArgument(1, text("did not expect a register"))
    );
}

#[test]
fn defines_substitute_arguments() {
    assert_eq!(bytes("#def counter r3\nreg counter\nset #1"), vec![2, 0x30, 0xf1, 1, 0]);
    assert_eq!(bytes("#def ten #10 ; ten\nset ten"), vec![2, 0xf1, 10, 0]);
    // a later define overwrites an earlier one, and all defines are read first
    assert_eq!(bytes("set x\n#def x #1\n#def x #2"), vec![2, 0xf1, 2, 0]);
}

#[test]
fn malformed_directives() {
    assert_eq!(failure("#"), ListingError::MalformedDefine(1, text("empty")));
    assert_eq!(failure("hlt\n#def a"), ListingError::MalformedDefine(2, text("malformed def")));
    assert_eq!(
        failure("#def a b c"),
        ListingError::MalformedDefine(1, text("malformed def"))
    );
    assert_eq!(failure("#req"), ListingError::MalformedDefine(1, text("malformed req")));
    assert_eq!(
        failure("#req surface"),
        ListingError::MalformedDefine(1, text("required interrupt not found"))
    );
    assert_eq!(failure("#include x"), ListingError::MalformedDefine(1, text("illegal keyword")));
    assert_eq!(failure("#def r1 x"), ListingError::IllegalDefineValue(1, text("x")));
    assert_eq!(failure("#def #1 y"), ListingError::IllegalDefineValue(1, text("y")));
}

#[test]
fn required_interrupt_that_is_there() {
    assert_eq!(bytes("#req math\nhlt"), vec![2, 0xef]);
}

#[test]
fn directive_fault_comes_before_any_instruction_fault() {
    assert_eq!(failure("bogus\n#def a"), ListingError::MalformedDefine(2, text("malformed def")));
}

#[test]
fn call_of_an_unknown_function() {
    assert_eq!(failure("x = nosuchfn()"), ListingError::UnknownFunction(1, text("nosuchfn")));
}

#[test]
fn call_with_wrong_counts() {
    assert_eq!(
        failure("r1 = and(r2)"),
        ListingError::MalformedFunction(1, text("wrong number of arguments"))
    );
    assert_eq!(
        failure("and(r2, r3)"),
        ListingError::MalformedFunction(1, text("wrong number of return values"))
    );
    assert_eq!(
        failure("r1, r2 = and(r2, r3)"),
        ListingError::MalformedFunction(1, text("wrong number of return values"))
    );
}

#[test]
fn call_pushes_inputs_in_reverse_then_number_then_interrupt_then_pops() {
    // r1 = and(r2, #3): psh #3, psh r2, psh #0, int 1, pop r1
    assert_eq!(
        bytes("r1 = and(r2, #3)"),
        vec![2, 0xf4, 3, 0, 0x24, 0xf4, 0, 0, 0x19, 0x15]
    );
    // version gives three outputs, popped last first
    assert_eq!(
        bytes("r1, r2, r3 = version()"),
        vec![2, 0xf4, 0, 0, 0x09, 0x35, 0x25, 0x15]
    );
    // an output that is an immediate is popped to that address
    assert_eq!(
        bytes("r1, #4, r2 = version()"),
        vec![2, 0xf4, 0, 0, 0x09, 0x25, 0xf5, 4, 0, 0x15]
    );
}

#[test]
fn call_by_qualified_name() {
    assert_eq!(bytes("r0 = proc.cycle_cnt()"), vec![2, 0xf4, 5, 0, 0x09, 0x05]);
    assert_eq!(bytes("r0 = math.not(r0)"), vec![2, 0x04, 0xf4, 3, 0, 0x19, 0x05]);
    assert_eq!(
        failure("r0 = math.cycle_cnt()"),
        ListingError::UnknownFunction(1, text("math.cycle_cnt"))
    );
}

#[test]
fn wildcard_omits_pushes_or_pops() {
    // inputs ignored: no pushes of arguments
    assert_eq!(bytes("r1 = and(_)"), vec![2, 0xf4, 0, 0, 0x19, 0x15]);
    // outputs ignored: no pops
    assert_eq!(bytes("_ = and(r1, r2)"), vec![2, 0x24, 0x14, 0xf4, 0, 0, 0x19]);
    assert_eq!(bytes("_ = and(_)"), vec![2, 0xf4, 0, 0, 0x19]);
}

#[test]
fn faults_inside_call_lists() {
    assert_eq!(
        failure("r1 = and(r1, _)"),
        ListingError::MalformedFunction(1, text("cannot ignore a single input"))
    );
    assert_eq!(
        failure("r1 = and(r1, )"),
        ListingError::MalformedFunction(1, text("empty input argument"))
    );
    assert_eq!(
        failure("r1 = and(r1, r99)"),
        ListingError::MalformedFunction(1, text("malformed input argument"))
    );
    assert_eq!(
        failure("r1 = and(r1, somewhere)"),
        ListingError::MalformedFunction(1, text("did not expect a label as input"))
    );
    assert_eq!(
        failure("x = not(r1)"),
        ListingError::MalformedFunction(1, text("did not expect a label as output"))
    );
    assert_eq!(
        failure("#bad = not(r1)"),
        ListingError::MalformedDefine(1, text("illegal keyword"))
    );
    assert_eq!(
        failure("r1, _, r2 = version()"),
        ListingError::MalformedFunction(1, text("cannot ignore a single output"))
    );
    assert_eq!(
        failure("r1, , r2 = version()"),
        ListingError::MalformedFunction(1, text("empty output argument"))
    );
    assert_eq!(
        failure("r1, #x, r2 = version()"),
        ListingError::MalformedFunction(1, text("malformed output argument"))
    );
}

#[test]
fn first_matching_function_wins() {
    let one = SoftInterruptDef {
        name: String::from("one"),
        functions: vec![SoftInterruptFunction {
            no: 7,
            name: String::from("f"),
            arguments: 0,
            returns: 0,
            help: String::new(),
        }],
    };
    let two = SoftInterruptDef {
        name: String::from("two"),
        functions: vec![SoftInterruptFunction {
            no: 9,
            name: String::from("f"),
            arguments: 0,
            returns: 0,
            help: String::new(),
        }],
    };
    let defs = vec![one, two];
    assert_eq!(
        VirtMach::compile("t", "f()", &defs).unwrap().data,
        vec![2, 0xf4, 7, 0, 0x09]
    );
    assert_eq!(
        VirtMach::compile("t", "two.f()", &defs).unwrap().data,
        vec![2, 0xf4, 9, 0, 0x19]
    );
}

#[test]
fn definition_beyond_the_fifteenth_cannot_be_called() {
    let mut defs: Vec<SoftInterruptDef> = Vec::new();
    for i in 0..16 {
        defs.push(SoftInterruptDef {
            name: format!("d{}", i),
            functions: vec![SoftInterruptFunction {
                no: 0,
                name: format!("f{}", i),
                arguments: 0,
                returns: 0,
                help: String::new(),
            }],
        });
    }
    assert_eq!(
        VirtMach::compile("t", "f14()", &defs).unwrap().data,
        vec![2, 0xf4, 0, 0, 0xe9]
    );
    assert_eq!(
        VirtMach::compile("t", "f15()", &defs).unwrap_err(),
        ListingError::IllegalArgument(1, text("out of range"))
    );
    assert_eq!(
        VirtMach::compile("t", "int d15", &defs).unwrap_err(),
        ListingError::IllegalArgument(1, text("out of range"))
    );
}

#[test]
fn parse_argument_classifies_tokens() {
    let none: Vec<Define> = Vec::new();
    assert_eq!(VirtMach::parse_argument(b"", &none), Argument::Empty);
    assert_eq!(VirtMach::parse_argument(b"_", &none), Argument::Ignore);
    assert_eq!(VirtMach::parse_argument(b"r0", &none), Argument::Register(0));
    assert_eq!(VirtMach::parse_argument(b"r13", &none), Argument::Register(13));
    assert_eq!(VirtMach::parse_argument(b"r+5", &none), Argument::Register(5));
    assert_eq!(VirtMach::parse_argument(b"r007", &none), Argument::Register(7));
    assert_eq!(
        VirtMach::parse_argument(b"r14", &none),
        Argument::Error(text("malformed register"))
    );
    assert_eq!(
        VirtMach::parse_argument(b"r255", &none),
        Argument::Error(text("malformed register"))
    );
    assert_eq!(VirtMach::parse_argument(b"r256", &none), Argument::Label(text("r256")));
    assert_eq!(VirtMach::parse_argument(b"r-0", &none), Argument::Label(text("r-0")));
    assert_eq!(VirtMach::parse_argument(b"r", &none), Argument::Label(text("r")));
    assert_eq!(VirtMach::parse_argument(b"ret", &none), Argument::Label(text("ret")));
    assert_eq!(VirtMach::parse_argument(b"#0", &none), Argument::Atom(0));
    assert_eq!(VirtMach::parse_argument(b"#-32768", &none), Argument::Atom(-32768));
    assert_eq!(VirtMach::parse_argument(b"#32767", &none), Argument::Atom(32767));
    assert_eq!(VirtMach::parse_argument(b"#min", &none), Argument::Atom(i16::MIN));
    assert_eq!(VirtMach::parse_argument(b"#max", &none), Argument::Atom(i16::MAX));
    assert_eq!(
        VirtMach::parse_argument(b"#32768", &none),
        Argument::Error(text("malformed value"))
    );
    assert_eq!(
        VirtMach::parse_argument(b"#-", &none),
        Argument::Error(text("malformed value"))
    );
    assert_eq!(
        VirtMach::parse_argument(b"#1x", &none),
        Argument::Error(text("malformed value"))
    );
    assert_eq!(
        VirtMach::parse_argument(b"#00000000000000000000012", &none),
        Argument::Atom(12)
    );
    assert_eq!(VirtMach::parse_argument(b"loop", &none), Argument::Label(text("loop")));
}

#[test]
fn parse_argument_reads_the_last_define_of_a_key() {
    let defines = vec![
        Define { key: text("x"), value: text("r1") },
        Define { key: text("y"), value: text("#9") },
        Define { key: text("x"), value: text("r2") },
    ];
    assert_eq!(VirtMach::parse_argument(b"x", &defines), Argument::Register(2));
    assert_eq!(VirtMach::parse_argument(b"y", &defines), Argument::Atom(9));
    assert_eq!(VirtMach::parse_argument(b"z", &defines), Argument::Label(text("z")));
}

#[test]
fn compiled_program_is_a_program_value() {
    let program: Program = VirtMach::compile("p", "hlt", &[]).unwrap();
    assert_eq!(program, Program { source: 254, id: String::from("p"), data: vec![2, 0xef] });
}
