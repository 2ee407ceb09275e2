use virtmach::interrupts::{math, proc, random, Dummy, Math, Proc, Random, SoftInterrupt, SoftInterruptDef};
use virtmach::{Program, Runtime, RuntimeError, VirtMach, MEM_SIZE};

fn base() -> Vec<SoftInterruptDef> {
    vec![proc::definition(), math::definition(), random::definition()]
}

fn loaded(listing: &str) -> VirtMach {
    let program = VirtMach::compile("test", listing, &base()).unwrap();
    let mut vm = VirtMach::new();
    vm.load_program(program);
    vm
}

fn ran(listing: &str) -> VirtMach {
    let mut vm = loaded(listing);
    let mut p = Proc {};
    let mut m = Math {};
    let mut r = Random::new(0);
    let mut handlers: Vec<&mut dyn SoftInterrupt> = vec![&mut p, &mut m, &mut r];
    vm.run(0, &mut handlers[..]);
    vm
}

fn raw(stream: &[u8]) -> VirtMach {
    let mut data = vec![2u8];
    data.extend_from_slice(stream);
    let mut vm = VirtMach::new();
    vm.load_program(Program { source: 1, id: String::from("raw"), data });
    vm.run(0, &mut []);
    vm
}

#[test]
fn new_engine_is_blank() {
    let vm = VirtMach::new();
    assert_eq!(vm.state, Runtime::Ini);
    assert_eq!(vm.error, RuntimeError::NoError);
    assert_eq!(vm.registers, [0i16; 15]);
    assert_eq!(vm.memory, [0i16; 23]);
    assert_eq!(vm.cycle_cnt, 0);
    assert_eq!(vm.processor.stack_ptr, MEM_SIZE - 1);
    assert_eq!(vm.processor.prog_cnt, 0);
    assert_eq!(vm.program, Program::empty());
    assert!(!vm.running());
    assert!(!vm.paused());
}

#[test]
fn small_program_runs_to_halt() {
    let vm = ran("reg r0\nset #5\nadd #3\nhlt");
    assert_eq!(vm.state, Runtime::Hlt);
    assert_eq!(vm.registers[0], 8);
    assert!(!vm.processor.zero);
    assert!(!vm.processor.carry);
    assert!(!vm.processor.sign);
    assert_eq!(vm.error, RuntimeError::NoError);
    assert_eq!(vm.cycle_cnt, 4);
    assert_eq!(vm.processor.prog_cnt, 8);
    assert!(vm.paused());
}

#[test]
fn cycle_count_read_after_ten_instructions_is_ten() {
    let listing = "reg r0\nset #1\nset #2\nset #3\nset #4\nset #5\nset #6\nset #7\nset #8\nr1 = cycle_cnt()\nhlt";
    let vm = ran(listing);
    assert_eq!(vm.error, RuntimeError::NoError);
    assert_eq!(vm.registers[1], 10);
    assert_eq!(vm.cycle_cnt, 13);
    assert_eq!(vm.state, Runtime::Hlt);
}

#[test]
fn loading_moves_to_halted_and_strips_the_tag() {
    let vm = loaded("hlt");
    assert_eq!(vm.state, Runtime::Hlt);
    assert_eq!(vm.program.data, vec![0xef]);
    assert_eq!(vm.program.id, "test");
    assert_eq!(vm.program.source, 254);
}

#[test]
fn loading_a_mismatched_width_is_a_fault() {
    let mut vm = VirtMach::new();
    vm.load_program(Program { source: 1, id: String::from("wide"), data: vec![4, 0xef] });
    assert_eq!(vm.error, RuntimeError::MismatchedAtomType);
    assert_eq!(vm.program, Program::error());
    assert_eq!(vm.state, Runtime::Ini);
    vm.run(0, &mut []);
    assert_eq!(vm.cycle_cnt, 0);

    let mut vm = VirtMach::new();
    vm.load_program(Program { source: 1, id: String::from("wide"), data: vec![1] });
    assert_eq!(vm.error, RuntimeError::MismatchedAtomType);
    assert_eq!(vm.program, Program::error());
}

#[test]
fn loading_nothing_is_the_empty_program() {
    let mut vm = VirtMach::new();
    vm.load_program(Program { source: 1, id: String::from("none"), data: vec![] });
    assert_eq!(vm.program, Program::empty());
    assert_eq!(vm.error, RuntimeError::NoError);
    assert_eq!(vm.state, Runtime::Ini);
    vm.load_program(Program { source: 1, id: String::from("tag"), data: vec![2] });
    assert_eq!(vm.program, Program::empty());
    assert_eq!(vm.state, Runtime::Ini);
}

#[test]
fn loading_resets_but_keeps_registers() {
    let mut vm = ran("reg r2\nset #9\npsh #4\nhlt");
    assert_eq!(vm.memory[22], 4);
    let again = VirtMach::compile("again", "hlt", &[]).unwrap();
    vm.load_program(again);
    assert_eq!(vm.registers[2], 9);
    assert_eq!(vm.memory, [0i16; 23]);
    assert_eq!(vm.cycle_cnt, 0);
    assert_eq!(vm.processor.stack_ptr, 22);
    assert_eq!(vm.processor.act_reg, 0);
    assert_eq!(vm.state, Runtime::Hlt);
}

#[test]
fn pushes_then_pops_come_back_last_first() {
    let mut vm = VirtMach::new();
    for v in 1..=22 {
        vm.stack_push(v);
    }
    assert_eq!(vm.error, RuntimeError::NoError);
    assert_eq!(vm.processor.stack_ptr, 0);
    for v in (1..=22).rev() {
        assert_eq!(vm.stack_pop(), v);
    }
    assert_eq!(vm.error, RuntimeError::NoError);
    assert_eq!(vm.processor.stack_ptr, 22);
}

#[test]
fn push_on_a_full_stack_is_overflow_and_writes_nothing() {
    let mut vm = VirtMach::new();
    for v in 1..=22 {
        vm.stack_push(v);
    }
    let memory = vm.memory;
    vm.stack_push(99);
    assert_eq!(vm.error, RuntimeError::HeapOverflow);
    assert_eq!(vm.memory, memory);
    assert_eq!(vm.processor.stack_ptr, 0);
}

#[test]
fn pop_on_an_empty_stack_is_underflow_and_zero() {
    let mut vm = VirtMach::new();
    vm.memory[22] = 5;
    assert_eq!(vm.stack_pop(), 0);
    assert_eq!(vm.error, RuntimeError::HeapUnderflow);
    assert_eq!(vm.processor.stack_ptr, 22);
}

#[test]
fn add_sets_carry_on_overflow() {
    let vm = ran("reg r0\nset #max\nadd #1\nhlt");
    assert_eq!(vm.registers[0], i16::MIN);
    assert!(vm.processor.carry);
    assert!(vm.processor.sign);
    assert!(!vm.processor.zero);
}

#[test]
fn sub_sets_zero_and_sign() {
    let vm = ran("reg r0\nset #7\nsub #7\nhlt");
    assert_eq!(vm.registers[0], 0);
    assert!(vm.processor.zero);
    assert!(!vm.processor.carry);
    assert!(!vm.processor.sign);
    let vm = ran("reg r0\nset #7\nsub #8\nhlt");
    assert_eq!(vm.registers[0], -1);
    assert!(vm.processor.sign);
    assert!(!vm.processor.zero);
    assert!(!vm.processor.carry);
    let vm = ran("reg r0\nset #min\nsub #1\nhlt");
    assert_eq!(vm.registers[0], i16::MAX);
    assert!(vm.processor.carry);
}

#[test]
fn clr_clears_and_inv_flips_all_flags() {
    let vm = ran("reg r0\nset #max\nadd #1\nclr\nhlt");
    assert!(!vm.processor.zero && !vm.processor.carry && !vm.processor.sign);
    let vm = ran("reg r0\nset #max\nadd #1\ninv\nhlt");
    assert!(vm.processor.zero && !vm.processor.carry && !vm.processor.sign);
    let vm = ran("inv\nhlt");
    assert!(vm.processor.zero && vm.processor.carry && vm.processor.sign);
}

#[test]
fn neg_negates_and_sets_sign() {
    let vm = ran("reg r1\nset #5\nneg\nhlt");
    assert_eq!(vm.registers[1], -5);
    assert!(vm.processor.sign);
    let vm = ran("reg r1\nset #min\nneg\nhlt");
    assert_eq!(vm.registers[1], i16::MIN);
}

#[test]
fn store_and_load() {
    let vm = ran("reg r0\nset #42\nsto #3\nreg r1\nloa #3\nhlt");
    assert_eq!(vm.memory[3], 42);
    assert_eq!(vm.registers[1], 42);
    assert_eq!(vm.error, RuntimeError::NoError);
}

#[test]
fn memory_outside_is_a_fault_at_the_instruction() {
    let vm = ran("reg r0\nsto #23\nhlt");
    assert_eq!(vm.error, RuntimeError::MemoryOutOfBounds);
    assert_eq!(vm.state, Runtime::Error);
    assert_eq!(vm.processor.prog_cnt, 1);
    assert_eq!(vm.cycle_cnt, 1);
    let vm = ran("loa #-1\nhlt");
    assert_eq!(vm.error, RuntimeError::MemoryOutOfBounds);
    assert_eq!(vm.processor.prog_cnt, 0);
}

#[test]
fn store_at_the_stack_is_a_collision_but_is_done() {
    let vm = ran("reg r0\nset #7\nsto #22\nhlt");
    assert_eq!(vm.error, RuntimeError::HeapCrash);
    assert_eq!(vm.memory[22], 7);
    assert_eq!(vm.state, Runtime::Error);
    assert_eq!(vm.processor.prog_cnt, 4);
}

#[test]
fn pop_to_memory() {
    let vm = ran("psh #9\npop #2\nhlt");
    assert_eq!(vm.memory[2], 9);
    assert_eq!(vm.error, RuntimeError::NoError);
    let vm = ran("psh #9\npop #50\nhlt");
    assert_eq!(vm.error, RuntimeError::RegisterOutOfBounds);
    assert_eq!(vm.processor.stack_ptr, 21);
}

#[test]
fn call_and_return() {
    let vm = ran("cal routine\nhlt\nroutine:\nreg r3\nset #1\nret");
    assert_eq!(vm.state, Runtime::Hlt);
    assert_eq!(vm.registers[3], 1);
    assert_eq!(vm.processor.prog_cnt, 4);
    assert_eq!(vm.processor.stack_ptr, 22);
    assert_eq!(vm.error, RuntimeError::NoError);
}

#[test]
fn conditional_jumps_follow_their_flags() {
    let vm = ran("reg r0\nset #1\nsub #1\njpz yes\nset #9\nyes:\nhlt");
    assert_eq!(vm.registers[0], 0);
    let vm = ran("reg r0\nset #1\nsub #0\njpz yes\nset #9\nyes:\nhlt");
    assert_eq!(vm.registers[0], 9);
    let vm = ran("reg r0\nset #max\nadd #1\njpc yes\nset #9\nyes:\nhlt");
    assert_eq!(vm.registers[0], i16::MIN);
    let vm = ran("reg r0\nset #0\nsub #1\njps yes\nset #9\nyes:\nhlt");
    assert_eq!(vm.registers[0], -1);
}

#[test]
fn counting_loop() {
    let vm = ran("reg r0\nset #5\nreg r1\nagain:\nreg r1\nadd #2\nreg r0\nsub #1\njpz done\njmp again\ndone:\nend");
    assert_eq!(vm.registers[1], 10);
    assert_eq!(vm.state, Runtime::Stp);
}

#[test]
fn jump_before_the_program_is_a_fault() {
    let vm = ran("jmp #-10\nhlt");
    assert_eq!(vm.error, RuntimeError::InstructionPointerOutOfBounds);
    assert_eq!(vm.state, Runtime::Error);
    assert_eq!(vm.processor.prog_cnt, 0);
}

#[test]
fn return_to_a_negative_address_is_a_fault() {
    let vm = ran("psh #-1\nret");
    assert_eq!(vm.error, RuntimeError::InstructionPointerOutOfBounds);
    assert_eq!(vm.processor.prog_cnt, 3);
}

#[test]
fn running_off_the_end_is_a_fault() {
    let vm = ran("reg r1");
    assert_eq!(vm.error, RuntimeError::ProgramOutOfBounds);
    assert_eq!(vm.state, Runtime::Error);
    assert_eq!(vm.processor.prog_cnt, 1);
    assert_eq!(vm.cycle_cnt, 1);
}

#[test]
fn illegal_bytes() {
    let vm = raw(&[0x0e]);
    assert_eq!(vm.error, RuntimeError::IllegalInstruction);
    let vm = raw(&[0x4f]);
    assert_eq!(vm.error, RuntimeError::IllegalInstruction);
    assert_eq!(vm.state, Runtime::Error);
}

#[test]
fn truncated_immediate_reads_as_the_least_atom() {
    let vm = raw(&[0x00, 0xf1, 0x05]);
    assert_eq!(vm.registers[0], i16::MIN);
    assert_eq!(vm.error, RuntimeError::ProgramOutOfBounds);
}

#[test]
fn selecting_the_immediate_marker_faults_on_use() {
    let vm = raw(&[0xf0, 0x00, 0x00, 0xf1, 0x01, 0x00, 0xef]);
    assert_eq!(vm.processor.act_reg, 15);
    assert_eq!(vm.error, RuntimeError::RegisterOutOfBounds);
    assert_eq!(vm.processor.prog_cnt, 3);
}

#[test]
fn unhandled_interrupt() {
    let mut vm = loaded("int #3\nhlt");
    let mut p = Proc {};
    let mut handlers: Vec<&mut dyn SoftInterrupt> = vec![&mut p];
    vm.run(0, &mut handlers[..]);
    assert_eq!(vm.error, RuntimeError::UnhandledInterrupt);
    assert_eq!(vm.state, Runtime::Error);
    assert_eq!(vm.processor.prog_cnt, 0);
}

#[test]
fn end_stops_for_good_and_halt_resumes() {
    let mut vm = loaded("hlt\nreg r1\nset #1\nend\nset #2");
    vm.run(0, &mut []);
    assert_eq!(vm.state, Runtime::Hlt);
    assert_eq!(vm.registers[1], 0);
    vm.run(0, &mut []);
    assert_eq!(vm.state, Runtime::Stp);
    assert_eq!(vm.registers[1], 1);
    vm.run(0, &mut []);
    assert_eq!(vm.state, Runtime::Stp);
    assert_eq!(vm.registers[1], 1);
}

#[test]
fn break_halts_only_when_asked() {
    let vm = ran("brk\nreg r1\nset #1\nhlt");
    assert_eq!(vm.registers[1], 1);
    let mut vm = loaded("brk\nreg r1\nset #1\nhlt");
    vm.halt_on_break = true;
    vm.run(0, &mut []);
    assert_eq!(vm.state, Runtime::Hlt);
    assert_eq!(vm.registers[1], 0);
    assert_eq!(vm.processor.prog_cnt, 1);
}

#[test]
fn step_budget_pauses_a_run() {
    let mut vm = loaded("again:\nreg r0\nadd #1\njmp again");
    vm.run(6, &mut []);
    assert_eq!(vm.state, Runtime::Run);
    assert_eq!(vm.cycle_cnt, 6);
    assert_eq!(vm.registers[0], 2);
    assert!(vm.running());
    vm.run(3, &mut []);
    assert_eq!(vm.cycle_cnt, 9);
    assert_eq!(vm.registers[0], 3);
    vm.pause();
    assert!(vm.paused());
}

#[test]
fn step_does_nothing_unless_running() {
    let mut vm = loaded("reg r1\nhlt");
    vm.step(&mut []);
    assert_eq!(vm.cycle_cnt, 0);
    assert_eq!(vm.processor.prog_cnt, 0);
    vm.state = Runtime::Run;
    vm.step(&mut []);
    assert_eq!(vm.cycle_cnt, 1);
    assert_eq!(vm.processor.act_reg, 1);
}

#[test]
fn errored_engine_does_not_advance_until_reset() {
    let mut vm = ran("loa #-1\nhlt");
    assert_eq!(vm.state, Runtime::Error);
    vm.run(0, &mut []);
    assert_eq!(vm.state, Runtime::Error);
    assert_eq!(vm.cycle_cnt, 0);
    vm.reset();
    assert_eq!(vm.state, Runtime::Hlt);
    assert_eq!(vm.error, RuntimeError::NoError);
}

#[test]
fn proc_functions() {
    let vm = ran("r1, r2, r3 = version()\nr4 = atom_size()\nr5 = mem_size()\nr6 = stack_ptr()\nr7 = prog_cnt()\nhlt");
    assert_eq!(vm.error, RuntimeError::NoError);
    assert_eq!((vm.registers[1], vm.registers[2], vm.registers[3]), (0, 1, 0));
    assert_eq!(vm.registers[4], 2);
    assert_eq!(vm.registers[5], 23);
    assert_eq!(vm.registers[6], 22);
    assert_eq!(vm.registers[7], 26);
    let vm = ran("psh #6\nint proc\nhlt");
    assert_eq!(vm.error, RuntimeError::UnimplementedInterruptFunc);
}

#[test]
fn math_functions() {
    let vm = ran("r0 = and(#12, #10)\nr1 = or(#12, #10)\nr2 = xor(#12, #10)\nr3 = not(#0)\nr4 = lsh(#3, #2)\nr5 = rsh(#-8, #1)\nr6 = mul(#-7, #6)\nr7 = div(#-7, #2)\nr8 = mod(#-7, #2)\nhlt");
    assert_eq!(vm.error, RuntimeError::NoError);
    assert_eq!(vm.registers[0], 8);
    assert_eq!(vm.registers[1], 14);
    assert_eq!(vm.registers[2], 6);
    assert_eq!(vm.registers[3], -1);
    assert_eq!(vm.registers[4], 12);
    assert_eq!(vm.registers[5], -4);
    assert_eq!(vm.registers[6], -42);
    assert_eq!(vm.registers[7], -3);
    assert_eq!(vm.registers[8], -1);
}

#[test]
fn math_carry_and_zero() {
    let vm = ran("r0 = mul(#300, #300)\nhlt");
    assert_eq!(vm.registers[0], (300i32 * 300) as i16);
    assert!(vm.processor.carry);
    let vm = ran("r0 = div(#min, #-1)\nhlt");
    assert_eq!(vm.registers[0], i16::MIN);
    assert!(vm.processor.carry);
    let vm = ran("r0 = mod(#min, #-1)\nhlt");
    assert_eq!(vm.registers[0], 0);
    assert!(vm.processor.zero);
    let vm = ran("r0 = lsh(#max, #1)\nhlt");
    assert_eq!(vm.registers[0], -2);
    let vm = ran("r0 = lsh(#1, #15)\nhlt");
    assert_eq!(vm.registers[0], i16::MIN);
}

#[test]
fn math_faults() {
    let vm = ran("r0 = div(#1, #0)\nhlt");
    assert_eq!(vm.error, RuntimeError::InterruptError);
    assert_eq!(vm.state, Runtime::Error);
    let vm = ran("r0 = mod(#1, #0)\nhlt");
    assert_eq!(vm.error, RuntimeError::InterruptError);
    let vm = ran("r0 = lsh(#1, #16)\nhlt");
    assert_eq!(vm.error, RuntimeError::InterruptError);
    let vm = ran("r0 = rsh(#1, #-1)\nhlt");
    assert_eq!(vm.error, RuntimeError::InterruptError);
    let vm = ran("r0 = pow(#2, #3)\nhlt");
    assert_eq!(vm.error, RuntimeError::UnimplementedInterruptFunc);
    let vm = ran("r0 = sqr(#2)\nhlt");
    assert_eq!(vm.error, RuntimeError::UnimplementedInterruptFunc);
}

#[test]
fn random_draws_from_the_generator() {
    // seed 0 and one retired instruction before the call: the generator starts from 2
    let mut vm = loaded("r0 = rand(#0, #9)\nhlt");
    let mut p = Proc {};
    let mut m = Math {};
    let mut r = Random::new(0);
    {
        let mut handlers: Vec<&mut dyn SoftInterrupt> = vec![&mut p, &mut m, &mut r];
        vm.run(0, &mut handlers[..]);
    }
    let cycles_at_call: u64 = 3;
    let drawn = (1664525u64 * cycles_at_call + 1013904223) % (1u64 << 32);
    assert_eq!(r.seed, drawn);
    assert_eq!(vm.registers[0] as u64, drawn % 10);
    assert_eq!(vm.error, RuntimeError::NoError);
}

#[test]
fn random_stays_between_its_bounds() {
    let mut r = Random::new(12345);
    for _ in 0..200 {
        let mut vm = VirtMach::new();
        vm.stack_push(-3);
        vm.stack_push(4);
        vm.stack_push(0);
        r.call(&mut vm);
        let v = vm.stack_pop();
        assert!((-3..=4).contains(&v));
    }
    let mut vm = VirtMach::new();
    vm.stack_push(i16::MAX);
    vm.stack_push(i16::MIN);
    vm.stack_push(0);
    r.call(&mut vm);
    assert_eq!(vm.error, RuntimeError::NoError);
    let mut vm = VirtMach::new();
    vm.stack_push(1);
    vm.stack_push(2);
    vm.stack_push(1);
    r.call(&mut vm);
    assert_eq!(vm.error, RuntimeError::UnimplementedInterruptFunc);
    assert_eq!(vm.stack_pop(), 0);
}

#[test]
fn handler_names() {
    assert_eq!(Dummy {}.name(), "dummy");
    assert_eq!(Proc {}.name(), "proc");
    assert_eq!(Math {}.name(), "math");
    assert_eq!(Random::new(1).name(), "random");
}

#[test]
fn dummy_leaves_the_engine_alone() {
    let mut vm = loaded("int #0\nhlt");
    let mut d = Dummy {};
    let mut handlers: Vec<&mut dyn SoftInterrupt> = vec![&mut d];
    vm.run(0, &mut handlers[..]);
    assert_eq!(vm.state, Runtime::Hlt);
    assert_eq!(vm.cycle_cnt, 2);
    assert_eq!(vm.error, RuntimeError::NoError);
}

struct Doubler {
    calls: usize,
}

impl SoftInterrupt for Doubler {
    fn name(&self) -> &str {
        "doubler"
    }

    fn call(&mut self, vm: &mut VirtMach) {
        self.calls += 1;
        let v = vm.stack_pop();
        vm.stack_push(v.wrapping_mul(2));
    }
}

#[test]
fn a_handler_of_the_caller() {
    let mut vm = loaded("psh #21\nint #0\npop r0\nhlt");
    let mut d = Doubler { calls: 0 };
    {
        let mut handlers: Vec<&mut dyn SoftInterrupt> = vec![&mut d];
        vm.run(0, &mut handlers[..]);
    }
    assert_eq!(vm.registers[0], 42);
    assert_eq!(d.calls, 1);
}

#[test]
fn forward_jump_lands_on_the_offset_of_its_label() {
    // jmp at 0, set at 3, label at 6
    let mut vm = loaded("jmp target\nset #1\ntarget:\nhlt");
    vm.state = Runtime::Run;
    vm.step(&mut []);
    assert_eq!(vm.processor.prog_cnt, 6);
    assert_eq!(vm.error, RuntimeError::NoError);
    assert_eq!(vm.state, Runtime::Run);
}

#[test]
fn backward_jump_lands_on_the_offset_of_its_label() {
    // reg at 0, label at 1, set at 1, jmp at 4
    let mut vm = loaded("reg r1\ntarget:\nset #1\njmp target");
    vm.run(3, &mut []);
    assert_eq!(vm.processor.prog_cnt, 1);
    assert_eq!(vm.error, RuntimeError::NoError);
    assert_eq!(vm.state, Runtime::Run);
}

#[test]
fn call_on_a_full_stack_is_overflow() {
    let mut listing = String::new();
    for _ in 0..22 {
        listing.push_str("psh #1\n");
    }
    listing.push_str("cal next\nnext:\nhlt");
    let vm = ran(&listing);
    assert_eq!(vm.error, RuntimeError::HeapOverflow);
    assert_eq!(vm.state, Runtime::Error);
    assert_eq!(vm.processor.prog_cnt, 66);
    assert_eq!(vm.cycle_cnt, 22);
}

#[test]
fn interrupt_with_the_immediate_marker_reads_past_its_operand() {
    // 0xf9 is an interrupt to index 15 with an immediate behind it
    let vm = raw(&[0xf9, 0x00, 0x00, 0xef]);
    assert_eq!(vm.error, RuntimeError::UnhandledInterrupt);
    assert_eq!(vm.processor.prog_cnt, 0);
}

#[test]
fn jump_by_a_register() {
    // set r0 to 1, then jump by r0 over one byte
    let vm = raw(&[0x00, 0xf1, 0x01, 0x00, 0x0a, 0xff, 0xef]);
    assert_eq!(vm.state, Runtime::Hlt);
    assert_eq!(vm.processor.prog_cnt, 7);
}

#[test]
fn a_run_of_a_stopped_or_new_engine_does_nothing() {
    let mut vm = VirtMach::new();
    vm.run(10, &mut []);
    assert_eq!(vm.state, Runtime::Ini);
    assert_eq!(vm.cycle_cnt, 0);
    assert_eq!(vm.error, RuntimeError::NoError);
}

#[test]
fn push_then_pop_inside_a_program() {
    let vm = ran("psh #1\npsh #2\npsh #3\npop r1\npop r2\npop r3\nhlt");
    assert_eq!((vm.registers[1], vm.registers[2], vm.registers[3]), (3, 2, 1));
    assert_eq!(vm.processor.stack_ptr, 22);
    let vm = ran("pop r1\nhlt");
    assert_eq!(vm.error, RuntimeError::HeapUnderflow);
    assert_eq!(vm.registers[1], 0);
}
