use virtmach::interrupts::{proc, Proc, SoftInterrupt};
use virtmach::reporting::{error_name, state_name};
use virtmach::{Program, Runtime, RuntimeError, VirtMach};

fn machine(listing: &str, steps: usize) -> VirtMach {
    let program = VirtMach::compile("counting-down", listing, &[proc::definition()]).unwrap();
    let mut vm = VirtMach::new();
    vm.load_program(program);
    let mut p = Proc {};
    let mut handlers: Vec<&mut dyn SoftInterrupt> = vec![&mut p];
    if steps > 0 {
        vm.run(steps, &mut handlers[..]);
    }
    vm
}

fn status_by_format(vm: &VirtMach) -> String {
    format!(
        "{:12}: {}-{}-{:05}-{:05}",
        vm.program.id,
        state_name(vm.state),
        vm.error.code(),
        vm.processor.prog_cnt,
        vm.processor.stack_ptr
    )
}

fn dashboard_by_format(vm: &VirtMach, mask: usize, rows: usize) -> String {
    let mut out = String::new();
    let rule = "--------------------------------\n";
    if mask & 1 != 0 {
        if vm.error == RuntimeError::NoError {
            out.push_str(rule);
        } else {
            out.push_str(&format!("-{}-|\n", error_name(vm.error)));
        }
        out.push_str(&format!("{:7.7}|   {:04x}|", vm.program.id, vm.processor.prog_cnt));
        out.push_str(&format!(
            "STA@FLG|{} {}{}{}|",
            state_name(vm.state),
            if vm.processor.zero { 'Z' } else { '.' },
            if vm.processor.carry { 'C' } else { '.' },
            if vm.processor.sign { 'S' } else { '.' }
        ));
        out.push_str("\n");
        out.push_str(&format!("STCK@RG|{:4}  {:X}|", vm.processor.stack_ptr, vm.processor.act_reg));
        out.push_str(&format!("CYCCNT@|{:7}|", vm.cycle_cnt));
        out.push_str("\n");
    }
    if mask & 2 != 0 {
        out.push_str(rule);
        out.push_str("REGS@@@|");
        for i in 0..15 {
            if i % 4 == 3 {
                out.push_str("\n");
            }
            out.push_str(&format!("{:7}|", vm.registers[i]));
        }
        out.push_str("\n");
    }
    if mask & 4 != 0 {
        out.push_str(rule);
        out.push_str("MEMORY@|");
        for i in 0..23 {
            if i % 4 == 3 {
                out.push_str("\n");
            }
            out.push_str(&format!("{:7}|", vm.memory[i]));
        }
        out.push_str("\n");
    }
    if rows != 0 {
        out.push_str(rule);
        let mut pos = vm.processor.prog_cnt;
        for i in 0..rows {
            if i == 0 {
                out.push_str("@ADDR@OP@@ARG@@@");
                out.push_str("@@@@@@@@@@@@@@@@");
                out.push_str("\n");
            } else {
                if pos < vm.program.data.len() {
                    out.push_str(&format!("{}{:4}:", if i == 1 { ">" } else { " " }, pos));
                    let (text, next) = VirtMach::decompile(&vm.program, pos);
                    pos = next;
                    out.push_str(&format!("{:12} ", text));
                } else {
                    out.push_str("    -:---     ");
                }
                out.push_str("              \n");
            }
        }
    }
    out
}

fn log_by_format(vm: &VirtMach) -> String {
    let (text, _) = VirtMach::decompile(&vm.program, vm.processor.prog_cnt);
    format!(
        "[{}] {:4} | {:10} | R: {:X} H: {:2} | Z: {} C: {} | {:4?} | {}",
        state_name(vm.state),
        vm.processor.prog_cnt,
        text,
        vm.processor.act_reg,
        vm.processor.stack_ptr,
        vm.processor.zero as u8,
        vm.processor.carry as u8,
        vm.registers,
        error_name(vm.error)
    )
}

const LISTING: &str = "reg r11\nset #-300\npsh #7\nagain:\nsub #-100\njps again\nr2 = cycle_cnt()\nloa #40\nhlt";

#[test]
fn status_of_a_new_engine() {
    let vm = VirtMach::new();
    let mut line = String::new();
    vm.write_status(&mut line);
    assert_eq!(line, "-empty-     : Ini-0-00000-00022");
}

#[test]
fn status_is_appended_and_agrees_with_formatting() {
    for steps in [0usize, 1, 3, 5, 40] {
        let vm = machine(LISTING, steps);
        let mut line = String::from("> ");
        vm.write_status(&mut line);
        assert_eq!(line, format!("> {}", status_by_format(&vm)));
    }
}

#[test]
fn status_of_a_fault() {
    let vm = machine(LISTING, 40);
    assert_eq!(vm.error, RuntimeError::MemoryOutOfBounds);
    let mut line = String::new();
    vm.write_status(&mut line);
    assert_eq!(line, "counting-down: Err-5-00018-00021");
}

#[test]
fn names_of_states_and_faults() {
    assert_eq!(state_name(Runtime::Ini), "Ini");
    assert_eq!(state_name(Runtime::Run), "Run");
    assert_eq!(state_name(Runtime::Hlt), "Hlt");
    assert_eq!(state_name(Runtime::Stp), "Stp");
    assert_eq!(state_name(Runtime::Error), "Err");
    let all = [
        RuntimeError::NoError,
        RuntimeError::MismatchedAtomType,
        RuntimeError::IllegalInstruction,
        RuntimeError::RegisterOutOfBounds,
        RuntimeError::ProgramOutOfBounds,
        RuntimeError::MemoryOutOfBounds,
        RuntimeError::InstructionPointerOutOfBounds,
        RuntimeError::HeapOverflow,
        RuntimeError::HeapUnderflow,
        RuntimeError::HeapCrash,
        RuntimeError::UnhandledInterrupt,
        RuntimeError::UnimplementedInterruptFunc,
        RuntimeError::InterruptError,
    ];
    for (i, e) in all.iter().enumerate() {
        assert_eq!(e.code() as usize, i);
        assert_eq!(error_name(*e), format!("{:?}", e));
    }
}

#[test]
fn dashboard_of_a_new_engine() {
    let vm = VirtMach::new();
    let mut board = String::new();
    vm.write_dashboard(&mut board, 1, 0);
    assert_eq!(
        board,
        "--------------------------------\n-empty-|   0000|STA@FLG|Ini ...|\nSTCK@RG|  22  0|CYCCNT@|      0|\n"
    );
}

#[test]
fn dashboard_rows_of_a_program() {
    let vm = machine("set #5\nhlt", 0);
    let mut board = String::new();
    vm.write_dashboard(&mut board, 0, 4);
    assert_eq!(
        board,
        "--------------------------------\n@ADDR@OP@@ARG@@@@@@@@@@@@@@@@@@@\n>   0:set #5                     \n    3:hlt                        \n    -:---                   \n"
    );
}

#[test]
fn dashboard_agrees_with_formatting() {
    for steps in [0usize, 1, 2, 3, 4, 7, 9, 40] {
        let vm = machine(LISTING, steps);
        for mask in 0..8usize {
            for rows in [0usize, 1, 2, 5, 12] {
                let mut board = String::from("x");
                vm.write_dashboard(&mut board, mask, rows);
                assert_eq!(board, format!("x{}", dashboard_by_format(&vm, mask, rows)));
            }
        }
    }
    let vm = VirtMach::new();
    let mut board = String::new();
    vm.write_dashboard(&mut board, 15, 3);
    assert_eq!(board, dashboard_by_format(&vm, 7, 3));
}

#[test]
fn dashboard_cuts_a_long_name_and_pads_a_short_one() {
    let mut vm = VirtMach::new();
    vm.load_program(Program { source: 0, id: String::from("ab"), data: vec![2, 0xef] });
    let mut board = String::new();
    vm.write_dashboard(&mut board, 1, 0);
    assert!(board.contains("\nab     |   0000|"));
    let vm = machine("hlt", 0);
    let mut board = String::new();
    vm.write_dashboard(&mut board, 1, 0);
    assert!(board.contains("\ncountin|   0000|"));
}

#[test]
fn log_without_program_is_an_error_line() {
    let vm = VirtMach::new();
    assert_eq!(vm.log(), Err(String::from("[Ini] no program loaded")));
    let mut vm = machine("hlt", 0);
    vm.processor.prog_cnt = 2;
    assert_eq!(vm.log(), Err(String::from("[Hlt] program out of bounds")));
}

#[test]
fn log_line_agrees_with_formatting() {
    for steps in [0usize, 1, 2, 3, 4, 7, 9, 40] {
        let vm = machine(LISTING, steps);
        assert_eq!(vm.log(), Ok(log_by_format(&vm)));
    }
    let vm = machine("hlt", 1);
    assert_eq!(
        vm.log(),
        Ok(String::from(
            "[Hlt]    1 | ?          | R: 0 H: 22 | Z: 0 C: 0 | [   0,    0,    0,    0,    0,    0,    0,    0,    0,    0,    0,    0,    0,    0,    0] | NoError"
        ))
    );
}
