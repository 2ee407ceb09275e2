use virtmach::interrupts::{base_definitions, math, proc, random, SoftInterruptDef, SoftInterruptFunction};

fn function(no: i16, name: &str, arguments: usize, returns: usize) -> SoftInterruptFunction {
    SoftInterruptFunction { no, name: String::from(name), arguments, returns, help: String::new() }
}

#[test]
fn table_of_the_proc_interrupt() {
    let table = "0, version,   0, 3,\n 1, atom_size, 0, 1,\n 2, mem_size,  0, 1,\n 3, stack_ptr, 0, 1,\n 4, prog_cnt,  0, 1,\n 5, cycle_cnt, 0, 1,\n";
    assert_eq!(SoftInterruptDef::from_table("proc", table), Some(proc::definition()));
}

#[test]
fn table_of_the_math_interrupt() {
    let table = "0,  and, 2, 1,\n 1,  or,  2, 1,\n 2,  xor, 2, 1,\n 3,  not, 1, 1,\n 4,  lsh, 2, 1,\n 5,  rsh, 2, 1,\n 6,  mul, 2, 1,\n 7,  div, 2, 1,\n 8,  mod, 2, 1,\n 9,  pow, 2, 1,\n 10, sqr, 1, 1,\n";
    assert_eq!(SoftInterruptDef::from_table("math", table), Some(math::definition()));
}

#[test]
fn definition_of_the_random_interrupt() {
    assert_eq!(
        random::definition(),
        SoftInterruptDef { name: String::from("random"), functions: vec![function(0, "rand", 2, 1)] }
    );
}

#[test]
fn base_definitions_stand_in_dispatch_order() {
    let defs = base_definitions();
    let names: Vec<&str> = defs.iter().map(|d| d.name.as_str()).collect();
    assert_eq!(names, vec!["proc", "math", "random"]);
    assert_eq!(defs[0].functions.len(), 6);
    assert_eq!(defs[0].functions[5], function(5, "cycle_cnt", 0, 1));
    assert_eq!(defs[1].functions.len(), 11);
    assert_eq!(defs[1].functions[3], function(3, "not", 1, 1));
}

#[test]
fn tables_without_trailing_comma_and_with_blank_rows() {
    assert_eq!(
        SoftInterruptDef::from_table("s", "\n16,get_size,0,2\n\n  \n-1 , odd name , 12 , 0 ,\n"),
        Some(SoftInterruptDef {
            name: String::from("s"),
            functions: vec![function(16, "get_size", 0, 2), function(-1, "odd name", 12, 0)],
        })
    );
    assert_eq!(
        SoftInterruptDef::from_table("none", ""),
        Some(SoftInterruptDef { name: String::from("none"), functions: vec![] })
    );
}

#[test]
fn malformed_tables() {
    assert_eq!(SoftInterruptDef::from_table("s", "1, a, 0"), None);
    assert_eq!(SoftInterruptDef::from_table("s", "1, a, 0, 1, x"), None);
    assert_eq!(SoftInterruptDef::from_table("s", "1, a, 0, 1,,"), None);
    assert_eq!(SoftInterruptDef::from_table("s", "x, a, 0, 1"), None);
    assert_eq!(SoftInterruptDef::from_table("s", "40000, a, 0, 1"), None);
    assert_eq!(SoftInterruptDef::from_table("s", "1, a, -1, 1"), None);
    assert_eq!(SoftInterruptDef::from_table("s", "1, a, 0, 1000000"), None);
    assert_eq!(SoftInterruptDef::from_table("s", "0, ok, 0, 0\n1, a, , 1"), None);
}
