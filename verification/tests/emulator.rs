use robowar::emulator::{Emulator, Instruction, RegisterIndexF32, RegisterIndexI32};

#[test]
fn emulator_nop_ticks_the_clock() {
    let mut e = Emulator::new(vec![Instruction::Nop]);
    assert_eq!(e.clock(), 0);
    assert!(!e.is_halted());
    e.step();
    e.step();
    e.step();
    // The program pointer does not move, so the same Nop runs again.
    assert_eq!(e.clock(), 3);
    assert!(!e.is_halted());
}

#[test]
fn emulator_empty_program_halts() {
    let mut e = Emulator::new(vec![]);
    e.step();
    assert!(e.is_halted());
    assert_eq!(e.clock(), 0);
    e.step();
    assert!(e.is_halted());
    assert_eq!(e.clock(), 0);
}

#[test]
fn register_indices() {
    assert_eq!(RegisterIndexI32::try_from(0), Ok(RegisterIndexI32(0)));
    assert_eq!(RegisterIndexI32::try_from(7), Ok(RegisterIndexI32(7)));
    assert_eq!(
        RegisterIndexI32::try_from(8),
        Err("register index out of range: 8".to_string())
    );
    assert_eq!(RegisterIndexF32::try_from(3), Ok(RegisterIndexF32(3)));
    assert_eq!(
        RegisterIndexF32::try_from(1234567),
        Err("register index out of range: 1234567".to_string())
    );
}
