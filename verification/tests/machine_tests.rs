use virmin::machine::MachineCode;
use virmin::machine::MachineState;
use virmin::machine::Width::Byte;
use virmin::machine::Width::DoubleWord;
use virmin::machine::Width::Word;

// =====================================================
// MicroCode (Add)
// =====================================================

#[test]
fn machine_tests_test_add_01() {
    let mut state = MachineState::new(0, vec![1, 2]);
    // Execute an instruction
    state.execute(MachineCode::Add(0, 1, Byte)).unwrap();
    // Check what happened
    assert_eq!(state.pc, 1);
    assert_eq!(*state.data.as_bytes(), vec![3, 2]);
}

#[test]
fn machine_tests_test_add_02() {
    let mut state = MachineState::new(0, vec![255, 2]);
    // Execute an instruction
    state.execute(MachineCode::Add(0, 1, Byte)).unwrap();
    // Check what happened
    assert_eq!(state.pc, 1);
    assert_eq!(*state.data.as_bytes(), vec![1, 2]);
}

#[test]
fn machine_tests_test_add_03() {
    let mut state = MachineState::new(0, vec![1, 2, 2, 2]);
    // Execute an instruction
    state.execute(MachineCode::Add(0, 1, Word)).unwrap();
    // Check what happened
    assert_eq!(state.pc, 1);
    assert_eq!(*state.data.as_bytes(), vec![3, 4, 2, 2]);
}

// =====================================================
// MicroCode (Copy)
// =====================================================

#[test]
fn machine_tests_test_copy_01() {
    let mut state = MachineState::new(0, vec![1, 2]);
    // Execute an instruction
    state.execute(MachineCode::Copy(0, 1, Byte)).unwrap();
    // Check what happened
    assert_eq!(state.pc, 1);
    assert_eq!(*state.data.as_bytes(), vec![2, 2]);
}

#[test]
fn machine_tests_test_copy_02() {
    let mut state = MachineState::new(0, vec![1, 1, 2, 3]);
    // Execute an instruction
    state.execute(MachineCode::Copy(0, 1, Word)).unwrap();
    // Check what happened
    assert_eq!(state.pc, 1);
    assert_eq!(*state.data.as_bytes(), vec![1, 2, 2, 3]);
}

#[test]
fn machine_tests_test_copy_03() {
    let mut state = MachineState::new(0, vec![1, 1, 2, 3]);
    // Execute an instruction
    state.execute(MachineCode::Copy(0, 2, Word)).unwrap();
    // Check what happened
    assert_eq!(state.pc, 1);
    assert_eq!(*state.data.as_bytes(), vec![2, 3, 2, 3]);
}

// =====================================================
// MicroCode (Load)
// =====================================================

#[test]
fn machine_tests_test_load_01() {
    let mut state = MachineState::new(0, vec![0, 2]);
    // Execute an instruction
    state.execute(MachineCode::Load(0, 1, Byte)).unwrap();
    // Check what happened
    assert_eq!(state.pc, 1);
    assert_eq!(*state.data.as_bytes(), vec![1, 2]);
}

#[test]
fn machine_tests_test_load_02() {
    let mut state = MachineState::new(0, vec![0, 1, 2, 3]);
    // Execute an instruction
    state.execute(MachineCode::Load(0, 1, Word)).unwrap();
    // Check what happened
    assert_eq!(state.pc, 1);
    assert_eq!(*state.data.as_bytes(), vec![1, 0, 2, 3]);
}

#[test]
fn machine_tests_test_load_03() {
    let mut state = MachineState::new(0, vec![0, 0, 2, 3]);
    // Execute an instruction
    state.execute(MachineCode::Load(0, 257, Word)).unwrap();
    // Check what happened
    assert_eq!(state.pc, 1);
    assert_eq!(*state.data.as_bytes(), vec![1, 1, 2, 3]);
}

#[test]
fn machine_tests_test_load_04() {
    let mut state = MachineState::new(0, vec![0, 0, 1, 1]);
    // Execute an instruction
    state.execute(MachineCode::Load(0, 257, DoubleWord)).unwrap();
    // Check what happened
    assert_eq!(state.pc, 1);
    assert_eq!(*state.data.as_bytes(), vec![1, 1, 0, 0]);
}

#[test]
fn machine_tests_test_load_05() {
    let mut state = MachineState::new(0, vec![2, 3, 4, 5, 6, 7, 8, 9]);
    // Execute an instruction
    state.execute(MachineCode::Load(0, 65537, DoubleWord)).unwrap();
    // Check what happened
    assert_eq!(state.pc, 1);
    assert_eq!(*state.data.as_bytes(), vec![1, 0, 1, 0, 6, 7, 8, 9]);
}

// =====================================================
// MicroCode (Goto)
// =====================================================

#[test]
fn machine_tests_test_goto_01() {
    let mut state = MachineState::new(0, vec![1, 2]);
    // Execute an instruction
    state.execute(MachineCode::Goto(2)).unwrap();
    // Check what happened
    assert_eq!(state.pc, 2);
    assert_eq!(*state.data.as_bytes(), vec![1, 2]);
}

#[test]
fn machine_tests_test_goto_02() {
    let mut state = MachineState::new(0, vec![1, 2]);
    // Execute an instruction
    state.execute(MachineCode::Goto(0)).unwrap();
    // Check what happened
    assert_eq!(state.pc, 0);
    assert_eq!(*state.data.as_bytes(), vec![1, 2]);
}

// =====================================================
// MicroCode (Jump)
// =====================================================

#[test]
fn machine_tests_test_jump_01() {
    let mut state = MachineState::new(1, vec![1, 2]);
    // Execute an instruction
    state.execute(MachineCode::Jump(2)).unwrap();
    // Check what happened
    assert_eq!(state.pc, 3);
    assert_eq!(*state.data.as_bytes(), vec![1, 2]);
}

#[test]
fn machine_tests_test_jump_02() {
    let mut state = MachineState::new(2, vec![1, 2]);
    // Execute an instruction
    state.execute(MachineCode::Jump(-1)).unwrap();
    // Check what happened
    assert_eq!(state.pc, 1);
    assert_eq!(*state.data.as_bytes(), vec![1, 2]);
}
