use qir_generator::registry::{declares_qubit, declares_result, names_slot, slot_name};
use qir_generator::{ClassicalRegister, Error, QuantumRegister};

#[test]
fn slot_names_are_name_then_index() {
    assert_eq!(slot_name("qubit", 0), "qubit0");
    assert_eq!(slot_name("result", 17), "result17");
    assert_eq!(slot_name("", 3), "3");
    assert_eq!(slot_name("q1", 0), "q10");
}

#[test]
fn a_register_names_its_own_slots_only() {
    assert!(names_slot("qubit", 3, "qubit0"));
    assert!(names_slot("qubit", 3, "qubit2"));
    assert!(!names_slot("qubit", 3, "qubit3"));
    assert!(!names_slot("qubit", 3, "qubit"));
    assert!(!names_slot("qubit", 3, "qubit01"));
    assert!(!names_slot("qubit", 3, "result0"));
    assert!(!names_slot("qubit", 3, "qubit1x"));
    assert!(!names_slot("qubit", 3, "Qubit1"));
    assert!(!names_slot("qubit", 3, ""));
}

#[test]
fn an_empty_register_names_no_slot() {
    assert!(!names_slot("qubit", 0, "qubit0"));
    let reg = QuantumRegister::new("qubit".to_string(), 0);
    assert_eq!(reg.slot(0), Err(Error::InvalidOperand));
    assert!(!reg.declares("qubit0"));
}

#[test]
fn the_largest_register_names_every_index_but_the_last() {
    assert!(names_slot("r", u64::MAX, "r18446744073709551614"));
    assert!(!names_slot("r", u64::MAX, "r18446744073709551615"));
    assert!(!names_slot("r", u64::MAX, "r18446744073709551616"));
}

#[test]
fn quantum_register_gives_identifiers_in_range() {
    let reg = QuantumRegister::new("qubit".to_string(), 2);
    assert_eq!(reg.name, "qubit");
    assert_eq!(reg.size, 2);
    assert_eq!(reg.slot(0), Ok("qubit0".to_string()));
    assert_eq!(reg.slot(1), Ok("qubit1".to_string()));
    assert_eq!(reg.slot(2), Err(Error::InvalidOperand));
    assert!(reg.declares("qubit1"));
    assert!(!reg.declares("qubit2"));
}

#[test]
fn classical_register_gives_identifiers_in_range() {
    let reg = ClassicalRegister::new("result".to_string(), 1);
    assert_eq!(reg.name, "result");
    assert_eq!(reg.size, 1);
    assert_eq!(reg.slot(0), Ok("result0".to_string()));
    assert_eq!(reg.slot(1), Err(Error::InvalidOperand));
    assert!(reg.declares("result0"));
    assert!(!reg.declares("qubit0"));
}

#[test]
fn a_slot_is_looked_for_in_every_register() {
    let qubits = vec![
        QuantumRegister::new("a".to_string(), 1),
        QuantumRegister::new("b".to_string(), 2),
    ];
    assert!(declares_qubit(&qubits, "a0"));
    assert!(declares_qubit(&qubits, "b1"));
    assert!(!declares_qubit(&qubits, "a1"));
    assert!(!declares_qubit(&qubits, "c0"));
    assert!(!declares_qubit(&Vec::new(), "a0"));
    let results = vec![ClassicalRegister::new("r".to_string(), 1)];
    assert!(declares_result(&results, "r0"));
    assert!(!declares_result(&results, "r1"));
}
