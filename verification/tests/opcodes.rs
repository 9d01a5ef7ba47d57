use tx_runtime::opcodes::{OpCode, CONSTANT, CONSTANT_LONG, POP, RETURN, JUMP, NUM_OPCODES};

#[test]
fn test_values() {
    assert_eq!(OpCode(CONSTANT), OpCode(0));
}

#[test]
fn test_num_operands() {
    assert_eq!(OpCode(CONSTANT).get_num_operands(), 1);
    assert_eq!(OpCode(CONSTANT_LONG).get_num_operands(), 3);
    assert_eq!(OpCode(POP).get_num_operands(), 0);
}

#[test]
fn test_stack_effect() {
    assert_eq!(OpCode(CONSTANT).get_stack_effect(), 1);
    assert_eq!(OpCode(CONSTANT_LONG).get_stack_effect(), 1);
    assert_eq!(OpCode(POP).get_stack_effect(), -1);
}

#[test]
fn test_jump_width_and_table_bounds() {
    assert_eq!(OpCode(JUMP).get_num_operands(), 2);
    assert_eq!(OpCode(RETURN).get_num_operands(), 0);
    assert_eq!(OpCode(RETURN).get_stack_effect(), 0);
    assert_eq!(RETURN + 1, NUM_OPCODES);
}

#[test]
fn test_opcode_to_byte() {
    assert_eq!(u8::from(OpCode(POP)), POP);
    assert_eq!(u8::from(OpCode(0)), 0);
}
