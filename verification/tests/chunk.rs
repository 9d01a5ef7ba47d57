use tx_runtime::allocator::Alloc;
use tx_runtime::chunk::{Chunk, write_multibyte_operand};
use tx_runtime::dyn_array::DynArray;
use tx_runtime::opcodes::{OpCode, CONSTANT, CONSTANT_LONG, POP, RETURN};
use tx_runtime::value::Value;
use tx_runtime::vm::VM;

fn new_vm() -> VM {
    VM { allocator: Alloc::new() }
}

fn new_chunk(vm: &VM) -> Chunk {
    Chunk {
        bytecode: DynArray::new(&vm.allocator),
        constants: DynArray::new(&vm.allocator),
        lines: DynArray::new(&vm.allocator),
    }
}

#[test]
fn constant_dedup_returns_stable_indices() {
    let mut vm = new_vm();
    let mut chunk = new_chunk(&vm);
    let i1 = chunk.write_constant(&mut vm, Value::Int(42));
    let i2 = chunk.write_constant(&mut vm, Value::Int(42));
    assert_eq!(i1, 0);
    assert_eq!(i2, 0);
    let i3 = chunk.write_constant(&mut vm, Value::Int(7));
    assert_eq!(i3, 1);
    let i4 = chunk.write_constant(&mut vm, Value::Bool(true));
    assert_eq!(i4, 2);
    assert_eq!(chunk.write_constant(&mut vm, Value::Int(7)), 1);
    assert_eq!(chunk.constants.len(), 3);
}

#[test]
fn distinct_value_kinds_never_collide() {
    let mut vm = new_vm();
    let mut chunk = new_chunk(&vm);
    let a = chunk.write_constant(&mut vm, Value::Nil);
    let b = chunk.write_constant(&mut vm, Value::Unset);
    let c = chunk.write_constant(&mut vm, Value::Char('x'));
    let d = chunk.write_constant(&mut vm, Value::Object(3));
    assert_eq!((a, b, c, d), (0, 1, 2, 3));
}

#[test]
fn line_mapping_round_trip() {
    let mut vm = new_vm();
    let mut chunk = new_chunk(&vm);
    let lines = [1usize, 1, 2, 2, 2, 3];
    for &line in lines.iter() {
        chunk.write_instruction::<0>(&mut vm, line, OpCode(POP), 0);
    }
    assert_eq!(chunk.bytecode.len(), 6);
    for (offset, &line) in lines.iter().enumerate() {
        assert_eq!(chunk.get_line(offset), line);
    }
    // one breakpoint per line transition, not one per instruction
    assert_eq!(chunk.lines.len(), 3);
}

#[test]
fn get_line_covers_multi_byte_instructions() {
    let mut vm = new_vm();
    let mut chunk = new_chunk(&vm);
    chunk.write_instruction::<1>(&mut vm, 10, OpCode(CONSTANT), 5);
    chunk.write_instruction::<3>(&mut vm, 11, OpCode(CONSTANT_LONG), 70000);
    chunk.write_instruction::<0>(&mut vm, 11, OpCode(RETURN), 0);
    // instruction starts: offset 0 (line 10), offset 2 (line 11), offset 6
    assert_eq!(chunk.get_line(0), 10);
    assert_eq!(chunk.get_line(1), 10);
    assert_eq!(chunk.get_line(2), 11);
    assert_eq!(chunk.get_line(5), 11);
    assert_eq!(chunk.get_line(6), 11);
    assert_eq!(chunk.lines.len(), 2);
}

#[test]
fn operand_encoding_round_trip_long() {
    let mut vm = new_vm();
    let mut chunk = new_chunk(&vm);
    chunk.write_instruction::<3>(&mut vm, 1, OpCode(CONSTANT_LONG), 300);
    assert_eq!(chunk.bytecode.len(), 4);
    assert_eq!(*chunk.bytecode.get(0), CONSTANT_LONG);
    let b0 = *chunk.bytecode.get(1) as usize;
    let b1 = *chunk.bytecode.get(2) as usize;
    let b2 = *chunk.bytecode.get(3) as usize;
    assert_eq!((b0, b1, b2), (44, 1, 0));
    assert_eq!(b0 + 256 * b1 + 65536 * b2, 300);
}

#[test]
fn operand_encoding_round_trip_short() {
    let mut vm = new_vm();
    let mut chunk = new_chunk(&vm);
    chunk.write_instruction::<1>(&mut vm, 1, OpCode(CONSTANT), 255);
    assert_eq!(chunk.bytecode.len(), 2);
    assert_eq!(*chunk.bytecode.get(0), CONSTANT);
    assert_eq!(*chunk.bytecode.get(1), 255);
}

#[test]
fn multibyte_operand_writes_little_endian() {
    let mut alloc = Alloc::new();
    let mut bytes: DynArray<u8> = DynArray::new(&alloc);
    for _ in 0..5 {
        bytes.push(&mut alloc, 0xee);
    }
    write_multibyte_operand(&mut bytes, 1, 3, 0x010203);
    assert_eq!(*bytes.get(0), 0xee);
    assert_eq!(*bytes.get(1), 0x03);
    assert_eq!(*bytes.get(2), 0x02);
    assert_eq!(*bytes.get(3), 0x01);
    assert_eq!(*bytes.get(4), 0xee);
    write_multibyte_operand(&mut bytes, 0, 0, 0);
    assert_eq!(*bytes.get(0), 0xee);
    bytes.destroy(&mut alloc);
}

#[test]
fn chunk_buffers_release_cleanly() {
    let mut vm = new_vm();
    let mut chunk = new_chunk(&vm);
    for i in 0..50usize {
        chunk.write_instruction::<1>(&mut vm, i / 10 + 1, OpCode(CONSTANT), i % 256);
        chunk.write_constant(&mut vm, Value::Object(i % 8));
    }
    assert_eq!(chunk.constants.len(), 8);
    assert!(vm.allocator.allocated_bytes() > 0);
    chunk.bytecode.destroy(&mut vm.allocator);
    chunk.constants.destroy(&mut vm.allocator);
    chunk.lines.destroy(&mut vm.allocator);
    assert_eq!(vm.allocator.allocated_bytes(), 0);
}
