use purple_core::vm::{Function, VmType, OP_ADD, OP_BEGIN, OP_BREAK, OP_BREAK_IF, OP_CALL, OP_ELSE,
    OP_END, OP_EQ, OP_F32_CONST, OP_F64_CONST, OP_I32_CONST, OP_I64_CONST, OP_I64_LOAD,
    OP_I64_STORE, OP_IF, OP_LOOP, OP_LT_SIGNED, OP_NOP, OP_PICK_LOCAL, OP_PICK_OPERAND,
    OP_POP_LOCAL, OP_POP_OPERAND, OP_PUSH_LOCAL, OP_PUSH_OPERAND, OP_SUB};

fn function_with_block(name: &str, block: Vec<u8>, return_type: Option<VmType>) -> Function {
    Function {
        arity: 0,
        block,
        name: name.to_string(),
        arguments: vec![],
        return_type,
    }
}

fn looped_block() -> Vec<u8> {
    // Reference bit zero selects the indirect form for the first argument.
    let bitmask: u8 = 0b0000_0001;
    vec![
        OP_BEGIN,
        0x00,                             // 0 arity
        OP_NOP,
        OP_PUSH_LOCAL,
        0x03,                             // 3 arity
        0x00,                             // reference bits
        OP_I32_CONST,
        OP_I64_CONST,
        OP_F32_CONST,
        0x00,                             // i32 value
        0x00,
        0x00,
        0x05,
        0x00,                             // i64 value
        0x00,
        0x00,
        0x00,
        0x00,
        0x00,
        0x00,
        0x1b,
        0x00,                             // f32 value
        0x00,
        0x00,
        0x5f,
        OP_PICK_LOCAL,                    // dupe elements on the stack
        0x00,
        0x00,
        OP_PICK_LOCAL,
        0x00,
        0x01,
        OP_PICK_LOCAL,
        0x00,
        0x02,
        OP_PICK_LOCAL,
        0x00,
        0x00,
        OP_PICK_LOCAL,
        0x00,
        0x01,
        OP_PICK_LOCAL,
        0x00,
        0x02,
        OP_PUSH_LOCAL,                    // push the loop counter
        0x01,
        0x00,                             // reference bits
        OP_I32_CONST,
        0x00,
        0x00,
        0x00,
        0x00,
        OP_LOOP,
        0x05,                             // 5 arity
        OP_PICK_LOCAL,                    // dupe the counter
        0x00,
        0x04,
        OP_PUSH_OPERAND,
        0x02,
        bitmask,
        OP_I32_CONST,
        OP_I32_CONST,
        OP_POP_LOCAL,                     // push the counter to the operand stack
        0x00,                             // loop 5 times
        0x00,
        0x00,
        0x04,
        OP_PICK_LOCAL,
        0x00,
        0x00,
        OP_PICK_LOCAL,
        0x00,
        0x01,
        OP_IF,                            // break if the operands are equal
        0x02,
        OP_EQ,
        OP_BREAK,
        OP_END,
        OP_ELSE,
        0x02,
        OP_NOP,
        OP_NOP,
        OP_END,
        OP_PUSH_OPERAND,                  // increment the counter
        0x02,
        bitmask,
        OP_I32_CONST,
        OP_I32_CONST,
        OP_POP_LOCAL,
        0x00,
        0x00,
        0x00,
        0x01,
        OP_ADD,
        OP_PUSH_LOCAL,                    // move the counter back to the call stack
        0x01,
        bitmask,
        OP_I32_CONST,
        OP_POP_OPERAND,
        OP_END,
        OP_NOP,
        OP_END,
    ]
}

#[test]
fn find_block_len() {
    let function = function_with_block("debug_test", looped_block(), Some(VmType::I32));
    assert_eq!(function.find_block_len(72), Some(5));
}

#[test]
fn find_block_len_with_nested1() {
    let function = function_with_block("debug_test", looped_block(), Some(VmType::I32));
    assert_eq!(function.find_block_len(0), Some(function.block.len()));
}

#[test]
fn find_block_len_with_nested2() {
    let function = function_with_block("debug_test", looped_block(), Some(VmType::I32));
    assert_eq!(function.find_block_len(51), Some(48));
}

#[test]
fn find_block_len_with_call_and_return() {
    let bitmask: u8 = 0b0000_0001;
    let main_block: Vec<u8> = vec![
        OP_BEGIN,
        0x00,                             // 0 arity
        OP_NOP,
        OP_PUSH_LOCAL,
        0x01,
        0x00,
        OP_I32_CONST,
        0x00,
        0x00,
        0x00,
        0x00,
        OP_LOOP,
        0x01,
        OP_CALL,
        0x00,                             // function index
        0x04,
        OP_PICK_LOCAL,
        0x00,
        0x00,
        OP_PUSH_OPERAND,
        0x02,
        bitmask,
        OP_I32_CONST,
        OP_I32_CONST,
        OP_POP_LOCAL,
        0x00,                             // loop 4 times
        0x00,
        0x00,
        0x04,
        OP_BREAK_IF,
        OP_EQ,
        OP_END,
        OP_END,
    ];
    let function = function_with_block("debug_test1", main_block, None);
    assert_eq!(function.find_block_len(11), Some(21));
}

#[test]
fn find_block_len_stores_and_loads() {
    let bitmask: u8 = 0b0000_0111;
    let bitmask2: u8 = 0b0000_0011;
    let bitmask3: u8 = 0b0000_0001;
    let block: Vec<u8> = vec![
        OP_BEGIN,
        0x00,                             // 0 arity
        OP_NOP,
        OP_PUSH_OPERAND,
        0x04,                             // 4 arity
        0x00,                             // reference bits
        OP_I64_CONST,
        OP_I64_CONST,
        OP_I64_CONST,
        OP_F64_CONST,
        0x00,                             // n = 100
        0x00,
        0x00,
        0x00,
        0x00,
        0x00,
        0x00,
        0x64,
        0x00,                             // a = 0
        0x00,
        0x00,
        0x00,
        0x00,
        0x00,
        0x00,
        0x00,
        0x00,                             // b = 1
        0x00,
        0x00,
        0x00,
        0x00,
        0x00,
        0x00,
        0x01,
        0x00,                             // sum = 0
        0x00,
        0x00,
        0x00,
        0x00,
        0x00,
        0x00,
        0x00,
        OP_I64_STORE,                     // store the sum
        0x00,
        0x03,
        OP_I64_STORE,                     // store b
        0x00,
        0x02,
        OP_I64_STORE,                     // store a
        0x00,
        0x01,
        OP_I64_STORE,                     // store n
        0x00,
        0x00,
        OP_LOOP,
        0x00,
        OP_PUSH_OPERAND,                  // push n, check whether n > 1
        0x02,
        bitmask3,
        OP_I64_CONST,
        OP_I64_CONST,
        OP_I64_LOAD,
        0x00,
        0x00,
        0x00,
        0x00,
        0x00,
        0x00,
        0x00,
        0x00,
        0x00,
        0x02,
        OP_BREAK_IF,                      // break if n is below two
        OP_LT_SIGNED,
        OP_POP_OPERAND,
        OP_PUSH_LOCAL,                    // push n, b and a to the locals stack
        0x03,
        bitmask,
        OP_I64_CONST,
        OP_I64_CONST,
        OP_I64_CONST,
        OP_POP_OPERAND,
        OP_I64_LOAD,
        0x00,
        0x02,
        OP_I64_LOAD,
        0x00,
        0x01,
        OP_PICK_LOCAL,                    // copy b to the top of the stack
        0x00,
        0x02,
        OP_PUSH_OPERAND,                  // push a and the copy of b
        0x02,
        bitmask2,
        OP_I64_CONST,
        OP_I64_CONST,
        OP_POP_LOCAL,
        OP_POP_LOCAL,
        OP_ADD,                           // sum = a + b
        OP_PICK_OPERAND,
        0x00,
        0x00,
        OP_I64_STORE,                     // store the new sum
        0x00,
        0x03,
        OP_PUSH_OPERAND,                  // push b
        0x01,
        bitmask3,
        OP_I64_CONST,
        OP_POP_LOCAL,
        OP_I64_STORE,                     // store b as the new a
        0x00,
        0x01,
        OP_I64_STORE,                     // store the sum as the new b
        0x00,
        0x02,
        OP_PUSH_OPERAND,                  // push n and subtract one
        0x02,
        bitmask3,
        OP_I64_CONST,
        OP_I64_CONST,
        OP_POP_LOCAL,
        0x00,
        0x00,
        0x00,
        0x00,
        0x00,
        0x00,
        0x00,
        0x01,
        OP_SUB,
        OP_I64_STORE,                     // store the new n
        0x00,
        0x00,
        OP_END,
        OP_NOP,
        OP_END,
    ];
    let function = function_with_block("debug_test", block, None);
    assert_eq!(function.find_block_len(54), Some(81));
}

#[test]
fn fetch_reads_block_bytes() {
    let function = function_with_block("debug_test", vec![OP_BEGIN, 0x00, OP_END], None);
    assert_eq!(function.fetch(0), OP_BEGIN);
    assert_eq!(function.fetch(2), OP_END);
}

#[test]
fn fetch_block_len_on_opener() {
    let function = function_with_block("debug_test", vec![OP_BEGIN, 0x00, OP_NOP, OP_END], None);
    assert_eq!(function.fetch_block_len(0), 4);
}

#[test]
fn find_block_len_rejects_unknown_opcode() {
    let function = function_with_block("debug_test", vec![OP_BEGIN, 0x00, 0xff, OP_END], None);
    assert_eq!(function.find_block_len(0), None);
}

#[test]
fn find_block_len_rejects_depth_underflow() {
    let function = function_with_block("debug_test", vec![OP_END], None);
    assert_eq!(function.find_block_len(0), None);
}

#[test]
fn find_block_len_rejects_truncated_block() {
    let function = function_with_block("debug_test", vec![OP_BEGIN, 0x00, OP_NOP], None);
    assert_eq!(function.find_block_len(0), None);
}
