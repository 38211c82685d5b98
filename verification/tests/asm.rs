use boron::assembler::{tokenize, assemble, AsmError};

fn be64(v: u64) -> Vec<u8> {
    let mut r = Vec::new();
    for i in 0..8 {
        r.push(((v >> (8 * (7 - i))) & 0xFF) as u8);
    }
    r
}

#[test]
fn tokenize_splits_on_spaces() {
    let toks = tokenize(vec!["set r0 5", "add r2 r0 r1"]);
    assert_eq!(toks, vec!["set", "r0", "5", "add", "r2", "r0", "r1"]);
}

#[test]
fn tokenize_drops_extra_spaces_and_empty_lines() {
    let toks = tokenize(vec!["", "  a   b ", ""]);
    assert_eq!(toks, vec!["a", "b"]);
}

#[test]
fn tokenize_comment_abandons_line() {
    let toks = tokenize(vec!["ab#c d", "x y"]);
    assert_eq!(toks, vec!["x", "y"]);
}

#[test]
fn tokenize_comment_after_space_keeps_earlier_tokens() {
    let toks = tokenize(vec!["ab #c"]);
    assert_eq!(toks, vec!["ab"]);
}

#[test]
fn assemble_set_instruction() {
    let code = assemble(vec!["set r0 5"]).unwrap();
    let mut expected = vec![0u8; 9];
    expected.push(0x01);
    expected.push(0);
    expected.extend(be64(5));
    expected.push(0xFF);
    assert_eq!(code, expected);
}

#[test]
fn assemble_is_case_insensitive() {
    assert_eq!(assemble(vec!["SET R0 5"]).unwrap(), assemble(vec!["set r0 5"]).unwrap());
}

#[test]
fn assemble_appends_final_halt() {
    let code = assemble(vec![]).unwrap();
    let mut expected = vec![0u8; 9];
    expected.push(0xFF);
    assert_eq!(code, expected);
}

#[test]
fn assemble_start_patches_entry_slot() {
    let code = assemble(vec!["nop", "start", "nop"]).unwrap();
    let mut expected = vec![0x41u8];
    expected.extend(be64(10));
    expected.push(0x00);
    expected.push(0x00);
    expected.push(0xFF);
    assert_eq!(code, expected);
}

#[test]
fn assemble_name_and_call() {
    let code = assemble(vec!["name foo", "set r0 1", "return", "call foo", "halt"]).unwrap();
    let mut expected = vec![0u8; 9];
    expected.push(0x01);
    expected.push(0);
    expected.extend(be64(1));
    expected.push(0x62);
    expected.push(0x61);
    expected.extend(be64(9));
    expected.push(0xFF);
    expected.push(0xFF);
    assert_eq!(code, expected);
}

#[test]
fn assemble_call_undeclared_function_fails() {
    assert_eq!(assemble(vec!["call foo"]), Err(AsmError::UndeclaredFunction));
}

#[test]
fn assemble_call_before_declaration_fails() {
    assert_eq!(assemble(vec!["call foo", "name foo"]), Err(AsmError::UndeclaredFunction));
}

#[test]
fn assemble_malformed_register_fails() {
    assert_eq!(assemble(vec!["set ra 5"]), Err(AsmError::MalformedRegister));
    assert_eq!(assemble(vec!["set r300 5"]), Err(AsmError::MalformedRegister));
    assert_eq!(assemble(vec!["set r 5"]), Err(AsmError::MalformedRegister));
}

#[test]
fn assemble_register_index_is_one_byte() {
    let code = assemble(vec!["push r14"]).unwrap();
    let mut expected = vec![0u8; 9];
    expected.push(0x51);
    expected.push(14);
    expected.push(0xFF);
    assert_eq!(code, expected);
}

#[test]
fn assemble_unparsable_literal_is_skipped() {
    let code = assemble(vec!["bogus"]).unwrap();
    let mut expected = vec![0u8; 9];
    expected.push(0xFF);
    assert_eq!(code, expected);
}

#[test]
fn assemble_label_token_emits_nothing() {
    let code = assemble(vec![".loop nop"]).unwrap();
    let mut expected = vec![0u8; 9];
    expected.push(0x00);
    expected.push(0xFF);
    assert_eq!(code, expected);
}

#[test]
fn assemble_every_mnemonic_opcode() {
    let pairs: Vec<(&str, u8)> = vec![
        ("nop", 0x00),
        ("jpr", 0x48),
        ("pop", 0x52),
        ("return", 0x62),
        ("tx", 0xA1),
        ("rx", 0xA2),
        ("halt", 0xFF),
    ];
    for (mnem, op) in pairs {
        let code = assemble(vec![mnem]).unwrap();
        assert_eq!(code[9], op);
    }
}

#[test]
fn assemble_literal_is_big_endian() {
    let code = assemble(vec!["jmp 258"]).unwrap();
    let mut expected = vec![0u8; 9];
    expected.push(0x41);
    expected.extend(be64(258));
    expected.push(0xFF);
    assert_eq!(code, expected);
}
