use wordasm::encode::{
    encode_arith, encode_body, encode_cmov, encode_comp, encode_ctrl, encode_draw, encode_jump,
    encode_load, encode_stor,
};
use wordasm::opcodes;
use wordasm::symbols::{Routine, Variable};

fn toks(words: &[&str]) -> Vec<String> {
    words.iter().map(|w| w.to_string()).collect()
}

#[test]
fn draw_literal_string_ab_default_color() {
    let words = encode_draw(&toks(&["draw", "str", "AB"]), &Vec::new(), 1).unwrap();
    assert_eq!(
        words,
        vec![
            // enter draw mode
            opcodes::LOAD_GREG,
            opcodes::GPU_DRAW_TEXT,
            opcodes::STOR_GREG,
            // 'A' under the default color byte
            opcodes::LOAD_GREG,
            0x0A41,
            opcodes::STOR_GREG,
            // 'B' under the default color byte
            opcodes::LOAD_GREG,
            0x0A42,
            opcodes::STOR_GREG,
            // draw terminator
            opcodes::LOAD_GREG,
            opcodes::DRAW_TERM,
            opcodes::STOR_GREG,
        ]
    );
}

#[test]
fn draw_string_with_color_tag() {
    let words = encode_draw(&toks(&["draw", "str", "A", "col", "red"]), &Vec::new(), 1).unwrap();
    assert_eq!(words[4], 0x0B41);
    let words = encode_draw(&toks(&["draw", "str", "A", "col", "green"]), &Vec::new(), 1).unwrap();
    assert_eq!(words[4], 0x0C41);
    let words = encode_draw(&toks(&["draw", "str", "A", "col", "white"]), &Vec::new(), 1).unwrap();
    assert_eq!(words[4], 0x0A41);
}

#[test]
fn draw_caret_becomes_space() {
    let words = encode_draw(&toks(&["draw", "str", "a^b"]), &Vec::new(), 1).unwrap();
    assert_eq!(words[7], 0x0A20);
}

#[test]
fn draw_register_contents() {
    let words = encode_draw(&toks(&["draw", "reg", "C"]), &Vec::new(), 1).unwrap();
    assert_eq!(
        words,
        vec![
            opcodes::LOAD_GREG,
            opcodes::GPU_DRAW_TEXT,
            opcodes::STOR_GREG,
            opcodes::LOAD_GREG,
            0xE0CC,
            opcodes::STOR_GREG,
            opcodes::LOAD_GREG,
            opcodes::DRAW_TERM,
            opcodes::STOR_GREG,
        ]
    );
}

#[test]
fn draw_unknown_register_is_fatal() {
    assert!(encode_draw(&toks(&["draw", "reg", "Q"]), &Vec::new(), 1).is_err());
}

#[test]
fn draw_known_constant_emits_tagged_address() {
    let mut v = Variable::new("x".to_string(), 3);
    v.value = 9;
    let words = encode_draw(&toks(&["draw", "var", "x"]), &vec![v], 1).unwrap();
    assert_eq!(
        words,
        vec![
            opcodes::LOAD_GREG,
            opcodes::GPU_DRAW_TEXT,
            opcodes::STOR_GREG,
            opcodes::LOAD_GREG,
            0xF003,
            opcodes::STOR_GREG,
            opcodes::LOAD_GREG,
            opcodes::DRAW_TERM,
            opcodes::STOR_GREG,
        ]
    );
}

#[test]
fn draw_unknown_constant_emits_only_mode_enter() {
    let words = encode_draw(&toks(&["draw", "var", "y"]), &Vec::new(), 1).unwrap();
    assert_eq!(
        words,
        vec![opcodes::LOAD_GREG, opcodes::GPU_DRAW_TEXT, opcodes::STOR_GREG]
    );
}

#[test]
fn load_and_stor_pick_the_register_opcode() {
    let w = encode_load(&toks(&["load", "A", "num", "7"]), &Vec::new(), 1).unwrap();
    assert_eq!(w, vec![opcodes::LOAD_AREG, 7]);
    let w = encode_load(&toks(&["load", "D", "lit", "F"]), &Vec::new(), 1).unwrap();
    assert_eq!(w, vec![opcodes::LOAD_DREG, 15]);
    let w = encode_stor(&toks(&["stor", "B", "num", "4096"]), 1).unwrap();
    assert_eq!(w, vec![opcodes::STOR_BREG, 4096]);
}

#[test]
fn cursor_movement_directions() {
    let w = encode_cmov(&toks(&["cmov", "up"]), 1).unwrap();
    assert_eq!(w, vec![opcodes::LOAD_GREG, opcodes::GPU_MV_C_UP, opcodes::STOR_GREG]);
    let w = encode_cmov(&toks(&["cmov", "nl"]), 1).unwrap();
    assert_eq!(w, vec![opcodes::LOAD_GREG, opcodes::GPU_NEW_LINE, opcodes::STOR_GREG]);
    assert!(encode_cmov(&toks(&["cmov", "zz"]), 1).is_err());
}

#[test]
fn control_directives() {
    let w = encode_ctrl(&toks(&["ctrl", "gpu", "clear"]), 1).unwrap();
    assert_eq!(w, vec![opcodes::LOAD_GREG, opcodes::GPU_RES_F_BUF, opcodes::STOR_GREG]);
    let w = encode_ctrl(&toks(&["ctrl", "gpu", "update"]), 1).unwrap();
    assert_eq!(w, vec![opcodes::LOAD_GREG, opcodes::GPU_UPDATE, opcodes::STOR_GREG]);
    let w = encode_ctrl(&toks(&["ctrl", "cpu", "reset"]), 1).unwrap();
    assert_eq!(w, vec![opcodes::NO_OPERAT]);
    let w = encode_ctrl(&toks(&["ctrl", "cpu", "halt"]), 1).unwrap();
    assert_eq!(w, vec![opcodes::HALT_LOOP]);
    assert!(encode_ctrl(&toks(&["ctrl", "apu", "halt"]), 1).is_err());
    assert!(encode_ctrl(&toks(&["ctrl", "cpu", "dance"]), 1).is_err());
}

#[test]
fn arithmetic_boundary() {
    let w = encode_arith(&toks(&["rsub", "C", "num", "61439"]), 1).unwrap();
    assert_eq!(w, vec![opcodes::DEC_REG_V, 0x43, 0xEFFF]);
    assert!(encode_arith(&toks(&["rsub", "C", "num", "61440"]), 1).is_err());
    let w = encode_arith(&toks(&["rmul", "A", "num", "3"]), 1).unwrap();
    assert_eq!(w, vec![opcodes::MUL_REG_V, 0x41, 3]);
    let w = encode_arith(&toks(&["rdiv", "B", "num", "2"]), 1).unwrap();
    assert_eq!(w, vec![opcodes::DIV_REG_V, 0x42, 2]);
}

#[test]
fn jump_family_resolves_names() {
    let routines = vec![Routine::new("alpha".to_string(), 0x1111)];
    let w = encode_jump(&toks(&["jusr", "alpha"]), &routines, 1).unwrap();
    assert_eq!(w, vec![opcodes::JMP_TO_SR, 0x1111]);
    let w = encode_jump(&toks(&["juie", "alpha"]), &routines, 1).unwrap();
    assert_eq!(w, vec![opcodes::JUMP_IFEQ, 0x1111]);
    let w = encode_jump(&toks(&["brin", "missing"]), &routines, 1).unwrap();
    assert_eq!(w, vec![opcodes::BRAN_INEQ, 0x0000]);
}

#[test]
fn comparison_operands() {
    let w = encode_comp(&toks(&["comp", "reg", "A", "num", "5"]), 1).unwrap();
    assert_eq!(w, vec![opcodes::COMP_REGS, 0x41, 5]);
    let w = encode_comp(&toks(&["comp", "reg", "B", "reg", "D"]), 1).unwrap();
    assert_eq!(w, vec![opcodes::COMP_REGS, 0x42, 0x44]);
    // The second operand's annotation must stand at the fourth token.
    assert!(encode_comp(&toks(&["comp", "x", "num", "3", "9"]), 1).is_err());
}

#[test]
fn color_tag_without_argument_is_fatal() {
    assert!(encode_draw(&toks(&["draw", "str", "A", "col"]), &Vec::new(), 1).is_err());
}

#[test]
fn body_dispatch_rejects_unknown_keyword() {
    let e = encode_body(&toks(&["wiggle"]), &Vec::new(), &Vec::new(), 7).unwrap_err();
    assert_eq!(e.line, 7);
}
