//! The instruction encoder: each directive of a routine body maps to a
//! fixed emission template over the opcode words.
//!
//! Display-draw sequences are bracketed by a draw-mode-enter emission and a
//! draw-terminator emission; every drawn character becomes a load/store
//! pair carrying a color byte in the word's high half and the character in
//! its low half.

use vstd::prelude::*;

use crate::err::{AsmError, ErrorKind};
use crate::opcodes;
use crate::parse::{hln_value, parse_hex_lit_num, parse_regs, reg_code};
use crate::symbols::{find_var, lookup_variable, return_routine_address, routine_addr, Routine,
    Variable};
use crate::text::{char_to_word, char_word, str_eq, views_of};

verus! {

/// The load-immediate opcode of a general register, by the register's
/// ordinal letter value.
pub open spec fn load_op(reg: u16) -> u16 {
    if reg == 0x41 {
        opcodes::LOAD_AREG
    } else if reg == 0x42 {
        opcodes::LOAD_BREG
    } else if reg == 0x43 {
        opcodes::LOAD_CREG
    } else if reg == 0x44 {
        opcodes::LOAD_DREG
    } else {
        0
    }
}

/// The store opcode of a general register, by the register's ordinal
/// letter value.
pub open spec fn stor_op(reg: u16) -> u16 {
    if reg == 0x41 {
        opcodes::STOR_AREG
    } else if reg == 0x42 {
        opcodes::STOR_BREG
    } else if reg == 0x43 {
        opcodes::STOR_CREG
    } else if reg == 0x44 {
        opcodes::STOR_DREG
    } else {
        0
    }
}

/// A constant's address tagged with the reserved high nibble that marks
/// "load the address of a constant" rather than "load an immediate".
pub open spec fn tagged_addr(a: u16) -> u16 {
    0xF000u16 | a
}

/// The cursor-movement word of a direction keyword.
pub open spec fn dir_word(tok: Seq<char>) -> Option<u16> {
    if tok == "up"@ {
        Some(opcodes::GPU_MV_C_UP)
    } else if tok == "do"@ {
        Some(opcodes::GPU_MV_C_DOWN)
    } else if tok == "le"@ {
        Some(opcodes::GPU_MV_C_LEFT)
    } else if tok == "ri"@ {
        Some(opcodes::GPU_MV_C_RIGH)
    } else if tok == "nl"@ {
        Some(opcodes::GPU_NEW_LINE)
    } else {
        None
    }
}

/// The display-control word of a `ctrl gpu` keyword.
pub open spec fn gpu_ctrl_word(tok: Seq<char>) -> Option<u16> {
    if tok == "clear"@ {
        Some(opcodes::GPU_RES_F_BUF)
    } else if tok == "reset"@ {
        Some(opcodes::GPU_RESET_PTR)
    } else if tok == "update"@ {
        Some(opcodes::GPU_UPDATE)
    } else {
        None
    }
}

/// The processor word of a `ctrl cpu` keyword.
pub open spec fn cpu_ctrl_word(tok: Seq<char>) -> Option<u16> {
    if tok == "reset"@ {
        Some(opcodes::NO_OPERAT)
    } else if tok == "halt"@ {
        Some(opcodes::HALT_LOOP)
    } else {
        None
    }
}

/// The opcode of a register-immediate arithmetic directive.
pub open spec fn arith_op(tok: Seq<char>) -> Option<u16> {
    if tok == "radd"@ {
        Some(opcodes::INC_REG_V)
    } else if tok == "rsub"@ {
        Some(opcodes::DEC_REG_V)
    } else if tok == "rmul"@ {
        Some(opcodes::MUL_REG_V)
    } else if tok == "rdiv"@ {
        Some(opcodes::DIV_REG_V)
    } else {
        None
    }
}

/// The opcode of a control-transfer directive.
pub open spec fn jump_op(tok: Seq<char>) -> Option<u16> {
    if tok == "jusr"@ {
        Some(opcodes::JMP_TO_SR)
    } else if tok == "jump"@ {
        Some(opcodes::JMP_TO_AD)
    } else if tok == "juie"@ {
        Some(opcodes::JUMP_IFEQ)
    } else if tok == "brie"@ {
        Some(opcodes::BRAN_IFEQ)
    } else if tok == "juin"@ {
        Some(opcodes::JUMP_INEQ)
    } else if tok == "brin"@ {
        Some(opcodes::BRAN_INEQ)
    } else {
        None
    }
}

/// The color byte a color keyword selects; any unknown keyword, like
/// `white`, selects the default.
pub open spec fn color_byte(tok: Seq<char>) -> u16 {
    if tok == "red"@ {
        0x0B
    } else if tok == "green"@ {
        0x0C
    } else if tok == "blue"@ {
        0x0D
    } else if tok == "cyan"@ {
        0x0E
    } else if tok == "magenta"@ {
        0x0F
    } else {
        0x0A
    }
}

/// The color a `draw str` line selects: the default where no `col` tag
/// stands, and undefined where the tag stands without its argument.
pub open spec fn draw_color(toks: Seq<Seq<char>>) -> Option<u16> {
    if toks.len() > 3 && toks[3] == "col"@ {
        if toks.len() > 4 {
            Some(color_byte(toks[4]))
        } else {
            None
        }
    } else {
        Some(0x0A)
    }
}

/// The word drawn for one character: the color byte in the high half, the
/// character in the low half; a caret is drawn as a space.
pub open spec fn draw_word(color: u16, c: char) -> u16 {
    (color << 8) | char_word(
        if c == '^' {
            ' '
        } else {
            c
        },
    )
}

/// The load/store pair that draws one character.
pub open spec fn draw_pair(color: u16, c: char) -> Seq<u16> {
    seq![opcodes::LOAD_GREG, draw_word(color, c), opcodes::STOR_GREG]
}

/// The words that draw a whole string, character by character.
pub open spec fn draw_chars(color: u16, s: Seq<char>) -> Seq<u16>
    decreases s.len(),
{
    if s.len() == 0 {
        Seq::empty()
    } else {
        draw_chars(color, s.drop_last()) + draw_pair(color, s.last())
    }
}

/// The emission that enters text-draw mode.
pub open spec fn draw_enter() -> Seq<u16> {
    seq![opcodes::LOAD_GREG, opcodes::GPU_DRAW_TEXT, opcodes::STOR_GREG]
}

/// The emission that terminates a draw sequence.
pub open spec fn draw_term_words() -> Seq<u16> {
    seq![opcodes::LOAD_GREG, opcodes::DRAW_TERM, opcodes::STOR_GREG]
}

/// The word drawn for a register's contents, with a distinct fallback for
/// an unrecognized register value.
pub open spec fn reg_draw_word(reg: u16) -> u16 {
    if reg == 0x41 {
        0xE0AA
    } else if reg == 0x42 {
        0xE0BB
    } else if reg == 0x43 {
        0xE0CC
    } else if reg == 0x44 {
        0xE0DD
    } else {
        0xE00D
    }
}

/// The words a `load` directive emits: the register's load opcode, then
/// the immediate, or a constant's tagged address (0 where the constant is
/// unknown).
pub open spec fn load_words(toks: Seq<Seq<char>>, vars: Seq<Variable>) -> Option<Seq<u16>> {
    if toks.len() < 2 {
        None
    } else {
        match reg_code(toks[1]) {
            None => None,
            Some(reg) => if toks.len() > 2 && toks[2] == "var"@ {
                if toks.len() > 3 {
                    let w = match find_var(vars, toks[3]) {
                        Some(v) => tagged_addr(v.address),
                        None => 0u16,
                    };
                    Some(seq![load_op(reg), w])
                } else {
                    None
                }
            } else {
                match hln_value(toks, 2, 0) {
                    Some(v) => Some(seq![load_op(reg), v]),
                    None => None,
                }
            },
        }
    }
}

/// The words a `stor` directive emits: the register's store opcode, then
/// the target address.
pub open spec fn stor_words(toks: Seq<Seq<char>>) -> Option<Seq<u16>> {
    if toks.len() < 2 {
        None
    } else {
        match reg_code(toks[1]) {
            None => None,
            Some(reg) => match hln_value(toks, 2, 0) {
                Some(v) => Some(seq![stor_op(reg), v]),
                None => None,
            },
        }
    }
}

/// The words a `draw` directive emits.  A literal string draws each of its
/// characters; `reg` draws a register's contents; `var` draws a constant's
/// tagged address, or nothing past the mode-enter words where the name is
/// unknown.
pub open spec fn draw_words(toks: Seq<Seq<char>>, vars: Seq<Variable>) -> Option<Seq<u16>> {
    if toks.len() < 2 {
        None
    } else if toks[1] == "str"@ {
        match draw_color(toks) {
            None => None,
            Some(color) => if toks.len() < 3 {
                None
            } else {
                Some(draw_enter() + draw_chars(color, toks[2]) + draw_term_words())
            },
        }
    } else if toks[1] == "reg"@ {
        if toks.len() < 3 {
            None
        } else {
            match reg_code(toks[2]) {
                None => None,
                Some(reg) => Some(
                    draw_enter() + seq![
                        opcodes::LOAD_GREG,
                        reg_draw_word(reg),
                        opcodes::STOR_GREG,
                    ] + draw_term_words(),
                ),
            }
        }
    } else if toks[1] == "var"@ {
        if toks.len() < 3 {
            None
        } else {
            match find_var(vars, toks[2]) {
                Some(v) => Some(
                    draw_enter() + seq![
                        opcodes::LOAD_GREG,
                        tagged_addr(v.address),
                        opcodes::STOR_GREG,
                    ] + draw_term_words(),
                ),
                None => Some(draw_enter()),
            }
        }
    } else {
        None
    }
}

/// The words a `cmov` directive emits: a load/store pair around the
/// direction's cursor-movement word.
pub open spec fn cmov_words(toks: Seq<Seq<char>>) -> Option<Seq<u16>> {
    if toks.len() < 2 {
        None
    } else {
        match dir_word(toks[1]) {
            Some(w) => Some(seq![opcodes::LOAD_GREG, w, opcodes::STOR_GREG]),
            None => None,
        }
    }
}

/// The words a `ctrl` directive emits: display controls are load/store
/// wrapped, processor controls are a single word.
pub open spec fn ctrl_words(toks: Seq<Seq<char>>) -> Option<Seq<u16>> {
    if toks.len() < 2 {
        None
    } else if toks[1] == "gpu"@ {
        if toks.len() < 3 {
            None
        } else {
            match gpu_ctrl_word(toks[2]) {
                Some(w) => Some(seq![opcodes::LOAD_GREG, w, opcodes::STOR_GREG]),
                None => None,
            }
        }
    } else if toks[1] == "cpu"@ {
        if toks.len() < 3 {
            None
        } else {
            match cpu_ctrl_word(toks[2]) {
                Some(w) => Some(seq![w]),
                None => None,
            }
        }
    } else {
        None
    }
}

/// The words a register-immediate arithmetic directive emits; the
/// immediate must not exceed 0xEFFF.
pub open spec fn arith_words(toks: Seq<Seq<char>>) -> Option<Seq<u16>> {
    match arith_op(toks[0]) {
        None => None,
        Some(op) => if toks.len() < 2 {
            None
        } else {
            match reg_code(toks[1]) {
                None => None,
                Some(reg) => match hln_value(toks, 2, 0) {
                    Some(v) => if v <= 61439 {
                        Some(seq![op, reg, v])
                    } else {
                        None
                    },
                    None => None,
                },
            }
        },
    }
}

/// The words a control-transfer directive emits: the opcode, then the
/// target block's resolved address (0 where the name is not yet declared).
pub open spec fn jump_words(toks: Seq<Seq<char>>, routines: Seq<Routine>) -> Option<Seq<u16>> {
    match jump_op(toks[0]) {
        None => None,
        Some(op) => if toks.len() < 2 {
            None
        } else {
            Some(seq![op, routine_addr(routines, toks[1])])
        },
    }
}

/// The words a `comp` directive emits: the comparison header, then the two
/// resolved operands, each a register value or an annotated immediate and
/// neither above 0xEFFF.
pub open spec fn comp_words(toks: Seq<Seq<char>>) -> Option<Seq<u16>> {
    if toks.len() < 2 {
        None
    } else {
        let a = if toks[1] == "reg"@ {
            if toks.len() > 2 {
                reg_code(toks[2])
            } else {
                None
            }
        } else {
            hln_value(toks, 2, 0)
        };
        if toks.len() < 4 {
            None
        } else {
            let b = if toks[3] == "reg"@ {
                if toks.len() > 4 {
                    reg_code(toks[4])
                } else {
                    None
                }
            } else {
                hln_value(toks, 3, 0)
            };
            match (a, b) {
                (Some(va), Some(vb)) => if va <= 61439 && vb <= 61439 {
                    Some(seq![opcodes::COMP_REGS, va, vb])
                } else {
                    None
                },
                _ => None,
            }
        }
    }
}

/// The words an in-routine body directive emits, or `None` where the line
/// is no well-formed emitting directive.
pub open spec fn body_words(
    toks: Seq<Seq<char>>,
    vars: Seq<Variable>,
    routines: Seq<Routine>,
) -> Option<Seq<u16>> {
    if toks.len() == 0 {
        None
    } else if toks[0] == "load"@ {
        load_words(toks, vars)
    } else if toks[0] == "stor"@ {
        stor_words(toks)
    } else if toks[0] == "draw"@ {
        draw_words(toks, vars)
    } else if toks[0] == "cmov"@ {
        cmov_words(toks)
    } else if toks[0] == "ctrl"@ {
        ctrl_words(toks)
    } else if arith_op(toks[0]) is Some {
        arith_words(toks)
    } else if jump_op(toks[0]) is Some {
        jump_words(toks, routines)
    } else if toks[0] == "comp"@ {
        comp_words(toks)
    } else if toks[0] == "inpt"@ {
        Some(seq![opcodes::AWAIT_INP])
    } else if toks[0] == "rtor"@ {
        Some(seq![opcodes::RET_TO_OR])
    } else {
        None
    }
}

/// Like-reading symbol tables make a body directive emit the same words:
/// the emission depends only on the tokens, the constants' names, values
/// and addresses, and the blocks' names and addresses.
pub proof fn lemma_body_words_like(
    toks: Seq<Seq<char>>,
    v1: Seq<Variable>,
    r1: Seq<Routine>,
    v2: Seq<Variable>,
    r2: Seq<Routine>,
)
    requires
        toks.len() >= 1,
        crate::symbols::variables_like(v1, v2),
        crate::symbols::routines_like(r1, r2),
    ensures
        body_words(toks, v1, r1) == body_words(toks, v2, r2),
{
    crate::symbols::lemma_find_var_like(v1, v2, toks[3]);
    crate::symbols::lemma_find_var_like(v1, v2, toks[2]);
    crate::symbols::lemma_routine_addr_like(r1, r2, toks[1]);
    assert(load_words(toks, v1) == load_words(toks, v2));
    assert(draw_words(toks, v1) == draw_words(toks, v2));
    assert(jump_words(toks, r1) == jump_words(toks, r2));
}

/// Reads the color a `draw str` line selects.
fn parse_draw_color(instruction: &Vec<String>, code_line: usize) -> (r: Result<u16, AsmError>)
    ensures
        ({
            let tv = views_of(instruction@);
            match r {
                Ok(c) => draw_color(tv) == Some(c),
                Err(e) => draw_color(tv) is None && e.line == code_line,
            }
        }),
{
    let ghost tv = views_of(instruction@);
    if instruction.len() > 3 {
        proof {
            assert(tv[3] == instruction@[3]@);
        }
        if str_eq(instruction[3].as_str(), "col") {
            if instruction.len() > 4 {
                proof {
                    assert(tv[4] == instruction@[4]@);
                }
                let ctok = instruction[4].as_str();
                let c: u16 = if str_eq(ctok, "red") {
                    0x0B
                } else if str_eq(ctok, "green") {
                    0x0C
                } else if str_eq(ctok, "blue") {
                    0x0D
                } else if str_eq(ctok, "cyan") {
                    0x0E
                } else if str_eq(ctok, "magenta") {
                    0x0F
                } else {
                    0x0A
                };
                return Ok(c);
            } else {
                return Err(AsmError::at(ErrorKind::Arity, instruction, code_line, 3));
            }
        }
    }
    Ok(0x0A)
}

/// Encodes a `load` directive.
pub fn encode_load(instruction: &Vec<String>, variables: &Vec<Variable>, code_line: usize) -> (r:
    Result<Vec<u16>, AsmError>)
    ensures
        ({
            let tv = views_of(instruction@);
            match r {
                Ok(v) => load_words(tv, variables@) == Some(v@),
                Err(e) => load_words(tv, variables@) is None && e.line == code_line && (
                tv.len() < 2 ==> e.kind == ErrorKind::Arity) && (tv.len() >= 2 && reg_code(
                    tv[1],
                ) is None ==> e.kind == ErrorKind::Lookup) && (tv.len() >= 2 && reg_code(tv[1])
                    is Some && !(tv.len() > 2 && tv[2] == "var"@) ==> e.kind == crate::parse::hln_err_kind(
                    tv,
                    2,
                    0,
                )),
            }
        }),
{
    let ghost tv = views_of(instruction@);
    if instruction.len() < 2 {
        return Err(AsmError::at(ErrorKind::Arity, instruction, code_line, 0));
    }
    let reg = match parse_regs(instruction, code_line, 1) {
        Ok(v) => v,
        Err(e) => return Err(e),
    };
    let op: u16 = if reg == 0x41 {
        opcodes::LOAD_AREG
    } else if reg == 0x42 {
        opcodes::LOAD_BREG
    } else if reg == 0x43 {
        opcodes::LOAD_CREG
    } else {
        opcodes::LOAD_DREG
    };
    proof {
        assert(op == load_op(reg));
    }
    if instruction.len() > 2 && str_eq(instruction[2].as_str(), "var") {
        proof {
            assert(tv[2] == instruction@[2]@);
        }
        if instruction.len() > 3 {
            proof {
                assert(tv[3] == instruction@[3]@);
            }
            let w: u16 = match lookup_variable(variables, instruction[3].as_str()) {
                Some(a) => 0xF000u16 | a,
                None => 0u16,
            };
            let mut out: Vec<u16> = Vec::new();
            out.push(op);
            out.push(w);
            proof {
                assert(out@ =~= seq![load_op(reg), w]);
            }
            Ok(out)
        } else {
            Err(AsmError::at(ErrorKind::Arity, instruction, code_line, 2))
        }
    } else {
        proof {
            if instruction@.len() > 2 {
                assert(tv[2] == instruction@[2]@);
            }
        }
        let v = match parse_hex_lit_num(instruction, code_line, 2, 0) {
            Ok(v) => v,
            Err(e) => return Err(e),
        };
        let mut out: Vec<u16> = Vec::new();
        out.push(op);
        out.push(v);
        proof {
            assert(out@ =~= seq![load_op(reg), v]);
        }
        Ok(out)
    }
}

/// Encodes a `stor` directive.
pub fn encode_stor(instruction: &Vec<String>, code_line: usize) -> (r: Result<Vec<u16>, AsmError>)
    ensures
        ({
            let tv = views_of(instruction@);
            match r {
                Ok(v) => stor_words(tv) == Some(v@),
                Err(e) => stor_words(tv) is None && e.line == code_line && (tv.len() < 2
                    ==> e.kind == ErrorKind::Arity) && (tv.len() >= 2 && reg_code(tv[1]) is None
                    ==> e.kind == ErrorKind::Lookup) && (tv.len() >= 2 && reg_code(tv[1]) is Some
                    ==> e.kind == crate::parse::hln_err_kind(tv, 2, 0)),
            }
        }),
{
    let ghost tv = views_of(instruction@);
    if instruction.len() < 2 {
        return Err(AsmError::at(ErrorKind::Arity, instruction, code_line, 0));
    }
    let reg = match parse_regs(instruction, code_line, 1) {
        Ok(v) => v,
        Err(e) => return Err(e),
    };
    let op: u16 = if reg == 0x41 {
        opcodes::STOR_AREG
    } else if reg == 0x42 {
        opcodes::STOR_BREG
    } else if reg == 0x43 {
        opcodes::STOR_CREG
    } else {
        opcodes::STOR_DREG
    };
    proof {
        assert(op == stor_op(reg));
    }
    let addr = match parse_hex_lit_num(instruction, code_line, 2, 0) {
        Ok(v) => v,
        Err(e) => return Err(e),
    };
    let mut out: Vec<u16> = Vec::new();
    out.push(op);
    out.push(addr);
    proof {
        assert(out@ =~= seq![stor_op(reg), addr]);
    }
    Ok(out)
}

/// Encodes a `draw` directive.
#[verifier::loop_isolation(false)]
pub fn encode_draw(instruction: &Vec<String>, variables: &Vec<Variable>, code_line: usize) -> (r:
    Result<Vec<u16>, AsmError>)
    ensures
        ({
            let tv = views_of(instruction@);
            match r {
                Ok(v) => draw_words(tv, variables@) == Some(v@),
                Err(e) => draw_words(tv, variables@) is None && e.line == code_line && (
                tv.len() < 2 ==> e.kind == ErrorKind::Arity) && (tv.len() >= 2 && tv[1] != "str"@
                    && tv[1] != "reg"@ && tv[1] != "var"@ ==> e.kind == ErrorKind::Lookup),
            }
        }),
{
    let ghost tv = views_of(instruction@);
    if instruction.len() < 2 {
        return Err(AsmError::at(ErrorKind::Arity, instruction, code_line, 0));
    }
    proof {
        assert(tv[1] == instruction@[1]@);
    }
    if str_eq(instruction[1].as_str(), "str") {
        let color = match parse_draw_color(instruction, code_line) {
            Ok(c) => c,
            Err(e) => return Err(e),
        };
        if instruction.len() < 3 {
            return Err(AsmError::at(ErrorKind::Arity, instruction, code_line, 1));
        }
        proof {
            assert(tv[2] == instruction@[2]@);
        }
        let s = instruction[2].as_str();
        let n = s.unicode_len();
        let mut out: Vec<u16> = Vec::new();
        out.push(opcodes::LOAD_GREG);
        out.push(opcodes::GPU_DRAW_TEXT);
        out.push(opcodes::STOR_GREG);
        proof {
            assert(out@ =~= draw_enter() + draw_chars(color, s@.take(0)));
        }
        let mut i: usize = 0;
        while i < n
            invariant
                n == s@.len(),
                0 <= i <= n,
                out@ == draw_enter() + draw_chars(color, s@.take(i as int)),
            decreases n - i,
        {
            let c = s.get_char(i);
            let c2: char = if c == '^' {
                ' '
            } else {
                c
            };
            let w: u16 = (color << 8) | char_to_word(c2);
            out.push(opcodes::LOAD_GREG);
            out.push(w);
            out.push(opcodes::STOR_GREG);
            proof {
                assert(s@.take(i + 1).drop_last() =~= s@.take(i as int));
                assert(s@.take(i + 1).last() == s@[i as int]);
                assert(w == draw_word(color, s@[i as int]));
                assert(out@ =~= draw_enter() + draw_chars(color, s@.take(i + 1)));
            }
            i = i + 1;
        }
        out.push(opcodes::LOAD_GREG);
        out.push(opcodes::DRAW_TERM);
        out.push(opcodes::STOR_GREG);
        proof {
            assert(s@.take(n as int) =~= s@);
            assert(out@ =~= draw_enter() + draw_chars(color, s@) + draw_term_words());
        }
        Ok(out)
    } else if str_eq(instruction[1].as_str(), "reg") {
        let reg = match parse_regs(instruction, code_line, 2) {
            Ok(v) => v,
            Err(e) => return Err(e),
        };
        let rw: u16 = if reg == 0x41 {
            0xE0AA
        } else if reg == 0x42 {
            0xE0BB
        } else if reg == 0x43 {
            0xE0CC
        } else if reg == 0x44 {
            0xE0DD
        } else {
            0xE00D
        };
        proof {
            assert(rw == reg_draw_word(reg));
        }
        let mut out: Vec<u16> = Vec::new();
        out.push(opcodes::LOAD_GREG);
        out.push(opcodes::GPU_DRAW_TEXT);
        out.push(opcodes::STOR_GREG);
        out.push(opcodes::LOAD_GREG);
        out.push(rw);
        out.push(opcodes::STOR_GREG);
        out.push(opcodes::LOAD_GREG);
        out.push(opcodes::DRAW_TERM);
        out.push(opcodes::STOR_GREG);
        proof {
            assert(out@ =~= draw_enter() + seq![
                opcodes::LOAD_GREG,
                reg_draw_word(reg),
                opcodes::STOR_GREG,
            ] + draw_term_words());
        }
        Ok(out)
    } else if str_eq(instruction[1].as_str(), "var") {
        if instruction.len() < 3 {
            return Err(AsmError::at(ErrorKind::Arity, instruction, code_line, 1));
        }
        proof {
            assert(tv[2] == instruction@[2]@);
        }
        let mut out: Vec<u16> = Vec::new();
        out.push(opcodes::LOAD_GREG);
        out.push(opcodes::GPU_DRAW_TEXT);
        out.push(opcodes::STOR_GREG);
        match lookup_variable(variables, instruction[2].as_str()) {
            Some(a) => {
                out.push(opcodes::LOAD_GREG);
                out.push(0xF000u16 | a);
                out.push(opcodes::STOR_GREG);
                out.push(opcodes::LOAD_GREG);
                out.push(opcodes::DRAW_TERM);
                out.push(opcodes::STOR_GREG);
                proof {
                    assert(out@ =~= draw_enter() + seq![
                        opcodes::LOAD_GREG,
                        tagged_addr(a),
                        opcodes::STOR_GREG,
                    ] + draw_term_words());
                }
                Ok(out)
            },
            None => {
                proof {
                    assert(out@ =~= draw_enter());
                }
                Ok(out)
            },
        }
    } else {
        Err(AsmError::at(ErrorKind::Lookup, instruction, code_line, 1))
    }
}

/// Encodes a `cmov` cursor-movement directive.
pub fn encode_cmov(instruction: &Vec<String>, code_line: usize) -> (r: Result<Vec<u16>, AsmError>)
    ensures
        ({
            let tv = views_of(instruction@);
            match r {
                Ok(v) => cmov_words(tv) == Some(v@),
                Err(e) => cmov_words(tv) is None && e.line == code_line && (tv.len() >= 2
                    && dir_word(tv[1]) is None ==> e.kind == ErrorKind::Lookup),
            }
        }),
{
    let ghost tv = views_of(instruction@);
    if instruction.len() < 2 {
        return Err(AsmError::at(ErrorKind::Arity, instruction, code_line, 0));
    }
    proof {
        assert(tv[1] == instruction@[1]@);
    }
    let d = instruction[1].as_str();
    let w: u16 = if str_eq(d, "up") {
        opcodes::GPU_MV_C_UP
    } else if str_eq(d, "do") {
        opcodes::GPU_MV_C_DOWN
    } else if str_eq(d, "le") {
        opcodes::GPU_MV_C_LEFT
    } else if str_eq(d, "ri") {
        opcodes::GPU_MV_C_RIGH
    } else if str_eq(d, "nl") {
        opcodes::GPU_NEW_LINE
    } else {
        return Err(AsmError::at(ErrorKind::Lookup, instruction, code_line, 1));
    };
    let mut out: Vec<u16> = Vec::new();
    out.push(opcodes::LOAD_GREG);
    out.push(w);
    out.push(opcodes::STOR_GREG);
    proof {
        assert(out@ =~= seq![opcodes::LOAD_GREG, w, opcodes::STOR_GREG]);
    }
    Ok(out)
}

/// Encodes a `ctrl` directive.
pub fn encode_ctrl(instruction: &Vec<String>, code_line: usize) -> (r: Result<Vec<u16>, AsmError>)
    ensures
        ({
            let tv = views_of(instruction@);
            match r {
                Ok(v) => ctrl_words(tv) == Some(v@),
                Err(e) => ctrl_words(tv) is None && e.line == code_line && (tv.len() >= 3
                    && tv[1] == "gpu"@ && gpu_ctrl_word(tv[2]) is None ==> e.kind
                    == ErrorKind::Lookup) && (tv.len() >= 3 && tv[1] != "gpu"@ && tv[1] == "cpu"@
                    && cpu_ctrl_word(tv[2]) is None ==> e.kind == ErrorKind::Lookup),
            }
        }),
{
    let ghost tv = views_of(instruction@);
    if instruction.len() < 2 {
        return Err(AsmError::at(ErrorKind::Arity, instruction, code_line, 0));
    }
    proof {
        assert(tv[1] == instruction@[1]@);
    }
    if str_eq(instruction[1].as_str(), "gpu") {
        if instruction.len() < 3 {
            return Err(AsmError::at(ErrorKind::Arity, instruction, code_line, 1));
        }
        proof {
            assert(tv[2] == instruction@[2]@);
        }
        let k = instruction[2].as_str();
        let w: u16 = if str_eq(k, "clear") {
            opcodes::GPU_RES_F_BUF
        } else if str_eq(k, "reset") {
            opcodes::GPU_RESET_PTR
        } else if str_eq(k, "update") {
            opcodes::GPU_UPDATE
        } else {
            return Err(AsmError::at(ErrorKind::Lookup, instruction, code_line, 2));
        };
        let mut out: Vec<u16> = Vec::new();
        out.push(opcodes::LOAD_GREG);
        out.push(w);
        out.push(opcodes::STOR_GREG);
        proof {
            assert(out@ =~= seq![opcodes::LOAD_GREG, w, opcodes::STOR_GREG]);
        }
        Ok(out)
    } else if str_eq(instruction[1].as_str(), "cpu") {
        if instruction.len() < 3 {
            return Err(AsmError::at(ErrorKind::Arity, instruction, code_line, 1));
        }
        proof {
            assert(tv[2] == instruction@[2]@);
        }
        let k = instruction[2].as_str();
        let w: u16 = if str_eq(k, "reset") {
            opcodes::NO_OPERAT
        } else if str_eq(k, "halt") {
            opcodes::HALT_LOOP
        } else {
            return Err(AsmError::at(ErrorKind::Lookup, instruction, code_line, 2));
        };
        let mut out: Vec<u16> = Vec::new();
        out.push(w);
        proof {
            assert(out@ =~= seq![w]);
        }
        Ok(out)
    } else {
        Err(AsmError::at(ErrorKind::Lookup, instruction, code_line, 2))
    }
}

/// Encodes a register-immediate arithmetic directive (`radd`, `rsub`,
/// `rmul`, `rdiv`).  An immediate above 0xEFFF is a fatal domain fault;
/// 0xEFFF itself is accepted.
pub fn encode_arith(instruction: &Vec<String>, code_line: usize) -> (r: Result<Vec<u16>, AsmError>)
    requires
        instruction@.len() >= 1,
    ensures
        ({
            let tv = views_of(instruction@);
            match r {
                Ok(v) => arith_words(tv) == Some(v@),
                Err(e) => arith_words(tv) is None && e.line == code_line && (arith_op(
                    tv[0],
                ) is Some && tv.len() >= 2 && reg_code(tv[1]) is Some && hln_value(tv, 2, 0)
                    is Some ==> e.kind == ErrorKind::Domain),
            }
        }),
{
    let ghost tv = views_of(instruction@);
    proof {
        assert(tv[0] == instruction@[0]@);
    }
    let t0 = instruction[0].as_str();
    let op: u16 = if str_eq(t0, "radd") {
        opcodes::INC_REG_V
    } else if str_eq(t0, "rsub") {
        opcodes::DEC_REG_V
    } else if str_eq(t0, "rmul") {
        opcodes::MUL_REG_V
    } else if str_eq(t0, "rdiv") {
        opcodes::DIV_REG_V
    } else {
        return Err(AsmError::at(ErrorKind::Lookup, instruction, code_line, 0));
    };
    if instruction.len() < 2 {
        return Err(AsmError::at(ErrorKind::Arity, instruction, code_line, 0));
    }
    let reg = match parse_regs(instruction, code_line, 1) {
        Ok(v) => v,
        Err(e) => return Err(e),
    };
    let value = match parse_hex_lit_num(instruction, code_line, 2, 0) {
        Ok(v) => v,
        Err(e) => return Err(e),
    };
    if value > 61439 {
        return Err(AsmError::at(ErrorKind::Domain, instruction, code_line, 0));
    }
    let mut out: Vec<u16> = Vec::new();
    out.push(op);
    out.push(reg);
    out.push(value);
    proof {
        assert(out@ =~= seq![op, reg, value]);
    }
    Ok(out)
}

/// Encodes a control-transfer directive (`jusr`, `jump`, `juie`, `brie`,
/// `juin`, `brin`).
pub fn encode_jump(
    instruction: &Vec<String>,
    routines: &Vec<Routine>,
    code_line: usize,
) -> (r: Result<Vec<u16>, AsmError>)
    requires
        instruction@.len() >= 1,
    ensures
        ({
            let tv = views_of(instruction@);
            match r {
                Ok(v) => jump_words(tv, routines@) == Some(v@),
                Err(e) => jump_words(tv, routines@) is None && e.line == code_line && (
                jump_op(tv[0]) is None ==> e.kind == ErrorKind::Lookup) && (jump_op(tv[0]) is Some
                    && tv.len() < 2 ==> e.kind == ErrorKind::Arity),
            }
        }),
{
    let ghost tv = views_of(instruction@);
    proof {
        assert(tv[0] == instruction@[0]@);
    }
    let t0 = instruction[0].as_str();
    let op: u16 = if str_eq(t0, "jusr") {
        opcodes::JMP_TO_SR
    } else if str_eq(t0, "jump") {
        opcodes::JMP_TO_AD
    } else if str_eq(t0, "juie") {
        opcodes::JUMP_IFEQ
    } else if str_eq(t0, "brie") {
        opcodes::BRAN_IFEQ
    } else if str_eq(t0, "juin") {
        opcodes::JUMP_INEQ
    } else if str_eq(t0, "brin") {
        opcodes::BRAN_INEQ
    } else {
        return Err(AsmError::at(ErrorKind::Lookup, instruction, code_line, 0));
    };
    if instruction.len() < 2 {
        return Err(AsmError::at(ErrorKind::Arity, instruction, code_line, 0));
    }
    proof {
        assert(tv[1] == instruction@[1]@);
    }
    let addr = return_routine_address(instruction[1].as_str(), routines);
    let mut out: Vec<u16> = Vec::new();
    out.push(op);
    out.push(addr);
    proof {
        assert(out@ =~= seq![op, addr]);
    }
    Ok(out)
}

/// Encodes a `comp` comparison directive: each operand is a register
/// reference or an annotated immediate, and neither resolved value may
/// exceed 0xEFFF.
pub fn encode_comp(instruction: &Vec<String>, code_line: usize) -> (r: Result<Vec<u16>, AsmError>)
    ensures
        ({
            let tv = views_of(instruction@);
            match r {
                Ok(v) => comp_words(tv) == Some(v@),
                Err(e) => comp_words(tv) is None && e.line == code_line,
            }
        }),
        ({
            let tv = views_of(instruction@);
            match r {
                Err(e) => tv.len() >= 4 && tv[1] == "reg"@ && reg_code(tv[2]) is Some && tv[3]
                    != "reg"@ && hln_value(tv, 3, 0) is Some ==> e.kind == ErrorKind::Domain,
                _ => true,
            }
        }),
{
    let ghost tv = views_of(instruction@);
    if instruction.len() < 2 {
        return Err(AsmError::at(ErrorKind::Arity, instruction, code_line, 0));
    }
    proof {
        assert(tv[1] == instruction@[1]@);
    }
    let val_a = if str_eq(instruction[1].as_str(), "reg") {
        match parse_regs(instruction, code_line, 2) {
            Ok(v) => v,
            Err(e) => return Err(e),
        }
    } else {
        match parse_hex_lit_num(instruction, code_line, 2, 0) {
            Ok(v) => v,
            Err(e) => return Err(e),
        }
    };
    if instruction.len() < 4 {
        return Err(AsmError::at(ErrorKind::Arity, instruction, code_line, 1));
    }
    proof {
        assert(tv[3] == instruction@[3]@);
    }
    let val_b = if str_eq(instruction[3].as_str(), "reg") {
        match parse_regs(instruction, code_line, 4) {
            Ok(v) => v,
            Err(e) => return Err(e),
        }
    } else {
        match parse_hex_lit_num(instruction, code_line, 3, 0) {
            Ok(v) => v,
            Err(e) => return Err(e),
        }
    };
    if val_a > 61439 || val_b > 61439 {
        return Err(AsmError::at(ErrorKind::Domain, instruction, code_line, 0));
    }
    let mut out: Vec<u16> = Vec::new();
    out.push(opcodes::COMP_REGS);
    out.push(val_a);
    out.push(val_b);
    proof {
        assert(out@ =~= seq![opcodes::COMP_REGS, val_a, val_b]);
    }
    Ok(out)
}

/// Encodes one in-routine body directive, dispatched by its leading
/// keyword.  Succeeds exactly where [`body_words`] is defined; an unknown
/// keyword is a fatal context fault.
pub fn encode_body(
    instruction: &Vec<String>,
    variables: &Vec<Variable>,
    routines: &Vec<Routine>,
    code_line: usize,
) -> (r: Result<Vec<u16>, AsmError>)
    requires
        instruction@.len() >= 1,
    ensures
        ({
            let tv = views_of(instruction@);
            match r {
                Ok(v) => body_words(tv, variables@, routines@) == Some(v@),
                Err(e) => body_words(tv, variables@, routines@) is None && e.line == code_line,
            }
        }),
{
    let ghost tv = views_of(instruction@);
    proof {
        assert(tv[0] == instruction@[0]@);
    }
    let t0 = instruction[0].as_str();
    if str_eq(t0, "load") {
        encode_load(instruction, variables, code_line)
    } else if str_eq(t0, "stor") {
        encode_stor(instruction, code_line)
    } else if str_eq(t0, "draw") {
        encode_draw(instruction, variables, code_line)
    } else if str_eq(t0, "cmov") {
        encode_cmov(instruction, code_line)
    } else if str_eq(t0, "ctrl") {
        encode_ctrl(instruction, code_line)
    } else if str_eq(t0, "radd") || str_eq(t0, "rsub") || str_eq(t0, "rmul") || str_eq(
        t0,
        "rdiv",
    ) {
        encode_arith(instruction, code_line)
    } else if str_eq(t0, "jusr") || str_eq(t0, "jump") || str_eq(t0, "juie") || str_eq(t0, "brie")
        || str_eq(t0, "juin") || str_eq(t0, "brin") {
        encode_jump(instruction, routines, code_line)
    } else if str_eq(t0, "comp") {
        encode_comp(instruction, code_line)
    } else if str_eq(t0, "inpt") {
        let mut out: Vec<u16> = Vec::new();
        out.push(opcodes::AWAIT_INP);
        proof {
            assert(out@ =~= seq![opcodes::AWAIT_INP]);
        }
        Ok(out)
    } else if str_eq(t0, "rtor") {
        let mut out: Vec<u16> = Vec::new();
        out.push(opcodes::RET_TO_OR);
        proof {
            assert(out@ =~= seq![opcodes::RET_TO_OR]);
        }
        Ok(out)
    } else {
        Err(AsmError::at(ErrorKind::Context, instruction, code_line, 0))
    }
}

} // verus!
