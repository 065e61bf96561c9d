//! Argument parsing: register letters and annotated immediate values.
//!
//! An immediate accepts three annotated forms: `hex <char>` takes a literal
//! character's ordinal value, `lit <hex-digit>` a single hexadecimal nibble
//! (an optional `0x` prefix is allowed, and the digit must not exceed `F`),
//! and `num <decimal>` a decimal literal that must fit in 16 bits.

use vstd::prelude::*;

use crate::err::{AsmError, ErrorKind};
use crate::text::{char_to_word, char_word, str_eq, views_of};

verus! {

/// The code a register letter stands for: the letter's ordinal, defined for
/// the four general registers `A` to `D` only.
pub open spec fn reg_code(tok: Seq<char>) -> Option<u16> {
    if tok == "A"@ {
        Some(0x41u16)
    } else if tok == "B"@ {
        Some(0x42u16)
    } else if tok == "C"@ {
        Some(0x43u16)
    } else if tok == "D"@ {
        Some(0x44u16)
    } else {
        None
    }
}

/// Reads the register argument at `arg_pos`: one of the letters `A` to `D`,
/// returned as its ordinal value.  Anything else is a fatal lookup fault.
pub fn parse_regs(instruction: &Vec<String>, code_line: usize, arg_pos: usize) -> (r: Result<
    u16,
    AsmError,
>)
    ensures
        ({
            let tv = views_of(instruction@);
            match r {
                Ok(v) => arg_pos < tv.len() && reg_code(tv[arg_pos as int]) == Some(v),
                Err(e) => (arg_pos >= tv.len() || reg_code(tv[arg_pos as int]) is None)
                    && e.line == code_line && e.kind == (if arg_pos >= tv.len() {
                    ErrorKind::Arity
                } else {
                    ErrorKind::Lookup
                }),
            }
        }),
{
    if arg_pos >= instruction.len() {
        return Err(AsmError::at(ErrorKind::Arity, instruction, code_line, arg_pos));
    }
    let tok = instruction[arg_pos].as_str();
    if str_eq(tok, "A") {
        Ok(0x41)
    } else if str_eq(tok, "B") {
        Ok(0x42)
    } else if str_eq(tok, "C") {
        Ok(0x43)
    } else if str_eq(tok, "D") {
        Ok(0x44)
    } else {
        Err(AsmError::at(ErrorKind::Lookup, instruction, code_line, arg_pos))
    }
}

/// Whether `c` is a decimal digit.
pub open spec fn is_digit(c: char) -> bool {
    0x30 <= c as u32 && c as u32 <= 0x39
}

/// Whether every character of `s` is a decimal digit.
pub open spec fn all_digits(s: Seq<char>) -> bool {
    forall|i: int| 0 <= i < s.len() ==> is_digit(#[trigger] s[i])
}

/// The numeric value of a decimal digit string.
pub open spec fn dec_val(s: Seq<char>) -> int
    decreases s.len(),
{
    if s.len() == 0 {
        0
    } else {
        dec_val(s.drop_last()) * 10 + (s.last() as u32 - 0x30)
    }
}

/// The value of a single hexadecimal digit: `0` to `9` and the upper-case
/// letters `A` to `F`.
pub open spec fn hex_digit_val(c: char) -> Option<u16> {
    if 0x30 <= c as u32 && c as u32 <= 0x39 {
        Some((c as u32 - 0x30) as u16)
    } else if 0x41 <= c as u32 && c as u32 <= 0x46 {
        Some((c as u32 - 0x37) as u16)
    } else {
        None
    }
}

/// `s` with a leading `0x` removed, where one stands.
pub open spec fn strip_hex_prefix(s: Seq<char>) -> Seq<char> {
    if s.len() >= 2 && s[0] == '0' && s[1] == 'x' {
        s.skip(2)
    } else {
        s
    }
}

/// The value of a `lit` operand: after an optional `0x` prefix, exactly one
/// hexadecimal digit not exceeding `F`.
pub open spec fn lit_val(s: Seq<char>) -> Option<u16> {
    let t = strip_hex_prefix(s);
    if t.len() == 1 {
        hex_digit_val(t[0])
    } else {
        None
    }
}

/// The value of the annotated immediate whose type tag stands at
/// `arg_pos - arg_mod`: `None` where the annotation is missing or unknown,
/// the operand is missing or malformed, or the value is out of range.
pub open spec fn hln_value(toks: Seq<Seq<char>>, arg_pos: int, arg_mod: int) -> Option<u16> {
    let tag_idx = arg_pos - arg_mod;
    if !(0 <= tag_idx < toks.len()) {
        None
    } else if toks[tag_idx] == "hex"@ {
        if tag_idx + 1 < toks.len() && toks[tag_idx + 1].len() > 0 {
            Some(char_word(toks[tag_idx + 1][0]))
        } else {
            None
        }
    } else if toks[tag_idx] == "lit"@ {
        if tag_idx + 1 < toks.len() {
            lit_val(toks[tag_idx + 1])
        } else {
            None
        }
    } else if toks[tag_idx] == "num"@ {
        let vi = arg_pos + arg_mod + 1;
        if vi < toks.len() && toks[vi].len() > 0 && all_digits(toks[vi]) && dec_val(toks[vi])
            <= 65535 {
            Some(dec_val(toks[vi]) as u16)
        } else {
            None
        }
    } else {
        None
    }
}

/// The fault class of a malformed annotated immediate: a missing or
/// unknown annotation is a type fault, a missing operand an arity fault,
/// an out-of-range `lit` or `num` operand a domain fault, and a
/// non-numeric `num` operand a type fault.
pub open spec fn hln_err_kind(toks: Seq<Seq<char>>, arg_pos: int, arg_mod: int) -> ErrorKind {
    let tag_idx = arg_pos - arg_mod;
    if !(0 <= tag_idx < toks.len()) {
        ErrorKind::Type
    } else if toks[tag_idx] == "hex"@ {
        ErrorKind::Arity
    } else if toks[tag_idx] == "lit"@ {
        if tag_idx + 1 >= toks.len() {
            ErrorKind::Arity
        } else {
            ErrorKind::Domain
        }
    } else if toks[tag_idx] == "num"@ {
        let vi = arg_pos + arg_mod + 1;
        if vi >= toks.len() {
            ErrorKind::Arity
        } else if toks[vi].len() > 0 && all_digits(toks[vi]) {
            ErrorKind::Domain
        } else {
            ErrorKind::Type
        }
    } else {
        ErrorKind::Type
    }
}

/// Reads the annotated immediate whose type tag stands at
/// `arg_pos - arg_mod`.  Succeeds exactly where [`hln_value`] is defined;
/// everything else is fatal: a missing or unknown annotation is a type
/// fault, a missing operand an arity fault, and an out-of-range `lit` or
/// `num` operand a domain fault.
#[verifier::loop_isolation(false)]
pub fn parse_hex_lit_num(
    instruction: &Vec<String>,
    code_line: usize,
    arg_pos: usize,
    arg_mod: usize,
) -> (r: Result<u16, AsmError>)
    ensures
        ({
            let tv = views_of(instruction@);
            match r {
                Ok(v) => hln_value(tv, arg_pos as int, arg_mod as int) == Some(v),
                Err(e) => hln_value(tv, arg_pos as int, arg_mod as int) is None && e.line
                    == code_line && e.kind == hln_err_kind(tv, arg_pos as int, arg_mod as int),
            }
        }),
{
    let ghost tv = views_of(instruction@);
    if arg_mod > arg_pos || arg_pos - arg_mod >= instruction.len() {
        return Err(AsmError::at(ErrorKind::Type, instruction, code_line, 0));
    }
    let tag_idx = arg_pos - arg_mod;
    let tag = instruction[tag_idx].as_str();
    proof {
        assert(tv[tag_idx as int] == instruction@[tag_idx as int]@);
    }
    if str_eq(tag, "hex") {
        if tag_idx + 1 >= instruction.len() {
            return Err(AsmError::at(ErrorKind::Arity, instruction, code_line, tag_idx));
        }
        let v = instruction[tag_idx + 1].as_str();
        if v.unicode_len() == 0 {
            return Err(AsmError::at(ErrorKind::Arity, instruction, code_line, tag_idx + 1));
        }
        Ok(char_to_word(v.get_char(0)))
    } else if str_eq(tag, "lit") {
        if tag_idx + 1 >= instruction.len() {
            return Err(AsmError::at(ErrorKind::Arity, instruction, code_line, tag_idx));
        }
        let v = instruction[tag_idx + 1].as_str();
        let vl = v.unicode_len();
        let off: usize = if vl >= 2 && v.get_char(0) == '0' && v.get_char(1) == 'x' {
            2
        } else {
            0
        };
        proof {
            assert(strip_hex_prefix(tv[tag_idx as int + 1]).len() == vl - off);
        }
        if vl - off != 1 {
            return Err(AsmError::at(ErrorKind::Domain, instruction, code_line, tag_idx + 1));
        }
        let c = v.get_char(off);
        proof {
            assert(strip_hex_prefix(tv[tag_idx as int + 1])[0] == v@[off as int]);
        }
        let cv: u32 = c as u32;
        if 0x30 <= cv && cv <= 0x39 {
            Ok((cv - 0x30) as u16)
        } else if 0x41 <= cv && cv <= 0x46 {
            Ok((cv - 0x37) as u16)
        } else {
            Err(AsmError::at(ErrorKind::Domain, instruction, code_line, tag_idx + 1))
        }
    } else if str_eq(tag, "num") {
        if arg_pos >= usize::MAX - arg_mod || arg_pos + arg_mod + 1 >= instruction.len() {
            return Err(AsmError::at(ErrorKind::Arity, instruction, code_line, tag_idx));
        }
        let vi = arg_pos + arg_mod + 1;
        let v = instruction[vi].as_str();
        proof {
            assert(tv[vi as int] == instruction@[vi as int]@);
        }
        let n = v.unicode_len();
        if n == 0 {
            return Err(AsmError::at(ErrorKind::Type, instruction, code_line, vi));
        }
        let mut acc: u32 = 0;
        let mut too_big: bool = false;
        let mut i: usize = 0;
        while i < n
            invariant
                n == v@.len(),
                0 <= i <= n,
                vi < instruction@.len(),
                tv == views_of(instruction@),
                tv[vi as int] == v@,
                all_digits(v@.take(i as int)),
                !too_big ==> acc == dec_val(v@.take(i as int)) && acc <= 65535,
                too_big ==> dec_val(v@.take(i as int)) > 65535,
            decreases n - i,
        {
            let c = v.get_char(i);
            let cv: u32 = c as u32;
            if cv < 0x30 || cv > 0x39 {
                proof {
                    assert(!is_digit(v@[i as int]));
                    assert(!all_digits(tv[vi as int]));
                }
                return Err(AsmError::at(ErrorKind::Type, instruction, code_line, vi));
            }
            proof {
                assert(v@.take(i + 1).drop_last() =~= v@.take(i as int));
                assert(v@.take(i + 1).last() == v@[i as int]);
                assert(all_digits(v@.take(i + 1)));
            }
            if !too_big {
                let acc2: u32 = acc * 10 + (cv - 0x30);
                if acc2 > 65535 {
                    too_big = true;
                } else {
                    acc = acc2;
                }
            } else {
                proof {
                    assert(dec_val(v@.take(i + 1)) == dec_val(v@.take(i as int)) * 10 + (
                    v@[i as int] as u32 - 0x30));
                }
            }
            i = i + 1;
        }
        proof {
            assert(v@.take(n as int) =~= v@);
        }
        if too_big {
            return Err(AsmError::at(ErrorKind::Domain, instruction, code_line, vi));
        }
        Ok(acc as u16)
    } else {
        Err(AsmError::at(ErrorKind::Type, instruction, code_line, tag_idx))
    }
}

} // verus!
