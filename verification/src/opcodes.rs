//! The fixed instruction words the encoder emits.
//!
//! Each directive of the source language maps to a fixed template over these
//! words.  Display-controller words live in the `0xA000` range; `GPU_NO_OPERAT`
//! is the display idle word that pre-fills the display buffer and is ignored
//! by the usage accounting.

use vstd::prelude::*;

verus! {

/// CPU no-operation word (`ctrl cpu reset`).
pub const NO_OPERAT: u16 = 0x0001;
/// CPU halt word (`ctrl cpu halt`).
pub const HALT_LOOP: u16 = 0x004F;
/// Wait for input (`inpt`).
pub const AWAIT_INP: u16 = 0x0057;
/// Return from a call-style branch (`rtor`).
pub const RET_TO_OR: u16 = 0x003E;

/// Unconditional jump to an absolute address (`jump`).
pub const JMP_TO_AD: u16 = 0x0010;
/// Unconditional call-style branch to an absolute address (`jusr`).
pub const JMP_TO_SR: u16 = 0x0012;
/// Jump if equal (`juie`).
pub const JUMP_IFEQ: u16 = 0x0014;
/// Branch if equal (`brie`).
pub const BRAN_IFEQ: u16 = 0x0015;
/// Jump if not equal (`juin`).
pub const JUMP_INEQ: u16 = 0x0016;
/// Branch if not equal (`brin`).
pub const BRAN_INEQ: u16 = 0x0017;
/// Three-word comparison header (`comp`).
pub const COMP_REGS: u16 = 0x0018;

/// Register-immediate addition header (`radd`).
pub const INC_REG_V: u16 = 0x0020;
/// Register-immediate subtraction header (`rsub`).
pub const DEC_REG_V: u16 = 0x0021;
/// Register-immediate multiplication header (`rmul`).
pub const MUL_REG_V: u16 = 0x0022;
/// Register-immediate division header (`rdiv`).
pub const DIV_REG_V: u16 = 0x0023;

/// Load an immediate into general register A.
pub const LOAD_AREG: u16 = 0x0030;
/// Load an immediate into general register B.
pub const LOAD_BREG: u16 = 0x0031;
/// Load an immediate into general register C.
pub const LOAD_CREG: u16 = 0x0032;
/// Load an immediate into general register D.
pub const LOAD_DREG: u16 = 0x0033;
/// Load an immediate into the display-output register G.
pub const LOAD_GREG: u16 = 0x0034;

/// Store general register A to an address.
pub const STOR_AREG: u16 = 0x0038;
/// Store general register B to an address.
pub const STOR_BREG: u16 = 0x0039;
/// Store general register C to an address.
pub const STOR_CREG: u16 = 0x003A;
/// Store general register D to an address.
pub const STOR_DREG: u16 = 0x003B;
/// Store the display-output register G to the display port.
pub const STOR_GREG: u16 = 0x003C;

/// Display idle word; pre-fills the display buffer and counts as unused.
pub const GPU_NO_OPERAT: u16 = 0xA000;
/// Enter text-draw mode.
pub const GPU_DRAW_TEXT: u16 = 0xA001;
/// Move the display cursor up (`cmov up`).
pub const GPU_MV_C_UP: u16 = 0xA010;
/// Move the display cursor down (`cmov do`).
pub const GPU_MV_C_DOWN: u16 = 0xA011;
/// Move the display cursor left (`cmov le`).
pub const GPU_MV_C_LEFT: u16 = 0xA012;
/// Move the display cursor right (`cmov ri`).
pub const GPU_MV_C_RIGH: u16 = 0xA013;
/// Move the display cursor to a new line (`cmov nl`).
pub const GPU_NEW_LINE: u16 = 0xA014;
/// Clear the display frame buffer (`ctrl gpu clear`).
pub const GPU_RES_F_BUF: u16 = 0xA020;
/// Reset the display pointer (`ctrl gpu reset`).
pub const GPU_RESET_PTR: u16 = 0xA021;
/// Flush the frame buffer to the screen (`ctrl gpu update`).
pub const GPU_UPDATE: u16 = 0xA022;

/// Terminates a draw sequence when stored to the display port.
pub const DRAW_TERM: u16 = 0x0060;

} // verus!
