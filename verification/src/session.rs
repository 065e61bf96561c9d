//! The assembly session: mode state machine, address allocator, and the
//! two-pass driver around the instruction encoder and the linker.
//!
//! Pass one iterates source lines, tokenizes each, and dispatches on the
//! current mode, opening and closing blocks and filling their instruction
//! buffers.  Pass two lays every defined block out in the memory image and
//! leaves it ready for serialization.

use vstd::prelude::*;

use crate::encode::{body_words, encode_body};
use crate::err::{AsmError, ErrorKind};
use crate::image::{bootstrap_word, Image, IMAGE_WORDS};
use crate::parse::{hln_value, parse_hex_lit_num};
use crate::symbols::{FileSystem, Routine, Variable};
use crate::text::{split_spaces, str_eq, tokenize, views_of};

verus! {

/// The grammar that applies to the current line.
#[derive(Clone, Copy, PartialEq, Eq, Structural, Debug)]
pub enum Mode {
    /// Top-level declarations.
    Normal,
    /// Inside a callable block's body.
    DefineRoutine,
    /// Inside a resource block's body.
    DefineFileSystem,
}

/// One assembly session: the memory image, the allocator cursor, the mode,
/// and the symbol tables, exclusively owned for the session's lifetime.
pub struct Assembler {
    /// The memory image, holding the bootstrap layout and, later, the
    /// linked program.
    pub image: Image,
    /// The allocator cursor: the next free address, advanced only when a
    /// block closes.
    pub instr_ptr: usize,
    /// Which grammar applies to the current line.
    pub mode: Mode,
    /// Index of the resource block currently being filled.
    pub fs_ptr: usize,
    /// Index of the routine currently being filled.
    pub routine_ptr: usize,
    /// The next constant's address: the count of constants declared.
    pub var_ptr: usize,
    /// The resource blocks, in declaration order.
    pub file_systems: Vec<FileSystem>,
    /// The callable blocks, in declaration order; resource blocks register
    /// a same-ordered placeholder entry here.
    pub routines: Vec<Routine>,
    /// The start address of every closed block, in close order.
    pub routine_addresses: Vec<u16>,
    /// The declared constants, in declaration order.
    pub variables: Vec<Variable>,
}

impl Assembler {
    /// The session invariant: tables and cursor are consistent, constants
    /// sit at their declaration index with their value in the image, and
    /// everything above the constant region still holds its bootstrap
    /// word during parsing.
    pub open spec fn wf(self) -> bool {
        &&& self.image.wf()
        &&& self.var_ptr == self.variables@.len()
        &&& self.variables@.len() <= IMAGE_WORDS
        &&& forall|i: int|
            0 <= i < self.variables@.len() ==> (#[trigger] self.variables@[i]).address == i
        &&& forall|i: int|
            0 <= i < self.variables@.len() ==> self.image.words@[i] == (
            #[trigger] self.variables@[i]).value
        &&& forall|a: int|
            self.variables@.len() <= a < IMAGE_WORDS ==> self.image.words@[a] == bootstrap_word(a)
        &&& self.routine_ptr <= self.routines@.len()
        &&& self.fs_ptr <= self.file_systems@.len()
        &&& (self.mode != Mode::Normal ==> self.routine_ptr < self.routines@.len())
        &&& (self.mode == Mode::DefineFileSystem ==> self.fs_ptr < self.file_systems@.len())
        &&& self.instr_ptr <= 0x10000
        &&& (self.mode != Mode::Normal ==> self.instr_ptr < 0x10000)
        &&& forall|i: int|
            0 <= i < self.file_systems@.len() ==> (#[trigger] self.file_systems@[i]).size <= 32767
        &&& forall|i: int|
            0 <= i < self.routines@.len() && (self.mode == Mode::Normal || i != self.routine_ptr)
                ==> (#[trigger] self.routines@[i]).instructions@.len()
                == self.routines@[i].length as int
    }

    /// A fresh session: bootstrap image, cursor at the first address after
    /// the entry stub, top-level mode, empty tables.
    pub fn new() -> (st: Assembler)
        ensures
            st.wf(),
            st.mode == Mode::Normal,
            st.instr_ptr == 0x1002,
            st.fs_ptr == 0 && st.routine_ptr == 0 && st.var_ptr == 0,
            st.file_systems@ == Seq::<FileSystem>::empty(),
            st.routines@ == Seq::<Routine>::empty(),
            st.routine_addresses@ == Seq::<u16>::empty(),
            st.variables@ == Seq::<Variable>::empty(),
            forall|a: int| 0 <= a < IMAGE_WORDS ==> st.image.words@[a] == bootstrap_word(a),
    {
        Assembler {
            image: Image::new_boot(),
            instr_ptr: 0x1002,
            mode: Mode::Normal,
            fs_ptr: 0,
            routine_ptr: 0,
            var_ptr: 0,
            file_systems: Vec::new(),
            routines: Vec::new(),
            routine_addresses: Vec::new(),
            variables: Vec::new(),
        }
    }
}

/// Whether a token opens nothing: a blank or comment marker inside a
/// block body.
pub open spec fn is_body_blank(t: Seq<char>) -> bool {
    t == "   "@ || t == ""@ || t == "//"@
}

/// Whether a token opens nothing at top level.
pub open spec fn is_top_blank(t: Seq<char>) -> bool {
    t == "#"@ || t == ""@ || t == "   "@
}

/// The routine list with the entry at `rp` re-addressed: every line of a
/// routine body re-records the block's address from the current cursor.
pub open spec fn readdr(rs: Seq<Routine>, rp: int, addr: u16) -> Seq<Routine> {
    rs.update(
        rp,
        Routine {
            name: rs[rp].name,
            address: addr,
            offset_ptr: rs[rp].offset_ptr,
            instructions: rs[rp].instructions,
            length: rs[rp].length,
        },
    )
}

/// Whether a tokenized line is acceptable in the given session state:
/// exactly the lines on which processing succeeds.
pub open spec fn line_ok(pre: Assembler, toks: Seq<Seq<char>>) -> bool {
    if toks.len() == 0 {
        false
    } else {
        match pre.mode {
            Mode::Normal => {
                if toks[0] == "routine:"@ {
                    toks.len() >= 2 && pre.instr_ptr < 0x10000
                } else if toks[0] == "filesys:"@ {
                    pre.instr_ptr < 0x10000
                } else {
                    is_top_blank(toks[0])
                }
            },
            Mode::DefineRoutine => {
                let rp = pre.routine_ptr as int;
                if is_body_blank(toks[0]) {
                    true
                } else if toks[0] == "end"@ {
                    pre.instr_ptr + pre.routines@[rp].instructions@.len() + 1 <= 0x10000
                } else if toks[0] == "var"@ {
                    toks.len() >= 4 && toks[2] == "="@ && match hln_value(toks, 3, 0) {
                        Some(v) => v <= 61439 && pre.variables@.len() < IMAGE_WORDS,
                        None => false,
                    }
                } else {
                    body_words(
                        toks,
                        pre.variables@,
                        readdr(pre.routines@, rp, pre.instr_ptr as u16),
                    ) is Some
                }
            },
            Mode::DefineFileSystem => {
                if is_body_blank(toks[0]) {
                    true
                } else if toks[0] == "size"@ {
                    toks.len() >= 4 && toks[1] == "="@ && match hln_value(toks, 2, 0) {
                        Some(v) => 2 * v <= 65535,
                        None => false,
                    }
                } else if toks[0] == "end"@ {
                    pre.instr_ptr + pre.file_systems@[pre.fs_ptr as int].size + 1 <= 0x10000
                        && pre.routines@[pre.routine_ptr as int].instructions@.len() <= 65535
                } else {
                    false
                }
            },
        }
    }
}

/// How a successfully processed line changes the session state.
pub open spec fn step_ok(pre: Assembler, toks: Seq<Seq<char>>, post: Assembler) -> bool {
    match pre.mode {
        Mode::Normal => {
            if toks[0] == "routine:"@ {
                &&& post.mode == Mode::DefineRoutine
                &&& post.routines@.len() == pre.routines@.len() + 1
                &&& post.routines@.drop_last() == pre.routines@
                &&& post.routines@.last().name@ == toks[1]
                &&& post.routines@.last().address == pre.instr_ptr as u16
                &&& post.routines@.last().instructions@ == Seq::<u16>::empty()
                &&& post.routines@.last().length == 0
                &&& post.routines@.last().offset_ptr == 0
                &&& post.image == pre.image
                &&& post.instr_ptr == pre.instr_ptr
                &&& post.fs_ptr == pre.fs_ptr
                &&& post.routine_ptr == pre.routine_ptr
                &&& post.var_ptr == pre.var_ptr
                &&& post.file_systems@ == pre.file_systems@
                &&& post.routine_addresses@ == pre.routine_addresses@
                &&& post.variables@ == pre.variables@
            } else if toks[0] == "filesys:"@ {
                &&& post.mode == Mode::DefineFileSystem
                &&& post.routines@.len() == pre.routines@.len() + 1
                &&& post.routines@.drop_last() == pre.routines@
                &&& post.routines@.last().name@ == "Filesystem"@
                &&& post.routines@.last().address == pre.instr_ptr as u16
                &&& post.routines@.last().instructions@ == Seq::<u16>::empty()
                &&& post.routines@.last().length == 0
                &&& post.routines@.last().offset_ptr == 0
                &&& post.file_systems@.len() == pre.file_systems@.len() + 1
                &&& post.file_systems@.drop_last() == pre.file_systems@
                &&& post.file_systems@.last().startpoint == pre.instr_ptr as u16
                &&& post.file_systems@.last().content@ == Seq::<crate::symbols::File>::empty()
                &&& post.file_systems@.last().size == 0
                &&& !post.file_systems@.last().size_initialized
                &&& post.file_systems@.last().offset_ptr == 0
                &&& post.image == pre.image
                &&& post.instr_ptr == pre.instr_ptr
                &&& post.fs_ptr == pre.fs_ptr
                &&& post.routine_ptr == pre.routine_ptr
                &&& post.var_ptr == pre.var_ptr
                &&& post.routine_addresses@ == pre.routine_addresses@
                &&& post.variables@ == pre.variables@
            } else {
                post == pre
            }
        },
        Mode::DefineRoutine => {
            let rp = pre.routine_ptr as int;
            let cursor = pre.instr_ptr as u16;
            let rs1 = readdr(pre.routines@, rp, cursor);
            if is_body_blank(toks[0]) {
                &&& post == Assembler { routines: post.routines, ..pre }
                &&& post.routines@ == rs1
            } else if toks[0] == "end"@ {
                let len = pre.routines@[rp].instructions@.len();
                &&& post.mode == Mode::Normal
                &&& post.routines@.len() == pre.routines@.len()
                &&& (forall|i: int|
                    0 <= i < pre.routines@.len() && i != rp ==> post.routines@[i]
                        == pre.routines@[i])
                &&& post.routines@[rp].name == pre.routines@[rp].name
                &&& post.routines@[rp].instructions == pre.routines@[rp].instructions
                &&& post.routines@[rp].offset_ptr == pre.routines@[rp].offset_ptr
                &&& post.routines@[rp].address == cursor
                &&& post.routines@[rp].length == len as u16
                &&& post.routine_addresses@ == pre.routine_addresses@.push(cursor)
                &&& post.instr_ptr == pre.instr_ptr + len + 1
                &&& post.routine_ptr == (if pre.routines@[rp].name@ == "entry"@ {
                    rp
                } else {
                    rp + 1
                })
                &&& post.image == pre.image
                &&& post.fs_ptr == pre.fs_ptr
                &&& post.var_ptr == pre.var_ptr
                &&& post.file_systems@ == pre.file_systems@
                &&& post.variables@ == pre.variables@
            } else if toks[0] == "var"@ {
                let v = hln_value(toks, 3, 0)->Some_0;
                &&& post.mode == pre.mode
                &&& post.routines@ == rs1
                &&& post.variables@.len() == pre.variables@.len() + 1
                &&& post.variables@.drop_last() == pre.variables@
                &&& post.variables@.last().name@ == toks[1]
                &&& post.variables@.last().value == v
                &&& post.variables@.last().address == pre.var_ptr as u16
                &&& post.var_ptr == pre.var_ptr + 1
                &&& post.image.words@ == pre.image.words@.update(pre.var_ptr as int, v)
                &&& post.instr_ptr == pre.instr_ptr
                &&& post.fs_ptr == pre.fs_ptr
                &&& post.routine_ptr == pre.routine_ptr
                &&& post.file_systems@ == pre.file_systems@
                &&& post.routine_addresses@ == pre.routine_addresses@
            } else {
                let w = body_words(toks, pre.variables@, rs1)->Some_0;
                &&& post.mode == pre.mode
                &&& post.routines@.len() == pre.routines@.len()
                &&& (forall|i: int|
                    0 <= i < pre.routines@.len() && i != rp ==> post.routines@[i]
                        == pre.routines@[i])
                &&& post.routines@[rp].name == pre.routines@[rp].name
                &&& post.routines@[rp].length == pre.routines@[rp].length
                &&& post.routines@[rp].offset_ptr == pre.routines@[rp].offset_ptr
                &&& post.routines@[rp].address == cursor
                &&& post.routines@[rp].instructions@ == pre.routines@[rp].instructions@ + w
                &&& post.image == pre.image
                &&& post.instr_ptr == pre.instr_ptr
                &&& post.fs_ptr == pre.fs_ptr
                &&& post.routine_ptr == pre.routine_ptr
                &&& post.var_ptr == pre.var_ptr
                &&& post.file_systems@ == pre.file_systems@
                &&& post.routine_addresses@ == pre.routine_addresses@
                &&& post.variables@ == pre.variables@
            }
        },
        Mode::DefineFileSystem => {
            let rp = pre.routine_ptr as int;
            let fsp = pre.fs_ptr as int;
            if is_body_blank(toks[0]) {
                post == pre
            } else if toks[0] == "size"@ {
                let v = hln_value(toks, 2, 0)->Some_0;
                &&& post.mode == pre.mode
                &&& post.routines@.len() == pre.routines@.len()
                &&& (forall|i: int|
                    0 <= i < pre.routines@.len() && i != rp ==> post.routines@[i]
                        == pre.routines@[i])
                &&& post.routines@[rp].name == pre.routines@[rp].name
                &&& post.routines@[rp].instructions == pre.routines@[rp].instructions
                &&& post.routines@[rp].offset_ptr == pre.routines@[rp].offset_ptr
                &&& post.routines@[rp].address == pre.routines@[rp].address
                &&& post.routines@[rp].length == (2 * v) as u16
                &&& post.file_systems@.len() == pre.file_systems@.len()
                &&& (forall|i: int|
                    0 <= i < pre.file_systems@.len() && i != fsp ==> post.file_systems@[i]
                        == pre.file_systems@[i])
                &&& post.file_systems@[fsp].startpoint == pre.file_systems@[fsp].startpoint
                &&& post.file_systems@[fsp].content == pre.file_systems@[fsp].content
                &&& post.file_systems@[fsp].size_initialized == pre.file_systems@[fsp].size_initialized
                &&& post.file_systems@[fsp].offset_ptr == pre.file_systems@[fsp].offset_ptr
                &&& post.file_systems@[fsp].size == v as int
                &&& post.image == pre.image
                &&& post.instr_ptr == pre.instr_ptr
                &&& post.fs_ptr == pre.fs_ptr
                &&& post.routine_ptr == pre.routine_ptr
                &&& post.var_ptr == pre.var_ptr
                &&& post.routine_addresses@ == pre.routine_addresses@
                &&& post.variables@ == pre.variables@
            } else {
                // the close marker
                let len = pre.routines@[rp].instructions@.len();
                &&& post.mode == Mode::Normal
                &&& post.routines@.len() == pre.routines@.len()
                &&& (forall|i: int|
                    0 <= i < pre.routines@.len() && i != rp ==> post.routines@[i]
                        == pre.routines@[i])
                &&& post.routines@[rp].name == pre.routines@[rp].name
                &&& post.routines@[rp].instructions == pre.routines@[rp].instructions
                &&& post.routines@[rp].offset_ptr == pre.routines@[rp].offset_ptr
                &&& post.routines@[rp].address == pre.routines@[rp].address
                &&& post.routines@[rp].length == len as u16
                &&& post.routine_addresses@ == pre.routine_addresses@.push(
                    pre.routines@[rp].address,
                )
                &&& post.instr_ptr == pre.instr_ptr + pre.file_systems@[fsp].size + 1
                &&& post.routine_ptr == rp + 1
                &&& post.fs_ptr == fsp + 1
                &&& post.image == pre.image
                &&& post.var_ptr == pre.var_ptr
                &&& post.file_systems@ == pre.file_systems@
                &&& post.variables@ == pre.variables@
            }
        },
    }
}

impl Assembler {
    /// Processes one source line under the current mode's grammar.
    /// Succeeds exactly on the lines [`line_ok`] accepts, transforming the
    /// state as [`step_ok`] describes; any other line is a fatal fault
    /// located at `code_line`.
    #[verifier::rlimit(60)]
    pub fn process_line(&mut self, line: &str, code_line: usize) -> (r: Result<(), AsmError>)
        requires
            old(self).wf(),
        ensures
            final(self).wf(),
            r is Ok <==> line_ok(*old(self), split_spaces(line@)),
            r is Ok ==> step_ok(*old(self), split_spaces(line@), *final(self)),
            r matches Err(e) ==> e.line == code_line,
    {
        let toks = tokenize(line);
        let ghost tv = views_of(toks@);
        proof {
            assert(tv[0] == toks@[0]@);
        }
        let mode = self.mode;
        match mode {
            Mode::Normal => {
                let t0 = toks[0].as_str();
                if str_eq(t0, "routine:") {
                    if toks.len() < 2 {
                        return Err(AsmError::at(ErrorKind::Arity, &toks, code_line, 0));
                    }
                    if self.instr_ptr >= 0x10000 {
                        return Err(AsmError::at(ErrorKind::Domain, &toks, code_line, 0));
                    }
                    proof {
                        assert(tv[1] == toks@[1]@);
                    }
                    let name = toks[1].clone();
                    self.routines.push(Routine::new(name, self.instr_ptr as u16));
                    self.mode = Mode::DefineRoutine;
                    proof {
                        assert(self.routines@.drop_last() =~= old(self).routines@);
                    }
                    Ok(())
                } else if str_eq(t0, "filesys:") {
                    if self.instr_ptr >= 0x10000 {
                        return Err(AsmError::at(ErrorKind::Domain, &toks, code_line, 0));
                    }
                    let name = String::from_str("Filesystem");
                    self.routines.push(Routine::new(name, self.instr_ptr as u16));
                    self.file_systems.push(FileSystem::new(self.instr_ptr));
                    self.mode = Mode::DefineFileSystem;
                    proof {
                        assert(self.routines@.drop_last() =~= old(self).routines@);
                        assert(self.file_systems@.drop_last() =~= old(self).file_systems@);
                    }
                    Ok(())
                } else if str_eq(t0, "#") || str_eq(t0, "") || str_eq(t0, "   ") {
                    Ok(())
                } else {
                    Err(AsmError::at(ErrorKind::Context, &toks, code_line, 0))
                }
            },
            Mode::DefineRoutine => {
                let rp = self.routine_ptr;
                let cursor = self.instr_ptr;
                let ghost rs1 = readdr(old(self).routines@, rp as int, cursor as u16);
                let mut r = Routine::new(String::new(), 0);
                self.routines.set_and_swap(rp, &mut r);
                r.address = cursor as u16;
                self.routines.set_and_swap(rp, &mut r);
                proof {
                    assert(self.routines@ =~= rs1);
                }
                let t0 = toks[0].as_str();
                if str_eq(t0, "   ") || str_eq(t0, "") || str_eq(t0, "//") {
                    Ok(())
                } else if str_eq(t0, "end") {
                    let mut r = Routine::new(String::new(), 0);
                    self.routines.set_and_swap(rp, &mut r);
                    let len = r.instructions.len();
                    if len > 0xFFFF - cursor {
                        self.routines.set_and_swap(rp, &mut r);
                        return Err(AsmError::at(ErrorKind::Domain, &toks, code_line, 0));
                    }
                    r.length = len as u16;
                    let addr = r.address;
                    let is_entry = str_eq(r.name.as_str(), "entry");
                    self.routines.set_and_swap(rp, &mut r);
                    proof {
                        assert(self.routines@[rp as int].instructions
                            == old(self).routines@[rp as int].instructions);
                    }
                    self.routine_addresses.push(addr);
                    self.instr_ptr = cursor + len + 1;
                    self.mode = Mode::Normal;
                    if !is_entry {
                        let _nlen = self.routines.len();
                        self.routine_ptr = rp + 1;
                    }
                    Ok(())
                } else if str_eq(t0, "var") {
                    if toks.len() == 1 {
                        return Err(AsmError::at(ErrorKind::Arity, &toks, code_line, 0));
                    }
                    if toks.len() == 2 {
                        return Err(AsmError::at(ErrorKind::Arity, &toks, code_line, 1));
                    }
                    if toks.len() == 3 {
                        return Err(AsmError::at(ErrorKind::Arity, &toks, code_line, 2));
                    }
                    proof {
                        assert(tv[1] == toks@[1]@);
                        assert(tv[2] == toks@[2]@);
                    }
                    if !str_eq(toks[2].as_str(), "=") {
                        return Err(AsmError::at(ErrorKind::Type, &toks, code_line, 2));
                    }
                    let value = match parse_hex_lit_num(&toks, code_line, 3, 0) {
                        Ok(v) => v,
                        Err(e) => return Err(e),
                    };
                    if value > 61439 {
                        return Err(AsmError::at(ErrorKind::Domain, &toks, code_line, 0));
                    }
                    if self.var_ptr >= IMAGE_WORDS {
                        return Err(AsmError::at(ErrorKind::Domain, &toks, code_line, 0));
                    }
                    let mut variable = Variable::new(toks[1].clone(), self.var_ptr as u16);
                    variable.value = value;
                    self.image.set_word(self.var_ptr, value);
                    self.variables.push(variable);
                    self.var_ptr = self.var_ptr + 1;
                    proof {
                        assert(self.variables@.drop_last() =~= old(self).variables@);
                        assert forall|i: int| 0 <= i < self.variables@.len() implies
                            self.image.words@[i] == (#[trigger] self.variables@[i]).value by {
                            if i < old(self).variables@.len() {
                                assert(self.variables@[i] == old(self).variables@[i]);
                            }
                        }
                    }
                    Ok(())
                } else {
                    let words = match encode_body(&toks, &self.variables, &self.routines, code_line)
                        {
                        Ok(w) => w,
                        Err(e) => return Err(e),
                    };
                    let ghost wv = words@;
                    let mut r = Routine::new(String::new(), 0);
                    self.routines.set_and_swap(rp, &mut r);
                    let mut words = words;
                    r.instructions.append(&mut words);
                    self.routines.set_and_swap(rp, &mut r);
                    proof {
                        assert(self.routines@[rp as int].instructions@ =~= rs1[rp as int].instructions@
                            + wv);
                        assert(rs1[rp as int].instructions@
                            == old(self).routines@[rp as int].instructions@);
                    }
                    Ok(())
                }
            },
            Mode::DefineFileSystem => {
                let rp = self.routine_ptr;
                let fsp = self.fs_ptr;
                let t0 = toks[0].as_str();
                if str_eq(t0, "   ") || str_eq(t0, "") || str_eq(t0, "//") {
                    Ok(())
                } else if str_eq(t0, "size") {
                    if toks.len() == 1 {
                        return Err(AsmError::at(ErrorKind::Arity, &toks, code_line, 0));
                    }
                    if toks.len() == 2 {
                        return Err(AsmError::at(ErrorKind::Arity, &toks, code_line, 1));
                    }
                    if toks.len() == 3 {
                        return Err(AsmError::at(ErrorKind::Arity, &toks, code_line, 2));
                    }
                    proof {
                        assert(tv[1] == toks@[1]@);
                    }
                    if !str_eq(toks[1].as_str(), "=") {
                        return Err(AsmError::at(ErrorKind::Type, &toks, code_line, 1));
                    }
                    let v = match parse_hex_lit_num(&toks, code_line, 2, 0) {
                        Ok(v) => v,
                        Err(e) => return Err(e),
                    };
                    if v > 32767 {
                        return Err(AsmError::at(ErrorKind::Domain, &toks, code_line, 0));
                    }
                    let mut r = Routine::new(String::new(), 0);
                    self.routines.set_and_swap(rp, &mut r);
                    r.length = v * 2;
                    self.routines.set_and_swap(rp, &mut r);
                    let mut f = FileSystem::new(0);
                    self.file_systems.set_and_swap(fsp, &mut f);
                    f.size = v as usize;
                    self.file_systems.set_and_swap(fsp, &mut f);
                    Ok(())
                } else if str_eq(t0, "end") {
                    let mut r = Routine::new(String::new(), 0);
                    self.routines.set_and_swap(rp, &mut r);
                    let len = r.instructions.len();
                    if len > 65535 {
                        self.routines.set_and_swap(rp, &mut r);
                        return Err(AsmError::at(ErrorKind::Domain, &toks, code_line, 0));
                    }
                    let fs_size = self.file_systems[fsp].size;
                    proof {
                        assert(fs_size <= 32767);
                    }
                    if fs_size + 1 > 0x10000 - self.instr_ptr {
                        self.routines.set_and_swap(rp, &mut r);
                        return Err(AsmError::at(ErrorKind::Domain, &toks, code_line, 0));
                    }
                    r.length = len as u16;
                    let addr = r.address;
                    self.routines.set_and_swap(rp, &mut r);
                    proof {
                        assert(self.routines@[rp as int].instructions
                            == old(self).routines@[rp as int].instructions);
                    }
                    self.routine_addresses.push(addr);
                    self.instr_ptr = self.instr_ptr + fs_size + 1;
                    self.mode = Mode::Normal;
                    let _nlen = self.routines.len();
                    let _flen = self.file_systems.len();
                    self.routine_ptr = rp + 1;
                    self.fs_ptr = fsp + 1;
                    Ok(())
                } else {
                    Err(AsmError::at(ErrorKind::Context, &toks, code_line, 0))
                }
            },
        }
    }
}

/// Sum of the first `k` resource-region capacities, in words.
pub open spec fn sum_fs_sizes(fss: Seq<FileSystem>, k: int) -> int
    decreases k,
{
    if k <= 0 {
        0
    } else {
        sum_fs_sizes(fss, k - 1) + if k - 1 < fss.len() {
            fss[k - 1].size as int
        } else {
            0
        }
    }
}

/// Sum of the first `k` routine spans: each routine occupies its recorded
/// length plus one separator word.
pub open spec fn sum_routine_spans(rs: Seq<Routine>, k: int) -> int
    decreases k,
{
    if k <= 0 {
        0
    } else {
        sum_routine_spans(rs, k - 1) + if k - 1 < rs.len() {
            rs[k - 1].length + 1
        } else {
            1
        }
    }
}

/// The image offset where resource region `i` is laid out: regions are
/// contiguous from the first address after the entry stub.
pub open spec fn fs_offset(fss: Seq<FileSystem>, i: int) -> int {
    0x1002 + sum_fs_sizes(fss, i)
}

/// The image offset where routine `i` is laid out: after every resource
/// region, each routine preceded by its separator span.
pub open spec fn routine_offset(fss: Seq<FileSystem>, rs: Seq<Routine>, i: int) -> int {
    0x1002 + sum_fs_sizes(fss, fss.len() as int) + sum_routine_spans(rs, i)
}

/// Every routine's recorded length equals its buffered word count.
pub open spec fn lengths_consistent(rs: Seq<Routine>) -> bool {
    forall|i: int|
        0 <= i < rs.len() ==> (#[trigger] rs[i]).instructions@.len() == rs[i].length as int
}

/// Whether the whole layout fits the address space, so that the linker
/// can place every block.
pub open spec fn link_fits(st: Assembler) -> bool {
    &&& lengths_consistent(st.routines@)
    &&& routine_offset(st.file_systems@, st.routines@, st.routines@.len() as int) <= 0x10000
}

/// The addresses the linker writes: the entry stub and every routine's
/// word range.
pub open spec fn link_writes(fss: Seq<FileSystem>, rs: Seq<Routine>, a: int) -> bool {
    ||| a == 0x1000
    ||| a == 0x1001
    ||| exists|i: int|
        0 <= i < rs.len() && routine_offset(fss, rs, i) <= a < routine_offset(fss, rs, i) + (
        #[trigger] rs[i]).instructions@.len()
}

/// Region-capacity sums never shrink and never go negative.
pub proof fn lemma_sum_fs_sizes_mono(fss: Seq<FileSystem>, i: int, j: int)
    requires
        0 <= i <= j,
    ensures
        0 <= sum_fs_sizes(fss, i) <= sum_fs_sizes(fss, j),
    decreases i + j,
{
    if i > 0 && i == j {
        lemma_sum_fs_sizes_mono(fss, i - 1, j - 1);
    } else if j > i {
        lemma_sum_fs_sizes_mono(fss, i, j - 1);
    }
}

/// Routine-span sums never shrink and never go negative.
pub proof fn lemma_sum_routine_spans_mono(rs: Seq<Routine>, i: int, j: int)
    requires
        0 <= i <= j,
    ensures
        0 <= sum_routine_spans(rs, i) <= sum_routine_spans(rs, j),
    decreases i + j,
{
    if i > 0 && i == j {
        lemma_sum_routine_spans_mono(rs, i - 1, j - 1);
    } else if j > i {
        lemma_sum_routine_spans_mono(rs, i, j - 1);
    }
}

/// A single image write at or past routine `ri`'s offset leaves every
/// earlier routine's placed words untouched.
proof fn lemma_region_preserved(
    fss: Seq<FileSystem>,
    rs: Seq<Routine>,
    pre: Seq<u16>,
    post: Seq<u16>,
    ri: int,
    widx: int,
    w: u16,
)
    requires
        lengths_consistent(rs),
        0 <= ri < rs.len(),
        pre.len() == IMAGE_WORDS,
        routine_offset(fss, rs, ri) <= widx < pre.len(),
        0x1002 <= routine_offset(fss, rs, 0),
        post == pre.update(widx, w),
        forall|k: int, jj: int|
            0 <= k < ri && 0 <= jj < rs[k].instructions@.len() ==> pre[routine_offset(fss, rs, k)
                + jj] == #[trigger] rs[k].instructions@[jj],
    ensures
        forall|k: int, jj: int|
            0 <= k < ri && 0 <= jj < rs[k].instructions@.len() ==> post[routine_offset(fss, rs, k)
                + jj] == #[trigger] rs[k].instructions@[jj],
{
    assert forall|k: int, jj: int|
        0 <= k < ri && 0 <= jj < rs[k].instructions@.len() implies post[routine_offset(fss, rs, k)
        + jj] == #[trigger] rs[k].instructions@[jj] by {
        lemma_sum_routine_spans_mono(rs, k + 1, ri);
        assert(sum_routine_spans(rs, k + 1) == sum_routine_spans(rs, k) + rs[k].length + 1);
        assert(rs[k].instructions@.len() == rs[k].length as int);
        assert(routine_offset(fss, rs, k) + jj < routine_offset(fss, rs, ri));
        lemma_sum_routine_spans_mono(rs, 0, k);
        lemma_sum_fs_sizes_mono(fss, 0, fss.len() as int);
        assert(0 <= routine_offset(fss, rs, k) + jj < pre.len());
        assert(pre[routine_offset(fss, rs, k) + jj] == rs[k].instructions@[jj]);
    }
}


/// Span sums agree on any prefix whose recorded lengths agree.
proof fn lemma_spans_agree(rs1: Seq<Routine>, rs2: Seq<Routine>, k: int)
    requires
        0 <= k <= rs1.len(),
        k <= rs2.len(),
        forall|j: int| 0 <= j < k ==> (#[trigger] rs1[j]).length == rs2[j].length,
    ensures
        sum_routine_spans(rs1, k) == sum_routine_spans(rs2, k),
    decreases k,
{
    if k > 0 {
        lemma_spans_agree(rs1, rs2, k - 1);
    }
}

/// A session whose resource blocks were all declared before any callable
/// block and whose blocks close in declaration order: every callable
/// block's recorded address equals the offset its layout will use, the
/// placeholder blocks paired with resource regions stay empty, and the
/// cursor tracks the accumulated spans.
pub open spec fn alloc_consistent(st: Assembler) -> bool {
    let fss = st.file_systems@;
    let rs = st.routines@;
    let k = fss.len() as int;
    let rp = st.routine_ptr as int;
    let fsp = st.fs_ptr as int;
    &&& k <= rs.len()
    &&& (st.mode == Mode::DefineFileSystem ==> fsp + 1 == k && rp + 1 == rs.len() && rp == k - 1
        && rs[rp].instructions@.len() == 0)
    &&& (st.mode != Mode::DefineFileSystem ==> st.fs_ptr == fss.len())
    &&& (st.mode == Mode::DefineRoutine ==> rp + 1 == rs.len() && rs.len() > k)
    &&& (st.mode == Mode::Normal ==> rp == rs.len() || rp + 1 == rs.len())
    &&& st.instr_ptr == (match st.mode {
        Mode::Normal => 0x1002 + sum_fs_sizes(fss, k) + sum_routine_spans(rs, rs.len() as int),
        Mode::DefineRoutine => 0x1002 + sum_fs_sizes(fss, k) + sum_routine_spans(rs, rp),
        Mode::DefineFileSystem => 0x1002 + sum_fs_sizes(fss, fsp) + sum_routine_spans(rs, rp),
    })
    &&& forall|i: int|
        0 <= i < k && (st.mode != Mode::DefineFileSystem || i != rp) ==> (
        #[trigger] rs[i]).length == 0
    &&& forall|i: int|
        k <= i < rs.len() ==> 0x1002 + sum_fs_sizes(fss, k) + sum_routine_spans(rs, i) < 0x10000
    &&& forall|i: int|
        k <= i < rs.len() ==> (#[trigger] rs[i]).address as int == 0x1002 + sum_fs_sizes(fss, k)
            + sum_routine_spans(rs, i)
}

/// A fresh session is allocation-consistent.
pub proof fn lemma_new_alloc_consistent(st: Assembler)
    requires
        st.mode == Mode::Normal,
        st.instr_ptr == 0x1002,
        st.routine_ptr == 0,
        st.fs_ptr == 0,
        st.file_systems@.len() == 0,
        st.routines@.len() == 0,
    ensures
        alloc_consistent(st),
{
}

/// Processing one acceptable line keeps a session allocation-consistent,
/// as long as resource blocks are only declared while no callable block
/// exists yet, and no block of either kind is declared after a close that
/// left the block cursor behind (the one close that does is of a block
/// named `entry`, so `entry` must be the last declared block): block
/// addresses recorded while parsing keep matching the offsets the linker
/// will use.
pub proof fn lemma_step_preserves_allocation(pre: Assembler, toks: Seq<Seq<char>>, post: Assembler)
    requires
        pre.wf(),
        line_ok(pre, toks),
        step_ok(pre, toks, post),
        alloc_consistent(pre),
        toks.len() > 0,
        pre.mode == Mode::Normal && toks[0] == "routine:"@ ==> pre.routine_ptr
            == pre.routines@.len(),
        pre.mode == Mode::Normal && toks[0] == "filesys:"@ ==> pre.routine_ptr
            == pre.routines@.len() && pre.routines@.len() == pre.file_systems@.len(),
    ensures
        alloc_consistent(post),
{
    let rs = pre.routines@;
    let rs2 = post.routines@;
    let fss = pre.file_systems@;
    let fss2 = post.file_systems@;
    let k = fss.len() as int;
    let rp = pre.routine_ptr as int;
    let fsp = pre.fs_ptr as int;
    match pre.mode {
        Mode::Normal => {
            if toks[0] == "routine:"@ {
                assert forall|j: int| 0 <= j < rs.len() implies #[trigger] rs2[j] == rs[j] by {
                    assert(rs2.drop_last()[j] == rs2[j]);
                }
                assert forall|i: int| 0 <= i <= rs.len() implies sum_routine_spans(rs2, i)
                    == sum_routine_spans(rs, i) by {
                    lemma_spans_agree(rs2, rs, i);
                }
                assert(rs2[rs.len() as int].address as int == 0x1002 + sum_fs_sizes(fss2, k)
                    + sum_routine_spans(rs2, rs.len() as int));
            } else if toks[0] == "filesys:"@ {
                assert forall|j: int| 0 <= j < rs.len() implies #[trigger] rs2[j] == rs[j] by {
                    assert(rs2.drop_last()[j] == rs2[j]);
                }
                assert forall|j: int| 0 <= j < fss.len() implies #[trigger] fss2[j] == fss[j] by {
                    assert(fss2.drop_last()[j] == fss2[j]);
                }
                assert forall|i: int| 0 <= i <= rs.len() implies sum_routine_spans(rs2, i)
                    == sum_routine_spans(rs, i) by {
                    lemma_spans_agree(rs2, rs, i);
                }
                assert forall|i: int| 0 <= i <= fss.len() implies sum_fs_sizes(fss2, i)
                    == sum_fs_sizes(fss, i) by {
                    lemma_fs_sizes_agree(fss2, fss, i);
                }
            }
        },
        Mode::DefineRoutine => {
            if !(toks[0] == "end"@) || is_body_blank(toks[0]) {
                // the slot keeps its length; only its address is re-recorded
                let rs1 = readdr(rs, rp, pre.instr_ptr as u16);
                if is_body_blank(toks[0]) || toks[0] == "var"@ {
                    assert(rs2 == rs1);
                }
                assert(rs2.len() == rs.len());
                assert forall|j: int| 0 <= j < rs.len() implies (#[trigger] rs2[j]).length
                    == rs[j].length by {
                    if j != rp {
                        if is_body_blank(toks[0]) || toks[0] == "var"@ {
                            assert(rs2[j] == rs1[j]);
                        }
                        assert(rs2[j] == rs[j]);
                    } else {
                        if is_body_blank(toks[0]) || toks[0] == "var"@ {
                            assert(rs2[rp] == rs1[rp]);
                        }
                        assert(rs2[rp].length == rs[rp].length);
                    }
                }
                assert forall|i: int| 0 <= i <= rs.len() implies sum_routine_spans(rs2, i)
                    == sum_routine_spans(rs, i) by {
                    lemma_spans_agree(rs2, rs, i);
                }
                assert forall|i: int| 0 <= i < k implies (#[trigger] rs2[i]).length == 0 by {
                    assert(rs2[i].length == rs[i].length);
                }
                assert forall|i: int|
                    k <= i < rs2.len() implies (#[trigger] rs2[i]).address as int == 0x1002
                    + sum_fs_sizes(fss2, k) + sum_routine_spans(rs2, i) by {
                    if i != rp {
                        assert(rs2[i] == rs[i]);
                    } else {
                        assert(rs2[rp].address == pre.instr_ptr as u16);
                    }
                }
            } else {
                // the close marker: the slot's length becomes its word count
                let len = rs[rp].instructions@.len();
                assert forall|i: int| 0 <= i <= rp implies sum_routine_spans(rs2, i)
                    == sum_routine_spans(rs, i) by {
                    lemma_spans_agree(rs2, rs, i);
                }
                assert(sum_routine_spans(rs2, rp + 1) == sum_routine_spans(rs2, rp)
                    + rs2[rp].length + 1);
                assert(rs2[rp].length as int == len);
                assert forall|i: int| 0 <= i < k implies (#[trigger] rs2[i]).length == 0 by {
                    assert(rs2[i] == rs[i]);
                }
                assert forall|i: int|
                    k <= i < rs2.len() implies (#[trigger] rs2[i]).address as int == 0x1002
                    + sum_fs_sizes(fss2, k) + sum_routine_spans(rs2, i) by {
                    if i != rp {
                        assert(rs2[i] == rs[i]);
                    } else {
                        assert(rs2[rp].address == pre.instr_ptr as u16);
                    }
                }
            }
        },
        Mode::DefineFileSystem => {
            if is_body_blank(toks[0]) {
            } else if toks[0] == "size"@ {
                assert(rs2.len() == rs.len());
                assert forall|i: int| 0 <= i <= rp implies sum_routine_spans(rs2, i)
                    == sum_routine_spans(rs, i) by {
                    assert forall|j: int| 0 <= j < rp implies (#[trigger] rs2[j]).length
                        == rs[j].length by {
                        assert(rs2[j] == rs[j]);
                    }
                    lemma_spans_agree(rs2, rs, i);
                }
                assert forall|i: int| 0 <= i <= fsp implies sum_fs_sizes(fss2, i)
                    == sum_fs_sizes(fss, i) by {
                    assert forall|j: int| 0 <= j < fsp implies (#[trigger] fss2[j]).size
                        == fss[j].size by {
                        assert(fss2[j] == fss[j]);
                    }
                    lemma_fs_sizes_agree(fss2, fss, i);
                }
                assert forall|i: int| 0 <= i < k && i != rp implies (#[trigger] rs2[i]).length
                    == 0 by {
                    assert(rs2[i] == rs[i]);
                }
            } else {
                // the close marker
                assert(rs2.len() == rs.len());
                assert forall|i: int| 0 <= i <= rp implies sum_routine_spans(rs2, i)
                    == sum_routine_spans(rs, i) by {
                    assert forall|j: int| 0 <= j < rp implies (#[trigger] rs2[j]).length
                        == rs[j].length by {
                        assert(rs2[j] == rs[j]);
                    }
                    lemma_spans_agree(rs2, rs, i);
                }
                assert(sum_routine_spans(rs2, rp + 1) == sum_routine_spans(rs2, rp)
                    + rs2[rp].length + 1);
                assert(rs2[rp].length as int == 0);
                assert(sum_fs_sizes(fss2, k) == sum_fs_sizes(fss2, fsp) + fss2[k - 1].size);
                assert forall|i: int| 0 <= i < k implies (#[trigger] rs2[i]).length == 0 by {
                    if i != rp {
                        assert(rs2[i] == rs[i]);
                    }
                }
            }
        },
    }
}

/// For a source whose resource blocks all precede its callable blocks and
/// whose blocks close in declaration order, every callable block's final
/// placement offset equals the address the allocator recorded at its
/// declaration: jump targets resolved during parsing stay valid in the
/// linked image.  The placeholder blocks paired with resource regions make
/// up exactly the separator words the allocator counted for each region.
pub proof fn lemma_block_placement(st: Assembler)
    requires
        alloc_consistent(st),
    ensures
        forall|i: int|
            st.file_systems@.len() <= i < st.routines@.len() ==> routine_offset(
                st.file_systems@,
                st.routines@,
                i,
            ) == (#[trigger] st.routines@[i]).address as int,
{
}

impl Assembler {
    /// Whether the layout fits the address space, checked over the actual
    /// tables.
    #[verifier::loop_isolation(false)]
    pub fn check_link_fits(&self) -> (r: bool)
        requires
            self.wf(),
            self.mode == Mode::Normal,
        ensures
            r == link_fits(*self),
    {
        proof {
            assert(lengths_consistent(self.routines@));
        }
        let mut total: usize = 0x1002;
        let nf = self.file_systems.len();
        let mut i: usize = 0;
        while i < nf
            invariant
                0 <= i <= nf,
                nf == self.file_systems@.len(),
                total == 0x1002 + sum_fs_sizes(self.file_systems@, i as int),
                total <= 0x10000,
            decreases nf - i,
        {
            let sz = self.file_systems[i].size;
            proof {
                assert(sz <= 32767);
            }
            if sz > 0x10000 - total {
                proof {
                    lemma_sum_fs_sizes_mono(self.file_systems@, i + 1, nf as int);
                    lemma_sum_routine_spans_mono(self.routines@, 0, self.routines@.len() as int);
                }
                return false;
            }
            total = total + sz;
            i = i + 1;
        }
        let nr = self.routines.len();
        let mut j: usize = 0;
        while j < nr
            invariant
                0 <= j <= nr,
                nr == self.routines@.len(),
                total == 0x1002 + sum_fs_sizes(self.file_systems@, self.file_systems@.len() as int)
                    + sum_routine_spans(self.routines@, j as int),
                total <= 0x10000,
            decreases nr - j,
        {
            let span = self.routines[j].length as usize;
            if span + 1 > 0x10000 - total {
                proof {
                    lemma_sum_routine_spans_mono(self.routines@, j + 1, nr as int);
                }
                return false;
            }
            total = total + span + 1;
            j = j + 1;
        }
        true
    }

    /// The linker: writes the entry stub as a call to the last-closed
    /// block, then copies every routine's words to its layout offset.
    /// Resource regions reserve their capacity but carry no content words.
    /// Every address the linker does not write keeps its previous word.
    #[verifier::loop_isolation(false)]
    #[verifier::rlimit(100)]
    pub fn link(&mut self)
        requires
            old(self).wf(),
            link_fits(*old(self)),
            old(self).routine_addresses@.len() > 0,
        ensures
            *final(self) == (Assembler { image: final(self).image, ..*old(self) }),
            final(self).image.wf(),
            final(self).image.words@[0x1000] == crate::opcodes::JMP_TO_SR,
            final(self).image.words@[0x1001] == old(self).routine_addresses@.last(),
            forall|i: int, j: int|
                0 <= i < old(self).routines@.len() && 0 <= j
                    < old(self).routines@[i].instructions@.len() ==> final(self).image.words@[
                    routine_offset(old(self).file_systems@, old(self).routines@, i) + j
                ] == #[trigger] old(self).routines@[i].instructions@[j],
            forall|a: int|
                0 <= a < IMAGE_WORDS && !link_writes(
                    old(self).file_systems@,
                    old(self).routines@,
                    a,
                ) ==> final(self).image.words@[a] == old(self).image.words@[a],
    {
        let ghost fss = self.file_systems@;
        let ghost rs = self.routines@;
        let ghost pre_words = self.image.words@;
        let n_addrs = self.routine_addresses.len();
        let last_addr = self.routine_addresses[n_addrs - 1];
        self.image.set_word(0x1000, crate::opcodes::JMP_TO_SR);
        self.image.set_word(0x1001, last_addr);
        let mut cursor: usize = 0x1002;
        let nf = self.file_systems.len();
        let mut i: usize = 0;
        proof {
            lemma_sum_fs_sizes_mono(fss, 0, nf as int);
            lemma_sum_routine_spans_mono(rs, 0, rs.len() as int);
        }
        while i < nf
            invariant
                0 <= i <= nf,
                nf == fss.len(),
                self.file_systems@ == fss,
                cursor == fs_offset(fss, i as int),
                0x1002 <= cursor <= 0x10000,
            decreases nf - i,
        {
            let sz = self.file_systems[i].size;
            proof {
                lemma_sum_fs_sizes_mono(fss, i + 1, nf as int);
                lemma_sum_routine_spans_mono(rs, 0, rs.len() as int);
            }
            cursor = cursor + sz;
            i = i + 1;
        }
        let nr = self.routines.len();
        let mut ri: usize = 0;
        while ri < nr
            invariant
                0 <= ri <= nr,
                nr == rs.len(),
                *self == (Assembler { image: self.image, ..*old(self) }),
                self.image.wf(),
                cursor == routine_offset(fss, rs, ri as int),
                0x1002 <= cursor <= 0x10000,
                self.image.words@[0x1000] == crate::opcodes::JMP_TO_SR,
                self.image.words@[0x1001] == old(self).routine_addresses@.last(),
                forall|k: int, j: int|
                    0 <= k < ri && 0 <= j < rs[k].instructions@.len()
                        ==> self.image.words@[routine_offset(fss, rs, k) + j]
                        == #[trigger] rs[k].instructions@[j],
                forall|a: int|
                    0 <= a < IMAGE_WORDS && !link_writes(fss, rs, a) ==> self.image.words@[a]
                        == pre_words[a],
            decreases nr - ri,
        {
            let nw = self.routines[ri].instructions.len();
            proof {
                assert(rs[ri as int].instructions@.len() == rs[ri as int].length as int);
                lemma_sum_routine_spans_mono(rs, ri + 1, nr as int);
                assert(routine_offset(fss, rs, ri + 1) == routine_offset(fss, rs, ri as int)
                    + rs[ri as int].length + 1);
            }
            let mut j: usize = 0;
            while j < nw
                invariant
                    0 <= j <= nw,
                    nw == rs[ri as int].instructions@.len(),
                    0 <= ri < nr,
                    nr == rs.len(),
                    *self == (Assembler { image: self.image, ..*old(self) }),
                    self.image.wf(),
                    cursor == routine_offset(fss, rs, ri as int),
                    cursor >= 0x1002,
                    cursor + nw + 1 <= 0x10000,
                    self.image.words@[0x1000] == crate::opcodes::JMP_TO_SR,
                    self.image.words@[0x1001] == old(self).routine_addresses@.last(),
                    forall|k: int, jj: int|
                        0 <= k < ri && 0 <= jj < rs[k].instructions@.len()
                            ==> self.image.words@[routine_offset(fss, rs, k) + jj]
                            == #[trigger] rs[k].instructions@[jj],
                    forall|jj: int|
                        0 <= jj < j ==> self.image.words@[cursor + jj]
                            == rs[ri as int].instructions@[jj],
                    forall|a: int|
                        0 <= a < IMAGE_WORDS && !link_writes(fss, rs, a) ==> self.image.words@[a]
                            == pre_words[a],
                decreases nw - j,
            {
                let w = self.routines[ri].instructions[j];
                let ghost prev = self.image.words@;
                self.image.set_word(cursor + j, w);
                proof {
                    assert(link_writes(fss, rs, cursor + j as int));
                    assert(self.image.words@ == prev.update(cursor + j as int, w));
                    lemma_region_preserved(
                        fss,
                        rs,
                        prev,
                        self.image.words@,
                        ri as int,
                        cursor + j as int,
                        w,
                    );
                }
                j = j + 1;
            }
            cursor = cursor + nw + 1;
            ri = ri + 1;
        }
    }
}

/// Two sessions that read the same: equal image words and scalar state,
/// and tables equal entry by entry with names compared as text.
pub open spec fn assembler_like(a: Assembler, b: Assembler) -> bool {
    &&& a.image.words@ == b.image.words@
    &&& a.instr_ptr == b.instr_ptr
    &&& a.mode == b.mode
    &&& a.fs_ptr == b.fs_ptr
    &&& a.routine_ptr == b.routine_ptr
    &&& a.var_ptr == b.var_ptr
    &&& crate::symbols::filesystems_like(a.file_systems@, b.file_systems@)
    &&& crate::symbols::routines_like(a.routines@, b.routines@)
    &&& a.routine_addresses@ == b.routine_addresses@
    &&& crate::symbols::variables_like(a.variables@, b.variables@)
}

/// The index bounds a well-formed session guarantees for the slot the
/// current mode works on.
pub open spec fn slots_in_range(a: Assembler) -> bool {
    &&& (a.mode != Mode::Normal ==> a.routine_ptr < a.routines@.len())
    &&& (a.mode == Mode::DefineFileSystem ==> a.fs_ptr < a.file_systems@.len())
}

/// The re-addressed tables of like-reading sessions still read alike.
proof fn lemma_readdr_like(a: Assembler, b: Assembler, rp: int)
    requires
        assembler_like(a, b),
        0 <= rp < a.routines@.len(),
    ensures
        crate::symbols::routines_like(
            readdr(a.routines@, rp, a.instr_ptr as u16),
            readdr(b.routines@, rp, b.instr_ptr as u16),
        ),
{
    let ra = readdr(a.routines@, rp, a.instr_ptr as u16);
    let rb = readdr(b.routines@, rp, b.instr_ptr as u16);
    assert forall|i: int| 0 <= i < ra.len() implies crate::symbols::routine_like(
        #[trigger] ra[i],
        rb[i],
    ) by {
        assert(crate::symbols::routine_like(a.routines@[i], b.routines@[i]));
        if i != rp {
            assert(ra[i] == a.routines@[i]);
            assert(rb[i] == b.routines@[i]);
        }
    }
}

/// Like-reading sessions accept exactly the same lines.
pub proof fn lemma_line_ok_like(a: Assembler, b: Assembler, toks: Seq<Seq<char>>)
    requires
        assembler_like(a, b),
        slots_in_range(a),
    ensures
        line_ok(a, toks) == line_ok(b, toks),
{
    if toks.len() > 0 {
        match a.mode {
            Mode::Normal => {
            },
            Mode::DefineRoutine => {
                let rp = a.routine_ptr as int;
                assert(crate::symbols::routine_like(a.routines@[rp], b.routines@[rp]));
                lemma_readdr_like(a, b, rp);
                crate::encode::lemma_body_words_like(
                    toks,
                    a.variables@,
                    readdr(a.routines@, rp, a.instr_ptr as u16),
                    b.variables@,
                    readdr(b.routines@, rp, b.instr_ptr as u16),
                );
            },
            Mode::DefineFileSystem => {
                let rp = a.routine_ptr as int;
                let fsp = a.fs_ptr as int;
                assert(crate::symbols::routine_like(a.routines@[rp], b.routines@[rp]));
                assert(crate::symbols::filesystem_like(a.file_systems@[fsp], b.file_systems@[fsp]));
            },
        }
    }
}

/// Like-reading sessions stepped by the same accepted line stay alike.
pub proof fn lemma_step_ok_like(
    a: Assembler,
    a2: Assembler,
    b: Assembler,
    b2: Assembler,
    toks: Seq<Seq<char>>,
)
    requires
        toks.len() >= 1,
        assembler_like(a, b),
        slots_in_range(a),
        step_ok(a, toks, a2),
        step_ok(b, toks, b2),
    ensures
        assembler_like(a2, b2),
{
    let rp = a.routine_ptr as int;
    let fsp = a.fs_ptr as int;
    match a.mode {
        Mode::Normal => {
            if toks[0] == "routine:"@ {
                assert forall|i: int| 0 <= i < a2.routines@.len() implies
                    crate::symbols::routine_like(#[trigger] a2.routines@[i], b2.routines@[i]) by {
                    if i < a.routines@.len() {
                        assert(a2.routines@.drop_last()[i] == a2.routines@[i]);
                        assert(b2.routines@.drop_last()[i] == b2.routines@[i]);
                        assert(crate::symbols::routine_like(a.routines@[i], b.routines@[i]));
                    } else {
                        assert(a2.routines@[i] == a2.routines@.last());
                        assert(b2.routines@[i] == b2.routines@.last());
                    }
                }
            } else if toks[0] == "filesys:"@ {
                assert forall|i: int| 0 <= i < a2.routines@.len() implies
                    crate::symbols::routine_like(#[trigger] a2.routines@[i], b2.routines@[i]) by {
                    if i < a.routines@.len() {
                        assert(a2.routines@.drop_last()[i] == a2.routines@[i]);
                        assert(b2.routines@.drop_last()[i] == b2.routines@[i]);
                        assert(crate::symbols::routine_like(a.routines@[i], b.routines@[i]));
                    } else {
                        assert(a2.routines@[i] == a2.routines@.last());
                        assert(b2.routines@[i] == b2.routines@.last());
                    }
                }
                assert forall|i: int| 0 <= i < a2.file_systems@.len() implies
                    crate::symbols::filesystem_like(
                    #[trigger] a2.file_systems@[i],
                    b2.file_systems@[i],
                ) by {
                    if i < a.file_systems@.len() {
                        assert(a2.file_systems@.drop_last()[i] == a2.file_systems@[i]);
                        assert(b2.file_systems@.drop_last()[i] == b2.file_systems@[i]);
                        assert(crate::symbols::filesystem_like(
                            a.file_systems@[i],
                            b.file_systems@[i],
                        ));
                    } else {
                        assert(a2.file_systems@[i] == a2.file_systems@.last());
                        assert(b2.file_systems@[i] == b2.file_systems@.last());
                    }
                }
            }
        },
        Mode::DefineRoutine => {
            assert(crate::symbols::routine_like(a.routines@[rp], b.routines@[rp]));
            let ra = readdr(a.routines@, rp, a.instr_ptr as u16);
            let rb = readdr(b.routines@, rp, b.instr_ptr as u16);
            lemma_readdr_like(a, b, rp);
            if is_body_blank(toks[0]) {
                assert forall|i: int| 0 <= i < a2.routines@.len() implies
                    crate::symbols::routine_like(#[trigger] a2.routines@[i], b2.routines@[i]) by {
                    assert(crate::symbols::routine_like(ra[i], rb[i]));
                }
            } else if toks[0] == "end"@ {
                assert forall|i: int| 0 <= i < a2.routines@.len() implies
                    crate::symbols::routine_like(#[trigger] a2.routines@[i], b2.routines@[i]) by {
                    assert(crate::symbols::routine_like(a.routines@[i], b.routines@[i]));
                    if i != rp {
                        assert(a2.routines@[i] == a.routines@[i]);
                        assert(b2.routines@[i] == b.routines@[i]);
                    }
                }
            } else if toks[0] == "var"@ {
                assert forall|i: int| 0 <= i < a2.routines@.len() implies
                    crate::symbols::routine_like(#[trigger] a2.routines@[i], b2.routines@[i]) by {
                    assert(crate::symbols::routine_like(ra[i], rb[i]));
                }
                assert forall|i: int| 0 <= i < a2.variables@.len() implies
                    crate::symbols::variable_like(#[trigger] a2.variables@[i], b2.variables@[i]) by {
                    if i < a.variables@.len() {
                        assert(a2.variables@.drop_last()[i] == a2.variables@[i]);
                        assert(b2.variables@.drop_last()[i] == b2.variables@[i]);
                        assert(crate::symbols::variable_like(a.variables@[i], b.variables@[i]));
                    } else {
                        assert(a2.variables@[i] == a2.variables@.last());
                        assert(b2.variables@[i] == b2.variables@.last());
                    }
                }
            } else {
                crate::encode::lemma_body_words_like(toks, a.variables@, ra, b.variables@, rb);
                assert forall|i: int| 0 <= i < a2.routines@.len() implies
                    crate::symbols::routine_like(#[trigger] a2.routines@[i], b2.routines@[i]) by {
                    assert(crate::symbols::routine_like(a.routines@[i], b.routines@[i]));
                    if i != rp {
                        assert(a2.routines@[i] == a.routines@[i]);
                        assert(b2.routines@[i] == b.routines@[i]);
                    }
                }
            }
        },
        Mode::DefineFileSystem => {
            assert(crate::symbols::routine_like(a.routines@[rp], b.routines@[rp]));
            assert(crate::symbols::filesystem_like(a.file_systems@[fsp], b.file_systems@[fsp]));
            if is_body_blank(toks[0]) {
            } else {
                assert forall|i: int| 0 <= i < a2.routines@.len() implies
                    crate::symbols::routine_like(#[trigger] a2.routines@[i], b2.routines@[i]) by {
                    assert(crate::symbols::routine_like(a.routines@[i], b.routines@[i]));
                    if i != rp {
                        assert(a2.routines@[i] == a.routines@[i]);
                        assert(b2.routines@[i] == b.routines@[i]);
                    }
                }
                if toks[0] == "size"@ {
                    assert forall|i: int| 0 <= i < a2.file_systems@.len() implies
                        crate::symbols::filesystem_like(
                        #[trigger] a2.file_systems@[i],
                        b2.file_systems@[i],
                    ) by {
                        assert(crate::symbols::filesystem_like(
                            a.file_systems@[i],
                            b.file_systems@[i],
                        ));
                        if i != fsp {
                            assert(a2.file_systems@[i] == a.file_systems@[i]);
                            assert(b2.file_systems@[i] == b.file_systems@[i]);
                        }
                    }
                }
            }
        },
    }
}

/// A fresh top-level session over the bootstrap image, before any line.
pub open spec fn is_initial(st: Assembler) -> bool {
    &&& st.mode == Mode::Normal
    &&& st.instr_ptr == 0x1002
    &&& st.fs_ptr == 0 && st.routine_ptr == 0 && st.var_ptr == 0
    &&& st.file_systems@.len() == 0
    &&& st.routines@.len() == 0
    &&& st.routine_addresses@.len() == 0
    &&& st.variables@.len() == 0
    &&& st.image.words@.len() == IMAGE_WORDS
    &&& forall|a: int| 0 <= a < IMAGE_WORDS ==> st.image.words@[a] == bootstrap_word(a)
}

/// Any two fresh sessions read alike.
pub proof fn lemma_initial_like(a: Assembler, b: Assembler)
    requires
        is_initial(a),
        is_initial(b),
    ensures
        assembler_like(a, b),
{
    assert forall|x: int| 0 <= x < a.image.words@.len() implies a.image.words@[x]
        == b.image.words@[x] by {
        assert(a.image.words@[x] == bootstrap_word(x));
        assert(b.image.words@[x] == bootstrap_word(x));
    }
    assert(a.image.words@ =~= b.image.words@);
    assert(a.routine_addresses@ =~= b.routine_addresses@);
}

/// The first `n` lines, each accepted in turn: `states[0]` is a fresh
/// session and `states[k+1]` is what processing line `k` in `states[k]`
/// leaves behind.
pub open spec fn runs_chain_to(lines: Seq<Seq<char>>, states: Seq<Assembler>, n: int) -> bool {
    &&& 0 <= n <= lines.len()
    &&& states.len() == n + 1
    &&& is_initial(states[0])
    &&& forall|k: int|
        0 <= k < n ==> line_ok(#[trigger] states[k], split_spaces(lines[k])) && step_ok(
            states[k],
            split_spaces(lines[k]),
            states[k + 1],
        )
}

/// What the state after the last line must satisfy for linking to
/// proceed: top-level mode, at least one closed block, a fitting layout.
pub open spec fn run_complete(st: Assembler) -> bool {
    st.mode == Mode::Normal && st.routine_addresses@.len() > 0 && link_fits(st)
}

/// Whether a source text assembles: every line is accepted in turn from a
/// fresh session and the final state is complete.
pub open spec fn assembles(source: Seq<char>) -> bool {
    exists|states: Seq<Assembler>|
        {
            &&& #[trigger] runs_chain_to(
                crate::text::split_lines_spec(source),
                states,
                crate::text::split_lines_spec(source).len() as int,
            )
            &&& run_complete(states.last())
        }
}

/// Any two accepted runs over the same lines read alike at every step, as
/// long as one of them keeps the session invariant.
pub proof fn lemma_chains_like(
    lines: Seq<Seq<char>>,
    s1: Seq<Assembler>,
    n1: int,
    s2: Seq<Assembler>,
    n2: int,
    j: int,
)
    requires
        runs_chain_to(lines, s1, n1),
        runs_chain_to(lines, s2, n2),
        forall|k: int| 0 <= k <= n1 ==> (#[trigger] s1[k]).wf(),
        0 <= j <= n1,
        j <= n2,
    ensures
        assembler_like(s1[j], s2[j]),
    decreases j,
{
    if j == 0 {
        lemma_initial_like(s1[0], s2[0]);
    } else {
        lemma_chains_like(lines, s1, n1, s2, n2, j - 1);
        crate::text::lemma_split_from_nonempty(lines[j - 1], 0, 0, ' ');
        assert(s1[j - 1].wf());
        lemma_step_ok_like(s1[j - 1], s1[j], s2[j - 1], s2[j], split_spaces(lines[j - 1]));
    }
}

/// Capacity sums agree on any prefix whose region sizes agree.
proof fn lemma_fs_sizes_agree(f1: Seq<FileSystem>, f2: Seq<FileSystem>, k: int)
    requires
        0 <= k <= f1.len(),
        k <= f2.len(),
        forall|j: int| 0 <= j < k ==> (#[trigger] f1[j]).size == f2[j].size,
    ensures
        sum_fs_sizes(f1, k) == sum_fs_sizes(f2, k),
    decreases k,
{
    if k > 0 {
        lemma_fs_sizes_agree(f1, f2, k - 1);
    }
}

/// Like-reading sessions fit the address space alike.
pub proof fn lemma_link_fits_like(a: Assembler, b: Assembler)
    requires
        assembler_like(a, b),
    ensures
        link_fits(a) == link_fits(b),
{
    assert forall|j: int| 0 <= j < a.routines@.len() implies (#[trigger] a.routines@[j]).length
        == b.routines@[j].length by {
        assert(crate::symbols::routine_like(a.routines@[j], b.routines@[j]));
    }
    assert forall|j: int| 0 <= j < a.file_systems@.len() implies (
    #[trigger] a.file_systems@[j]).size == b.file_systems@[j].size by {
        assert(crate::symbols::filesystem_like(a.file_systems@[j], b.file_systems@[j]));
    }
    lemma_spans_agree(a.routines@, b.routines@, a.routines@.len() as int);
    lemma_fs_sizes_agree(a.file_systems@, b.file_systems@, a.file_systems@.len() as int);
    assert(lengths_consistent(a.routines@) == lengths_consistent(b.routines@)) by {
        if lengths_consistent(a.routines@) {
            assert forall|j: int| 0 <= j < b.routines@.len() implies (
            #[trigger] b.routines@[j]).instructions@.len() == b.routines@[j].length as int by {
                assert(crate::symbols::routine_like(a.routines@[j], b.routines@[j]));
                assert(a.routines@[j].instructions@.len() == a.routines@[j].length as int);
            }
        }
        if lengths_consistent(b.routines@) {
            assert forall|j: int| 0 <= j < a.routines@.len() implies (
            #[trigger] a.routines@[j]).instructions@.len() == a.routines@[j].length as int by {
                assert(crate::symbols::routine_like(a.routines@[j], b.routines@[j]));
                assert(b.routines@[j].instructions@.len() == b.routines@[j].length as int);
            }
        }
    }
}

/// What the linker leaves in the image, as a predicate over the pre-link
/// session and the produced image.
pub open spec fn linked_image(st: Assembler, img: Image) -> bool {
    &&& img.wf()
    &&& img.words@[0x1000] == crate::opcodes::JMP_TO_SR
    &&& img.words@[0x1001] == st.routine_addresses@.last()
    &&& forall|i: int, j: int|
        0 <= i < st.routines@.len() && 0 <= j < st.routines@[i].instructions@.len()
            ==> img.words@[routine_offset(st.file_systems@, st.routines@, i) + j] == #[trigger] st.routines@[i].instructions@[j]
    &&& forall|a: int|
        0 <= a < IMAGE_WORDS && !link_writes(st.file_systems@, st.routines@, a) ==> img.words@[a]
            == st.image.words@[a]
}

/// Below the post-stub layout area the linker writes nothing but the two
/// stub words.
proof fn lemma_low_addrs_unwritten(fss: Seq<FileSystem>, rs: Seq<Routine>, a: int)
    requires
        0 <= a < 0x1002,
        a != 0x1000,
        a != 0x1001,
    ensures
        !link_writes(fss, rs, a),
{
    assert forall|i: int| 0 <= i < rs.len() implies !(routine_offset(fss, rs, i) <= a
        < routine_offset(fss, rs, i) + (#[trigger] rs[i]).instructions@.len()) by {
        lemma_sum_fs_sizes_mono(fss, 0, fss.len() as int);
        lemma_sum_routine_spans_mono(rs, 0, i);
    }
}

/// Everything an assembly run produces: the linked image, the symbol
/// tables as they stood at the end of parsing, and the usage count.
#[derive(Debug)]
pub struct AsmOutput {
    /// The linked 65536-word memory image.
    pub image: Image,
    /// The callable blocks, resource placeholders included.
    pub routines: Vec<Routine>,
    /// The resource regions.
    pub file_systems: Vec<FileSystem>,
    /// The declared constants.
    pub variables: Vec<Variable>,
    /// The start address of every closed block, in close order.
    pub routine_addresses: Vec<u16>,
    /// Approximate capacity consumption: every non-zero, non-idle word,
    /// plus every reserved resource word.
    pub addr_used: usize,
}

/// Assembles a whole source text: parses every line, then links the
/// image.  On success, every constant sits at its declaration-order
/// address with its value in the image, the character tables are intact
/// whenever the constants stay below them, the entry stub calls the
/// last-closed block, and every block's words stand at its layout offset.
#[verifier::loop_isolation(false)]
#[verifier::rlimit(100)]
pub fn assemble(source: &str) -> (r: Result<AsmOutput, AsmError>)
    ensures
        r is Ok <==> assembles(source@),
        (match r {
            Ok(out) => exists|states: Seq<Assembler>|
                {
                    &&& #[trigger] runs_chain_to(
                        crate::text::split_lines_spec(source@),
                        states,
                        crate::text::split_lines_spec(source@).len() as int,
                    )
                    &&& run_complete(states.last())
                    &&& out.routines == states.last().routines
                    &&& out.file_systems == states.last().file_systems
                    &&& out.variables == states.last().variables
                    &&& out.routine_addresses == states.last().routine_addresses
                    &&& linked_image(states.last(), out.image)
                    &&& out.addr_used == crate::image::used_words(out.image.words@)
                        + sum_fs_sizes(
                        states.last().file_systems@,
                        states.last().file_systems@.len() as int,
                    )
                },
            Err(e) => {
                ||| e.line == crate::text::split_lines_spec(source@).len()
                ||| exists|states: Seq<Assembler>|
                    {
                        &&& 1 <= e.line <= crate::text::split_lines_spec(source@).len()
                        &&& #[trigger] runs_chain_to(
                            crate::text::split_lines_spec(source@),
                            states,
                            e.line - 1,
                        )
                        &&& !line_ok(
                            states[e.line - 1],
                            split_spaces(crate::text::split_lines_spec(source@)[e.line - 1]),
                        )
                    }
            },
        }),
        match r {
            Ok(out) => {
                &&& out.image.wf()
                &&& forall|i: int|
                    0 <= i < out.variables@.len() ==> (#[trigger] out.variables@[i]).address == i
                &&& forall|i: int|
                    0 <= i < out.variables@.len() && i < 0x1000 ==> out.image.words@[i] == (
                    #[trigger] out.variables@[i]).value
                &&& (out.variables@.len() <= 0x200 ==> forall|a: int|
                    0x200 <= a <= 0x251 ==> out.image.words@[a] == bootstrap_word(a))
                &&& out.routine_addresses@.len() > 0
                &&& out.image.words@[0x1000] == crate::opcodes::JMP_TO_SR
                &&& out.image.words@[0x1001] == out.routine_addresses@.last()
                &&& lengths_consistent(out.routines@)
                &&& forall|i: int, j: int|
                    0 <= i < out.routines@.len() && 0 <= j
                        < out.routines@[i].instructions@.len() ==> out.image.words@[
                        routine_offset(out.file_systems@, out.routines@, i) + j
                    ] == #[trigger] out.routines@[i].instructions@[j]
                &&& out.addr_used == crate::image::used_words(out.image.words@) + sum_fs_sizes(
                    out.file_systems@,
                    out.file_systems@.len() as int,
                )
            },
            Err(e) => true,
        },
{
    let lines = crate::text::split_lines(source);
    let ghost linesv = crate::text::split_lines_spec(source@);
    let mut st = Assembler::new();
    let ghost mut trace: Seq<Assembler> = seq![st];
    proof {
        assert(is_initial(st));
        assert(runs_chain_to(linesv, trace, 0));
    }
    let nl = lines.len();
    let mut i: usize = 0;
    while i < nl
        invariant
            st.wf(),
            0 <= i <= nl,
            nl == lines@.len(),
            linesv == crate::text::split_lines_spec(source@),
            views_of(lines@) == linesv,
            trace.len() == i + 1,
            trace[i as int] == st,
            runs_chain_to(linesv, trace, i as int),
            forall|k: int| 0 <= k <= i ==> (#[trigger] trace[k]).wf(),
        decreases nl - i,
    {
        let ghost prev = st;
        let ghost toks = split_spaces(linesv[i as int]);
        proof {
            assert(views_of(lines@)[i as int] == lines@[i as int]@);
        }
        match st.process_line(lines[i].as_str(), i + 1) {
            Ok(()) => {},
            Err(e) => {
                proof {
                    assert(!line_ok(prev, toks));
                    if assembles(source@) {
                        let states = choose|states: Seq<Assembler>|
                            {
                                &&& #[trigger] runs_chain_to(linesv, states, linesv.len() as int)
                                &&& run_complete(states.last())
                            };
                        lemma_chains_like(
                            linesv,
                            trace,
                            i as int,
                            states,
                            linesv.len() as int,
                            i as int,
                        );
                        assert(line_ok(states[i as int], toks));
                        lemma_line_ok_like(prev, states[i as int], toks);
                        assert(false);
                    }
                    assert(e.line == i + 1);
                    assert(runs_chain_to(linesv, trace, e.line - 1));
                    assert(trace[e.line - 1] == prev);
                }
                return Err(e);
            },
        }
        proof {
            assert(line_ok(prev, toks));
            assert(step_ok(prev, toks, st));
            let ghost prior = trace;
            trace = trace.push(st);
            assert forall|k: int|
                0 <= k < i + 1 implies line_ok(#[trigger] trace[k], split_spaces(linesv[k]))
                && step_ok(trace[k], split_spaces(linesv[k]), trace[k + 1]) by {
                if k < i {
                    assert(trace[k] == prior[k]);
                    assert(trace[k + 1] == prior[k + 1]);
                } else {
                    assert(trace[k] == prev);
                    assert(trace[k + 1] == st);
                }
            }
            assert(runs_chain_to(linesv, trace, i + 1));
        }
        i = i + 1;
    }
    proof {
        assert(trace.last() == st);
    }
    let open_block = st.mode != Mode::Normal;
    let no_block = st.routine_addresses.len() == 0;
    if open_block || no_block || !st.check_link_fits() {
        proof {
            if assembles(source@) {
                let states = choose|states: Seq<Assembler>|
                    {
                        &&& #[trigger] runs_chain_to(linesv, states, linesv.len() as int)
                        &&& run_complete(states.last())
                    };
                lemma_chains_like(linesv, trace, nl as int, states, nl as int, nl as int);
                assert(assembler_like(st, states[nl as int]));
                assert(states.last() == states[nl as int]);
                lemma_link_fits_like(st, states[nl as int]);
                assert(false);
            }
        }
        let kind = if open_block || no_block {
            ErrorKind::Context
        } else {
            ErrorKind::Domain
        };
        return Err(AsmError { kind, token: String::new(), line: nl, position: 0 });
    }
    proof {
        assert(run_complete(st));
        assert(assembles(source@));
    }
    let ghost parsed = st;
    st.link();
    proof {
        assert(st.routines == parsed.routines);
        assert(linked_image(parsed, st.image));
    }
    proof {
        assert forall|a: int| 0 <= a < 0x1000 implies !link_writes(
            parsed.file_systems@,
            parsed.routines@,
            a,
        ) by {
            lemma_low_addrs_unwritten(parsed.file_systems@, parsed.routines@, a);
        }
    }
    let used = st.image.count_used();
    proof {
        crate::image::lemma_used_words_le(st.image.words@);
    }
    let nf = st.file_systems.len();
    let mut fs_total: usize = 0;
    let mut k: usize = 0;
    proof {
        lemma_sum_routine_spans_mono(parsed.routines@, 0, parsed.routines@.len() as int);
    }
    while k < nf
        invariant
            0 <= k <= nf,
            nf == st.file_systems@.len(),
            fs_total == sum_fs_sizes(st.file_systems@, k as int),
            fs_total <= 0xEFFE,
        decreases nf - k,
    {
        let sz = st.file_systems[k].size;
        proof {
            lemma_sum_fs_sizes_mono(st.file_systems@, k + 1, nf as int);
        }
        fs_total = fs_total + sz;
        k = k + 1;
    }
    Ok(
        AsmOutput {
            addr_used: used + fs_total,
            image: st.image,
            routines: st.routines,
            file_systems: st.file_systems,
            variables: st.variables,
            routine_addresses: st.routine_addresses,
        },
    )
}

} // verus!
