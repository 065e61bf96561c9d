//! Fatal assembly faults.
//!
//! Every detected fault aborts the whole run: there is no recovery and no
//! partial image.  A fault names the offending token, its line, and its
//! character column, computed by summing the lengths of the tokens that
//! stand before it.

use vstd::prelude::*;

use crate::text::views_of;

verus! {

/// The kind of a fatal assembly fault.
#[derive(Clone, Copy, PartialEq, Eq, Structural, Debug)]
pub enum ErrorKind {
    /// A token that the current block context does not admit.
    Context,
    /// A directive is missing a required argument.
    Arity,
    /// A wrong or missing immediate-type annotation.
    Type,
    /// A value exceeds an allowed range or the image capacity.
    Domain,
    /// An unknown register letter or keyword.
    Lookup,
}

/// A fatal assembly fault with its source locator.
#[derive(Debug)]
pub struct AsmError {
    /// What went wrong.
    pub kind: ErrorKind,
    /// The offending token, or empty where the token itself is missing.
    pub token: String,
    /// The source line the fault was detected on.
    pub line: usize,
    /// The character column of the offending token within its line.
    pub position: usize,
}

/// Sum of the lengths of the first `k` tokens.
pub open spec fn sum_token_lens(toks: Seq<Seq<char>>, k: int) -> int
    decreases k,
{
    if k <= 0 {
        0
    } else {
        sum_token_lens(toks, k - 1) + if k - 1 < toks.len() {
            toks[k - 1].len() as int
        } else {
            0
        }
    }
}

/// The character column reported for the token at index `instr`: one for
/// each separating space, plus the width of every earlier token.
pub open spec fn error_column(toks: Seq<Seq<char>>, instr: int) -> int {
    instr + 1 + sum_token_lens(toks, instr)
}

impl AsmError {
    /// Builds the fault record for the token at index `instr` of a
    /// tokenized line.
    pub fn at(kind: ErrorKind, toks: &Vec<String>, line: usize, instr: usize) -> (e: AsmError)
        ensures
            e.kind == kind,
            e.line == line,
            e.token@ == if instr < toks@.len() {
                toks@[instr as int]@
            } else {
                Seq::<char>::empty()
            },
            error_column(views_of(toks@), instr as int) <= usize::MAX ==> e.position
                == error_column(views_of(toks@), instr as int),
            error_column(views_of(toks@), instr as int) > usize::MAX ==> e.position == usize::MAX,
    {
        let ghost tv = views_of(toks@);
        let token: String = if instr < toks.len() {
            toks[instr].clone()
        } else {
            String::new()
        };
        let mut offset: usize = if instr < usize::MAX {
            instr + 1
        } else {
            usize::MAX
        };
        let mut x: usize = 0;
        let bound: usize = if instr < toks.len() {
            instr
        } else {
            toks.len()
        };
        proof {
            lemma_sum_token_lens_clip(tv, bound as int, instr as int);
            assert(sum_token_lens(tv, 0) == 0);
        }
        while x < bound
            invariant
                bound <= toks@.len(),
                0 <= x <= bound,
                tv == views_of(toks@),
                instr + 1 + sum_token_lens(tv, x as int) <= usize::MAX ==> offset == instr + 1
                    + sum_token_lens(tv, x as int),
                instr + 1 + sum_token_lens(tv, x as int) > usize::MAX ==> offset == usize::MAX,
            decreases bound - x,
        {
            let tlen: usize = toks[x].as_str().unicode_len();
            if offset <= usize::MAX - tlen {
                offset = offset + tlen;
            } else {
                offset = usize::MAX;
            }
            proof {
                assert(tv[x as int] == toks@[x as int]@);
                assert(sum_token_lens(tv, x + 1) == sum_token_lens(tv, x as int)
                    + tv[x as int].len());
            }
            x = x + 1;
        }
        AsmError { kind, token, line, position: offset }
    }
}

/// Tokens past the end of the list contribute nothing to the column sum.
proof fn lemma_sum_token_lens_clip(toks: Seq<Seq<char>>, bound: int, instr: int)
    requires
        bound == if instr < toks.len() {
            instr
        } else {
            toks.len() as int
        },
        0 <= instr,
    ensures
        sum_token_lens(toks, instr) == sum_token_lens(toks, bound),
    decreases instr,
{
    if instr > bound {
        lemma_sum_token_lens_clip(toks, bound, instr - 1);
    }
}

} // verus!
