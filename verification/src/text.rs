//! Characters, string equality and the line tokenizer.

use vstd::prelude::*;

verus! {

/// The character sequences a token list reads as.
pub open spec fn views_of(toks: Seq<String>) -> Seq<Seq<char>> {
    toks.map_values(|t: String| t@)
}

/// The 16-bit word a character contributes to an emitted instruction:
/// its scalar value, reduced to the low 16 bits.
pub open spec fn char_word(c: char) -> u16 {
    ((c as u32) % 0x10000) as u16
}

/// Executable counterpart of [`char_word`].
pub fn char_to_word(c: char) -> (w: u16)
    ensures
        w == char_word(c),
{
    let x: u32 = c as u32;
    (x % 0x10000) as u16
}

/// Character-by-character string comparison: true exactly when the two
/// strings read as the same character sequence.
pub fn str_eq(a: &str, b: &str) -> (r: bool)
    ensures
        r <==> a@ == b@,
{
    let an: usize = a.unicode_len();
    let bn: usize = b.unicode_len();
    if an != bn {
        return false;
    }
    let mut i: usize = 0;
    while i < an
        invariant
            an == a@.len(),
            an == b@.len(),
            0 <= i <= an,
            forall|j: int| 0 <= j < i ==> a@[j] == b@[j],
        decreases an - i,
    {
        if a.get_char(i) != b.get_char(i) {
            return false;
        }
        i = i + 1;
    }
    proof {
        assert(a@ =~= b@);
    }
    true
}

/// The pieces of `s` from position `i` on, split at the separator `sep`,
/// with `start` the position where the piece under construction began;
/// empty pieces are kept.
pub open spec fn split_from(s: Seq<char>, i: int, start: int, sep: char) -> Seq<Seq<char>>
    decreases s.len() - i,
{
    if i >= s.len() || i < 0 {
        seq![s.subrange(start, s.len() as int)]
    } else if s[i] == sep {
        seq![s.subrange(start, i)] + split_from(s, i + 1, i + 1, sep)
    } else {
        split_from(s, i + 1, start, sep)
    }
}

/// The token list of a source line: the line split at each space character.
pub open spec fn split_spaces(s: Seq<char>) -> Seq<Seq<char>> {
    split_from(s, 0, 0, ' ')
}

/// A line with a trailing carriage return dropped, where one stands.
pub open spec fn strip_cr(s: Seq<char>) -> Seq<char> {
    if s.len() > 0 && s.last() == '\r' {
        s.drop_last()
    } else {
        s
    }
}

/// The line list of a source text: the text split at each newline, a
/// trailing empty piece dropped, and a carriage return before each
/// newline dropped.
pub open spec fn split_lines_spec(s: Seq<char>) -> Seq<Seq<char>> {
    let raw = split_from(s, 0, 0, '\n');
    let kept = if raw.last() == Seq::<char>::empty() {
        raw.drop_last()
    } else {
        raw
    };
    kept.map_values(|l: Seq<char>| strip_cr(l))
}

/// A split always yields at least one piece.
pub proof fn lemma_split_from_nonempty(s: Seq<char>, i: int, start: int, sep: char)
    ensures
        split_from(s, i, start, sep).len() >= 1,
    decreases s.len() - i,
{
    if i >= s.len() || i < 0 {
    } else if s[i] == sep {
        lemma_split_from_nonempty(s, i + 1, i + 1, sep);
    } else {
        lemma_split_from_nonempty(s, i + 1, start, sep);
    }
}

/// Splits a whole source text into lines at each newline character; a
/// trailing empty line is dropped, and a carriage return before each
/// newline is dropped.
#[verifier::loop_isolation(false)]
pub fn split_lines(text: &str) -> (lines: Vec<String>)
    ensures
        views_of(lines@) == split_lines_spec(text@),
{
    let mut lines = split_at(text, '\n');
    proof {
        lemma_split_from_nonempty(text@, 0, 0, '\n');
    }
    if lines[lines.len() - 1].as_str().unicode_len() == 0 {
        let ghost pre = lines@;
        lines.pop();
        proof {
            assert(views_of(pre)[pre.len() - 1] == pre[pre.len() - 1]@);
            assert(views_of(pre)[pre.len() - 1] =~= Seq::<char>::empty());
            assert(views_of(lines@) =~= views_of(pre).drop_last());
        }
    } else {
        proof {
            assert(views_of(lines@)[lines@.len() - 1] == lines@[lines@.len() - 1]@);
            assert(!(views_of(lines@).last() =~= Seq::<char>::empty()));
        }
    }
    let ghost kept = views_of(lines@);
    let n = lines.len();
    let mut i: usize = 0;
    while i < n
        invariant
            0 <= i <= n,
            n == lines@.len(),
            kept.len() == n,
            forall|j: int| i <= j < n ==> lines@[j]@ == kept[j],
            forall|j: int| 0 <= j < i ==> lines@[j]@ == strip_cr(#[trigger] kept[j]),
        decreases n - i,
    {
        let l = lines[i].as_str();
        let ll = l.unicode_len();
        if ll > 0 && l.get_char(ll - 1) == '\r' {
            let stripped = String::from_str(l.substring_char(0, ll - 1));
            proof {
                assert(stripped@ =~= strip_cr(kept[i as int]));
            }
            lines.set(i, stripped);
        }
        i = i + 1;
    }
    proof {
        assert(views_of(lines@) =~= kept.map_values(|l: Seq<char>| strip_cr(l)));
    }
    lines
}

/// Splits a source line into its whitespace-delimited tokens.
pub fn tokenize(line: &str) -> (toks: Vec<String>)
    ensures
        views_of(toks@) == split_spaces(line@),
        toks@.len() >= 1,
{
    let toks = split_at(line, ' ');
    proof {
        lemma_split_from_nonempty(line@, 0, 0, ' ');
    }
    toks
}

/// Splits `line` at every occurrence of the separator.
fn split_at(line: &str, sep: char) -> (toks: Vec<String>)
    ensures
        views_of(toks@) == split_from(line@, 0, 0, sep),
{
    let n: usize = line.unicode_len();
    let mut toks: Vec<String> = Vec::new();
    let mut start: usize = 0;
    let mut i: usize = 0;
    while i < n
        invariant
            n == line@.len(),
            0 <= start <= i <= n,
            views_of(toks@) + split_from(line@, i as int, start as int, sep)
                == split_from(line@, 0, 0, sep),
        decreases n - i,
    {
        if line.get_char(i) == sep {
            let piece = line.substring_char(start, i);
            let ghost old_toks = toks@;
            toks.push(String::from_str(piece));
            proof {
                assert(views_of(toks@) =~= old_toks.map_values(
                    |t: String| t@,
                ).push(piece@));
                assert(views_of(toks@) + split_from(
                    line@,
                    i + 1,
                    i + 1,
                    sep,
                ) =~= old_toks.map_values(|t: String| t@) + split_from(
                    line@,
                    i as int,
                    start as int,
                    sep,
                ));
            }
            start = i + 1;
        }
        i = i + 1;
    }
    let piece = line.substring_char(start, n);
    let ghost old_toks = toks@;
    toks.push(String::from_str(piece));
    proof {
        assert(views_of(toks@) =~= old_toks.map_values(
            |t: String| t@,
        ).push(piece@));
        assert(views_of(toks@) =~= old_toks.map_values(|t: String| t@)
            + split_from(line@, n as int, start as int, sep));
    }
    toks
}

} // verus!
