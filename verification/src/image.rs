//! The Memory Image: a fixed 65536-word addressable store holding the
//! static bootstrap tables and the final linked program.
//!
//! The fixed bootstrap layout is part of the binary contract: character
//! tables at 0x0200 onward, a display buffer pre-filled with the display
//! idle word at 0x0300 onward, and an entry stub written at 0x1000 by the
//! linker.  The image is serialized as 65536 big-endian 16-bit words.

use vstd::prelude::*;

use crate::opcodes;

verus! {

/// The number of addressable words.
pub const IMAGE_WORDS: usize = 65536;

/// The fixed, non-program-derived word at address `a`: the character
/// tables, the idle-filled display buffer, and zero everywhere else.
pub open spec fn bootstrap_word(a: int) -> u16 {
    if 0x0200 <= a < 0x021A {
        (0x41 + (a - 0x0200)) as u16  // 'A' to 'Z'
    } else if 0x0220 <= a < 0x023A {
        (0x61 + (a - 0x0220)) as u16  // 'a' to 'z'
    } else if 0x0240 <= a < 0x0249 {
        (0x30 + (a - 0x0240)) as u16  // '0' to '8'
    } else if a == 0x021A {
        0x21  // '!'
    } else if a == 0x021B {
        0x22  // '"'
    } else if a == 0x021C {
        0x23  // '#'
    } else if a == 0x021D {
        0x24  // '$'
    } else if a == 0x021E {
        0x5B  // '['
    } else if a == 0x021F {
        0x5D  // ']'
    } else if a == 0x023A {
        0x2F  // '/'
    } else if a == 0x023B {
        0x3C  // '<'
    } else if a == 0x023C {
        0x3E  // '>'
    } else if a == 0x023D {
        0x3D  // '='
    } else if a == 0x023E {
        0x2D  // '-'
    } else if a == 0x023F {
        0x7E  // '~'
    } else if a == 0x024A {
        0x3A  // ':'
    } else if a == 0x024B {
        0x5F  // '_'
    } else if a == 0x024C {
        0x7C  // '|'
    } else if a == 0x024D {
        0x26  // '&'
    } else if a == 0x024E {
        0x3F  // '?'
    } else if a == 0x024F {
        0x40  // '@'
    } else if a == 0x0250 {
        0x20  // space
    } else if a == 0x0251 {
        0x2E  // '.'
    } else if 0x0300 <= a < 0x1000 {
        opcodes::GPU_NO_OPERAT
    } else {
        0
    }
}

/// Executable counterpart of [`bootstrap_word`].
pub fn boot_word(a: usize) -> (w: u16)
    ensures
        w == bootstrap_word(a as int),
{
    if 0x0200 <= a && a < 0x021A {
        0x41 + (a - 0x0200) as u16
    } else if 0x0220 <= a && a < 0x023A {
        0x61 + (a - 0x0220) as u16
    } else if 0x0240 <= a && a < 0x0249 {
        0x30 + (a - 0x0240) as u16
    } else if a == 0x021A {
        0x21
    } else if a == 0x021B {
        0x22
    } else if a == 0x021C {
        0x23
    } else if a == 0x021D {
        0x24
    } else if a == 0x021E {
        0x5B
    } else if a == 0x021F {
        0x5D
    } else if a == 0x023A {
        0x2F
    } else if a == 0x023B {
        0x3C
    } else if a == 0x023C {
        0x3E
    } else if a == 0x023D {
        0x3D
    } else if a == 0x023E {
        0x2D
    } else if a == 0x023F {
        0x7E
    } else if a == 0x024A {
        0x3A
    } else if a == 0x024B {
        0x5F
    } else if a == 0x024C {
        0x7C
    } else if a == 0x024D {
        0x26
    } else if a == 0x024E {
        0x3F
    } else if a == 0x024F {
        0x40
    } else if a == 0x0250 {
        0x20
    } else if a == 0x0251 {
        0x2E
    } else if 0x0300 <= a && a < 0x1000 {
        opcodes::GPU_NO_OPERAT
    } else {
        0
    }
}

/// The flat 65536-word memory image.
#[derive(Debug)]
pub struct Image {
    /// The image's words, indexed directly by address.
    pub words: Vec<u16>,
}

impl Image {
    /// An image spans the whole address space.
    pub open spec fn wf(self) -> bool {
        self.words@.len() == IMAGE_WORDS
    }

    /// The image as first programmed, before any user content: every
    /// address holds its fixed bootstrap word.
    #[verifier::loop_isolation(false)]
    pub fn new_boot() -> (img: Image)
        ensures
            img.wf(),
            forall|a: int| 0 <= a < IMAGE_WORDS ==> img.words@[a] == bootstrap_word(a),
    {
        let mut words: Vec<u16> = Vec::new();
        let mut a: usize = 0;
        while a < IMAGE_WORDS
            invariant
                0 <= a <= IMAGE_WORDS,
                words@.len() == a,
                forall|i: int| 0 <= i < a ==> words@[i] == bootstrap_word(i),
            decreases IMAGE_WORDS - a,
        {
            words.push(boot_word(a));
            a = a + 1;
        }
        Image { words }
    }

    /// The word at `addr`.
    pub fn word(&self, addr: usize) -> (w: u16)
        requires
            self.wf(),
            addr < IMAGE_WORDS,
        ensures
            w == self.words@[addr as int],
    {
        self.words[addr]
    }

    /// Writes the word at `addr`.
    pub fn set_word(&mut self, addr: usize, w: u16)
        requires
            old(self).wf(),
            addr < IMAGE_WORDS,
        ensures
            final(self).wf(),
            final(self).words@ == old(self).words@.update(addr as int, w),
    {
        self.words.set(addr, w);
    }

    /// The high byte of a word, serialized first.
    pub open spec fn hi8(w: u16) -> u8 {
        (w / 256) as u8
    }

    /// The low byte of a word, serialized second.
    pub open spec fn lo8(w: u16) -> u8 {
        (w % 256) as u8
    }

    /// Serializes the image: every word in address order, most-significant
    /// byte first.
    #[verifier::loop_isolation(false)]
    pub fn to_bytes(&self) -> (bytes: Vec<u8>)
        requires
            self.wf(),
        ensures
            bytes@.len() == 2 * IMAGE_WORDS,
            forall|a: int|
                0 <= a < IMAGE_WORDS ==> bytes@[2 * a] == Image::hi8(#[trigger] self.words@[a])
                    && bytes@[2 * a + 1] == Image::lo8(self.words@[a]),
    {
        let mut bytes: Vec<u8> = Vec::new();
        let mut a: usize = 0;
        while a < IMAGE_WORDS
            invariant
                0 <= a <= IMAGE_WORDS,
                bytes@.len() == 2 * a,
                forall|i: int|
                    0 <= i < a ==> bytes@[2 * i] == Image::hi8(#[trigger] self.words@[i])
                        && bytes@[2 * i + 1] == Image::lo8(self.words@[i]),
            decreases IMAGE_WORDS - a,
        {
            let w = self.words[a];
            bytes.push((w / 256) as u8);
            bytes.push((w % 256) as u8);
            a = a + 1;
        }
        bytes
    }

    /// Counts the words that consume capacity: every word that is neither
    /// zero nor the display idle word.
    #[verifier::loop_isolation(false)]
    pub fn count_used(&self) -> (n: usize)
        requires
            self.wf(),
        ensures
            n == used_words(self.words@),
    {
        let mut n: usize = 0;
        let mut a: usize = 0;
        while a < IMAGE_WORDS
            invariant
                0 <= a <= IMAGE_WORDS,
                n <= a,
                n == used_words(self.words@.take(a as int)),
            decreases IMAGE_WORDS - a,
        {
            let w = self.words[a];
            proof {
                assert(self.words@.take(a + 1).drop_last() =~= self.words@.take(a as int));
                assert(self.words@.take(a + 1).last() == self.words@[a as int]);
            }
            if w != 0x0000 && w != opcodes::GPU_NO_OPERAT {
                n = n + 1;
            }
            a = a + 1;
        }
        proof {
            assert(self.words@.take(IMAGE_WORDS as int) =~= self.words@);
        }
        n
    }
}

/// How many of a word sequence's entries are neither zero nor the display
/// idle word.
pub open spec fn used_words(s: Seq<u16>) -> int
    decreases s.len(),
{
    if s.len() == 0 {
        0
    } else {
        used_words(s.drop_last()) + if s.last() != 0u16 && s.last() != opcodes::GPU_NO_OPERAT {
            1int
        } else {
            0int
        }
    }
}

/// A word's count never exceeds the sequence length.
pub proof fn lemma_used_words_le(s: Seq<u16>)
    ensures
        0 <= used_words(s) <= s.len(),
    decreases s.len(),
{
    if s.len() > 0 {
        lemma_used_words_le(s.drop_last());
    }
}

/// The 16-bit word two serialized bytes read back as, most-significant
/// byte first.
pub open spec fn word_of_bytes(hi: u8, lo: u8) -> u16 {
    (hi as u16 * 256 + lo as u16) as u16
}

/// Reads back the word serialized at address `addr` of a byte stream.
pub fn word_from_bytes(bytes: &Vec<u8>, addr: usize) -> (w: u16)
    requires
        2 * addr + 1 < bytes@.len(),
    ensures
        w == word_of_bytes(bytes@[2 * addr as int], bytes@[2 * addr as int + 1]),
{
    let _n = bytes.len();
    let hi = bytes[2 * addr];
    let lo = bytes[2 * addr + 1];
    (hi as u16) * 256 + (lo as u16)
}

/// Serialization round-trip for one word: splitting a word into its two
/// big-endian bytes and reading them back yields the word again.
pub proof fn lemma_word_byte_round_trip(w: u16)
    ensures
        word_of_bytes(Image::hi8(w), Image::lo8(w)) == w,
{
}

/// Re-reading the serialized image's character-table region reproduces
/// the fixed glyph table exactly: for every glyph address, the big-endian
/// word in the byte stream equals the bootstrap word.
pub proof fn lemma_bootstrap_round_trip(img: Image, bytes: Seq<u8>)
    requires
        img.wf(),
        bytes.len() == 2 * IMAGE_WORDS,
        forall|a: int|
            0 <= a < IMAGE_WORDS ==> bytes[2 * a] == Image::hi8(#[trigger] img.words@[a])
                && bytes[2 * a + 1] == Image::lo8(img.words@[a]),
        forall|a: int| 0x0200 <= a <= 0x0251 ==> img.words@[a] == bootstrap_word(a),
    ensures
        forall|a: int|
            0x0200 <= a <= 0x0251 ==> word_of_bytes(bytes[2 * a], bytes[2 * a + 1])
                == bootstrap_word(a),
{
    assert forall|a: int| 0x0200 <= a <= 0x0251 implies word_of_bytes(
        bytes[2 * a],
        bytes[2 * a + 1],
    ) == bootstrap_word(a) by {
        lemma_word_byte_round_trip(img.words@[a]);
    }
}

} // verus!
