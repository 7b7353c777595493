//! Text values: the one-character buffer behind the editor of a `char`, and
//! the multiline marker for strings.

use vstd::prelude::*;

verus! {

/// A string-like value edited in a multiline text box.
pub struct EguiProbeMultiline<'a, T> {
    pub string: &'a mut T,
}

/// Number of bytes of the UTF-8 encoding of `c`.
pub open spec fn utf8_len(c: char) -> nat {
    let cp = c as u32;
    if cp < 0x80 {
        1
    } else if cp < 0x800 {
        2
    } else if cp < 0x10000 {
        3
    } else {
        4
    }
}

/// Continuation byte holding the six bits of `cp` from bit `shift` up.
pub open spec fn continuation(cp: u32, shift: u32) -> u8 {
    (0x80 + (cp / pow2(shift)) % 64) as u8
}

pub open spec fn pow2(shift: u32) -> u32 {
    if shift == 0 {
        1
    } else if shift == 6 {
        64
    } else if shift == 12 {
        4096
    } else {
        262144
    }
}

/// The UTF-8 encoding of `c`.
pub open spec fn utf8_of(c: char) -> Seq<u8> {
    let cp = c as u32;
    if cp < 0x80 {
        seq![cp as u8]
    } else if cp < 0x800 {
        seq![(0xC0 + cp / 64) as u8, continuation(cp, 0)]
    } else if cp < 0x10000 {
        seq![(0xE0 + cp / 4096) as u8, continuation(cp, 6), continuation(cp, 0)]
    } else {
        seq![
            (0xF0 + cp / 262144) as u8,
            continuation(cp, 12),
            continuation(cp, 6),
            continuation(cp, 0),
        ]
    }
}

/// A single character with its UTF-8 encoding, for a text field that edits
/// exactly one character.
pub struct CharBuffer {
    ch: char,
    buf: [u8; 4],
}

impl CharBuffer {
    /// The character held.
    pub closed spec fn held(&self) -> char {
        self.ch
    }

    /// The encoded bytes in use.
    pub closed spec fn encoded(&self) -> Seq<u8> {
        self.buf@.subrange(0, utf8_len(self.ch) as int)
    }

    pub closed spec fn wf(&self) -> bool {
        self.encoded() == utf8_of(self.ch)
    }

    fn encode(ch: char) -> (buf: [u8; 4])
        ensures
            buf@.subrange(0, utf8_len(ch) as int) == utf8_of(ch),
    {
        let cp = ch as u32;
        let mut buf: [u8; 4] = [0u8; 4];
        if cp < 0x80 {
            buf[0] = cp as u8;
        } else if cp < 0x800 {
            buf[0] = (0xC0 + cp / 64) as u8;
            buf[1] = (0x80 + cp % 64) as u8;
        } else if cp < 0x10000 {
            buf[0] = (0xE0 + cp / 4096) as u8;
            buf[1] = (0x80 + (cp / 64) % 64) as u8;
            buf[2] = (0x80 + cp % 64) as u8;
        } else {
            buf[0] = (0xF0 + cp / 262144) as u8;
            buf[1] = (0x80 + (cp / 4096) % 64) as u8;
            buf[2] = (0x80 + (cp / 64) % 64) as u8;
            buf[3] = (0x80 + cp % 64) as u8;
        }
        assert(buf@.subrange(0, utf8_len(ch) as int) =~= utf8_of(ch));
        buf
    }

    /// A buffer holding `ch`.
    pub fn new(ch: char) -> (r: CharBuffer)
        ensures
            r.wf(),
            r.held() == ch,
    {
        CharBuffer { ch, buf: Self::encode(ch) }
    }

    pub fn ch(&self) -> (r: char)
        ensures
            r == self.held(),
    {
        self.ch
    }

    /// Length in bytes of the held character's encoding.
    pub fn len_utf8(&self) -> (r: usize)
        ensures
            r == utf8_len(self.held()),
    {
        let cp = self.ch as u32;
        if cp < 0x80 {
            1
        } else if cp < 0x800 {
            2
        } else if cp < 0x10000 {
            3
        } else {
            4
        }
    }

    /// The byte at `i` of the held character's encoding.
    pub fn byte(&self, i: usize) -> (r: u8)
        requires
            self.wf(),
            i < utf8_len(self.held()),
        ensures
            r == utf8_of(self.held())[i as int],
    {
        assert(self.encoded()[i as int] == self.buf@[i as int]);
        self.buf[i]
    }

    /// Text typed at `char_index`: its first character replaces the held
    /// one. Typing past the single character, or nothing, changes nothing.
    /// Returns how many characters were taken.
    pub fn insert_text(&mut self, text: &str, char_index: usize) -> (r: usize)
        requires
            old(self).wf(),
        ensures
            final(self).wf(),
            char_index > 1 || text@.len() == 0 ==> r == 0 && final(self).held() == old(
                self,
            ).held(),
            char_index <= 1 && text@.len() > 0 ==> r == 1 && final(self).held() == text@[0],
    {
        if char_index > 1 {
            return 0;
        }
        let mut chars = text.chars();
        match chars.next() {
            None => 0,
            Some(c) => {
                self.ch = c;
                self.buf = Self::encode(c);
                1
            },
        }
    }
}

} // verus!
