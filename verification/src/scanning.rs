//! The loops over bytes that the lexer is made of.

use crate::lexical::{
    bump, decimal, is_blank, is_digit, is_letter, newlines, run_end, text, trivia_end, ByteClass,
    HASH, NEWLINE, QUOTE, UNDERSCORE,
};
use vstd::prelude::*;
use vstd::string::StringSliceAdditionalSpecFns;
use vstd::utf8::{
    encode_utf8_decode_utf8, encode_utf8_valid_utf8, is_char_boundary,
    is_char_boundary_iff_not_is_continuation_byte, is_char_boundary_start_end_of_seq,
    pop_first_scalar, valid_utf8, valid_utf8_split,
};

verus! {

pub fn digit(b: u8) -> (r: bool)
    ensures
        r == is_digit(b),
{
    48 <= b && b <= 57
}

pub fn letter(b: u8) -> (r: bool)
    ensures
        r == is_letter(b),
{
    (65 <= b && b <= 90) || (97 <= b && b <= 122)
}

pub fn blank(b: u8) -> (r: bool)
    ensures
        r == is_blank(b),
{
    b == 32 || b == 9 || b == 10 || b == 12 || b == 13
}

impl ByteClass {
    pub fn holds(&self, b: u8) -> (r: bool)
        ensures
            r == self.accepts(b),
    {
        match self {
            ByteClass::Digit => digit(b),
            ByteClass::Word => letter(b) || digit(b) || b == UNDERSCORE,
            ByteClass::Quoted => b != QUOTE,
        }
    }
}

/// Finds where the run of bytes of one class that starts at `start` ends.
pub fn run(bytes: &[u8], start: usize, class: ByteClass) -> (end: usize)
    requires
        start <= bytes@.len(),
    ensures
        end == run_end(bytes@, start as int, class),
        start <= end <= bytes@.len(),
        forall|j: int| start <= j < end ==> class.accepts(#[trigger] bytes@[j]),
        end < bytes@.len() ==> !class.accepts(bytes@[end as int]),
{
    let mut i: usize = start;
    while i < bytes.len() && class.holds(bytes[i])
        invariant
            start <= i <= bytes@.len(),
            run_end(bytes@, start as int, class) == run_end(bytes@, i as int, class),
            forall|j: int| start <= j < i ==> class.accepts(#[trigger] bytes@[j]),
        decreases bytes@.len() - i,
    {
        i += 1;
    }
    i
}

/// Skips blanks and comments from `start` on and counts the lines that end
/// among them.
pub fn skip_trivia(bytes: &[u8], start: usize, line: usize) -> (r: (usize, usize))
    requires
        start <= bytes@.len(),
    ensures
        r.0 == trivia_end(bytes@, start as int, false),
        r.1 == bump(line as nat, newlines(bytes@, start as int, r.0 as int)),
        start <= r.0 <= bytes@.len(),
        r.0 < bytes@.len() ==> !is_blank(bytes@[r.0 as int]) && bytes@[r.0 as int] != HASH,
{
    let mut i: usize = start;
    let mut reached: usize = line;
    let mut in_comment = false;
    loop
        invariant
            start <= i <= bytes@.len(),
            trivia_end(bytes@, start as int, false) == trivia_end(bytes@, i as int, in_comment),
            reached == bump(line as nat, newlines(bytes@, start as int, i as int)),
        ensures
            !in_comment,
            i == bytes@.len() || (!is_blank(bytes@[i as int]) && bytes@[i as int] != HASH),
        decreases bytes@.len() - i, (if in_comment { 1nat } else { 0nat }),
    {
        if i >= bytes.len() {
            in_comment = false;
            break ;
        }
        let b = bytes[i];
        if in_comment {
            if b == NEWLINE {
                in_comment = false;
            } else {
                i += 1;
            }
        } else if blank(b) {
            if b == NEWLINE && reached < usize::MAX {
                reached += 1;
            }
            i += 1;
        } else if b == HASH {
            in_comment = true;
            i += 1;
        } else {
            break ;
        }
    }
    (i, reached)
}

/// A position right behind an ASCII byte starts a character.
pub proof fn lemma_boundary_behind_ascii(bytes: Seq<u8>, i: int)
    requires
        valid_utf8(bytes),
        0 < i <= bytes.len(),
        bytes[i - 1] < 128,
    ensures
        is_char_boundary(bytes, i),
{
    if i == bytes.len() {
        is_char_boundary_start_end_of_seq(bytes);
    } else {
        is_char_boundary_iff_not_is_continuation_byte(bytes, i - 1);
        valid_utf8_split(bytes, i - 1);
        let tail = bytes.subrange(i - 1, bytes.len() as int);
        assert(tail[0] == bytes[i - 1]);
        assert(valid_utf8(tail));
        let behind = pop_first_scalar(tail);
        assert(behind =~= bytes.subrange(i, bytes.len() as int));
        assert(valid_utf8(behind));
        assert(behind[0] == bytes[i]);
        is_char_boundary_iff_not_is_continuation_byte(bytes, i);
    }
}

/// A position on an ASCII byte, or at the end, starts a character.
pub proof fn lemma_boundary_on_ascii(bytes: Seq<u8>, i: int)
    requires
        valid_utf8(bytes),
        0 <= i <= bytes.len(),
        i < bytes.len() ==> bytes[i] < 128,
    ensures
        is_char_boundary(bytes, i),
{
    if i == bytes.len() {
        is_char_boundary_start_end_of_seq(bytes);
    } else {
        is_char_boundary_iff_not_is_continuation_byte(bytes, i);
    }
}

/// Copies the characters between two positions of a text.
pub fn text_between(source: &str, from: usize, to: usize) -> (r: String)
    requires
        from <= to <= source.spec_bytes().len(),
        is_char_boundary(source.spec_bytes(), from as int),
        is_char_boundary(source.spec_bytes(), to as int),
    ensures
        r@ == text(source.spec_bytes(), from as int, to as int),
{
    let ghost bytes = source.spec_bytes();
    proof {
        encode_utf8_valid_utf8(source@);
        valid_utf8_split(bytes, to as int);
    }
    let (head, _) = source.split_at(to);
    proof {
        let head_bytes = bytes.subrange(0, to as int);
        assert(head.spec_bytes() == head_bytes);
        if from == to {
            is_char_boundary_start_end_of_seq(head_bytes);
        } else {
            is_char_boundary_iff_not_is_continuation_byte(bytes, from as int);
            is_char_boundary_iff_not_is_continuation_byte(head_bytes, from as int);
        }
    }
    let (_, piece) = head.split_at(from);
    let r = piece.to_owned();
    proof {
        assert(piece.spec_bytes() =~= bytes.subrange(from as int, to as int));
        encode_utf8_decode_utf8(r@);
    }
    r
}

/// The largest magnitude that an integer literal may have, and one more.
pub const MAGNITUDE_CAP: u64 = 0x8000_0001;

/// Reads the digits in `bytes[from..to]` as a number, which is capped.
pub fn magnitude(bytes: &[u8], from: usize, to: usize) -> (r: u64)
    requires
        from <= to <= bytes@.len(),
        forall|j: int| from <= j < to ==> is_digit(#[trigger] bytes@[j]),
    ensures
        r <= MAGNITUDE_CAP,
        r < MAGNITUDE_CAP ==> r == decimal(bytes@.subrange(from as int, to as int)),
        r == MAGNITUDE_CAP ==> decimal(bytes@.subrange(from as int, to as int)) >= MAGNITUDE_CAP,
{
    let mut value: u64 = 0;
    let mut i: usize = from;
    assert(bytes@.subrange(from as int, from as int) =~= Seq::<u8>::empty());
    while i < to
        invariant
            from <= i <= to <= bytes@.len(),
            forall|j: int| from <= j < to ==> is_digit(#[trigger] bytes@[j]),
            value <= MAGNITUDE_CAP,
            value < MAGNITUDE_CAP ==> value == decimal(bytes@.subrange(from as int, i as int)),
            value == MAGNITUDE_CAP ==> decimal(bytes@.subrange(from as int, i as int))
                >= MAGNITUDE_CAP,
        decreases to - i,
    {
        proof {
            let longer = bytes@.subrange(from as int, i + 1);
            assert(longer.drop_last() =~= bytes@.subrange(from as int, i as int));
            assert(longer.last() == bytes@[i as int]);
        }
        let d: u64 = (bytes[i] - 48) as u64;
        let next: u64 = value * 10 + d;
        value = if next > MAGNITUDE_CAP {
            MAGNITUDE_CAP
        } else {
            next
        };
        i += 1;
    }
    value
}

} // verus!
