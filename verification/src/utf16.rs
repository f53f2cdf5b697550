//! UTF-16 strings for the wide-character system interface.

use vstd::prelude::*;

verus! {

broadcast use vstd::string::group_string_axioms;

/// The code units of one character: one unit inside the basic plane, a
/// surrogate pair outside it.
pub open spec fn utf16_units(c: char) -> Seq<u16> {
    let v = c as int;
    if v < 0x1_0000 {
        seq![v as u16]
    } else {
        seq![
            (0xD800 + (v - 0x1_0000) / 0x400) as u16,
            (0xDC00 + (v - 0x1_0000) % 0x400) as u16,
        ]
    }
}

/// The code units of a text, character by character.
pub open spec fn encode_utf16(s: Seq<char>) -> Seq<u16>
    decreases s.len(),
{
    if s.len() == 0 {
        Seq::empty()
    } else {
        encode_utf16(s.drop_last()) + utf16_units(s.last())
    }
}

/// Whether a code unit is the second half of a surrogate pair.
pub open spec fn is_low_surrogate(u: u16) -> bool {
    0xDC00 <= u <= 0xDFFF
}

/// The text that a sequence of code units stands for, read from the end.
pub open spec fn decode_utf16(units: Seq<u16>) -> Seq<char>
    decreases units.len(),
{
    if units.len() == 0 {
        Seq::empty()
    } else if is_low_surrogate(units.last()) && units.len() >= 2 {
        let n = units.len() as int;
        let v = 0x1_0000 + (units[n - 2] - 0xD800) * 0x400 + (units[n - 1] - 0xDC00);
        decode_utf16(units.take(n - 2)).push(v as char)
    } else {
        decode_utf16(units.drop_last()).push(units.last() as char)
    }
}

/// A character is a Unicode scalar value.
proof fn lemma_char_range(c: char)
    ensures
        0 <= c as int <= 0x10_FFFF,
        !(0xD800 <= c as int <= 0xDFFF),
        c as u32 == c as int,
{
}

/// A text can be read back from its code units.
pub proof fn law_utf16_round_trip(s: Seq<char>)
    ensures
        decode_utf16(encode_utf16(s)) == s,
    decreases s.len(),
{
    if s.len() > 0 {
        law_utf16_round_trip(s.drop_last());
        let head = encode_utf16(s.drop_last());
        let units = encode_utf16(s);
        let c = s.last();
        let v = c as int;
        lemma_char_range(c);
        let n = units.len() as int;
        if v < 0x1_0000 {
            assert(units.drop_last() =~= head);
            assert(units.last() == v as u16);
            assert(!is_low_surrogate(units.last()));
        } else {
            assert(units.take(n - 2) =~= head);
            let hi = units[n - 2];
            let lo = units[n - 1];
            assert(0 <= v - 0x1_0000 < 0x10_0000);
            assert(hi == 0xD800 + (v - 0x1_0000) / 0x400);
            assert(lo == 0xDC00 + (v - 0x1_0000) % 0x400);
            assert(0x1_0000 + (hi - 0xD800) * 0x400 + (lo - 0xDC00) == v);
        }
        assert(decode_utf16(units) =~= s.drop_last().push(c));
        assert(s =~= s.drop_last().push(c));
    }
}

/// A text without the null character has no zero among its code units, so the
/// first zero of its null-terminated form is the terminator.
pub proof fn law_no_interior_null(s: Seq<char>)
    requires
        forall|i: int| 0 <= i < s.len() ==> s[i] != '\0',
    ensures
        forall|j: int| 0 <= j < encode_utf16(s).len() ==> encode_utf16(s)[j] != 0,
    decreases s.len(),
{
    if s.len() > 0 {
        law_no_interior_null(s.drop_last());
        let head = encode_utf16(s.drop_last());
        let tail = utf16_units(s.last());
        lemma_char_range(s.last());
        assert forall|j: int| 0 <= j < encode_utf16(s).len() implies encode_utf16(s)[j] != 0 by {
            if j < head.len() {
                assert(encode_utf16(s)[j] == head[j]);
            } else {
                assert(encode_utf16(s)[j] == tail[j - head.len()]);
                assert(s.last() != '\0');
            }
        }
    }
}

/// The UTF-16 form of `s`, closed by a zero.
pub fn wstr(s: &str) -> (units: Vec<u16>)
    ensures
        units@ == encode_utf16(s@).push(0),
{
    let mut units: Vec<u16> = Vec::new();
    for c in it: s.chars()
        invariant
            it.seq() == s@,
            units@ == encode_utf16(s@.take(it.index() as int)),
    {
        let ghost k = it.index() as int;
        proof {
            lemma_char_range(c);
        }
        let v: u32 = c as u32;
        proof {
            assert(s@.take(k + 1).drop_last() =~= s@.take(k));
            assert(s@.take(k + 1).last() == c);
        }
        if v < 0x1_0000 {
            units.push(v as u16);
        } else {
            let rest: u32 = v - 0x1_0000;
            units.push((0xD800 + rest / 0x400) as u16);
            units.push((0xDC00 + rest % 0x400) as u16);
        }
        assert(units@ =~= encode_utf16(s@.take(k)) + utf16_units(c));
    }
    assert(s@.take(s@.len() as int) =~= s@);
    units.push(0);
    units
}

/// Characters are encoded one after the other: one of the basic plane as itself, any other
/// as a high and a low surrogate that hold ten bits each of what it is beyond that plane.
pub proof fn law_characters_are_encoded_in_turn(s: Seq<char>, c: char)
    ensures
        s.len() == 0 ==> encode_utf16(s).len() == 0,
        encode_utf16(s.push(c)) == encode_utf16(s) + utf16_units(c),
        c as int <= 0xFFFF ==> utf16_units(c).len() == 1 && utf16_units(c)[0] == c as int,
        c as int > 0xFFFF ==> ({
            let units = utf16_units(c);
            &&& units.len() == 2
            &&& 0xD800 <= units[0] <= 0xDBFF
            &&& 0xDC00 <= units[1] <= 0xDFFF
            &&& (units[0] - 0xD800) * 1024 + (units[1] - 0xDC00) == c as int - 0x1_0000
        }),
{
    lemma_char_range(c);
    assert(s.push(c).drop_last() =~= s);
}

} // verus!
