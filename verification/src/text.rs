//! Reading text out of raw bytes: UTF-8 checks, trimming and hexadecimal numbers.

use vstd::prelude::*;
use vstd::slice::slice_subrange;
use vstd::utf8::*;

verus! {

/// The characters of the Unicode property White_Space.
pub open spec fn is_white_space(c: u32) -> bool {
    ||| 0x09 <= c <= 0x0D
    ||| c == 0x20
    ||| c == 0x85
    ||| c == 0xA0
    ||| c == 0x1680
    ||| 0x2000 <= c <= 0x200A
    ||| c == 0x2028
    ||| c == 0x2029
    ||| c == 0x202F
    ||| c == 0x205F
    ||| c == 0x3000
}

/// A text without its leading white space.
pub open spec fn trim_start(text: Seq<u8>) -> Seq<u8>
    decreases text.len(),
    when valid_utf8(text)
{
    if text.len() > 0 && is_white_space(decode_first_scalar(text)) {
        trim_start(pop_first_scalar(text))
    } else {
        text
    }
}

/// A text without its last character.
pub open spec fn pop_last_scalar(text: Seq<u8>) -> Seq<u8> {
    text.subrange(0, text.len() - length_of_last_scalar(text))
}

/// A text without its trailing white space.
pub open spec fn trim_end(text: Seq<u8>) -> Seq<u8>
    decreases text.len(),
    when valid_utf8(text)
    via trim_end_decreases
{
    if text.len() > 0 && is_white_space(decode_last_scalar(text)) {
        trim_end(pop_last_scalar(text))
    } else {
        text
    }
}

#[via_fn]
proof fn trim_end_decreases(text: Seq<u8>) {
    if text.len() > 0 {
        lemma_last_scalar(text);
    }
}

/// A text without its surrounding white space.
pub open spec fn trim(text: Seq<u8>) -> Seq<u8> {
    trim_end(trim_start(text))
}

/// The last character of a text starts at a character boundary inside it.
proof fn lemma_last_scalar(text: Seq<u8>)
    requires
        valid_utf8(text),
        text.len() > 0,
    ensures
        1 <= length_of_last_scalar(text) <= 4,
        length_of_last_scalar(text) <= text.len(),
        !is_continuation_byte(text[text.len() - length_of_last_scalar(text)]),
        valid_utf8(pop_last_scalar(text)),
    decreases text.len(),
{
    let rest = pop_first_scalar(text);
    let k = length_of_first_scalar(text);
    let n = text.len() as int;
    if rest.len() == 0 {
        assert(n == k);
    } else {
        lemma_last_scalar(rest);
        let m = rest.len() as int;
        assert(forall|i: int| 0 <= i < m ==> rest[i] == text[i + k]);
        assert(rest[m - 1] == text[n - 1]);
        if m >= 2 {
            assert(rest[m - 2] == text[n - 2]);
        }
        if m >= 3 {
            assert(rest[m - 3] == text[n - 3]);
        }
        if m >= 4 {
            assert(rest[m - 4] == text[n - 4]);
        }
        assert(length_of_last_scalar(text) == length_of_last_scalar(rest));
    }
    let cut = n - length_of_last_scalar(text);
    is_char_boundary_iff_not_is_continuation_byte(text, cut);
    valid_utf8_split(text, cut);
}

/// Trimming keeps a text well formed and takes nothing in that was not there.
pub proof fn lemma_trim_is_part(text: Seq<u8>)
    requires
        valid_utf8(text),
    ensures
        valid_utf8(trim(text)),
        forall|i: int| 0 <= i < trim(text).len() ==> text.contains(#[trigger] trim(text)[i]),
{
    lemma_trim_start_is_part(text);
    let middle = trim_start(text);
    lemma_trim_end_is_part(middle);
    assert forall|i: int| 0 <= i < trim(text).len() implies text.contains(
        #[trigger] trim(text)[i],
    ) by {
        let j = choose|j: int| 0 <= j < middle.len() && middle[j] == trim(text)[i];
        assert(text.contains(middle[j]));
    }
}

proof fn lemma_trim_start_is_part(text: Seq<u8>)
    requires
        valid_utf8(text),
    ensures
        valid_utf8(trim_start(text)),
        forall|i: int|
            0 <= i < trim_start(text).len() ==> text.contains(#[trigger] trim_start(text)[i]),
    decreases text.len(),
{
    if text.len() > 0 && is_white_space(decode_first_scalar(text)) {
        let rest = pop_first_scalar(text);
        lemma_trim_start_is_part(rest);
        assert forall|i: int| 0 <= i < trim_start(text).len() implies text.contains(
            #[trigger] trim_start(text)[i],
        ) by {
            let j = choose|j: int| 0 <= j < rest.len() && rest[j] == trim_start(rest)[i];
            assert(text[j + length_of_first_scalar(text)] == rest[j]);
        }
    }
}

proof fn lemma_trim_end_is_part(text: Seq<u8>)
    requires
        valid_utf8(text),
    ensures
        valid_utf8(trim_end(text)),
        forall|i: int|
            0 <= i < trim_end(text).len() ==> text.contains(#[trigger] trim_end(text)[i]),
    decreases text.len(),
{
    if text.len() > 0 && is_white_space(decode_last_scalar(text)) {
        lemma_last_scalar(text);
        let rest = pop_last_scalar(text);
        lemma_trim_end_is_part(rest);
        assert forall|i: int| 0 <= i < trim_end(text).len() implies text.contains(
            #[trigger] trim_end(text)[i],
        ) by {
            let j = choose|j: int| 0 <= j < rest.len() && rest[j] == trim_end(rest)[i];
            assert(text[j] == rest[j]);
        }
    }
}

/// Whether `bytes` are well-formed UTF-8.
pub fn is_utf8(bytes: &[u8]) -> (ok: bool)
    ensures
        ok == valid_utf8(bytes@),
{
    let n: usize = bytes.len();
    let mut pos: usize = 0;
    assert(bytes@.subrange(0, 0) =~= Seq::<u8>::empty());
    while pos < n
        invariant
            n == bytes@.len(),
            partial_valid_utf8(bytes@, pos as int),
        decreases n - pos,
    {
        let ghost tail = bytes@.subrange(pos as int, n as int);
        let step: usize = first_scalar_length(slice_subrange(bytes, pos, n));
        if step == 0 {
            proof {
                partial_valid_partial_invalid_utf8(bytes@, pos as int);
            }
            return false;
        }
        proof {
            partial_valid_utf8_extend(bytes@, pos as int);
        }
        pos = pos + step;
    }
    assert(bytes@.subrange(0, n as int) =~= bytes@);
    true
}

/// The length of the character that `bytes` start with, or zero if they do not
/// start with a well-formed one.
fn first_scalar_length(bytes: &[u8]) -> (k: usize)
    ensures
        (k > 0) == valid_first_scalar(bytes@),
        k > 0 ==> k == length_of_first_scalar(bytes@),
{
    let n: usize = bytes.len();
    if n == 0 {
        return 0;
    }
    let b1: u8 = bytes[0];
    if b1 <= 0x7F {
        proof {
            assert((b1 & 0x7F) as u32 <= 0x7F) by (bit_vector);
        }
        return 1;
    }
    if n < 2 || !(0x80 <= bytes[1] && bytes[1] <= 0xBF) {
        return 0;
    }
    let b2: u8 = bytes[1];
    if 0xC0 <= b1 && b1 <= 0xDF {
        let c: u32 = scalar_of_2(b1, b2);
        proof {
            assert((((b1 & 0x1F) as u32) << 6 | ((b2 & 0x3F) as u32)) < 0x800) by (bit_vector);
        }
        return if c >= 0x80 { 2 } else { 0 };
    }
    if n < 3 || !(0x80 <= bytes[2] && bytes[2] <= 0xBF) {
        return 0;
    }
    let b3: u8 = bytes[2];
    if 0xE0 <= b1 && b1 <= 0xEF {
        let c: u32 = scalar_of_3(b1, b2, b3);
        return if c >= 0x800 && !(0xD800 <= c && c <= 0xDFFF) { 3 } else { 0 };
    }
    if n < 4 || !(0x80 <= bytes[3] && bytes[3] <= 0xBF) {
        return 0;
    }
    let b4: u8 = bytes[3];
    if 0xF0 <= b1 && b1 <= 0xF7 {
        let c: u32 = scalar_of_4(b1, b2, b3, b4);
        return if 0x1_0000 <= c && c <= 0x10_FFFF { 4 } else { 0 };
    }
    0
}

fn scalar_of_2(b1: u8, b2: u8) -> (c: u32)
    ensures
        c == codepoint_width_2(b1, b2),
{
    (((b1 & 0x1F) as u32) << 6) | ((b2 & 0x3F) as u32)
}

fn scalar_of_3(b1: u8, b2: u8, b3: u8) -> (c: u32)
    ensures
        c == codepoint_width_3(b1, b2, b3),
{
    (((b1 & 0x0F) as u32) << 12) | (((b2 & 0x3F) as u32) << 6) | ((b3 & 0x3F) as u32)
}

fn scalar_of_4(b1: u8, b2: u8, b3: u8, b4: u8) -> (c: u32)
    ensures
        c == codepoint_width_4(b1, b2, b3, b4),
{
    (((b1 & 0x07) as u32) << 18) | (((b2 & 0x3F) as u32) << 12) | (((b3 & 0x3F) as u32) << 6) | ((b4
        & 0x3F) as u32)
}

fn white_space(c: u32) -> (yes: bool)
    ensures
        yes == is_white_space(c),
{
    (0x09 <= c && c <= 0x0D) || c == 0x20 || c == 0x85 || c == 0xA0 || c == 0x1680 || (0x2000 <= c
        && c <= 0x200A) || c == 0x2028 || c == 0x2029 || c == 0x202F || c == 0x205F || c == 0x3000
}

/// The length of the white-space character that `text` starts with, or zero.
fn leading_white_space(text: &[u8]) -> (k: usize)
    requires
        valid_utf8(text@),
    ensures
        (k > 0) == (text@.len() > 0 && is_white_space(decode_first_scalar(text@))),
        k > 0 ==> k == length_of_first_scalar(text@),
{
    if text.len() == 0 {
        return 0;
    }
    let k: usize = first_scalar_length(text);
    let b1: u8 = text[0];
    let c: u32 = if k == 1 {
        (b1 & 0x7F) as u32
    } else if k == 2 {
        scalar_of_2(b1, text[1])
    } else if k == 3 {
        scalar_of_3(b1, text[1], text[2])
    } else {
        scalar_of_4(b1, text[1], text[2], text[3])
    };
    if white_space(c) {
        k
    } else {
        0
    }
}

/// The length of the white-space character that `text` ends with, or zero.
fn trailing_white_space(text: &[u8]) -> (k: usize)
    requires
        valid_utf8(text@),
    ensures
        (k > 0) == (text@.len() > 0 && is_white_space(decode_last_scalar(text@))),
        k > 0 ==> k == length_of_last_scalar(text@),
{
    let n: usize = text.len();
    if n == 0 {
        return 0;
    }
    proof {
        lemma_last_scalar(text@);
    }
    let z: u8 = text[n - 1];
    let (k, c): (usize, u32) = if !(0x80 <= z && z <= 0xBF) {
        (1, (z & 0x7F) as u32)
    } else if !(0x80 <= text[n - 2] && text[n - 2] <= 0xBF) {
        (2, scalar_of_2(text[n - 2], z))
    } else if !(0x80 <= text[n - 3] && text[n - 3] <= 0xBF) {
        (3, scalar_of_3(text[n - 3], text[n - 2], z))
    } else {
        (4, scalar_of_4(text[n - 4], text[n - 3], text[n - 2], z))
    };
    if white_space(c) {
        k
    } else {
        0
    }
}

/// The text without its surrounding white space.
pub fn trimmed(text: &[u8]) -> (r: &[u8])
    requires
        valid_utf8(text@),
    ensures
        r@ == trim(text@),
        valid_utf8(r@),
        r@.len() <= text@.len(),
{
    let mut lo: usize = 0;
    let mut hi: usize = text.len();
    assert(text@.subrange(0, text@.len() as int) =~= text@);
    loop
        invariant
            lo <= hi == text@.len(),
            valid_utf8(text@.subrange(lo as int, hi as int)),
            trim_start(text@) == trim_start(text@.subrange(lo as int, hi as int)),
        ensures
            lo <= hi == text@.len(),
            valid_utf8(text@.subrange(lo as int, hi as int)),
            trim_start(text@) == text@.subrange(lo as int, hi as int),
        decreases hi - lo,
    {
        let ghost now = text@.subrange(lo as int, hi as int);
        let k: usize = leading_white_space(slice_subrange(text, lo, hi));
        if k == 0 {
            break;
        }
        assert(pop_first_scalar(now) =~= text@.subrange(lo + k, hi as int));
        lo = lo + k;
    }
    let ghost start = lo as int;
    loop
        invariant
            start == lo <= hi <= text@.len(),
            valid_utf8(text@.subrange(lo as int, hi as int)),
            trim(text@) == trim_end(text@.subrange(lo as int, hi as int)),
        ensures
            start == lo <= hi <= text@.len(),
            valid_utf8(text@.subrange(lo as int, hi as int)),
            trim(text@) == text@.subrange(lo as int, hi as int),
        decreases hi - lo,
    {
        let ghost now = text@.subrange(lo as int, hi as int);
        let k: usize = trailing_white_space(slice_subrange(text, lo, hi));
        if k == 0 {
            break;
        }
        proof {
            lemma_last_scalar(now);
            assert(pop_last_scalar(now) =~= text@.subrange(lo as int, hi - k));
        }
        hi = hi - k;
    }
    slice_subrange(text, lo, hi)
}

/// The value of a hexadecimal digit, or nothing for any other byte.
pub open spec fn hex_digit(b: u8) -> Option<nat> {
    if 0x30 <= b <= 0x39 {
        Some((b - 0x30) as nat)
    } else if 0x41 <= b <= 0x46 {
        Some((b - 0x41 + 10) as nat)
    } else if 0x61 <= b <= 0x66 {
        Some((b - 0x61 + 10) as nat)
    } else {
        None
    }
}

/// The number that a run of hexadecimal digits stands for.
pub open spec fn hex_value(digits: Seq<u8>) -> nat
    decreases digits.len(),
{
    if digits.len() == 0 {
        0
    } else {
        hex_value(digits.drop_last()) * 16 + hex_digit(digits.last()).unwrap()
    }
}

pub open spec fn all_hex(digits: Seq<u8>) -> bool {
    forall|i: int| 0 <= i < digits.len() ==> hex_digit(#[trigger] digits[i]) is Some
}

/// The digits of an unsigned number: a leading plus sign before at least one
/// more byte does not count.
pub open spec fn unsigned_digits(text: Seq<u8>) -> Seq<u8> {
    if text.len() >= 2 && text[0] == 0x2B {
        text.skip(1)
    } else {
        text
    }
}

/// The unsigned hexadecimal number that `text` spells, if it spells one and the
/// number is at most `max`.
pub open spec fn parse_hex(text: Seq<u8>, max: nat) -> Option<nat> {
    let digits = unsigned_digits(text);
    if digits.len() > 0 && all_hex(digits) && hex_value(digits) <= max {
        Some(hex_value(digits))
    } else {
        None
    }
}

/// More digits never make a number smaller.
proof fn lemma_hex_value_grows(digits: Seq<u8>, k: int)
    requires
        0 <= k <= digits.len(),
    ensures
        hex_value(digits.take(k)) <= hex_value(digits),
    decreases digits.len() - k,
{
    if k < digits.len() {
        lemma_hex_value_grows(digits, k + 1);
        assert(digits.take(k + 1).drop_last() =~= digits.take(k));
    } else {
        assert(digits.take(k) =~= digits);
    }
}

/// Reads an unsigned hexadecimal number that fits in 32 bits.
pub fn parse_hex_u32(text: &[u8]) -> (v: Option<u32>)
    ensures
        match v {
            Some(x) => parse_hex(text@, u32::MAX as nat) == Some(x as nat),
            None => parse_hex(text@, u32::MAX as nat) is None,
        },
{
    let n: usize = text.len();
    let start: usize = if n >= 2 && text[0] == 0x2B {
        1
    } else {
        0
    };
    let ghost digits = unsigned_digits(text@);
    if n == 0 {
        return None;
    }
    let mut value: u32 = 0;
    let mut i: usize = start;
    assert(digits.take(0) =~= Seq::<u8>::empty());
    while i < n
        invariant
            start <= i <= n,
            n == text@.len(),
            start <= 1,
            digits == unsigned_digits(text@),
            digits.len() == n - start,
            forall|j: int| 0 <= j < digits.len() ==> digits[j] == text@[j + start],
            forall|j: int| 0 <= j < i - start ==> hex_digit(#[trigger] digits[j]) is Some,
            value == hex_value(digits.take(i - start)),
        decreases n - i,
    {
        let b: u8 = text[i];
        let ghost k = i - start;
        assert(digits[k] == b);
        let d: u32 = if 0x30 <= b && b <= 0x39 {
            (b - 0x30) as u32
        } else if 0x41 <= b && b <= 0x46 {
            (b - 0x41 + 10) as u32
        } else if 0x61 <= b && b <= 0x66 {
            (b - 0x61 + 10) as u32
        } else {
            assert(!all_hex(digits));
            return None;
        };
        proof {
            assert(digits.take(k + 1).drop_last() =~= digits.take(k));
            lemma_hex_value_grows(digits, k + 1);
        }
        if value > 0x0FFF_FFFF {
            return None;
        }
        value = value * 16 + d;
        i = i + 1;
    }
    assert(digits.take(n - start) =~= digits);
    Some(value)
}

/// Whether a text has ASCII characters alone.
pub open spec fn is_ascii(text: Seq<u8>) -> bool {
    forall|i: int| 0 <= i < text.len() ==> #[trigger] text[i] <= 0x7F
}

/// ASCII text is well-formed UTF-8.
pub proof fn law_ascii_is_utf8(text: Seq<u8>)
    requires
        is_ascii(text),
    ensures
        valid_utf8(text),
    decreases text.len(),
{
    if text.len() > 0 {
        let b = text[0];
        lemma_ascii_code(b);
        let rest = pop_first_scalar(text);
        assert forall|i: int| 0 <= i < rest.len() implies #[trigger] rest[i] <= 0x7F by {
            assert(rest[i] == text[i + 1]);
        }
        law_ascii_is_utf8(rest);
    }
}

proof fn lemma_ascii_code(b: u8)
    requires
        b <= 0x7F,
    ensures
        codepoint_width_1(b) == b,
{
    assert((b & 0x7F) as u32 == b) by (bit_vector)
        requires
            b <= 0x7F,
    ;
}

/// Whether a byte is ASCII white space: a space, or one of the five control characters
/// from the tab to the carriage return.
pub open spec fn is_blank(b: u8) -> bool {
    b == 0x20 || 0x09 <= b <= 0x0D
}

/// Whether a text is ASCII white space alone.
pub open spec fn all_blank(text: Seq<u8>) -> bool {
    forall|i: int| 0 <= i < text.len() ==> is_blank(#[trigger] text[i])
}

/// Trimming takes away the white space before and after a text, however much there is,
/// and nothing of the text itself.
pub proof fn law_trim_leaves_the_text(pre: Seq<u8>, core: Seq<u8>, post: Seq<u8>)
    requires
        all_blank(pre),
        all_blank(post),
        valid_utf8(core),
        core.len() > 0 ==> core[0] <= 0x7F && !is_blank(core[0]) && core.last() <= 0x7F
            && !is_blank(core.last()),
    ensures
        trim(pre + core + post) == core,
{
    let tail = core + post;
    lemma_blank_is_ascii(pre);
    lemma_blank_is_ascii(post);
    law_ascii_is_utf8(post);
    valid_utf8_concat(core, post);
    assert(pre + core + post =~= pre + tail);
    if core.len() == 0 {
        assert(tail =~= post);
        assert(pre + tail =~= (pre + post) + core);
        assert forall|i: int| 0 <= i < (pre + post).len() implies is_blank(
            #[trigger] (pre + post)[i],
        ) by {
            if i < pre.len() {
                assert((pre + post)[i] == pre[i]);
            } else {
                assert((pre + post)[i] == post[i - pre.len()]);
            }
        }
        lemma_trim_start_blank(pre + post, core);
        assert(trim_start(core) == core);
        assert(trim_end(core) == core);
    } else {
        lemma_trim_start_blank(pre, tail);
        assert(tail[0] == core[0]);
        lemma_ascii_code(core[0]);
        assert(trim_start(tail) == tail);
        lemma_trim_end_blank(core, post);
        assert(core.last() == core[core.len() - 1]);
        lemma_ascii_code(core.last());
        assert(trim_end(core) == core);
    }
}

proof fn lemma_blank_is_ascii(text: Seq<u8>)
    requires
        all_blank(text),
    ensures
        is_ascii(text),
{
    assert forall|i: int| 0 <= i < text.len() implies #[trigger] text[i] <= 0x7F by {
        assert(is_blank(text[i]));
    }
}

proof fn lemma_trim_start_blank(pre: Seq<u8>, rest: Seq<u8>)
    requires
        all_blank(pre),
        valid_utf8(rest),
    ensures
        valid_utf8(pre + rest),
        trim_start(pre + rest) == trim_start(rest),
    decreases pre.len(),
{
    lemma_blank_is_ascii(pre);
    law_ascii_is_utf8(pre);
    valid_utf8_concat(pre, rest);
    let all = pre + rest;
    if pre.len() == 0 {
        assert(all =~= rest);
    } else {
        assert(is_blank(pre[0]));
        assert(all[0] == pre[0]);
        lemma_ascii_code(pre[0]);
        assert(pop_first_scalar(all) =~= pre.skip(1) + rest);
        assert forall|i: int| 0 <= i < pre.skip(1).len() implies is_blank(
            #[trigger] pre.skip(1)[i],
        ) by {
            assert(is_blank(pre[i + 1]));
        }
        lemma_trim_start_blank(pre.skip(1), rest);
        assert(is_white_space(decode_first_scalar(all)));
    }
}

proof fn lemma_trim_end_blank(rest: Seq<u8>, post: Seq<u8>)
    requires
        all_blank(post),
        valid_utf8(rest),
    ensures
        valid_utf8(rest + post),
        trim_end(rest + post) == trim_end(rest),
    decreases post.len(),
{
    lemma_blank_is_ascii(post);
    law_ascii_is_utf8(post);
    valid_utf8_concat(rest, post);
    let all = rest + post;
    if post.len() == 0 {
        assert(all =~= rest);
    } else {
        assert(is_blank(post[post.len() - 1]));
        assert(all[all.len() - 1] == post[post.len() - 1]);
        lemma_ascii_code(all[all.len() - 1]);
        assert(pop_last_scalar(all) =~= rest + post.drop_last());
        assert forall|i: int| 0 <= i < post.drop_last().len() implies is_blank(
            #[trigger] post.drop_last()[i],
        ) by {
            assert(is_blank(post[i]));
        }
        lemma_trim_end_blank(rest, post.drop_last());
        assert(is_white_space(decode_last_scalar(all)));
    }
}

/// White space among the ASCII characters is what is usually typed as such; beyond ASCII
/// it is the spaces and separators that Unicode lists.
pub proof fn law_white_space_characters(c: u32)
    ensures
        c <= 0x7F ==> (is_white_space(c) <==> is_blank(c as u8)),
        c > 0x7F && is_white_space(c) ==> c == 0x85 || c == 0xA0 || c == 0x1680 || 0x2000 <= c
            <= 0x200A || c == 0x2028 || c == 0x2029 || c == 0x202F || c == 0x205F || c == 0x3000,
        c == 0x85 || c == 0xA0 || c == 0x1680 || c == 0x2000 || c == 0x200A || c == 0x2028 || c
            == 0x2029 || c == 0x202F || c == 0x205F || c == 0x3000 ==> is_white_space(c),
        0x2000 < c < 0x200A ==> is_white_space(c),
{
}

/// Whether a byte is the hexadecimal digit of a value, in either case.
pub open spec fn is_digit_of(b: u8, value: int) -> bool {
    &&& 0 <= value < 16
    &&& if value < 10 {
        b == 0x30 + value
    } else {
        b == 0x41 + (value - 10) || b == 0x61 + (value - 10)
    }
}

/// Whether a byte is a hexadecimal digit.
pub open spec fn is_digit(b: u8) -> bool {
    exists|value: int| is_digit_of(b, value)
}

/// Whether a text spells hexadecimal digits of the given values.
pub open spec fn spells(text: Seq<u8>, values: Seq<int>) -> bool {
    &&& text.len() == values.len()
    &&& forall|i: int| 0 <= i < text.len() ==> is_digit_of(#[trigger] text[i], values[i])
}

/// Digits spell a number place by place: one more digit makes it sixteen times as large
/// and adds the digit's value. What spells a number at all is read as that number.
pub proof fn law_digits_spell_a_number(text: Seq<u8>, values: Seq<int>, b: u8, value: int, max: nat)
    requires
        spells(text, values),
        is_digit_of(b, value),
    ensures
        text.len() == 0 ==> hex_value(text) == 0,
        hex_value(text.push(b)) == 16 * hex_value(text) + value,
        parse_hex(text.push(b), max) == (if hex_value(text.push(b)) <= max {
            Some(hex_value(text.push(b)))
        } else {
            None
        }),
{
    let more = text.push(b);
    assert(more.drop_last() =~= text);
    assert forall|i: int| 0 <= i < more.len() implies hex_digit(#[trigger] more[i]) is Some by {
        if i < text.len() {
            assert(is_digit_of(text[i], values[i]));
        }
    }
    assert(unsigned_digits(more) == more) by {
        if text.len() > 0 {
            assert(is_digit_of(text[0], values[0]));
            assert(more[0] == text[0]);
        }
    }
}

/// A byte that is no digit spoils a number, wherever it stands but for a plus sign in
/// front of more.
pub proof fn law_other_bytes_spell_nothing(text: Seq<u8>, i: int, max: nat)
    requires
        0 <= i < text.len(),
        !is_digit(text[i]),
        i > 0 || text[0] != 0x2B || text.len() == 1,
    ensures
        parse_hex(text, max) is None,
{
    let b = text[i];
    assert(hex_digit(b) is None) by {
        assert(!is_digit_of(b, b - 0x30));
        assert(!is_digit_of(b, b - 0x41 + 10));
        assert(!is_digit_of(b, b - 0x61 + 10));
    }
    let digits = unsigned_digits(text);
    let k = if digits.len() == text.len() {
        i
    } else {
        i - 1
    };
    assert(digits[k] == b);
}

/// What is left of a text after trimming starts with its first character that is no
/// white space.
pub proof fn law_trim_keeps_the_first(pre: Seq<u8>, rest: Seq<u8>)
    requires
        all_blank(pre),
        valid_utf8(rest),
        rest.len() > 0,
        rest[0] <= 0x7F,
        !is_blank(rest[0]),
    ensures
        trim(pre + rest).len() > 0,
        trim(pre + rest)[0] == rest[0],
{
    lemma_trim_start_blank(pre, rest);
    lemma_ascii_code(rest[0]);
    lemma_trim_end_keeps_the_first(rest);
}

proof fn lemma_trim_end_keeps_the_first(text: Seq<u8>)
    requires
        valid_utf8(text),
        text.len() > 0,
        text[0] <= 0x7F,
        !is_blank(text[0]),
    ensures
        trim_end(text).len() > 0,
        trim_end(text)[0] == text[0],
    decreases text.len(),
{
    lemma_last_scalar(text);
    lemma_ascii_code(text[0]);
    if text.len() > 1 {
        let rest = pop_first_scalar(text);
        reveal_with_fuel(valid_utf8, 2);
        assert(rest.len() == text.len() - 1);
        assert(rest[0] == text[1]);
        assert(!is_continuation_byte(text[1]));
    }
    if is_white_space(decode_last_scalar(text)) {
        let fewer = pop_last_scalar(text);
        if fewer.len() > 0 {
            lemma_trim_end_keeps_the_first(fewer);
        }
    }
}

/// A number may have a plus sign in front.
pub proof fn law_plus_sign_changes_nothing(text: Seq<u8>, max: nat)
    requires
        text.len() > 0,
        text[0] != 0x2B,
    ensures
        parse_hex(seq![0x2Bu8] + text, max) == parse_hex(text, max),
{
    let signed = seq![0x2Bu8] + text;
    assert(signed.skip(1) =~= text);
    assert(unsigned_digits(signed) == text);
}

/// Trimming is thorough: no white space of any kind is left at an end.
pub proof fn law_trim_is_thorough(text: Seq<u8>)
    requires
        valid_utf8(text),
    ensures
        trim_start(text).len() > 0 ==> !is_white_space(decode_first_scalar(trim_start(text))),
        trim_end(text).len() > 0 ==> !is_white_space(decode_last_scalar(trim_end(text))),
        trim(text).len() > 0 ==> !is_white_space(decode_last_scalar(trim(text))),
{
    lemma_trim_start_is_thorough(text);
    lemma_trim_end_is_thorough(text);
    lemma_trim_start_is_part(text);
    lemma_trim_end_is_thorough(trim_start(text));
}

proof fn lemma_trim_start_is_thorough(text: Seq<u8>)
    requires
        valid_utf8(text),
    ensures
        trim_start(text).len() > 0 ==> !is_white_space(decode_first_scalar(trim_start(text))),
    decreases text.len(),
{
    if text.len() > 0 && is_white_space(decode_first_scalar(text)) {
        lemma_trim_start_is_thorough(pop_first_scalar(text));
    }
}

proof fn lemma_trim_end_is_thorough(text: Seq<u8>)
    requires
        valid_utf8(text),
    ensures
        trim_end(text).len() > 0 ==> !is_white_space(decode_last_scalar(trim_end(text))),
    decreases text.len(),
{
    if text.len() > 0 && is_white_space(decode_last_scalar(text)) {
        lemma_last_scalar(text);
        lemma_trim_end_is_thorough(pop_last_scalar(text));
    }
}

/// Trimming takes white space only: a text that neither starts nor ends with it stays as
/// it is.
pub proof fn law_trim_takes_nothing_else(text: Seq<u8>)
    requires
        valid_utf8(text),
        text.len() > 0,
        !is_white_space(decode_first_scalar(text)),
        !is_white_space(decode_last_scalar(text)),
    ensures
        trim(text) == text,
{
}

/// White space is taken away character by character, of whatever kind each is.
pub proof fn law_trim_goes_one_by_one(text: Seq<u8>)
    requires
        valid_utf8(text),
        text.len() > 0,
    ensures
        is_white_space(decode_first_scalar(text)) ==> trim_start(text) == trim_start(
            pop_first_scalar(text),
        ) && trim(text) == trim(pop_first_scalar(text)),
        is_white_space(decode_last_scalar(text)) ==> trim_end(text) == trim_end(
            pop_last_scalar(text),
        ),
{
    lemma_last_scalar(text);
}

} // verus!
