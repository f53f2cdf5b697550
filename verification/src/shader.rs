//! Shader code as the device takes it: the words of a SPIR-V file.

use vstd::prelude::*;

verus! {

/// The number that four bytes hold, the lowest byte first.
pub open spec fn word_of(b0: u8, b1: u8, b2: u8, b3: u8) -> int {
    b0 + 0x100 * b1 + 0x1_0000 * b2 + 0x100_0000 * b3
}

/// The words of a file, four bytes each.
pub open spec fn words_of(bytes: Seq<u8>) -> Seq<u32> {
    Seq::new(
        bytes.len() / 4,
        |i: int|
            word_of(bytes[4 * i], bytes[4 * i + 1], bytes[4 * i + 2], bytes[4 * i + 3]) as u32,
    )
}

/// The words of a shader file, which is made of whole words.
pub fn shader_words(bytes: &[u8]) -> (code: Vec<u32>)
    requires
        bytes@.len() % 4 == 0,
    ensures
        code@ == words_of(bytes@),
{
    let mut code: Vec<u32> = Vec::new();
    let count: usize = bytes.len() / 4;
    for i in 0..count
        invariant
            count == bytes.len() / 4,
            code@ == words_of(bytes@).take(i as int),
    {
        let at: usize = 4 * i;
        let word: u32 = bytes[at] as u32 + 0x100 * bytes[at + 1] as u32 + 0x1_0000 * bytes[at
            + 2] as u32 + 0x100_0000 * bytes[at + 3] as u32;
        code.push(word);
        assert(code@ =~= words_of(bytes@).take(i + 1));
    }
    assert(words_of(bytes@).take(count as int) =~= words_of(bytes@));
    code
}

/// No byte of a file is lost: two files of whole words with the same words are the same.
pub proof fn law_words_keep_bytes(a: Seq<u8>, b: Seq<u8>)
    requires
        a.len() % 4 == 0,
        b.len() % 4 == 0,
        words_of(a) == words_of(b),
    ensures
        a == b,
{
    assert(a.len() / 4 == words_of(a).len());
    assert(b.len() / 4 == words_of(b).len());
    assert(a.len() == b.len());
    assert forall|k: int| 0 <= k < a.len() implies a[k] == b[k] by {
        let i = k / 4;
        assert(words_of(a)[i] == words_of(b)[i]);
        assert(words_of(a)[i] == word_of(
            a[4 * i],
            a[4 * i + 1],
            a[4 * i + 2],
            a[4 * i + 3],
        ) as u32);
        assert(words_of(b)[i] == word_of(
            b[4 * i],
            b[4 * i + 1],
            b[4 * i + 2],
            b[4 * i + 3],
        ) as u32);
        lemma_word_bytes(a[4 * i], a[4 * i + 1], a[4 * i + 2], a[4 * i + 3]);
        lemma_word_bytes(b[4 * i], b[4 * i + 1], b[4 * i + 2], b[4 * i + 3]);
        assert(k == 4 * i || k == 4 * i + 1 || k == 4 * i + 2 || k == 4 * i + 3);
    }
    assert(a =~= b);
}

proof fn lemma_word_bytes(b0: u8, b1: u8, b2: u8, b3: u8)
    ensures
        word_of(b0, b1, b2, b3) <= u32::MAX,
        b0 == word_of(b0, b1, b2, b3) % 0x100,
        b1 == word_of(b0, b1, b2, b3) / 0x100 % 0x100,
        b2 == word_of(b0, b1, b2, b3) / 0x1_0000 % 0x100,
        b3 == word_of(b0, b1, b2, b3) / 0x100_0000 % 0x100,
{
}

/// Four bytes after another make a word, the first one its lowest byte.
pub proof fn law_words_hold_their_bytes(bytes: Seq<u8>, i: int)
    requires
        0 <= i < bytes.len() / 4,
    ensures
        words_of(bytes).len() == bytes.len() / 4,
        words_of(bytes)[i] % 256 == bytes[4 * i],
        words_of(bytes)[i] / 256 % 256 == bytes[4 * i + 1],
        words_of(bytes)[i] / 65536 % 256 == bytes[4 * i + 2],
        words_of(bytes)[i] / 16777216 == bytes[4 * i + 3],
{
    lemma_word_bytes(bytes[4 * i], bytes[4 * i + 1], bytes[4 * i + 2], bytes[4 * i + 3]);
}

} // verus!
