//! Shader code, as the words of its module.

use vstd::prelude::*;

verus! {

/// A word from four bytes, the lowest first.
pub open spec fn little_word(bytes: Seq<u8>, i: int) -> u32 {
    (bytes[4 * i] + bytes[4 * i + 1] * 0x100 + bytes[4 * i + 2] * 0x1_0000 + bytes[4 * i + 3] * 0x100_0000) as u32
}

/// A word from four bytes, the highest first.
pub open spec fn big_word(bytes: Seq<u8>, i: int) -> u32 {
    (bytes[4 * i + 3] + bytes[4 * i + 2] * 0x100 + bytes[4 * i + 1] * 0x1_0000 + bytes[4 * i] * 0x100_0000) as u32
}

/// The number that every module begins with.
pub const MAGIC_NUMBER: u32 = 0x0723_0203;

/// The words of a module: its bytes in whichever order makes its first word the magic number.
pub open spec fn module_words(bytes: Seq<u8>) -> Option<Seq<u32>> {
    if bytes.len() % 4 != 0 || bytes.len() == 0 {
        None
    } else if little_word(bytes, 0) == MAGIC_NUMBER {
        Some(Seq::new(bytes.len() / 4, |i: int| little_word(bytes, i)))
    } else if big_word(bytes, 0) == MAGIC_NUMBER {
        Some(Seq::new(bytes.len() / 4, |i: int| big_word(bytes, i)))
    } else {
        None
    }
}

/// `ash::util::read_spv` on bytes in memory: the words of a module in either byte order, told by the
/// magic number in its first word. Bytes that are no whole number of words, or do not begin with the
/// magic number, are refused.
#[verifier::external_body]
fn read_spv(bytes: &[u8]) -> (words: Option<Vec<u32>>)
    ensures
        match module_words(bytes@) {
            Some(w) => words matches Some(v) && v@ == w,
            None => words is None,
        },
{
    ash::util::read_spv(&mut std::io::Cursor::new(bytes)).ok()
}

/// The words of a shader's module, where it is one.
pub fn shader_words(bytes: &[u8]) -> (words: Option<Vec<u32>>)
    ensures
        match module_words(bytes@) {
            Some(w) => words matches Some(v) && v@ == w,
            None => words is None,
        },
{
    read_spv(bytes)
}

/// A module means the same in either byte order.
pub proof fn the_byte_order_does_not_matter(little: Seq<u8>, big: Seq<u8>)
    requires
        little.len() == big.len(),
        little.len() % 4 == 0,
        little.len() > 0,
        forall|i: int|
            0 <= i < little.len() / 4 ==> #[trigger] big[4 * i] == little[4 * i + 3] && big[4 * i + 1] == little[4 * i
                + 2] && big[4 * i + 2] == little[4 * i + 1] && big[4 * i + 3] == little[4 * i],
        little_word(little, 0) == MAGIC_NUMBER,
    ensures
        module_words(little) == module_words(big),
        module_words(little) is Some,
{
    assert forall|i: int| 0 <= i < little.len() / 4 implies little_word(little, i) == #[trigger] big_word(big, i) by {
        assert(big[4 * i] == little[4 * i + 3]);
    }
    assert(big_word(big, 0) == MAGIC_NUMBER);
    // The magic number reads otherwise backwards.
    assert(big[0] == little[3] && big[1] == little[2] && big[2] == little[1] && big[3] == little[0]) by {
        let first: int = 0;
        assert(big[4 * first] == little[4 * first + 3]);
    }
    let (a, b, c, d) = (little[0], little[1], little[2], little[3]);
    assert(a + b * 0x100 + c * 0x1_0000 + d * 0x100_0000 == MAGIC_NUMBER);
    assert(a == 3 && b == 2 && c == 0x23 && d == 7);
    assert(little_word(big, 0) != MAGIC_NUMBER);
    assert(module_words(little)->0 =~= module_words(big)->0);
}

/// A module is told by its first four bytes, 3, 2, 35 and 7 or the same backwards, and a word is its
/// four bytes in that order.
pub proof fn words_hold_the_bytes(bytes: Seq<u8>)
    ensures
        module_words(bytes) is Some <==> {
            &&& bytes.len() > 0 && bytes.len() % 4 == 0
            &&& {
                ||| bytes[0] == 3 && bytes[1] == 2 && bytes[2] == 35 && bytes[3] == 7
                ||| bytes[0] == 7 && bytes[1] == 35 && bytes[2] == 2 && bytes[3] == 3
            }
        },
        module_words(bytes) matches Some(words) ==> {
            &&& 4 * words.len() == bytes.len()
            &&& forall|i: int|
                0 <= i < words.len() ==> {
                    let (a, b, c, d) = (bytes[4 * i], bytes[4 * i + 1], bytes[4 * i + 2], bytes[4 * i + 3]);
                    #[trigger] words[i] == (if bytes[0] == 3 {
                        a + 256 * (b + 256 * (c + 256 * d))
                    } else {
                        d + 256 * (c + 256 * (b + 256 * a))
                    })
                }
        },
{
    if bytes.len() > 0 && bytes.len() % 4 == 0 {
        let (a, b, c, d) = (bytes[0], bytes[1], bytes[2], bytes[3]);
        assert(a + b * 0x100 + c * 0x1_0000 + d * 0x100_0000 == 0x0723_0203 <==> a == 3 && b == 2 && c == 0x23 && d == 7);
        assert(d + c * 0x100 + b * 0x1_0000 + a * 0x100_0000 == 0x0723_0203 <==> d == 3 && c == 2 && b == 0x23 && a == 7);
    }
}

} // verus!
