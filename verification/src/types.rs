//! The plain data of the store: content hashes and per-file metadata, and
//! the lowercase hexadecimal rendering of a hash.

use vstd::prelude::*;
use vstd::string::*;

verus! {

/// A content hash (32 bytes).
pub type ContentHash = [u8; 32];

/// What the store records about one tracked file.
#[derive(Clone, Copy, Debug, PartialEq, Eq)]
pub struct FileMetadata {
    pub size: u64,
    pub modified: u64,
    pub hash: ContentHash,
}

/// The lowercase hexadecimal digit for `n` (`0 <= n < 16`).
pub open spec fn hex_digit_char(n: int) -> char {
    if n < 10 {
        (48 + n) as char
    } else {
        (87 + n) as char
    }
}

/// The two hexadecimal digits of one byte, high nibble first.
pub open spec fn byte_hex(b: u8) -> Seq<char> {
    seq![hex_digit_char((b / 16) as int), hex_digit_char((b % 16) as int)]
}

/// The lowercase hexadecimal rendering of a byte sequence.
pub open spec fn hex_of_bytes(bs: Seq<u8>) -> Seq<char>
    decreases bs.len(),
{
    if bs.len() == 0 {
        Seq::empty()
    } else {
        hex_of_bytes(bs.drop_last()) + byte_hex(bs.last())
    }
}

/// Two characters per byte, and the pair at position `i` renders byte `i`.
pub proof fn lemma_hex_of_bytes_layout(bs: Seq<u8>)
    ensures
        hex_of_bytes(bs).len() == 2 * bs.len(),
        forall|i: int|
            0 <= i < bs.len() ==> #[trigger] hex_of_bytes(bs).subrange(2 * i, 2 * i + 2)
                == byte_hex(bs[i]),
    decreases bs.len(),
{
    if bs.len() > 0 {
        let prefix = bs.drop_last();
        lemma_hex_of_bytes_layout(prefix);
        let h = hex_of_bytes(bs);
        assert forall|i: int| 0 <= i < bs.len() implies #[trigger] h.subrange(2 * i, 2 * i + 2)
            == byte_hex(bs[i]) by {
            if i < bs.len() - 1 {
                assert(h.subrange(2 * i, 2 * i + 2) =~= hex_of_bytes(prefix).subrange(
                    2 * i,
                    2 * i + 2,
                ));
            } else {
                assert(h.subrange(2 * i, 2 * i + 2) =~= byte_hex(bs.last()));
            }
        }
    }
}

/// The digit for `n` is the `n`-th of `0123456789abcdef`.
pub proof fn law_hex_digits_are_lowercase_hexadecimal()
    ensures
        forall|n: int| 0 <= n < 16 ==> #[trigger] hex_digit_char(n) == "0123456789abcdef"@[n],
{
    reveal_strlit("0123456789abcdef");
    assert forall|n: int| 0 <= n < 16 implies #[trigger] hex_digit_char(n)
        == "0123456789abcdef"@[n] by {
        if n == 0 { assert(hex_digit_char(n) == '0'); }
        else if n == 1 { assert(hex_digit_char(n) == '1'); }
        else if n == 2 { assert(hex_digit_char(n) == '2'); }
        else if n == 3 { assert(hex_digit_char(n) == '3'); }
        else if n == 4 { assert(hex_digit_char(n) == '4'); }
        else if n == 5 { assert(hex_digit_char(n) == '5'); }
        else if n == 6 { assert(hex_digit_char(n) == '6'); }
        else if n == 7 { assert(hex_digit_char(n) == '7'); }
        else if n == 8 { assert(hex_digit_char(n) == '8'); }
        else if n == 9 { assert(hex_digit_char(n) == '9'); }
        else if n == 10 { assert(hex_digit_char(n) == 'a'); }
        else if n == 11 { assert(hex_digit_char(n) == 'b'); }
        else if n == 12 { assert(hex_digit_char(n) == 'c'); }
        else if n == 13 { assert(hex_digit_char(n) == 'd'); }
        else if n == 14 { assert(hex_digit_char(n) == 'e'); }
        else { assert(hex_digit_char(n) == 'f'); }
    }
}

/// Different bytes have different renderings.
pub proof fn law_byte_hex_injective(a: u8, b: u8)
    ensures
        byte_hex(a) == byte_hex(b) <==> a == b,
{
    law_hex_digits_are_lowercase_hexadecimal();
    reveal_strlit("0123456789abcdef");
    if byte_hex(a) == byte_hex(b) {
        let (ah, al, bh, bl) = ((a / 16) as int, (a % 16) as int, (b / 16) as int, (b % 16) as int);
        assert(byte_hex(a)[0] == byte_hex(b)[0]);
        assert(byte_hex(a)[1] == byte_hex(b)[1]);
        assert(hex_digit_char(ah) == "0123456789abcdef"@[ah]);
        assert(hex_digit_char(bh) == "0123456789abcdef"@[bh]);
        assert(hex_digit_char(al) == "0123456789abcdef"@[al]);
        assert(hex_digit_char(bl) == "0123456789abcdef"@[bl]);
        assert(ah == bh);
        assert(al == bl);
        assert(a == 16 * (a / 16) + a % 16);
        assert(b == 16 * (b / 16) + b % 16);
    }
}

/// The hexadecimal rendering is one-to-one: different byte sequences
/// (hashes among them) render differently.
pub proof fn law_hex_of_bytes_injective(a: Seq<u8>, b: Seq<u8>)
    ensures
        hex_of_bytes(a) == hex_of_bytes(b) <==> a == b,
{
    lemma_hex_of_bytes_layout(a);
    lemma_hex_of_bytes_layout(b);
    if hex_of_bytes(a) == hex_of_bytes(b) {
        assert forall|i: int| 0 <= i < a.len() implies a[i] == b[i] by {
            assert(hex_of_bytes(a).subrange(2 * i, 2 * i + 2) == byte_hex(a[i]));
            assert(hex_of_bytes(b).subrange(2 * i, 2 * i + 2) == byte_hex(b[i]));
            law_byte_hex_injective(a[i], b[i]);
        }
        assert(a =~= b);
    }
}

/// The string for one hexadecimal digit.
fn hex_digit_str(n: u8) -> (s: &'static str)
    requires
        n < 16,
    ensures
        s@ == seq![hex_digit_char(n as int)],
{
    proof {
        reveal_strlit("0");
        reveal_strlit("1");
        reveal_strlit("2");
        reveal_strlit("3");
        reveal_strlit("4");
        reveal_strlit("5");
        reveal_strlit("6");
        reveal_strlit("7");
        reveal_strlit("8");
        reveal_strlit("9");
        reveal_strlit("a");
        reveal_strlit("b");
        reveal_strlit("c");
        reveal_strlit("d");
        reveal_strlit("e");
        reveal_strlit("f");
    }
    let s: &'static str = if n == 0 {
        "0"
    } else if n == 1 {
        "1"
    } else if n == 2 {
        "2"
    } else if n == 3 {
        "3"
    } else if n == 4 {
        "4"
    } else if n == 5 {
        "5"
    } else if n == 6 {
        "6"
    } else if n == 7 {
        "7"
    } else if n == 8 {
        "8"
    } else if n == 9 {
        "9"
    } else if n == 10 {
        "a"
    } else if n == 11 {
        "b"
    } else if n == 12 {
        "c"
    } else if n == 13 {
        "d"
    } else if n == 14 {
        "e"
    } else {
        "f"
    };
    assert(s@ =~= seq![hex_digit_char(n as int)]);
    s
}

/// Appends the two hexadecimal digits of `b` to `out`.
pub fn push_byte_hex(out: &mut String, b: u8)
    ensures
        final(out)@ == old(out)@ + byte_hex(b),
{
    let hi: u8 = b / 16;
    let lo: u8 = b % 16;
    out.append(hex_digit_str(hi));
    out.append(hex_digit_str(lo));
    assert(final(out)@ =~= old(out)@ + byte_hex(b));
}

/// The lowercase hexadecimal rendering of a hash: 64 characters, two per byte.
pub fn hash_to_hex(hash: &ContentHash) -> (hex: String)
    ensures
        hex@ == hex_of_bytes(hash@),
        hex@.len() == 64,
{
    let mut out = String::new();
    let mut i: usize = 0;
    while i < 32
        invariant
            i <= 32,
            hash@.len() == 32,
            out@ == hex_of_bytes(hash@.take(i as int)),
        decreases 32 - i,
    {
        let ghost before = out@;
        push_byte_hex(&mut out, hash[i]);
        assert(hash@.take(i + 1).drop_last() =~= hash@.take(i as int));
        i = i + 1;
    }
    assert(hash@.take(32) =~= hash@);
    proof {
        lemma_hex_of_bytes_layout(hash@);
    }
    out
}

} // verus!
