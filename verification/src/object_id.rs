//! Object ids.
use vstd::prelude::*;

use crate::text::{digit_char, law_hex_digits, push_digit};

verus! {

/// The SHA-1 id of a git object: 160 bits, kept as its first 128 and its last 32.
#[derive(Clone, Copy, PartialEq, Eq, Structural, Debug, Hash)]
pub struct ObjectId {
    pub high: u128,
    pub low: u32,
}

impl View for ObjectId {
    type V = ObjectId;

    open spec fn view(&self) -> ObjectId {
        *self
    }
}

impl ObjectId {
    /// The four bits of the id that its hex digit number `i` stands for.
    pub open spec fn nibble(self, i: int) -> nat {
        if i < 32 {
            ((self.high >> ((4 * (31 - i)) as u128)) & 15u128) as nat
        } else {
            ((self.low >> ((4 * (39 - i)) as u32)) & 15u32) as nat
        }
    }

    /// The forty lower-case hex digits of the id.
    pub open spec fn hex(self) -> Seq<char> {
        Seq::new(40, |i: int| digit_char(self.nibble(i)))
    }

    /// The forty lower-case hex digits of the id.
    pub fn to_hex(&self) -> (r: String)
        ensures
            r@ == self.hex(),
    {
        let mut out = String::new();
        self.push_hex(&mut out);
        assert(out@ =~= self.hex());
        out
    }

    /// Adds the hex digits of the id to `out`.
    pub fn push_hex(&self, out: &mut String)
        ensures
            final(out)@ == old(out)@ + self.hex(),
    {
        let ghost before = out@;
        for i in 0..32u128
            invariant
                out@ == before + self.hex().take(i as int),
        {
            let shift: u128 = 4 * (31 - i);
            let word: u128 = self.high;
            let bits: u128 = (word >> shift) & 15;
            assert(bits < 16) by {
                assert((word >> shift) & 15 < 16) by (bit_vector);
            }
            push_digit(out, bits as u8);
            assert(out@ =~= before + self.hex().take(i + 1));
        }
        for i in 32..40u32
            invariant
                out@ == before + self.hex().take(i as int),
        {
            let shift: u32 = 4 * (39 - i);
            let word: u32 = self.low;
            let bits: u32 = (word >> shift) & 15;
            assert(bits < 16) by {
                assert((word >> shift) & 15 < 16) by (bit_vector);
            }
            push_digit(out, bits as u8);
            assert(out@ =~= before + self.hex().take(i + 1));
        }
        assert(out@ =~= before + self.hex());
    }
}

/// Whether two optional ids are the same.
pub fn same_id(a: &Option<ObjectId>, b: &Option<ObjectId>) -> (r: bool)
    ensures
        r == (*a == *b),
{
    match (a, b) {
        (Some(x), Some(y)) => *x == *y,
        (None, None) => true,
        _ => false,
    }
}

proof fn lemma_nibble_bound(id: ObjectId, i: int)
    requires
        0 <= i < 40,
    ensures
        id.nibble(i) < 16,
{
    if i < 32 {
        let s = (4 * (31 - i)) as u128;
        let w = id.high;
        assert((w >> s) & 15 < 16) by (bit_vector);
    } else {
        let s = (4 * (39 - i)) as u32;
        let w = id.low;
        assert((w >> s) & 15 < 16) by (bit_vector);
    }
}

/// No two object ids are written alike.
pub proof fn law_hex_is_injective(a: ObjectId, b: ObjectId)
    ensures
        a.hex() == b.hex() <==> a == b,
{
    if a.hex() == b.hex() {
        assert forall|i: int| 0 <= i < 40 implies #[trigger] a.nibble(i) == b.nibble(i) by {
            assert(a.hex()[i] == b.hex()[i]);
            lemma_nibble_bound(a, i);
            lemma_nibble_bound(b, i);
        }
        lemma_words_equal(a, b);
    }
}

proof fn lemma_words_equal(a: ObjectId, b: ObjectId)
    requires
        forall|i: int| 0 <= i < 40 ==> #[trigger] a.nibble(i) == b.nibble(i),
    ensures
        a == b,
{
    let (x, y) = (a.high, b.high);
    let (p, q) = (a.low, b.low);
    assert(a.nibble(0) == b.nibble(0) && a.nibble(1) == b.nibble(1) && a.nibble(2) == b.nibble(2)
        && a.nibble(3) == b.nibble(3) && a.nibble(4) == b.nibble(4) && a.nibble(5) == b.nibble(5)
        && a.nibble(6) == b.nibble(6) && a.nibble(7) == b.nibble(7) && a.nibble(8) == b.nibble(8)
        && a.nibble(9) == b.nibble(9) && a.nibble(10) == b.nibble(10) && a.nibble(11) == b.nibble(
        11,
    ) && a.nibble(12) == b.nibble(12) && a.nibble(13) == b.nibble(13) && a.nibble(14) == b.nibble(
        14,
    ) && a.nibble(15) == b.nibble(15) && a.nibble(16) == b.nibble(16));
    assert(a.nibble(17) == b.nibble(17) && a.nibble(18) == b.nibble(18) && a.nibble(19)
        == b.nibble(19) && a.nibble(20) == b.nibble(20) && a.nibble(21) == b.nibble(21)
        && a.nibble(22) == b.nibble(22) && a.nibble(23) == b.nibble(23) && a.nibble(24)
        == b.nibble(24) && a.nibble(25) == b.nibble(25) && a.nibble(26) == b.nibble(26)
        && a.nibble(27) == b.nibble(27) && a.nibble(28) == b.nibble(28) && a.nibble(29)
        == b.nibble(29) && a.nibble(30) == b.nibble(30) && a.nibble(31) == b.nibble(31)
        && a.nibble(32) == b.nibble(32) && a.nibble(33) == b.nibble(33) && a.nibble(34)
        == b.nibble(34) && a.nibble(35) == b.nibble(35) && a.nibble(36) == b.nibble(36)
        && a.nibble(37) == b.nibble(37) && a.nibble(38) == b.nibble(38) && a.nibble(39)
        == b.nibble(39));
    assert(x == y) by (bit_vector)
        requires
            (x >> 124) & 15 == (y >> 124) & 15,
            (x >> 120) & 15 == (y >> 120) & 15,
            (x >> 116) & 15 == (y >> 116) & 15,
            (x >> 112) & 15 == (y >> 112) & 15,
            (x >> 108) & 15 == (y >> 108) & 15,
            (x >> 104) & 15 == (y >> 104) & 15,
            (x >> 100) & 15 == (y >> 100) & 15,
            (x >> 96) & 15 == (y >> 96) & 15,
            (x >> 92) & 15 == (y >> 92) & 15,
            (x >> 88) & 15 == (y >> 88) & 15,
            (x >> 84) & 15 == (y >> 84) & 15,
            (x >> 80) & 15 == (y >> 80) & 15,
            (x >> 76) & 15 == (y >> 76) & 15,
            (x >> 72) & 15 == (y >> 72) & 15,
            (x >> 68) & 15 == (y >> 68) & 15,
            (x >> 64) & 15 == (y >> 64) & 15,
            (x >> 60) & 15 == (y >> 60) & 15,
            (x >> 56) & 15 == (y >> 56) & 15,
            (x >> 52) & 15 == (y >> 52) & 15,
            (x >> 48) & 15 == (y >> 48) & 15,
            (x >> 44) & 15 == (y >> 44) & 15,
            (x >> 40) & 15 == (y >> 40) & 15,
            (x >> 36) & 15 == (y >> 36) & 15,
            (x >> 32) & 15 == (y >> 32) & 15,
            (x >> 28) & 15 == (y >> 28) & 15,
            (x >> 24) & 15 == (y >> 24) & 15,
            (x >> 20) & 15 == (y >> 20) & 15,
            (x >> 16) & 15 == (y >> 16) & 15,
            (x >> 12) & 15 == (y >> 12) & 15,
            (x >> 8) & 15 == (y >> 8) & 15,
            (x >> 4) & 15 == (y >> 4) & 15,
            (x >> 0) & 15 == (y >> 0) & 15,
    ;
    assert(p == q) by (bit_vector)
        requires
            (p >> 28) & 15 == (q >> 28) & 15,
            (p >> 24) & 15 == (q >> 24) & 15,
            (p >> 20) & 15 == (q >> 20) & 15,
            (p >> 16) & 15 == (q >> 16) & 15,
            (p >> 12) & 15 == (q >> 12) & 15,
            (p >> 8) & 15 == (q >> 8) & 15,
            (p >> 4) & 15 == (q >> 4) & 15,
            (p >> 0) & 15 == (q >> 0) & 15,
    ;
}

/// The number that several hex digits of an id say, the first of them first.
pub open spec fn digits_value(id: ObjectId, from: int, to: int) -> int
    decreases to - from,
{
    if to <= from {
        0
    } else {
        16 * digits_value(id, from, to - 1) + id.nibble(to - 1)
    }
}

proof fn lemma_high_digits(id: ObjectId, n: int)
    requires
        0 <= n < 32,
    ensures
        digits_value(id, 0, n + 1) == (id.high >> ((4 * (31 - n)) as u128)) as int,
    decreases n,
{
    let x = id.high;
    let s = (4 * (31 - n)) as u128;
    reveal_with_fuel(digits_value, 2);
    if n == 0 {
        assert(x >> 124 < 16) by (bit_vector);
        assert((x >> 124) & 15 == x >> 124) by (bit_vector)
            requires
                x >> 124 < 16,
        ;
    } else {
        let t = (4 * (31 - (n - 1))) as u128;
        lemma_high_digits(id, n - 1);
        assert(x >> s == 16 * (x >> t) + ((x >> s) & 15)) by (bit_vector)
            requires
                s <= 120,
                t == s + 4,
        ;
    }
}

proof fn lemma_low_digits(id: ObjectId, n: int)
    requires
        32 <= n < 40,
    ensures
        digits_value(id, 32, n + 1) == (id.low >> ((4 * (39 - n)) as u32)) as int,
    decreases n,
{
    let x = id.low;
    let s = (4 * (39 - n)) as u32;
    reveal_with_fuel(digits_value, 2);
    if n == 32 {
        assert(x >> 28 < 16) by (bit_vector);
        assert((x >> 28) & 15 == x >> 28) by (bit_vector)
            requires
                x >> 28 < 16,
        ;
    } else {
        let t = (4 * (39 - (n - 1))) as u32;
        lemma_low_digits(id, n - 1);
        assert(x >> s == 16 * (x >> t) + ((x >> s) & 15)) by (bit_vector)
            requires
                s <= 24,
                t == s + 4,
        ;
    }
}

/// The hex digits of an id say its bits, the highest first: thirty-two digits for its first 128
/// bits and eight for its last 32.
pub proof fn law_hex_digits_say_the_id(id: ObjectId)
    ensures
        id.hex().len() == 40,
        forall|i: int| #![trigger id.hex()[i]]
            0 <= i < 40 ==> id.hex()[i] == "0123456789abcdef"@[id.nibble(i) as int],
        forall|i: int| 0 <= i < 40 ==> #[trigger] id.nibble(i) < 16,
        digits_value(id, 0, 32) == id.high,
        digits_value(id, 32, 40) == id.low,
{
    let (x, y) = (id.high, id.low);
    lemma_high_digits(id, 31);
    lemma_low_digits(id, 39);
    assert(x >> 0 == x) by (bit_vector);
    assert(y >> 0 == y) by (bit_vector);
    assert forall|i: int| 0 <= i < 40 implies #[trigger] id.nibble(i) < 16 by {
        lemma_nibble_bound(id, i);
    }
    assert forall|i: int| #![trigger id.hex()[i]] 0 <= i < 40 implies id.hex()[i]
        == "0123456789abcdef"@[id.nibble(i) as int] by {
        lemma_nibble_bound(id, i);
        law_hex_digits(id.nibble(i));
    }
}

} // verus!
