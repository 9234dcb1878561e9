//! Laws of identifiers, their order, and numerals.
use vstd::prelude::*;
use vstd::utf8::encode_utf8;

verus! {

/// Whether a text of at most 20 characters, or the first 17 characters of a longer one and three
/// dots, make up what is shown.
pub open spec fn shows(id: Seq<char>, shown: Seq<char>) -> bool {
    &&& id.len() <= 20 ==> shown == id
    &&& id.len() > 20 ==> {
        &&& shown.len() == 20
        &&& forall|i: int| 0 <= i < 17 ==> shown[i] == id[i]
        &&& shown[17] == '.' && shown[18] == '.' && shown[19] == '.'
    }
}

/// A shown identifier is the identifier itself up to 20 characters, and otherwise its first 17
/// characters and three dots.
pub proof fn identifiers_are_cut_behind_17_characters(id: Seq<char>)
    ensures
        shows(id, crate::text::shortened(id)),
        id.len() <= 20 ==> crate::text::shortened(id).len() == id.len(),
{
    reveal_strlit("...");
}

/// Two identifiers are shown alike only where they agree in their first 17 characters.
pub proof fn identifiers_shown_alike_begin_alike(a: Seq<char>, b: Seq<char>, i: int)
    requires
        crate::text::shortened(a) == crate::text::shortened(b),
        0 <= i < 17,
        i < a.len(),
    ensures
        i < b.len() && a[i] == b[i],
{
    identifiers_are_cut_behind_17_characters(a);
    identifiers_are_cut_behind_17_characters(b);
    let shown = crate::text::shortened(a);
    assert(shown[i] == a[i]);
    assert(shown[i] == b[i]);
}

/// Whether one text comes before another in the order of their UTF-8 bytes: at the first place
/// where they differ it has the smaller byte, or it ends there.
pub open spec fn precedes(a: Seq<char>, b: Seq<char>) -> bool {
    exists|k: int| #[trigger] differ_at(encode_utf8(a), encode_utf8(b), k)
}

/// Whether the bytes agree up to place `k`, and there the first text ends or has the smaller byte.
pub open spec fn differ_at(a: Seq<u8>, b: Seq<u8>, k: int) -> bool {
    &&& 0 <= k <= a.len()
    &&& k < b.len()
    &&& forall|i: int| 0 <= i < k ==> a[i] == b[i]
    &&& k < a.len() ==> a[k] < b[k]
}

proof fn lemma_bytes(a: Seq<u8>, b: Seq<u8>)
    ensures
        crate::text::bytes_before(a, b) <==> exists|k: int| #[trigger] differ_at(a, b, k),
    decreases a.len(),
{
    if b.len() > 0 && a.len() == 0 {
        assert(differ_at(a, b, 0));
    } else if b.len() > 0 && a[0] != b[0] {
        if a[0] < b[0] {
            assert(differ_at(a, b, 0));
        }
        if exists|k: int| #[trigger] differ_at(a, b, k) {
            let k = choose|k: int| #[trigger] differ_at(a, b, k);
            if k > 0 {
                assert(a[0] == b[0]);
            }
        }
    } else if b.len() > 0 {
        let ra = a.drop_first();
        let rb = b.drop_first();
        lemma_bytes(ra, rb);
        if exists|k: int| #[trigger] differ_at(ra, rb, k) {
            let k = choose|k: int| #[trigger] differ_at(ra, rb, k);
            assert forall|i: int| 0 <= i < k + 1 implies a[i] == b[i] by {
                if i > 0 {
                    assert(ra[i - 1] == rb[i - 1]);
                }
            }
            assert(differ_at(a, b, k + 1));
        }
        if exists|k: int| #[trigger] differ_at(a, b, k) {
            let k = choose|k: int| #[trigger] differ_at(a, b, k);
            assert(k > 0);
            assert(differ_at(ra, rb, k - 1));
        }
    }
}

/// The order of strings is the order of their UTF-8 bytes.
pub proof fn strings_are_ordered_by_their_bytes(a: Seq<char>, b: Seq<char>)
    ensures
        crate::text::text_before(a, b) <==> precedes(a, b),
{
    lemma_bytes(encode_utf8(a), encode_utf8(b));
}

/// The number that a row of decimal digits stands for.
pub open spec fn value(digits: Seq<char>) -> int
    decreases digits.len(),
{
    if digits.len() == 0 {
        0
    } else {
        10 * value(digits.drop_last()) + (digits.last() as int - 48)
    }
}

/// A numeral consists of decimal digits, stands for its number, and has no leading zero.
pub proof fn numerals_stand_for_their_numbers(n: nat)
    ensures
        ({
            let numeral = crate::text::decimal(n);
            &&& numeral.len() > 0
            &&& forall|i: int| 0 <= i < numeral.len() ==> 48 <= #[trigger] numeral[i] as int <= 57
            &&& value(numeral) == n
            &&& numeral[0] == '0' ==> n == 0 && numeral.len() == 1
        }),
    decreases n,
{
    let numeral = crate::text::decimal(n);
    reveal_with_fuel(value, 2);
    if n < 10 {
        assert(numeral.drop_last() =~= Seq::empty());
    } else {
        let front = crate::text::decimal(n / 10);
        numerals_stand_for_their_numbers(n / 10);
        assert(numeral.drop_last() =~= front);
        assert(numeral[0] == front[0]);
        assert forall|i: int| 0 <= i < numeral.len() implies 48 <= #[trigger] numeral[i] as int
            <= 57 by {
            if i < front.len() {
                assert(numeral[i] == front[i]);
            }
        }
    }
}

/// Different numbers have different numerals.
pub proof fn numerals_tell_numbers_apart(a: nat, b: nat)
    requires
        crate::text::decimal(a) == crate::text::decimal(b),
    ensures
        a == b,
{
    numerals_stand_for_their_numbers(a);
    numerals_stand_for_their_numbers(b);
}

} // verus!
