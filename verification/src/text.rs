//! Small helpers for building ASCII strings in verified code.

use vstd::prelude::*;

verus! {

/// Relies on String::push: appends exactly the given character.
#[verifier::external_body]
pub fn push_char(s: &mut String, c: char)
    ensures
        final(s)@ == old(s)@.push(c),
{
    s.push(c);
}

/// The characters of an ASCII byte sequence.
pub open spec fn bytes_as_chars(bytes: Seq<u8>) -> Seq<char> {
    bytes.map(|_i: int, b: u8| b as char)
}

/// Builds the string whose characters are the bytes of `bytes[from..to]`.
pub fn string_of_bytes(bytes: &Vec<u8>, from: usize, to: usize) -> (s: String)
    requires
        from <= to <= bytes@.len(),
    ensures
        s@ == bytes_as_chars(bytes@.subrange(from as int, to as int)),
{
    let mut s = String::new();
    let mut i: usize = from;
    while i < to
        invariant
            from <= i <= to <= bytes@.len(),
            s@ =~= bytes_as_chars(bytes@.subrange(from as int, i as int)),
        decreases to - i,
    {
        push_char(&mut s, bytes[i] as char);
        i = i + 1;
        proof {
            assert(s@ =~= bytes_as_chars(bytes@.subrange(from as int, i as int)));
        }
    }
    proof {
        assert(s@ =~= bytes_as_chars(bytes@.subrange(from as int, to as int)));
    }
    s
}

/// True of two byte vectors with the same contents.
pub fn bytes_eq(a: &Vec<u8>, b: &Vec<u8>) -> (r: bool)
    ensures
        r == (a@ == b@),
{
    if a.len() != b.len() {
        proof {
            assert(a@.len() != b@.len());
        }
        return false;
    }
    let mut i: usize = 0;
    while i < a.len()
        invariant
            i <= a@.len(),
            a@.len() == b@.len(),
            forall|j: int| 0 <= j < i ==> a@[j] == b@[j],
        decreases a@.len() - i,
    {
        if a[i] != b[i] {
            return false;
        }
        i = i + 1;
    }
    proof {
        assert(a@ =~= b@);
    }
    true
}

/// The decimal digits of `v`, most significant first.
pub open spec fn dec_chars(v: nat) -> Seq<char>
    decreases v,
{
    if v < 10 {
        seq![(48 + v) as u8 as char]
    } else {
        dec_chars(v / 10).push((48 + v % 10) as u8 as char)
    }
}

/// Renders `v` in decimal.
pub fn u32_to_dec(v: u32) -> (s: String)
    ensures
        s@ == dec_chars(v as nat),
{
    let mut digits: Vec<u8> = Vec::new();
    let mut rest: u32 = v;
    while rest >= 10
        invariant
            dec_chars(v as nat) =~= dec_chars(rest as nat) + bytes_as_chars(digits@.reverse()),
        decreases rest,
    {
        let ghost prev = digits@;
        let ghost prev_rest = rest as nat;
        let d: u8 = (rest % 10) as u8 + 48;
        digits.push(d);
        rest = rest / 10;
        proof {
            assert(digits@.reverse() =~= seq![d] + prev.reverse());
            assert(dec_chars(prev_rest) == dec_chars(rest as nat).push(d as char));
            assert(dec_chars(v as nat) =~= dec_chars(rest as nat) + bytes_as_chars(
                digits@.reverse(),
            ));
        }
    }
    let mut s = String::new();
    push_char(&mut s, ((rest % 10) as u8 + 48) as char);
    let mut i: usize = digits.len();
    while i > 0
        invariant
            i <= digits@.len(),
            rest < 10,
            dec_chars(v as nat) =~= dec_chars(rest as nat) + bytes_as_chars(digits@.reverse()),
            s@ =~= dec_chars(rest as nat) + bytes_as_chars(
                digits@.subrange(i as int, digits@.len() as int).reverse(),
            ),
        decreases i,
    {
        i = i - 1;
        push_char(&mut s, digits[i] as char);
        proof {
            assert(digits@.subrange(i as int, digits@.len() as int).reverse() =~= digits@.subrange(
                i + 1,
                digits@.len() as int,
            ).reverse().push(digits@[i as int]));
            assert(s@ =~= dec_chars(rest as nat) + bytes_as_chars(
                digits@.subrange(i as int, digits@.len() as int).reverse(),
            ));
        }
    }
    proof {
        assert(digits@.subrange(0, digits@.len() as int) =~= digits@);
        assert(s@ =~= dec_chars(v as nat));
    }
    s
}

} // verus!
