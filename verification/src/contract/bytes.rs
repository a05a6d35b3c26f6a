//! Byte-level predicates shared by the request, route specification and proof parsers.
use vstd::prelude::*;

verus! {

/// ASCII lowercase of one byte.
pub open spec fn lower(b: u8) -> u8 {
    if 65 <= b && b <= 90 {
        (b + 32) as u8
    } else {
        b
    }
}

/// ASCII lowercase of a byte string.
pub open spec fn lowercase(s: Seq<u8>) -> Seq<u8> {
    s.map_values(|b: u8| lower(b))
}

/// Whether `b` is an ASCII letter or digit.
pub open spec fn is_alnum(b: u8) -> bool {
    (48 <= b && b <= 57) || (65 <= b && b <= 90) || (97 <= b && b <= 122)
}

/// Whether `b` is an ASCII digit.
pub open spec fn is_digit(b: u8) -> bool {
    48 <= b && b <= 57
}

/// Whether `b` is a printable ASCII byte other than space: what a target or path may hold.
pub open spec fn is_visible_ascii(b: u8) -> bool {
    33 <= b && b <= 126
}

/// The decimal value of a string of ASCII digits.
pub open spec fn decimal_value(s: Seq<u8>) -> nat
    decreases s.len(),
{
    if s.len() == 0 {
        0
    } else {
        decimal_value(s.drop_last()) * 10 + (s.last() - 48) as nat
    }
}

/// Returns the ASCII lowercase of one byte.
pub fn to_lower(b: u8) -> (r: u8)
    ensures
        r == lower(b),
{
    if b >= 65 && b <= 90 {
        b + 32
    } else {
        b
    }
}

/// Returns a copy of `s` in ASCII lowercase.
pub fn lowercase_copy(s: &[u8]) -> (r: Vec<u8>)
    ensures
        r@ == lowercase(s@),
{
    let mut out: Vec<u8> = Vec::new();
    let mut i: usize = 0;
    while i < s.len()
        invariant
            0 <= i <= s@.len(),
            out@ == lowercase(s@.take(i as int)),
        decreases s@.len() - i,
    {
        out.push(to_lower(s[i]));
        i += 1;
        proof {
            assert(out@ =~= lowercase(s@.take(i as int)));
        }
    }
    assert(s@.take(s@.len() as int) =~= s@);
    out
}

/// Returns a copy of `s`.
pub fn copy_bytes(s: &[u8]) -> (r: Vec<u8>)
    ensures
        r@ == s@,
{
    let mut out: Vec<u8> = Vec::new();
    let mut i: usize = 0;
    while i < s.len()
        invariant
            0 <= i <= s@.len(),
            out@ == s@.take(i as int),
        decreases s@.len() - i,
    {
        out.push(s[i]);
        i += 1;
        proof {
            assert(out@ =~= s@.take(i as int));
        }
    }
    assert(s@.take(s@.len() as int) =~= s@);
    out
}

/// Whether two byte strings are equal.
pub fn bytes_eq(a: &[u8], b: &[u8]) -> (r: bool)
    ensures
        r == (a@ == b@),
{
    if a.len() != b.len() {
        return false;
    }
    let mut i: usize = 0;
    while i < a.len()
        invariant
            0 <= i <= a@.len(),
            a@.len() == b@.len(),
            forall|k: int| 0 <= k < i ==> a@[k] == b@[k],
        decreases a@.len() - i,
    {
        if a[i] != b[i] {
            return false;
        }
        i += 1;
    }
    assert(a@ =~= b@);
    true
}

/// Whether `s` holds byte `b`.
pub fn contains_byte(s: &[u8], b: u8) -> (r: bool)
    ensures
        r == s@.contains(b),
{
    let mut i: usize = 0;
    while i < s.len()
        invariant
            0 <= i <= s@.len(),
            forall|k: int| 0 <= k < i ==> s@[k] != b,
        decreases s@.len() - i,
    {
        if s[i] == b {
            assert(s@[i as int] == b);
            return true;
        }
        i += 1;
    }
    false
}

proof fn lemma_decimal_prefix_grows(s: Seq<u8>, k: int)
    requires
        0 <= k <= s.len(),
    ensures
        decimal_value(s.take(k)) <= decimal_value(s),
    decreases s.len() - k,
{
    if k < s.len() {
        lemma_decimal_prefix_grows(s, k + 1);
        assert(s.take(k + 1).drop_last() =~= s.take(k));
    } else {
        assert(s.take(k) =~= s);
    }
}

/// Parses a non-empty string of ASCII digits that fits in `usize`.
pub fn parse_decimal(value: &[u8]) -> (r: Option<usize>)
    ensures
        r is Some <==> (value@.len() > 0 && (forall|i: int| 0 <= i < value@.len() ==> is_digit(#[trigger] value@[i]))
            && decimal_value(value@) <= usize::MAX),
        r matches Some(v) ==> v == decimal_value(value@),
{
    if value.len() == 0 {
        return None;
    }
    let mut acc: usize = 0;
    let mut i: usize = 0;
    while i < value.len()
        invariant
            0 <= i <= value@.len(),
            forall|k: int| 0 <= k < i ==> is_digit(#[trigger] value@[k]),
            acc == decimal_value(value@.take(i as int)),
        decreases value@.len() - i,
    {
        let b = value[i];
        if !(b >= 48 && b <= 57) {
            assert(!is_digit(value@[i as int]));
            return None;
        }
        proof {
            assert(value@.take(i as int + 1).drop_last() =~= value@.take(i as int));
        }
        let next = match acc.checked_mul(10) {
            Some(m) => m.checked_add((b - 48) as usize),
            None => None,
        };
        match next {
            Some(v) => {
                acc = v;
            },
            None => {
                proof {
                    lemma_decimal_prefix_grows(value@, i as int + 1);
                }
                return None;
            },
        }
        i += 1;
    }
    assert(value@.take(value@.len() as int) =~= value@);
    Some(acc)
}

} // verus!
