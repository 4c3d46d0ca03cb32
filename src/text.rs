use vstd::prelude::*;

verus! {

/// The characters of `s`, in order.
pub fn chars_of(s: &str) -> (r: Vec<char>)
    ensures
        r@ == s@,
{
    let mut r: Vec<char> = Vec::new();
    for c in it: s.chars()
        invariant
            r@ == it.seq().take(it.index() as int),
            it.seq() == s@,
    {
        r.push(c);
    }
    r
}

/// A decimal digit.
pub open spec fn is_digit(c: char) -> bool {
    '0' <= c && c <= '9'
}

/// The value of a string of decimal digits; the empty string reads as zero.
pub open spec fn decimal(s: Seq<char>) -> int
    decreases s.len(),
{
    if s.len() == 0 {
        0
    } else {
        decimal(s.drop_last()) * 10 + (s.last() as int - '0' as int)
    }
}

/// The value of the digits `s[from..to]`, where it fits in an `i16`.
pub fn decimal_in(s: &Vec<char>, from: usize, to: usize) -> (r: Option<i16>)
    requires
        from <= to <= s@.len(),
        forall|k: int| from <= k < to ==> is_digit(#[trigger] s@[k]),
    ensures
        match r {
            Some(v) => v == decimal(s@.subrange(from as int, to as int)),
            None => decimal(s@.subrange(from as int, to as int)) > i16::MAX,
        },
{
    let mut value: i32 = 0;
    let mut too_large = false;
    let mut i: usize = from;
    while i < to
        invariant
            from <= i <= to <= s@.len(),
            forall|k: int| from <= k < to ==> is_digit(#[trigger] s@[k]),
            0 <= value <= i16::MAX,
            !too_large ==> value == decimal(s@.subrange(from as int, i as int)),
            too_large ==> decimal(s@.subrange(from as int, i as int)) > i16::MAX,
        decreases to - i,
    {
        assert(s@.subrange(from as int, i + 1).drop_last() == s@.subrange(from as int, i as int));
        let digit: i32 = (s[i] as u32 - '0' as u32) as i32;
        if !too_large {
            let next: i32 = value * 10 + digit;
            if next > i16::MAX as i32 {
                too_large = true;
            } else {
                value = next;
            }
        }
        i = i + 1;
    }
    if too_large {
        None
    } else {
        Some(value as i16)
    }
}

} // verus!
