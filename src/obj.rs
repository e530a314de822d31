use vstd::prelude::*;

verus! {

/// Why the vertex reference of a face corner could not be read.
#[derive(Clone, Copy, Debug, PartialEq, Eq, Structural)]
pub enum FaceIndexError {
    /// The field is empty.
    Empty,
    /// The field holds something other than an optional `+` and decimal digits.
    InvalidDigit,
    /// The number does not fit in `usize`.
    Overflow,
    /// The number is 0; vertex references count from 1.
    Zero,
}

pub open spec fn is_digit(b: u8) -> bool {
    48 <= b <= 57
}

/// The digits of a field: a single leading `+` is dropped.
pub open spec fn unsigned_digits(s: Seq<u8>) -> Seq<u8> {
    if s.len() > 0 && s[0] == 43 {
        s.drop_first()
    } else {
        s
    }
}

pub open spec fn all_digits(d: Seq<u8>) -> bool {
    forall|i: int| 0 <= i < d.len() ==> is_digit(#[trigger] d[i])
}

/// A field is a number when its digits are non-empty and all decimal.
pub open spec fn is_number(s: Seq<u8>) -> bool {
    unsigned_digits(s).len() > 0 && all_digits(unsigned_digits(s))
}

/// The value of a string of decimal digits, most significant first.
pub open spec fn decimal_value(d: Seq<u8>) -> nat
    decreases d.len(),
{
    if d.len() == 0 {
        0
    } else {
        decimal_value(d.drop_last()) * 10 + (d.last() - 48) as nat
    }
}

proof fn lemma_prefix_value_le(d: Seq<u8>, k: int)
    requires
        0 <= k <= d.len(),
        forall|i: int| 0 <= i < d.len() ==> is_digit(#[trigger] d[i]),
    ensures
        decimal_value(d.take(k)) <= decimal_value(d),
    decreases d.len(),
{
    if k == d.len() {
        assert(d.take(k) =~= d);
    } else {
        let p = d.drop_last();
        assert(d.take(k) =~= p.take(k));
        lemma_prefix_value_le(p, k);
    }
}

/// Reads the vertex field of a face corner (the text before its first `/`)
/// and turns the 1-based vertex reference into a 0-based index.
pub fn face_vertex_index(field: &[u8]) -> (r: Result<usize, FaceIndexError>)
    ensures
        field@.len() == 0 <==> r == Err::<usize, FaceIndexError>(FaceIndexError::Empty),
        field@.len() > 0 && !is_number(field@) <==> r == Err::<usize, FaceIndexError>(
            FaceIndexError::InvalidDigit,
        ),
        is_number(field@) && decimal_value(unsigned_digits(field@)) > usize::MAX
            <==> r == Err::<usize, FaceIndexError>(FaceIndexError::Overflow),
        is_number(field@) && decimal_value(unsigned_digits(field@)) == 0 <==> r == Err::<
            usize,
            FaceIndexError,
        >(FaceIndexError::Zero),
        is_number(field@) && 0 < decimal_value(unsigned_digits(field@)) <= usize::MAX ==> r
            == Ok::<usize, FaceIndexError>((decimal_value(unsigned_digits(field@)) - 1) as usize),
{
    let n = field.len();
    if n == 0 {
        return Err(FaceIndexError::Empty);
    }
    let start: usize = if field[0] == 43u8 {
        1
    } else {
        0
    };
    let ghost d = unsigned_digits(field@);
    assert(d =~= field@.subrange(start as int, n as int));
    if start == n {
        return Err(FaceIndexError::InvalidDigit);
    }
    let mut i: usize = start;
    while i < n
        invariant
            start <= i <= n,
            start < n,
            n == field@.len(),
            d == unsigned_digits(field@),
            d =~= field@.subrange(start as int, n as int),
            forall|k: int| 0 <= k < i - start ==> is_digit(#[trigger] d[k]),
        decreases n - i,
    {
        let b = field[i];
        if b < 48u8 || b > 57u8 {
            assert(d[i - start] == field@[i as int]);
            assert(!is_digit(d[i - start]));
            assert(!is_number(field@));
            return Err(FaceIndexError::InvalidDigit);
        }
        i = i + 1;
    }
    let mut value: usize = 0;
    let mut i: usize = start;
    while i < n
        invariant
            start <= i <= n,
            start < n,
            n == field@.len(),
            d == unsigned_digits(field@),
            d =~= field@.subrange(start as int, n as int),
            forall|k: int| 0 <= k < d.len() ==> is_digit(#[trigger] d[k]),
            value as nat == decimal_value(d.take(i - start)),
        decreases n - i,
    {
        assert(d[i - start] == field@[i as int]);
        assert(is_digit(d[i - start]));
        let digit = (field[i] - 48u8) as usize;
        let ghost p = d.take(i - start + 1);
        assert(p.drop_last() =~= d.take(i - start));
        assert(p.last() == field@[i as int]);
        assert(decimal_value(p) == decimal_value(d.take(i - start)) * 10 + digit);
        match value.checked_mul(10) {
            Some(t) => match t.checked_add(digit) {
                Some(v) => {
                    value = v;
                },
                None => {
                    proof {
                        lemma_prefix_value_le(d, i - start + 1);
                    }
                    return Err(FaceIndexError::Overflow);
                },
            },
            None => {
                proof {
                    lemma_prefix_value_le(d, i - start + 1);
                }
                return Err(FaceIndexError::Overflow);
            },
        }
        i = i + 1;
    }
    assert(d.take(n - start) =~= d);
    if value == 0 {
        Err(FaceIndexError::Zero)
    } else {
        Ok(value - 1)
    }
}

} // verus!
