//! Small general helpers: option combinators used to route optional
//! sub-measurements, and bit packing for 1-bit-per-pixel display buffers.
use vstd::prelude::*;

verus! {

/// Applies a two-argument function under `Option`: the result is present
/// exactly when both arguments are, and is then `f` of the two values.
pub fn lift_a2_option<A, B, C, F: Fn(A, B) -> C>(a: Option<A>, b: Option<B>, f: F) -> (r: Option<
    C,
>)
    requires
        a matches Some(x) ==> b matches Some(y) ==> call_requires(f, (x, y)),
    ensures
        r is Some <==> (a is Some && b is Some),
        a matches Some(x) ==> b matches Some(y) ==> r matches Some(z) ==> call_ensures(
            f,
            (x, y),
            z,
        ),
{
    match (a, b) {
        (Some(av), Some(bv)) => {
            let c = f(av, bv);
            Some(c)
        },
        _ => None,
    }
}

/// What flipping the two layers of a nested optional yields: an absent
/// outer layer moves inside (to `Some(None)`), an absent inner layer moves
/// outside (to `None`), and a doubly-present value stays as it is.
pub open spec fn spec_sequence_option_option<T>(a: Option<Option<T>>) -> Option<Option<T>> {
    match a {
        Some(x) => match x {
            Some(y) => Some(Some(y)),
            None => None,
        },
        None => Some(None),
    }
}

/// Flips the two layers of a nested optional, as `sequence` applied to
/// optionals does in functional languages.
pub fn sequence_option_option<T>(a: Option<Option<T>>) -> (r: Option<Option<T>>)
    ensures
        r == spec_sequence_option_option(a),
{
    match a {
        Some(x) => match x {
            Some(y) => Some(Some(y)),
            None => None,
        },
        None => Some(None),
    }
}

/// The byte that packs eight one-bit pixels, first pixel in the highest bit.
pub open spec fn spec_packed_byte(v: Seq<u8>, i: int) -> u8 {
    (v[8 * i] << 7) | (v[8 * i + 1] << 6) | (v[8 * i + 2] << 5) | (v[8 * i + 3] << 4) | (v[8 * i
        + 4] << 3) | (v[8 * i + 5] << 2) | (v[8 * i + 6] << 1) | v[8 * i + 7]
}

/// Packs a buffer of one-byte-per-pixel values into one-bit-per-pixel
/// bytes, eight pixels to a byte, first pixel in the highest bit.  Trailing
/// pixels short of a whole byte are dropped.
pub fn pack_bits(v: &Vec<u8>) -> (r: Vec<u8>)
    ensures
        r@.len() == v@.len() / 8,
        forall|i: int| 0 <= i < r@.len() ==> r@[i] == spec_packed_byte(v@, i),
{
    let packed_len: usize = v.len() / 8;
    let mut packed: Vec<u8> = Vec::with_capacity(packed_len);
    let mut i: usize = 0;
    while i < packed_len
        invariant
            v@.len() <= usize::MAX,
            8 * packed_len <= v@.len(),
            i <= packed_len,
            packed@.len() == i,
            forall|j: int| 0 <= j < i ==> packed@[j] == spec_packed_byte(v@, j),
        decreases packed_len - i,
    {
        let ii: usize = i * 8;
        packed.push(
            v[ii] << 7 | v[ii + 1] << 6 | v[ii + 2] << 5 | v[ii + 3] << 4 | v[ii + 4] << 3 | v[ii
                + 5] << 2 | v[ii + 6] << 1 | v[ii + 7],
        );
        i = i + 1;
    }
    packed
}

} // verus!
