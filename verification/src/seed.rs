use vstd::prelude::*;
use rand::Rng;

verus! {

#[verifier::external_type_specification]
#[verifier::external_body]
pub struct ExThreadRng(rand::rngs::ThreadRng);

/// `String::push` appends one character.
pub assume_specification[ String::push ](s: &mut String, ch: char)
    ensures
        final(s)@ == old(s)@.push(ch),
;

/// Calls `rand::thread_rng`, the generator of the current thread. Nothing is
/// claimed of it.
#[verifier::external_body]
fn thread_rng() -> rand::rngs::ThreadRng {
    rand::thread_rng()
}

/// Calls `Rng::gen_range(rng, 0, bound)`. The crate documents that the value
/// lies in `[0, bound)` and that the call panics when the range is empty,
/// which `requires` rules out. Which value comes back is left open: it is
/// random.
#[verifier::external_body]
fn gen_index(rng: &mut rand::rngs::ThreadRng, bound: usize) -> (index: usize)
    requires
        0 < bound,
    ensures
        index < bound,
{
    rng.gen_range(0, bound)
}

/// The characters a seed is drawn from: lower-case hexadecimal digits.
pub open spec fn hex_digits() -> Seq<char> {
    seq!['0', '1', '2', '3', '4', '5', '6', '7', '8', '9', 'a', 'b', 'c', 'd', 'e', 'f']
}

/// Whether every character of `s` is a lower-case hexadecimal digit.
pub open spec fn is_hex_text(s: Seq<char>) -> bool {
    forall|i: int| 0 <= i < s.len() ==> hex_digits().contains(#[trigger] s[i])
}

/// Spells out a seed from the positions drawn in the hexadecimal alphabet:
/// character `i` is the digit at position `indices[i]`.
pub fn seed_from_indices(indices: &Vec<usize>) -> (seed: String)
    requires
        forall|i: int| 0 <= i < indices.len() ==> #[trigger] indices[i] < 16,
    ensures
        seed@.len() == indices.len(),
        forall|i: int| 0 <= i < indices.len() ==> #[trigger] seed@[i] == hex_digits()[indices[i] as int],
{
    let charset: [char; 16] = ['0', '1', '2', '3', '4', '5', '6', '7', '8', '9', 'a', 'b', 'c', 'd', 'e', 'f'];
    assert(charset@ =~= hex_digits());
    let mut seed = String::new();
    let mut k: usize = 0;
    while k < indices.len()
        invariant
            k <= indices.len(),
            charset@ == hex_digits(),
            forall|i: int| 0 <= i < indices.len() ==> #[trigger] indices[i] < 16,
            seed@.len() == k,
            forall|i: int| 0 <= i < k ==> #[trigger] seed@[i] == hex_digits()[indices[i] as int],
        decreases indices.len() - k,
    {
        seed.push(charset[indices[k]]);
        k = k + 1;
    }
    seed
}

/// A random seed of `len` lower-case hexadecimal digits, each drawn
/// uniformly by the thread's generator.
#[allow(non_snake_case)]
pub fn randomSeed(len: usize) -> (seed: String)
    ensures
        seed@.len() == len,
        is_hex_text(seed@),
{
    let mut rng = thread_rng();
    let mut indices: Vec<usize> = Vec::new();
    let mut k: usize = 0;
    while k < len
        invariant
            k <= len,
            indices.len() == k,
            forall|i: int| 0 <= i < k ==> #[trigger] indices[i] < 16,
        decreases len - k,
    {
        indices.push(gen_index(&mut rng, 16));
        k = k + 1;
    }
    let seed = seed_from_indices(&indices);
    assert forall|i: int| 0 <= i < seed@.len() implies hex_digits().contains(#[trigger] seed@[i]) by {
        assert(hex_digits()[indices[i] as int] == seed@[i]);
    }
    seed
}

} // verus!
