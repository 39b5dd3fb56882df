//! Random DNA sequence synthesis.

use vstd::prelude::*;
use rand::distributions::Distribution;

verus! {

/// rand's thread-local generator type, declared so that it can stand in
/// signatures; it is opaque here.
#[verifier::external_type_specification]
#[verifier::external_body]
pub struct ExThreadRng(rand::rngs::ThreadRng);

/// Relies on rand::thread_rng: obtains the thread-local random generator.
/// Nothing is promised of it.
#[verifier::external_body]
fn new_rng() -> rand::rngs::ThreadRng {
    rand::thread_rng()
}

/// Relies on rand's `Uniform::from(0..4)` and `Distribution::sample`: a
/// sample of that distribution lies below 4, whatever the generator
/// returns.
#[verifier::external_body]
fn sample_base_index(rng: &mut rand::rngs::ThreadRng) -> (r: usize)
    ensures
        r < 4,
{
    rand::distributions::Uniform::from(0usize..4).sample(rng)
}

/// A DNA base.
pub open spec fn is_dna_base(c: char) -> bool {
    c == 'A' || c == 'C' || c == 'G' || c == 'T'
}

/// Generate a random DNA sequence of the given length: each position is a
/// base drawn from {A, C, G, T}.
pub fn generate_random_dna_sequence(length: usize) -> (r: String)
    ensures
        r@.len() == length,
        forall|i: int| 0 <= i < r@.len() ==> is_dna_base(r@[i]),
{
    let mut s = String::new();
    let mut rng = new_rng();
    let mut i: usize = 0;
    while i < length
        invariant
            i <= length,
            s@.len() == i,
            forall|j: int| 0 <= j < s@.len() ==> is_dna_base(s@[j]),
        decreases length - i,
    {
        let idx = sample_base_index(&mut rng);
        let base = if idx == 0 {
            "A"
        } else if idx == 1 {
            "C"
        } else if idx == 2 {
            "G"
        } else {
            "T"
        };
        proof {
            reveal_strlit("A");
            reveal_strlit("C");
            reveal_strlit("G");
            reveal_strlit("T");
        }
        s.append(base);
        i = i + 1;
    }
    s
}

} // verus!
