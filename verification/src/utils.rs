//! Random choices: random indices and random lower-case phrases.
use std::time::{Duration, SystemTime, UNIX_EPOCH};
use vstd::prelude::*;

use crate::text::string_push;

verus! {

#[verifier::external_type_specification]
#[verifier::external_body]
pub struct ExSystemTime(SystemTime);

/// `SystemTime::now`: the current time of the system clock. It depends on the
/// moment of the call, so nothing is claimed of it.
#[verifier::external_body]
fn clock_now() -> SystemTime {
    SystemTime::now()
}

/// `SystemTime::duration_since(UNIX_EPOCH)`: the time elapsed since the Unix
/// epoch, `None` where the clock reads earlier than the epoch. Nothing is
/// claimed of the duration.
#[verifier::external_body]
fn since_epoch(t: SystemTime) -> Option<Duration> {
    t.duration_since(UNIX_EPOCH).ok()
}

/// `Duration::subsec_nanos`: the fractional part of the duration in
/// nanoseconds, which its documentation says is less than one billion.
#[verifier::external_body]
fn subsec_nanos(d: Duration) -> (r: u32)
    ensures
        r < 1_000_000_000,
{
    d.subsec_nanos()
}

/// The index that a sub-second clock reading of `nanos` nanoseconds picks
/// below `max`.
pub open spec fn index_of_nanos(nanos: u32, max: usize) -> int {
    nanos as int % max as int
}

/// The index below `max` picked by a clock reading of `nanos` nanoseconds:
/// the reading modulo `max`.
pub fn index_from_nanos(nanos: u32, max: usize) -> (r: usize)
    requires
        max > 0,
    ensures
        r == index_of_nanos(nanos, max),
        r < max,
{
    (nanos as usize) % max
}

/// A random index below `max`, taken from the sub-second part of the clock
/// (a reading of 0 where the clock reads earlier than the Unix epoch).
pub fn rand_idx(max: usize) -> (r: usize)
    requires
        max > 0,
    ensures
        r < max,
        exists|nanos: u32| nanos < 1_000_000_000 && r == #[trigger] index_of_nanos(nanos, max),
{
    let nanos: u32 = match since_epoch(clock_now()) {
        Some(d) => subsec_nanos(d),
        None => 0,
    };
    let r = index_from_nanos(nanos, max);
    assert(index_of_nanos(nanos, max) == r);
    r
}

/// The letters a random phrase is drawn from.
const ALPHABET: [char; 26] = [
    'a', 'b', 'c', 'd', 'e', 'f', 'g', 'h', 'i', 'j', 'k', 'l', 'm',
    'n', 'o', 'p', 'q', 'r', 's', 't', 'u', 'v', 'w', 'x', 'y', 'z',
];

/// The letters a random phrase is drawn from, in alphabetical order.
pub open spec fn alphabet() -> Seq<char> {
    seq![
        'a', 'b', 'c', 'd', 'e', 'f', 'g', 'h', 'i', 'j', 'k', 'l', 'm',
        'n', 'o', 'p', 'q', 'r', 's', 't', 'u', 'v', 'w', 'x', 'y', 'z',
    ]
}

/// A phrase of `length` lower-case ASCII letters.
pub open spec fn is_random_phrase(s: Seq<char>, length: nat) -> bool {
    &&& s.len() == length
    &&& forall|i: int| 0 <= i < s.len() ==> 'a' <= #[trigger] s[i] && s[i] <= 'z'
}

/// The letters that drawn indices pick from the alphabet, in order.
pub open spec fn letters_of_indices(indices: Seq<usize>) -> Seq<char> {
    indices.map_values(|k: usize| alphabet()[k as int])
}

/// Indices that each pick a letter of the alphabet.
pub open spec fn are_letter_indices(indices: Seq<usize>) -> bool {
    forall|i: int| 0 <= i < indices.len() ==> #[trigger] indices[i] < 26
}

/// The phrase spelled by drawn indices: the `k`-th letter of the alphabet
/// for each index `k`, in order.
pub fn letters_from_indices(indices: &Vec<usize>) -> (r: String)
    requires
        are_letter_indices(indices@),
    ensures
        r@ == letters_of_indices(indices@),
{
    let mut s = String::new();
    let mut i: usize = 0;
    while i < indices.len()
        invariant
            i <= indices.len(),
            are_letter_indices(indices@),
            s@ == letters_of_indices(indices@.take(i as int)),
        decreases indices.len() - i,
    {
        assert(ALPHABET@ =~= alphabet());
        assert(indices[i as int] < 26);
        let c = ALPHABET[indices[i]];
        string_push(&mut s, c);
        assert(letters_of_indices(indices@.take(i + 1)) =~= letters_of_indices(indices@.take(i as int)).push(c));
        i = i + 1;
    }
    assert(indices@.take(indices.len() as int) =~= indices@);
    s
}

/// Letters picked by valid indices form a random phrase of their length.
pub proof fn lemma_letters_are_lower_case(indices: Seq<usize>)
    requires
        are_letter_indices(indices),
    ensures
        is_random_phrase(letters_of_indices(indices), indices.len()),
{
    assert forall|i: int| 0 <= i < indices.len() implies 'a' <= #[trigger] letters_of_indices(indices)[i]
        && letters_of_indices(indices)[i] <= 'z' by {
        assert(indices[i] < 26);
        let k = indices[i] as int;
        assert(0 <= k < 26);
        assert(alphabet()[k] == alphabet()[k]);
    }
}

/// A random phrase of `length` lower-case letters: `length` indices drawn
/// with [`rand_idx`] below 26, spelled with [`letters_from_indices`].
pub fn generate_random_string(length: usize) -> (r: String)
    ensures
        is_random_phrase(r@, length as nat),
        exists|indices: Seq<usize>|
            indices.len() == length && are_letter_indices(indices) && r@ == #[trigger] letters_of_indices(indices),
{
    let mut indices: Vec<usize> = Vec::new();
    let mut i: usize = 0;
    while i < length
        invariant
            i <= length,
            indices@.len() == i,
            are_letter_indices(indices@),
        decreases length - i,
    {
        indices.push(rand_idx(26));
        i = i + 1;
    }
    let s = letters_from_indices(&indices);
    proof {
        lemma_letters_are_lower_case(indices@);
    }
    s
}

} // verus!
