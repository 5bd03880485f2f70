//! Game-code generation: four uppercase letters drawn at random.

use vstd::prelude::*;
use vstd::string::StringExecFns;
use vstd::string::StrSliceExecFns;

verus! {

/// Relies on rand::random: a value drawn from the thread-local generator.
/// Nothing is promised of it.
pub assume_specification<T>[ rand::random::<T> ]() -> (r: T)
    where
        rand::distr::StandardUniform: rand::distr::Distribution<T>,
;

/// Whether every character of `s` is an uppercase ASCII letter.
pub open spec fn all_uppercase_letters(s: Seq<char>) -> bool {
    forall|i: int| 0 <= i < s.len() ==> 'A' <= #[trigger] s[i] <= 'Z'
}

/// A fresh game code: four uppercase ASCII letters chosen at random.
pub fn generate_code() -> (r: String)
    ensures
        r@.len() == 4,
        all_uppercase_letters(r@),
{
    let alphabet = "ABCDEFGHIJKLMNOPQRSTUVWXYZ";
    proof {
        reveal_strlit("ABCDEFGHIJKLMNOPQRSTUVWXYZ");
    }
    let mut code = ("").to_owned();
    proof {
        reveal_strlit("");
    }
    let mut i: usize = 0;
    while i < 4
        invariant
            i <= 4,
            code@.len() == i as int,
            all_uppercase_letters(code@),
            alphabet@.len() == 26,
            alphabet.is_ascii(),
            forall|j: int| 0 <= j < 26 ==> 'A' <= #[trigger] alphabet@[j] <= 'Z',
        decreases 4 - i,
    {
        let draw: u32 = rand::random::<u32>();
        let k: usize = (draw % 26) as usize;
        let letter = alphabet.substring_ascii(k, k + 1);
        code.append(letter);
        i = i + 1;
    }
    code
}

} // verus!
