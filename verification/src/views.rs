//! Facts that relate the views of the standard containers used throughout.
use vstd::prelude::*;

verus! {

/// A vector of characters is seen the same through `@` and `deep_view`.
pub broadcast proof fn lemma_char_vec_deep_view(v: Vec<char>)
    ensures
        #[trigger] v.deep_view() == v@,
{
    assert(v.deep_view() =~= v@);
}

/// A vector of `u64` is seen the same through `@` and `deep_view`.
pub broadcast proof fn lemma_u64_vec_deep_view(v: Vec<u64>)
    ensures
        #[trigger] v.deep_view() == v@,
{
    assert(v.deep_view() =~= v@);
}

} // verus!
