//! Fallible maps over sequences: the first failure wins.
use vstd::prelude::*;

verus! {

/// Applies `f` to each element with its index, in order; the first error is
/// the result, else the sequence of results.
pub open spec fn try_map<A, B>(s: Seq<A>, f: spec_fn(int, A) -> Result<B, Seq<char>>) -> Result<Seq<B>, Seq<char>>
    decreases s.len(),
{
    if s.len() == 0 {
        Ok(Seq::empty())
    } else {
        match try_map(s.drop_last(), f) {
            Err(e) => Err(e),
            Ok(v) => match f(s.len() - 1, s.last()) {
                Err(e) => Err(e),
                Ok(b) => Ok(v.push(b)),
            },
        }
    }
}

/// One more element of a fallible map.
pub proof fn lemma_try_map_step<A, B>(s: Seq<A>, f: spec_fn(int, A) -> Result<B, Seq<char>>, i: int)
    requires
        0 <= i < s.len(),
    ensures
        try_map(s.take(i + 1), f) == (match try_map(s.take(i), f) {
            Err(e) => Err(e),
            Ok(v) => match f(i, s[i]) {
                Err(e) => Err(e),
                Ok(b) => Ok(v.push(b)),
            },
        }),
{
    assert(s.take(i + 1).drop_last() =~= s.take(i));
    assert(s.take(i + 1).last() == s[i]);
}

/// The empty prefix maps to the empty sequence.
pub proof fn lemma_try_map_empty<A, B>(s: Seq<A>, f: spec_fn(int, A) -> Result<B, Seq<char>>)
    ensures
        try_map(s.take(0), f) == Ok::<Seq<B>, Seq<char>>(Seq::empty()),
{
    assert(s.take(0).len() == 0);
}

/// A failure on a prefix is the failure of the whole sequence.
pub proof fn lemma_try_map_prefix_err<A, B>(s: Seq<A>, f: spec_fn(int, A) -> Result<B, Seq<char>>, i: int)
    requires
        0 <= i <= s.len(),
        try_map(s.take(i), f) is Err,
    ensures
        try_map(s, f) == try_map(s.take(i), f),
    decreases s.len() - i,
{
    if i == s.len() {
        assert(s.take(i) =~= s);
    } else {
        lemma_try_map_step(s, f, i);
        lemma_try_map_prefix_err(s, f, i + 1);
    }
}

/// Mapping the whole sequence, reached through its full prefix.
pub proof fn lemma_try_map_full<A, B>(s: Seq<A>, f: spec_fn(int, A) -> Result<B, Seq<char>>)
    ensures
        try_map(s.take(s.len() as int), f) == try_map(s, f),
{
    assert(s.take(s.len() as int) =~= s);
}

/// A successful map keeps the length.
pub proof fn lemma_try_map_len<A, B>(s: Seq<A>, f: spec_fn(int, A) -> Result<B, Seq<char>>)
    ensures
        try_map(s, f) matches Ok(v) ==> v.len() == s.len(),
    decreases s.len(),
{
    if s.len() > 0 {
        lemma_try_map_len(s.drop_last(), f);
    }
}

/// A successful map applies `f` at every index.
pub proof fn lemma_try_map_ok_at<A, B>(s: Seq<A>, f: spec_fn(int, A) -> Result<B, Seq<char>>, i: int)
    requires
        0 <= i < s.len(),
        try_map(s, f) is Ok,
    ensures
        f(i, s[i]) is Ok,
        try_map(s, f)->Ok_0[i] == f(i, s[i])->Ok_0,
    decreases s.len(),
{
    lemma_try_map_len(s.drop_last(), f);
    if i < s.len() - 1 {
        lemma_try_map_ok_at(s.drop_last(), f, i);
    }
}

} // verus!
