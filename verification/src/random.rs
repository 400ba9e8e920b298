use vstd::prelude::*;

verus! {

#[verifier::external_type_specification]
#[verifier::external_body]
pub struct ExStdRng(rand::rngs::StdRng);

/// Relies on rand::SeedableRng::from_os_rng on StdRng: a fresh
/// generator seeded from the operating system. It panics only when the
/// operating system cannot provide entropy at all.
#[verifier::external_body]
fn fresh_os_rng() -> rand::rngs::StdRng {
    <rand::rngs::StdRng as rand::SeedableRng>::from_os_rng()
}

/// Relies on rand::Rng::random_range over `0..n`: it panics only on an
/// empty range (excluded here) and returns a value of the range.
#[verifier::external_body]
fn draw_uniform(rng: &mut rand::rngs::StdRng, n: usize) -> (r: usize)
    requires
        n > 0,
    ensures
        r < n,
{
    rand::Rng::random_range(rng, 0..n)
}

/// The value the `i`-th draw from `0..n` yields under a scripted list
/// `s`: the entry reduced modulo `n` while entries remain, 0 afterwards.
pub open spec fn drawn_index(s: Seq<int>, i: int, n: int) -> int
    recommends
        n > 0,
{
    if 0 <= i < s.len() {
        s[i] % n
    } else {
        0
    }
}

/// An injectable randomness source: either the operating system's
/// generator, or a scripted list of draws that test doubles use to
/// force an exact sequence.
pub enum RandomSource {
    System(rand::rngs::StdRng),
    Scripted { draws: Vec<usize>, next: usize },
}

impl RandomSource {
    /// The draws still to come, for a scripted source; `None` for the
    /// system source, of which nothing is known in advance.
    pub open spec fn pending(&self) -> Option<Seq<int>> {
        match self {
            RandomSource::System(_) => Option::None,
            RandomSource::Scripted { draws, next } => Option::Some(
                if next <= draws@.len() {
                    draws@.map_values(|d: usize| d as int).skip(*next as int)
                } else {
                    Seq::<int>::empty()
                },
            ),
        }
    }

    /// A source backed by the operating system's generator.
    pub fn system() -> (r: RandomSource)
        ensures
            r.pending() is None,
    {
        RandomSource::System(fresh_os_rng())
    }

    /// A source that replays `draws` in order, then answers 0 forever.
    pub fn scripted(draws: Vec<usize>) -> (r: RandomSource)
        ensures
            r.pending() == Option::Some(draws@.map_values(|d: usize| d as int)),
    {
        RandomSource::Scripted { draws, next: 0 }
    }

    /// One draw from `0..n`. A scripted source consumes its next entry,
    /// reduced modulo `n`; once exhausted it stays put and answers 0.
    pub fn draw(&mut self, n: usize) -> (r: usize)
        requires
            n > 0,
        ensures
            r < n,
            old(self).pending() is None ==> final(self).pending() is None,
            old(self).pending() matches Some(s) ==> {
                &&& r as int == drawn_index(s, 0, n as int)
                &&& final(self).pending() == Option::Some(
                    if s.len() > 0 {
                        s.skip(1)
                    } else {
                        s
                    },
                )
            },
    {
        match self {
            RandomSource::System(rng) => draw_uniform(rng, n),
            RandomSource::Scripted { draws, next } => {
                if *next < draws.len() {
                    let v = draws[*next] % n;
                    *next = *next + 1;
                    v
                } else {
                    0
                }
            },
        }
    }
}

} // verus!
