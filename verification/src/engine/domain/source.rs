use vstd::prelude::*;

verus! {

/// The venue a price or a trade comes from.
#[derive(Clone, Copy, Debug, PartialEq, Eq, Structural)]
pub enum Source {
    Kraken,
    Uniswap,
}

/// The venue's name as it is written to storage.
pub open spec fn source_name(s: Source) -> Seq<char> {
    match s {
        Source::Kraken => seq!['k', 'r', 'a', 'k', 'e', 'n'],
        Source::Uniswap => seq!['u', 'n', 'i', 's', 'w', 'a', 'p'],
    }
}

impl Source {
    /// The venue's name as it is written to storage.
    pub fn as_str(&self) -> (r: &'static str)
        ensures
            r@ == source_name(*self),
    {
        proof {
            reveal_strlit("kraken");
            reveal_strlit("uniswap");
        }
        match self {
            Source::Kraken => "kraken",
            Source::Uniswap => "uniswap",
        }
    }
}

} // verus!
