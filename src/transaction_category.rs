use vstd::prelude::*;

use crate::random::random_below;

verus! {

/// The category of a transaction.
#[derive(Clone, Copy, Debug, PartialEq, Eq, Structural, Hash)]
pub enum TransactionCategory {
    /// Standard transaction (the default).
    Standard,
    /// Native mint interaction.
    Mint,
    /// Native auction interaction.
    Auction,
    /// Install or upgrade.
    InstallUpgrade,
}

/// The category numbered `i`, in declaration order.
pub open spec fn category_at(i: usize) -> TransactionCategory {
    if i == 0 {
        TransactionCategory::Standard
    } else if i == 1 {
        TransactionCategory::Mint
    } else if i == 2 {
        TransactionCategory::Auction
    } else {
        TransactionCategory::InstallUpgrade
    }
}

impl TransactionCategory {
    /// The category numbered `i`, in declaration order; `None` past the last.
    pub fn from_index(i: usize) -> (r: Option<TransactionCategory>)
        ensures
            i < 4 ==> r == Some(category_at(i)),
            i >= 4 ==> r is None,
    {
        if i == 0 {
            Some(TransactionCategory::Standard)
        } else if i == 1 {
            Some(TransactionCategory::Mint)
        } else if i == 2 {
            Some(TransactionCategory::Auction)
        } else if i == 3 {
            Some(TransactionCategory::InstallUpgrade)
        } else {
            None
        }
    }

    /// A category drawn uniformly at random.
    pub fn random() -> (r: TransactionCategory)
        ensures
            exists|i: usize| i < 4 && r == category_at(i),
    {
        let i = random_below(4);
        match Self::from_index(i) {
            Some(c) => c,
            None => TransactionCategory::Standard,
        }
    }
}

impl Default for TransactionCategory {
    fn default() -> (r: TransactionCategory)
        ensures
            r == TransactionCategory::Standard,
    {
        TransactionCategory::Standard
    }
}

} // verus!
