//! The classification rule: which tier a delivered balance snapshot puts a
//! subject in.

use crate::classification::Tier;
use crate::msg::Coin;
use vstd::prelude::*;

verus! {

/// The amount of the first coin at or after position `from` whose
/// denomination is `denom`, if there is one.
pub open spec fn tracked_amount_from(coins: Seq<Coin>, denom: Seq<char>, from: int) -> Option<u128>
    decreases coins.len() - from,
{
    if from < 0 || from >= coins.len() {
        None
    } else if coins[from].denom@ == denom {
        Some(coins[from].amount)
    } else {
        tracked_amount_from(coins, denom, from + 1)
    }
}

/// The amount a snapshot reports for `denom`: that of the first coin with
/// this denomination, or `None` where the snapshot does not mention it.
pub open spec fn tracked_amount(coins: Seq<Coin>, denom: Seq<char>) -> Option<u128> {
    tracked_amount_from(coins, denom, 0)
}

/// The tier for `amount` against the threshold `rich_line`: at or above the
/// line is rich.
pub open spec fn tier_for(amount: u128, rich_line: u128) -> Tier {
    if amount >= rich_line {
        Tier::Rich
    } else {
        Tier::Poor
    }
}

/// The tier a snapshot puts its subject in, or `None` where the snapshot
/// does not mention the tracked asset.
pub open spec fn evaluation_of(coins: Seq<Coin>, denom: Seq<char>, rich_line: u128) -> Option<
    Tier,
> {
    match tracked_amount(coins, denom) {
        Some(amount) => Some(tier_for(amount, rich_line)),
        None => None,
    }
}

/// A snapshot reports no amount for `denom` exactly when none of its coins
/// has that denomination; otherwise it reports the amount of the first coin
/// that has it.
pub proof fn lemma_tracked_amount(coins: Seq<Coin>, denom: Seq<char>, from: int)
    requires
        0 <= from <= coins.len(),
    ensures
        tracked_amount_from(coins, denom, from) is None <==> forall|i: int|
            from <= i < coins.len() ==> (#[trigger] coins[i]).denom@ != denom,
        tracked_amount_from(coins, denom, from) matches Some(amount) ==> exists|i: int|
            from <= i < coins.len() && (#[trigger] coins[i]).denom@ == denom && coins[i].amount
                == amount && forall|j: int| from <= j < i ==> (#[trigger] coins[j]).denom@ != denom,
    decreases coins.len() - from,
{
    if from < coins.len() {
        if coins[from].denom@ == denom {
            assert(coins[from].denom@ == denom && forall|j: int|
                from <= j < from ==> (#[trigger] coins[j]).denom@ != denom);
        } else {
            lemma_tracked_amount(coins, denom, from + 1);
            if tracked_amount_from(coins, denom, from + 1) is Some {
                let amount = tracked_amount_from(coins, denom, from + 1)->0;
                let i = choose|i: int|
                    from + 1 <= i < coins.len() && (#[trigger] coins[i]).denom@ == denom
                        && coins[i].amount == amount && forall|j: int|
                        from + 1 <= j < i ==> (#[trigger] coins[j]).denom@ != denom;
                assert(from <= i < coins.len() && coins[i].denom@ == denom && coins[i].amount
                    == amount && forall|j: int|
                    from <= j < i ==> (#[trigger] coins[j]).denom@ != denom);
            }
        }
    }
}

/// Finds the amount a snapshot reports for `denom`.
pub fn find_tracked_amount(coins: &Vec<Coin>, denom: &String) -> (amount: Option<u128>)
    ensures
        amount == tracked_amount(coins@, denom@),
{
    let mut i: usize = 0;
    while i < coins.len()
        invariant
            i <= coins.len(),
            tracked_amount(coins@, denom@) == tracked_amount_from(coins@, denom@, i as int),
        decreases coins.len() - i,
    {
        if coins[i].denom == *denom {
            return Some(coins[i].amount);
        }
        i += 1;
    }
    None
}

/// Classifies `amount` against the threshold `rich_line`.
pub fn classify(amount: u128, rich_line: u128) -> (tier: Tier)
    ensures
        tier == tier_for(amount, rich_line),
{
    if amount >= rich_line {
        Tier::Rich
    } else {
        Tier::Poor
    }
}

/// Evaluates a snapshot: the tier of the amount it reports for `denom`.
pub fn evaluate(coins: &Vec<Coin>, denom: &String, rich_line: u128) -> (tier: Option<Tier>)
    ensures
        tier == evaluation_of(coins@, denom@, rich_line),
{
    match find_tracked_amount(coins, denom) {
        Some(amount) => Some(classify(amount, rich_line)),
        None => None,
    }
}

} // verus!
