//! Aggregation: the total card count, the learned count, and the derived
//! learned percentage with its explicit degenerate policy.

use vstd::arithmetic::div_mod::lemma_div_is_ordered;
use vstd::arithmetic::div_mod::lemma_div_multiples_vanish;
use vstd::prelude::*;

use crate::card::models_of;
use crate::card::Card;
use crate::card::CardModel;
use crate::decimal::dec_digits;
use crate::decimal::digit_char;
use crate::decimal::digit_str;
use crate::decimal::format_u64;
use crate::state::Queue;

verus! {

/// How many cards of the sequence are in the `Review` state.
pub open spec fn count_review(cards: Seq<CardModel>) -> nat
    decreases cards.len(),
{
    if cards.len() == 0 {
        0
    } else {
        count_review(cards.drop_last()) + if cards.last().queue is Review {
            1nat
        } else {
            0nat
        }
    }
}

/// Never more cards are learned than there are cards.
pub proof fn lemma_learned_le_total(cards: Seq<CardModel>)
    ensures
        count_review(cards) <= cards.len(),
    decreases cards.len(),
{
    if cards.len() > 0 {
        lemma_learned_le_total(cards.drop_last());
    }
}

/// With no more learned cards than cards, the percentage in hundredths
/// lies between 0 and 10000, that is between 0.00 and 100.00 percent.
pub proof fn lemma_percentage_in_range(learned: nat, total: nat)
    requires
        learned <= total,
        total > 0,
    ensures
        spec_percent_hundredths(learned, total) <= 10000,
{
    lemma_div_is_ordered(learned as int * 10000, total as int * 10000, total as int);
    lemma_div_multiples_vanish(10000, total as int);
}

/// Summary counts over one card sequence.
pub struct AggregateStats {
    /// Count of all cards.
    pub total: usize,
    /// Count of cards in the `Review` state.
    pub learned: usize,
}

/// The learned percentage in hundredths of a percent, truncated toward
/// zero; meaningful only when `total > 0`.
pub open spec fn spec_percent_hundredths(learned: nat, total: nat) -> nat
    recommends
        total > 0,
{
    learned * 10000 / total
}

/// The two-decimal rendering of the learned percentage. The degenerate
/// zero-total case renders as `NaN`, mirroring an undefined ratio, and is
/// produced without any division.
pub open spec fn percent_pretty(learned: nat, total: nat) -> Seq<char> {
    if total == 0 {
        "NaN"@
    } else {
        let h = spec_percent_hundredths(learned, total);
        dec_digits(h / 100) + seq!['.'] + seq![digit_char(h % 100 / 10), digit_char(h % 100 % 10)]
    }
}

/// The one-line human-readable summary of the aggregate counts.
pub open spec fn spec_summary(learned: nat, total: nat) -> Seq<char> {
    "learned "@ + dec_digits(learned) + "/"@ + dec_digits(total) + " ("@ + percent_pretty(
        learned,
        total,
    ) + "%)"@
}

/// Count the cards and the learned (`Review`) cards of the sequence. The
/// traversal order cannot affect the counts.
pub fn aggregate(cards: &Vec<Card>) -> (r: AggregateStats)
    ensures
        r.total == cards@.len(),
        r.learned == count_review(models_of(cards@)),
        r.learned <= r.total,
{
    let ghost models = models_of(cards@);
    let mut learned: usize = 0;
    let mut i: usize = 0;
    proof {
        assert(models.take(0) =~= Seq::<CardModel>::empty());
    }
    while i < cards.len()
        invariant
            i <= cards.len(),
            models == models_of(cards@),
            learned <= i,
            learned == count_review(models.take(i as int)),
        decreases cards.len() - i,
    {
        proof {
            assert(models.take(i + 1).drop_last() =~= models.take(i as int));
            assert(models.take(i + 1).last() == models[i as int]);
        }
        if cards[i].queue == Queue::Review {
            learned += 1;
        }
        i += 1;
    }
    proof {
        assert(models.take(cards@.len() as int) =~= models);
        lemma_learned_le_total(models);
    }
    AggregateStats { total: cards.len(), learned }
}

impl AggregateStats {
    /// The counts are consistent: no more learned cards than cards.
    pub open spec fn wf(self) -> bool {
        self.learned <= self.total
    }

    /// The learned percentage in hundredths of a percent, truncated
    /// toward zero, or `None` in the degenerate zero-total case: no
    /// division is attempted then, and the undefined ratio is made
    /// explicit to the caller.
    pub fn learned_percentage_hundredths(&self) -> (r: Option<u64>)
        requires
            self.wf(),
        ensures
            self.total == 0 <==> r is None,
            self.total > 0 ==> spec_percent_hundredths(self.learned as nat, self.total as nat)
                <= 10000,
            self.total > 0 ==> r == Some(
                spec_percent_hundredths(self.learned as nat, self.total as nat) as u64,
            ),
            r matches Some(h) ==> h <= 10000,
    {
        if self.total == 0 {
            None
        } else {
            let h = (self.learned as u128 * 10000) / (self.total as u128);
            proof {
                lemma_percentage_in_range(self.learned as nat, self.total as nat);
            }
            Some(h as u64)
        }
    }

    /// The learned percentage rendered with two decimal places, or `NaN`
    /// in the degenerate zero-total case.
    pub fn percentage_pretty(&self) -> (r: String)
        requires
            self.wf(),
        ensures
            r@ == percent_pretty(self.learned as nat, self.total as nat),
    {
        match self.learned_percentage_hundredths() {
            None => String::from_str("NaN"),
            Some(h) => {
                let whole = format_u64(h / 100);
                let frac = h % 100;
                proof {
                    reveal_strlit(".");
                }
                whole.concat(".").concat(digit_str(frac / 10)).concat(digit_str(frac % 10))
            },
        }
    }

    /// The one-line console summary: learned count, total count, and the
    /// two-decimal percentage.
    pub fn summary_line(&self) -> (r: String)
        requires
            self.wf(),
        ensures
            r@ == spec_summary(self.learned as nat, self.total as nat),
    {
        let s = String::from_str("learned ");
        let s = s.concat(format_u64(self.learned as u64).as_str());
        let s = s.concat("/");
        let s = s.concat(format_u64(self.total as u64).as_str());
        let s = s.concat(" (");
        let s = s.concat(self.percentage_pretty().as_str());
        let s = s.concat("%)");
        s
    }
}

} // verus!
