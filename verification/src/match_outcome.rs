//! The shape of a search's ranked result, recorded per run to tune the
//! matcher's thresholds.
use vstd::prelude::*;
use vstd::string::*;
use crate::matcher::Confidence;

verus! {

#[derive(Copy, Clone, Debug, PartialEq, Eq, Structural)]
pub enum MatchOutcomeKind {
    NoMatch,
    SingleGood,
    MultiGood,
    SingleBadCover,
    MultiBadCover,
}

pub open spec fn match_outcome_key(k: MatchOutcomeKind) -> Seq<char> {
    match k {
        MatchOutcomeKind::NoMatch => "no_match"@,
        MatchOutcomeKind::SingleGood => "single_good"@,
        MatchOutcomeKind::MultiGood => "multi_good"@,
        MatchOutcomeKind::SingleBadCover => "single_bad_cover"@,
        MatchOutcomeKind::MultiBadCover => "multi_bad_cover"@,
    }
}

/// Distinct outcome kinds are stored as distinct text.
pub proof fn lemma_outcome_keys_distinct(a: MatchOutcomeKind, b: MatchOutcomeKind)
    requires
        a != b,
    ensures
        match_outcome_key(a) != match_outcome_key(b),
{
    reveal_strlit("no_match");
    reveal_strlit("single_good");
    reveal_strlit("multi_good");
    reveal_strlit("single_bad_cover");
    reveal_strlit("multi_bad_cover");
    assert(match_outcome_key(a).len() != match_outcome_key(b).len());
}

/// No candidates; one or several; the top one in the high bucket or not.
pub open spec fn outcome_of(buckets: Seq<Confidence>) -> MatchOutcomeKind {
    if buckets.len() == 0 {
        MatchOutcomeKind::NoMatch
    } else if buckets.len() == 1 {
        if buckets[0] == Confidence::High {
            MatchOutcomeKind::SingleGood
        } else {
            MatchOutcomeKind::SingleBadCover
        }
    } else if buckets[0] == Confidence::High {
        MatchOutcomeKind::MultiGood
    } else {
        MatchOutcomeKind::MultiBadCover
    }
}

impl MatchOutcomeKind {
    pub fn as_str(self) -> (r: &'static str)
        ensures
            r@ == match_outcome_key(self),
    {
        match self {
            MatchOutcomeKind::NoMatch => "no_match",
            MatchOutcomeKind::SingleGood => "single_good",
            MatchOutcomeKind::MultiGood => "multi_good",
            MatchOutcomeKind::SingleBadCover => "single_bad_cover",
            MatchOutcomeKind::MultiBadCover => "multi_bad_cover",
        }
    }

    /// Classify a ranked list by its confidence buckets, best first.
    pub fn classify(buckets: &[Confidence]) -> (r: Self)
        ensures
            r == outcome_of(buckets@),
    {
        if buckets.len() == 0 {
            MatchOutcomeKind::NoMatch
        } else if buckets.len() == 1 {
            match buckets[0] {
                Confidence::High => MatchOutcomeKind::SingleGood,
                _ => MatchOutcomeKind::SingleBadCover,
            }
        } else {
            match buckets[0] {
                Confidence::High => MatchOutcomeKind::MultiGood,
                _ => MatchOutcomeKind::MultiBadCover,
            }
        }
    }
}

/// The outcome of a ranked result: no match exactly when nothing was
/// ranked; a "good" outcome exactly when the top candidate is in the high
/// bucket; a "multi" outcome exactly when more than one was ranked.
pub proof fn lemma_outcome_shape(buckets: Seq<Confidence>)
    ensures
        (outcome_of(buckets) == MatchOutcomeKind::NoMatch) == (buckets.len() == 0),
        (outcome_of(buckets) == MatchOutcomeKind::SingleGood || outcome_of(buckets)
            == MatchOutcomeKind::MultiGood) == (buckets.len() > 0 && buckets[0] == Confidence::High),
        (outcome_of(buckets) == MatchOutcomeKind::MultiGood || outcome_of(buckets)
            == MatchOutcomeKind::MultiBadCover) == (buckets.len() > 1),
{
}

} // verus!
