use vstd::prelude::*;

use crate::record::{Country, CountryView, views};
use crate::seqs::lemma_filter_push;
use crate::text::{contains_substring, is_substring, lower_of, lowercase, trim, trim_of};

verus! {

/// The record matches the search term: its common name, case-folded, holds
/// the case-folded trimmed term as a contiguous substring.
pub open spec fn matches_term(v: CountryView, term: Seq<char>) -> bool {
    is_substring(lower_of(trim_of(term)), lower_of(v.name.common))
}

/// The subset of `records` that matches `term`, in dataset order.
pub open spec fn spec_search(records: Seq<CountryView>, term: Seq<char>) -> Seq<CountryView> {
    records.filter(|v: CountryView| matches_term(v, term))
}

/// Returns every record whose common name, case-folded, contains the
/// case-folded trimmed search term, preserving the dataset order.
pub fn search_country_by_name(countries: &Vec<Country>, search_term: &str) -> (res: Vec<Country>)
    ensures
        views(res@) == spec_search(views(countries@), search_term@),
{
    let needle = lowercase(trim(search_term));
    let mut res: Vec<Country> = Vec::new();
    let mut i: usize = 0;
    proof {
        assert(views(countries@.take(0)) =~= Seq::<CountryView>::empty());
        assert(views(res@) =~= Seq::<CountryView>::empty());
        assert(Seq::<CountryView>::empty().filter(
            |v: CountryView| matches_term(v, search_term@),
        ) =~= Seq::<CountryView>::empty()) by {
            reveal(Seq::filter);
        }
    }
    while i < countries.len()
        invariant
            i <= countries@.len(),
            needle@ == lower_of(trim_of(search_term@)),
            views(res@) == spec_search(views(countries@.take(i as int)), search_term@),
        decreases countries@.len() - i,
    {
        let c = &countries[i];
        let low = lowercase(c.name.common.as_str());
        let ghost pred = |v: CountryView| matches_term(v, search_term@);
        let ghost prefix = views(countries@.take(i as int));
        if contains_substring(low.as_str(), needle.as_str()) {
            res.push(c.clone());
            proof {
                assert(pred(c@));
                lemma_filter_push(prefix, c@, pred);
            }
        } else {
            proof {
                assert(!pred(c@));
                lemma_filter_push(prefix, c@, pred);
            }
        }
        proof {
            assert(views(countries@.take(i + 1)) =~= prefix.push(c@));
        }
        i = i + 1;
    }
    proof {
        assert(countries@.take(countries@.len() as int) =~= countries@);
    }
    res
}

} // verus!
