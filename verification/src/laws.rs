use vstd::prelude::*;

use crate::filter::{matches_term, spec_search};
use crate::record::{CountryView, NameView};
use crate::sort::{key_eq, key_le, lemma_sort_spec_sorted, lemma_sort_spec_stable, pop_key, sort_spec,
    SortField};
use crate::text::{lower_of, trim_of};

verus! {

/// Sorting by population treats a record without a population as having
/// value 0: it never comes after a record with an explicit positive
/// population.
pub proof fn lemma_population_none_before_positive(s: Seq<CountryView>, i: int, j: int)
    requires
        0 <= i < sort_spec(SortField::Population, s).len(),
        0 <= j < sort_spec(SortField::Population, s).len(),
        sort_spec(SortField::Population, s)[i].population is None,
        (match sort_spec(SortField::Population, s)[j].population {
            Some(p) => p > 0,
            None => false,
        }),
    ensures
        i < j,
{
    let r = sort_spec(SortField::Population, s);
    lemma_sort_spec_sorted(SortField::Population, s);
    if j <= i {
        assert(key_le(SortField::Population, r[j], r[i]));
    }
}

/// Sorting by population keeps records that tie on the key — the records
/// without a population tie at 0 among themselves — in their original
/// relative order.
pub proof fn lemma_population_ties_stable(s: Seq<CountryView>, k: u64)
    ensures
        sort_spec(SortField::Population, s).filter(|v: CountryView| pop_key(v) == k) == s.filter(
            |v: CountryView| pop_key(v) == k,
        ),
{
    let w = CountryView {
        name: NameView { common: Seq::empty(), official: Seq::empty() },
        capital: None,
        population: Some(k),
        region: None,
    };
    lemma_sort_spec_stable(SortField::Population, s, w);
    assert((|v: CountryView| pop_key(v) == k) =~= (
    |u: CountryView| key_eq(SortField::Population, u, w)));
}

/// Sorting by region treats a record without a region as the empty string:
/// it never comes after a record with a non-empty explicit region.
pub proof fn lemma_region_none_before_nonempty(s: Seq<CountryView>, i: int, j: int)
    requires
        0 <= i < sort_spec(SortField::Region, s).len(),
        0 <= j < sort_spec(SortField::Region, s).len(),
        sort_spec(SortField::Region, s)[i].region is None,
        (match sort_spec(SortField::Region, s)[j].region {
            Some(t) => t.len() > 0,
            None => false,
        }),
    ensures
        i < j,
{
    let r = sort_spec(SortField::Region, s);
    lemma_sort_spec_sorted(SortField::Region, s);
    if j <= i {
        assert(key_le(SortField::Region, r[j], r[i]));
    }
}

/// Searching is idempotent: repeating the same search on its own result
/// changes nothing.
pub proof fn lemma_search_idempotent(ds: Seq<CountryView>, t: Seq<char>)
    ensures
        spec_search(spec_search(ds, t), t) == spec_search(ds, t),
{
    broadcast use vstd::seq_lib::group_filter_ensures;

    let pred = |v: CountryView| matches_term(v, t);
    let once = ds.filter(pred);
    assert(forall|i: int| 0 <= i < once.len() ==> pred(once[i]));
    crate::seqs::lemma_filter_all(once, pred);
}

/// Searching depends only on the case-folded, trimmed term: two terms that
/// fold to the same characters — differing in case, or in surrounding
/// whitespace — select the same records.
pub proof fn lemma_search_same_folded_term(ds: Seq<CountryView>, t1: Seq<char>, t2: Seq<char>)
    requires
        lower_of(trim_of(t1)) == lower_of(trim_of(t2)),
    ensures
        spec_search(ds, t1) == spec_search(ds, t2),
{
    assert((|v: CountryView| matches_term(v, t1)) =~= (|v: CountryView| matches_term(v, t2)));
}

} // verus!
