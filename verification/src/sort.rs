use vstd::prelude::*;

use crate::record::{Country, CountryView, views};
use crate::seqs::{lemma_filter_add, lemma_filter_none, lemma_filter_push};
use crate::text::{lemma_lex_le_refl, lemma_lex_le_total, lemma_lex_le_trans, lex_le, lex_le_exec,
    str_eq};

verus! {

/// The three fields a dataset can be ordered by.
#[derive(Clone, Copy, Debug, PartialEq, Eq, Structural)]
pub enum SortField {
    Name,
    Population,
    Region,
}

/// Sort key under `name`: the common name.
pub open spec fn name_key(v: CountryView) -> Seq<char> {
    v.name.common
}

/// Sort key under `population`: a missing population counts as 0.
pub open spec fn pop_key(v: CountryView) -> u64 {
    match v.population {
        Some(p) => p,
        None => 0,
    }
}

/// Sort key under `region`: a missing region counts as the empty string,
/// which sorts first.
pub open spec fn region_key(v: CountryView) -> Seq<char> {
    match v.region {
        Some(r) => r,
        None => Seq::empty(),
    }
}

/// The total order a field induces on records.
pub open spec fn key_le(f: SortField, a: CountryView, b: CountryView) -> bool {
    match f {
        SortField::Name => lex_le(name_key(a), name_key(b)),
        SortField::Population => pop_key(a) <= pop_key(b),
        SortField::Region => lex_le(region_key(a), region_key(b)),
    }
}

/// Two records tie under the field's order.
pub open spec fn key_eq(f: SortField, a: CountryView, b: CountryView) -> bool {
    key_le(f, a, b) && key_le(f, b, a)
}

pub proof fn lemma_key_le_refl(f: SortField, a: CountryView)
    ensures
        key_le(f, a, a),
{
    match f {
        SortField::Name => lemma_lex_le_refl(name_key(a)),
        SortField::Population => {},
        SortField::Region => lemma_lex_le_refl(region_key(a)),
    }
}

pub proof fn lemma_key_le_total(f: SortField, a: CountryView, b: CountryView)
    ensures
        key_le(f, a, b) || key_le(f, b, a),
{
    match f {
        SortField::Name => lemma_lex_le_total(name_key(a), name_key(b)),
        SortField::Population => {},
        SortField::Region => lemma_lex_le_total(region_key(a), region_key(b)),
    }
}

pub proof fn lemma_key_le_trans(f: SortField, a: CountryView, b: CountryView, c: CountryView)
    requires
        key_le(f, a, b),
        key_le(f, b, c),
    ensures
        key_le(f, a, c),
{
    match f {
        SortField::Name => lemma_lex_le_trans(name_key(a), name_key(b), name_key(c)),
        SortField::Population => {},
        SortField::Region => lemma_lex_le_trans(region_key(a), region_key(b), region_key(c)),
    }
}

/// The sequence is ordered by the field's key.
pub open spec fn sorted_by(s: Seq<CountryView>, f: SortField) -> bool {
    forall|i: int, j: int| 0 <= i <= j < s.len() ==> key_le(f, s[i], s[j])
}

/// Where a record lands when inserted into an already sorted sequence: after
/// every element whose key is less than or equal to its own, so ties keep
/// their earlier positions.
pub open spec fn insert_spec(f: SortField, v: CountryView, s: Seq<CountryView>) -> Seq<CountryView>
    decreases s.len(),
{
    if s.len() == 0 {
        seq![v]
    } else if key_le(f, s[0], v) {
        seq![s[0]] + insert_spec(f, v, s.drop_first())
    } else {
        seq![v] + s
    }
}

/// Stable insertion sort of the record models by the field's key.
pub open spec fn sort_spec(f: SortField, s: Seq<CountryView>) -> Seq<CountryView>
    decreases s.len(),
{
    if s.len() == 0 {
        Seq::empty()
    } else {
        insert_spec(f, s.last(), sort_spec(f, s.drop_last()))
    }
}

proof fn lemma_sorted_drop_first(s: Seq<CountryView>, f: SortField)
    requires
        sorted_by(s, f),
        s.len() > 0,
    ensures
        sorted_by(s.drop_first(), f),
{
    assert forall|i: int, j: int| 0 <= i <= j < s.drop_first().len() implies key_le(
        f,
        s.drop_first()[i],
        s.drop_first()[j],
    ) by {
        assert(s.drop_first()[i] == s[i + 1]);
        assert(s.drop_first()[j] == s[j + 1]);
    }
}

/// Inserting into a sorted sequence keeps it sorted, adds one element, and
/// adds no element but the inserted one.
pub proof fn lemma_insert_props(f: SortField, v: CountryView, s: Seq<CountryView>)
    requires
        sorted_by(s, f),
    ensures
        insert_spec(f, v, s).len() == s.len() + 1,
        sorted_by(insert_spec(f, v, s), f),
        forall|i: int|
            0 <= i < insert_spec(f, v, s).len() ==> insert_spec(f, v, s)[i] == v || s.contains(
                insert_spec(f, v, s)[i],
            ),
    decreases s.len(),
{
    let r = insert_spec(f, v, s);
    if s.len() == 0 {
        lemma_key_le_refl(f, v);
    } else if key_le(f, s[0], v) {
        let d = s.drop_first();
        lemma_sorted_drop_first(s, f);
        lemma_insert_props(f, v, d);
        let q = insert_spec(f, v, d);
        assert(r == seq![s[0]] + q);
        assert(r.len() == s.len() + 1);
        assert forall|i: int| 0 <= i < r.len() implies r[i] == v || s.contains(r[i]) by {
            if i == 0 {
                assert(r[0] == s[0]);
                assert(s.contains(s[0]));
            } else {
                assert(r[i] == q[i - 1]);
                if q[i - 1] == v {
                } else {
                    let k = choose|k: int| 0 <= k < d.len() && d[k] == q[i - 1];
                    assert(s[k + 1] == d[k]);
                    assert(s.contains(q[i - 1]));
                }
            }
        }
        assert forall|i: int, j: int| 0 <= i <= j < r.len() implies key_le(f, r[i], r[j]) by {
            if i == 0 && j > 0 {
                assert(r[j] == q[j - 1]);
                if q[j - 1] == v {
                    assert(key_le(f, s[0], v));
                } else {
                    let k = choose|k: int| 0 <= k < d.len() && d[k] == q[j - 1];
                    assert(key_le(f, s[0], s[k + 1]));
                }
            } else if i > 0 {
                assert(r[i] == q[i - 1]);
                assert(r[j] == q[j - 1]);
            } else {
                lemma_key_le_refl(f, r[0]);
            }
        }
    } else {
        assert(r == seq![v] + s);
        lemma_key_le_total(f, s[0], v);
        assert(key_le(f, v, s[0]));
        assert forall|i: int, j: int| 0 <= i <= j < r.len() implies key_le(f, r[i], r[j]) by {
            if i == 0 && j > 0 {
                assert(r[j] == s[j - 1]);
                assert(key_le(f, s[0], s[j - 1]));
                lemma_key_le_trans(f, v, s[0], s[j - 1]);
            } else if i == 0 && j == 0 {
                lemma_key_le_refl(f, v);
            } else {
                assert(r[i] == s[i - 1]);
                assert(r[j] == s[j - 1]);
            }
        }
        assert forall|i: int| 0 <= i < r.len() implies r[i] == v || s.contains(r[i]) by {
            if i > 0 {
                assert(r[i] == s[i - 1]);
                assert(s.contains(s[i - 1]));
            }
        }
    }
}

/// Inserting `v` appends it to its tie class and leaves every other tie class
/// of the filtered sequence unchanged.
pub proof fn lemma_insert_filter(f: SortField, v: CountryView, s: Seq<CountryView>, w: CountryView)
    requires
        sorted_by(s, f),
    ensures
        key_eq(f, v, w) ==> insert_spec(f, v, s).filter(|u: CountryView| key_eq(f, u, w))
            == s.filter(|u: CountryView| key_eq(f, u, w)).push(v),
        !key_eq(f, v, w) ==> insert_spec(f, v, s).filter(|u: CountryView| key_eq(f, u, w))
            == s.filter(|u: CountryView| key_eq(f, u, w)),
    decreases s.len(),
{
    let pred = |u: CountryView| key_eq(f, u, w);
    let r = insert_spec(f, v, s);
    if s.len() == 0 {
        assert(s.push(v) =~= seq![v]);
        lemma_filter_push(s, v, pred);
        lemma_filter_none(s, pred);
    } else if key_le(f, s[0], v) {
        let d = s.drop_first();
        lemma_sorted_drop_first(s, f);
        lemma_insert_filter(f, v, d, w);
        let q = insert_spec(f, v, d);
        assert(r == seq![s[0]] + q);
        lemma_filter_add(seq![s[0]], q, pred);
        assert(s =~= seq![s[0]] + d);
        lemma_filter_add(seq![s[0]], d, pred);
        if pred(v) {
            assert(q.filter(pred) == d.filter(pred).push(v));
            assert(seq![s[0]].filter(pred) + d.filter(pred).push(v) =~= (seq![s[0]].filter(pred)
                + d.filter(pred)).push(v));
        }
    } else {
        assert(r == seq![v] + s);
        lemma_filter_add(seq![v], s, pred);
        lemma_key_le_total(f, s[0], v);
        assert(key_le(f, v, s[0]));
        if pred(v) {
            // every element of `s` is at or above `s[0]`, hence strictly above
            // `v`'s tie class: the class is empty in `s`
            assert forall|i: int| 0 <= i < s.len() implies !pred(s[i]) by {
                if pred(s[i]) {
                    assert(key_le(f, s[i], w));
                    assert(key_le(f, w, v));
                    lemma_key_le_trans(f, s[i], w, v);
                    assert(key_le(f, s[0], s[i]));
                    lemma_key_le_trans(f, s[0], s[i], v);
                }
            }
            lemma_filter_none(s, pred);
            assert(Seq::<CountryView>::empty().push(v) =~= seq![v]);
            lemma_filter_push(Seq::<CountryView>::empty(), v, pred);
            lemma_filter_none(Seq::<CountryView>::empty(), pred);
            assert(r.filter(pred) =~= s.filter(pred).push(v));
        } else {
            assert(Seq::<CountryView>::empty().push(v) =~= seq![v]);
            lemma_filter_push(Seq::<CountryView>::empty(), v, pred);
            lemma_filter_none(Seq::<CountryView>::empty(), pred);
            assert(r.filter(pred) =~= s.filter(pred));
        }
    }
}

/// The sort yields a sorted sequence of the same length.
pub proof fn lemma_sort_spec_sorted(f: SortField, s: Seq<CountryView>)
    ensures
        sort_spec(f, s).len() == s.len(),
        sorted_by(sort_spec(f, s), f),
    decreases s.len(),
{
    if s.len() > 0 {
        lemma_sort_spec_sorted(f, s.drop_last());
        lemma_insert_props(f, s.last(), sort_spec(f, s.drop_last()));
    }
}

/// Stability: the sort keeps each tie class in its original relative order.
/// Filtering the sorted sequence down to the records that tie with `w` yields
/// exactly the same subsequence as filtering the input.
pub proof fn lemma_sort_spec_stable(f: SortField, s: Seq<CountryView>, w: CountryView)
    ensures
        sort_spec(f, s).filter(|u: CountryView| key_eq(f, u, w)) == s.filter(
            |u: CountryView| key_eq(f, u, w),
        ),
    decreases s.len(),
{
    let pred = |u: CountryView| key_eq(f, u, w);
    if s.len() == 0 {
        reveal(Seq::filter);
    } else {
        let d = s.drop_last();
        lemma_sort_spec_stable(f, d, w);
        lemma_sort_spec_sorted(f, d);
        lemma_insert_filter(f, s.last(), sort_spec(f, d), w);
        assert(d.push(s.last()) =~= s);
        lemma_filter_push(d, s.last(), pred);
    }
}

/// The sort permutes the input: same records, same multiplicities.
pub proof fn lemma_sort_spec_permutes(f: SortField, s: Seq<CountryView>)
    ensures
        sort_spec(f, s).to_multiset() == s.to_multiset(),
    decreases s.len(),
{
    broadcast use vstd::seq_lib::group_to_multiset_ensures;

    if s.len() > 0 {
        let d = s.drop_last();
        lemma_sort_spec_permutes(f, d);
        lemma_sort_spec_sorted(f, d);
        lemma_insert_multiset(f, s.last(), sort_spec(f, d));
        assert(d.push(s.last()) =~= s);
    }
}

proof fn lemma_insert_multiset(f: SortField, v: CountryView, s: Seq<CountryView>)
    ensures
        insert_spec(f, v, s).to_multiset() == s.to_multiset().insert(v),
    decreases s.len(),
{
    broadcast use vstd::seq_lib::group_to_multiset_ensures;

    let r = insert_spec(f, v, s);
    if s.len() == 0 {
        assert(seq![v] =~= Seq::<CountryView>::empty().push(v));
    } else if key_le(f, s[0], v) {
        let d = s.drop_first();
        lemma_insert_multiset(f, v, d);
        let q = insert_spec(f, v, d);
        vstd::seq_lib::lemma_multiset_commutative(seq![s[0]], q);
        vstd::seq_lib::lemma_multiset_commutative(seq![s[0]], d);
        assert(s =~= seq![s[0]] + d);
        assert(seq![s[0]] =~= Seq::<CountryView>::empty().push(s[0]));
        assert(r.to_multiset() =~= s.to_multiset().insert(v));
    } else {
        vstd::seq_lib::lemma_multiset_commutative(seq![v], s);
        assert(seq![v] =~= Seq::<CountryView>::empty().push(v));
        assert(r.to_multiset() =~= s.to_multiset().insert(v));
    }
}

/// Decides the field's order on two records.
fn key_le_exec(f: SortField, a: &Country, b: &Country) -> (r: bool)
    ensures
        r == key_le(f, a@, b@),
{
    match f {
        SortField::Name => lex_le_exec(a.name.common.as_str(), b.name.common.as_str()),
        SortField::Population => {
            let pa = match a.population {
                Some(p) => p,
                None => 0,
            };
            let pb = match b.population {
                Some(p) => p,
                None => 0,
            };
            pa <= pb
        },
        SortField::Region => {
            let ra = match &a.region {
                Some(s) => s.as_str(),
                None => "",
            };
            let rb = match &b.region {
                Some(s) => s.as_str(),
                None => "",
            };
            proof {
                reveal_strlit("");
                assert(""@ =~= Seq::<char>::empty());
            }
            lex_le_exec(ra, rb)
        },
    }
}

/// Inserts one record into a sorted working copy, after its tie class.
fn insert_sorted(out: &mut Vec<Country>, c: Country, f: SortField)
    requires
        sorted_by(views(old(out)@), f),
    ensures
        views(final(out)@) == insert_spec(f, c@, views(old(out)@)),
        sorted_by(views(final(out)@), f),
{
    let ghost s = views(out@);
    let mut p: usize = 0;
    loop
        invariant
            p <= out@.len(),
            s == views(out@),
            sorted_by(s, f),
            forall|j: int| 0 <= j < p ==> key_le(f, s[j], c@),
        ensures
            p <= out@.len(),
            forall|j: int| 0 <= j < p ==> key_le(f, s[j], c@),
            p < out@.len() ==> !key_le(f, s[p as int], c@),
        decreases out@.len() - p,
    {
        if p == out.len() {
            break;
        }
        if !key_le_exec(f, &out[p], &c) {
            break;
        }
        p = p + 1;
    }
    out.insert(p, c);
    proof {
        lemma_insert_spec_at(f, c@, s, p as int);
        assert(views(out@) =~= s.take(p as int) + seq![c@] + s.skip(p as int));
        lemma_insert_props(f, c@, s);
    }
}

/// `insert_spec` places the record at the first position whose element's key
/// exceeds the record's.
proof fn lemma_insert_spec_at(f: SortField, v: CountryView, s: Seq<CountryView>, p: int)
    requires
        0 <= p <= s.len(),
        forall|j: int| 0 <= j < p ==> key_le(f, s[j], v),
        p < s.len() ==> !key_le(f, s[p], v),
    ensures
        insert_spec(f, v, s) == s.take(p) + seq![v] + s.skip(p),
    decreases s.len(),
{
    if s.len() == 0 {
        assert(s.take(0) + seq![v] + s.skip(0) =~= seq![v]);
    } else if p == 0 {
        assert(!key_le(f, s[0], v));
        assert(s.take(0) + seq![v] + s.skip(0) =~= seq![v] + s);
    } else {
        assert(key_le(f, s[0], v));
        let d = s.drop_first();
        lemma_insert_spec_at(f, v, d, p - 1);
        assert(seq![s[0]] + (d.take(p - 1) + seq![v] + d.skip(p - 1)) =~= s.take(p) + seq![v]
            + s.skip(p));
    }
}

/// Sorts a working copy of the dataset by the field, stably.
pub fn sort_by_field(countries: &mut Vec<Country>, f: SortField)
    ensures
        views(final(countries)@) == sort_spec(f, views(old(countries)@)),
{
    let ghost input = views(countries@);
    let mut out: Vec<Country> = Vec::new();
    let mut i: usize = 0;
    proof {
        assert(views(out@) =~= Seq::<CountryView>::empty());
        assert(views(countries@.take(0)) =~= Seq::<CountryView>::empty());
    }
    while i < countries.len()
        invariant
            i <= countries@.len(),
            input == views(countries@),
            views(out@) == sort_spec(f, views(countries@.take(i as int))),
            sorted_by(views(out@), f),
        decreases countries@.len() - i,
    {
        let c = countries[i].clone();
        let ghost prefix = views(countries@.take(i as int));
        insert_sorted(&mut out, c, f);
        proof {
            let prefix1 = views(countries@.take(i + 1));
            assert(prefix1.drop_last() =~= prefix);
            assert(prefix1.last() == countries@[i as int]@);
            lemma_insert_props(f, countries@[i as int]@, sort_spec(f, prefix));
        }
        i = i + 1;
    }
    proof {
        assert(countries@.take(countries@.len() as int) =~= countries@);
    }
    *countries = out;
}

/// The spelling of each recognized sort field.
pub open spec fn spec_parse_sort_field(s: Seq<char>) -> Option<SortField> {
    if s == "name"@ {
        Some(SortField::Name)
    } else if s == "population"@ {
        Some(SortField::Population)
    } else if s == "region"@ {
        Some(SortField::Region)
    } else {
        None
    }
}

/// Parses a sort field name; any other spelling is rejected.
pub fn parse_sort_field(field: &str) -> (r: Option<SortField>)
    ensures
        r == spec_parse_sort_field(field@),
{
    if str_eq(field, "name") {
        Some(SortField::Name)
    } else if str_eq(field, "population") {
        Some(SortField::Population)
    } else if str_eq(field, "region") {
        Some(SortField::Region)
    } else {
        None
    }
}

/// Sorts the dataset by the named field; an unrecognized field leaves the
/// dataset unchanged and reports failure.
pub fn sort_countries(countries: &mut Vec<Country>, field: &str) -> (ok: bool)
    ensures
        (match spec_parse_sort_field(field@) {
            Some(f) => ok && views(final(countries)@) == sort_spec(f, views(old(countries)@)),
            None => !ok && views(final(countries)@) == views(old(countries)@),
        }),
{
    match parse_sort_field(field) {
        Some(f) => {
            sort_by_field(countries, f);
            true
        },
        None => false,
    }
}

} // verus!
