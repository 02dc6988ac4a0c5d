use vstd::prelude::*;

use crate::record::{Country, CountryView, views};

verus! {

/// The decimal digit character for one digit value.
pub open spec fn dec_digit(n: int) -> char {
    if n == 0 {
        '0'
    } else if n == 1 {
        '1'
    } else if n == 2 {
        '2'
    } else if n == 3 {
        '3'
    } else if n == 4 {
        '4'
    } else if n == 5 {
        '5'
    } else if n == 6 {
        '6'
    } else if n == 7 {
        '7'
    } else if n == 8 {
        '8'
    } else {
        '9'
    }
}

/// The decimal rendering of a number, without leading zeros (a lone zero for 0).
pub open spec fn dec_str(n: int) -> Seq<char>
    decreases n,
{
    if n < 10 {
        seq![dec_digit(n)]
    } else {
        dec_str(n / 10).push(dec_digit(n % 10))
    }
}

fn digit_str(d: u64) -> (r: &'static str)
    requires
        d < 10,
    ensures
        r@ == seq![dec_digit(d as int)],
{
    let r: &'static str = match d {
        0 => "0",
        1 => "1",
        2 => "2",
        3 => "3",
        4 => "4",
        5 => "5",
        6 => "6",
        7 => "7",
        8 => "8",
        _ => "9",
    };
    proof {
        reveal_strlit("0");
        reveal_strlit("1");
        reveal_strlit("2");
        reveal_strlit("3");
        reveal_strlit("4");
        reveal_strlit("5");
        reveal_strlit("6");
        reveal_strlit("7");
        reveal_strlit("8");
        reveal_strlit("9");
        assert(r@ =~= seq![dec_digit(d as int)]);
    }
    r
}

/// Renders a number in decimal.
pub fn u64_to_string(n: u64) -> (r: String)
    ensures
        r@ == dec_str(n as int),
    decreases n,
{
    if n < 10 {
        String::from_str(digit_str(n))
    } else {
        let mut s = u64_to_string(n / 10);
        s.append(digit_str(n % 10));
        proof {
            assert(dec_str(n as int / 10) + seq![dec_digit(n as int % 10)] =~= dec_str(
                n as int / 10,
            ).push(dec_digit(n as int % 10)));
        }
        s
    }
}

/// The capital names joined by a comma and a space.
pub open spec fn spec_join(l: Seq<Seq<char>>) -> Seq<char>
    decreases l.len(),
{
    if l.len() == 0 {
        Seq::empty()
    } else if l.len() == 1 {
        l[0]
    } else {
        spec_join(l.drop_last()) + ", "@ + l.last()
    }
}

/// Joins the capital names with a comma and a space.
pub fn join_capitals(l: &Vec<String>) -> (r: String)
    ensures
        r@ == spec_join(l@.map_values(|s: String| s@)),
{
    let ghost lv = l@.map_values(|s: String| s@);
    let mut r = String::new();
    let mut i: usize = 0;
    while i < l.len()
        invariant
            i <= l@.len(),
            lv == l@.map_values(|s: String| s@),
            r@ == spec_join(lv.take(i as int)),
        decreases l@.len() - i,
    {
        if i > 0 {
            r.append(", ");
        }
        r.append(l[i].as_str());
        proof {
            assert(lv.take(i + 1).drop_last() =~= lv.take(i as int));
            assert(lv.take(i + 1).last() == lv[i as int]);
        }
        i = i + 1;
    }
    proof {
        assert(lv.take(lv.len() as int) =~= lv);
    }
    r
}

/// What the capital column shows: the joined list, or a sentinel when there
/// is no data (absent list or empty list).
pub open spec fn capital_text(cap: Option<Seq<Seq<char>>>) -> Seq<char> {
    match cap {
        Some(l) => if l.len() == 0 {
            "N/A"@
        } else {
            spec_join(l)
        },
        None => "N/A"@,
    }
}

/// What the population column shows: the number, or 0 when unknown.
pub open spec fn population_text(p: Option<u64>) -> Seq<char> {
    match p {
        Some(n) => dec_str(n as int),
        None => dec_str(0),
    }
}

/// What the region column shows: the region, or a sentinel when unknown.
pub open spec fn region_text(r: Option<Seq<char>>) -> Seq<char> {
    match r {
        Some(s) => s,
        None => "N/A"@,
    }
}

/// The full text block shown for one record, separator line included.
pub open spec fn spec_format_country(v: CountryView) -> Seq<char> {
    "Common Name: "@ + v.name.common + "\nOfficial Name: "@ + v.name.official + "\nCapital: "@
        + capital_text(v.capital) + "\nPopulation: "@ + population_text(v.population)
        + "\nRegion: "@ + region_text(v.region) + "\n\n"@ + "----------------------------------\n"@
}

/// Renders one record as its text block.
pub fn format_country(c: &Country) -> (r: String)
    ensures
        r@ == spec_format_country(c@),
{
    let mut r = String::new();
    r.append("Common Name: ");
    r.append(c.name.common.as_str());
    r.append("\nOfficial Name: ");
    r.append(c.name.official.as_str());
    r.append("\nCapital: ");
    match &c.capital {
        Some(l) => {
            if l.len() == 0 {
                r.append("N/A");
            } else {
                let joined = join_capitals(l);
                r.append(joined.as_str());
            }
        },
        None => {
            r.append("N/A");
        },
    }
    r.append("\nPopulation: ");
    let p: u64 = match c.population {
        Some(n) => n,
        None => 0,
    };
    let ps = u64_to_string(p);
    r.append(ps.as_str());
    r.append("\nRegion: ");
    match &c.region {
        Some(s) => {
            r.append(s.as_str());
        },
        None => {
            r.append("N/A");
        },
    }
    r.append("\n\n");
    r.append("----------------------------------\n");
    r
}

/// The listing shown for a whole dataset: each record's block, in order.
pub open spec fn spec_display(s: Seq<CountryView>) -> Seq<char>
    decreases s.len(),
{
    if s.len() == 0 {
        Seq::empty()
    } else {
        spec_display(s.drop_last()) + spec_format_country(s.last())
    }
}

/// Renders the whole dataset, record by record, in order.
pub fn display_country_info(countries: &Vec<Country>) -> (r: String)
    ensures
        r@ == spec_display(views(countries@)),
{
    let mut r = String::new();
    let mut i: usize = 0;
    proof {
        assert(views(countries@.take(0)) =~= Seq::<CountryView>::empty());
    }
    while i < countries.len()
        invariant
            i <= countries@.len(),
            r@ == spec_display(views(countries@.take(i as int))),
        decreases countries@.len() - i,
    {
        let block = format_country(&countries[i]);
        r.append(block.as_str());
        proof {
            assert(views(countries@.take(i + 1)).drop_last() =~= views(
                countries@.take(i as int),
            ));
            assert(views(countries@.take(i + 1)).last() == countries@[i as int]@);
        }
        i = i + 1;
    }
    proof {
        assert(countries@.take(countries@.len() as int) =~= countries@);
    }
    r
}

} // verus!
