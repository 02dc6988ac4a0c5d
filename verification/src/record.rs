use vstd::prelude::*;

verus! {

/// The two name forms of a country: the casual short name and the formal one.
pub struct Name {
    pub common: String,
    pub official: String,
}

/// One country entry of the dataset. `name` is always present; the other
/// fields are optional and render a sentinel when absent.
pub struct Country {
    pub name: Name,
    pub capital: Option<Vec<String>>,
    pub population: Option<u64>,
    pub region: Option<String>,
}

/// Mathematical model of a `Name`.
pub struct NameView {
    pub common: Seq<char>,
    pub official: Seq<char>,
}

/// Mathematical model of a `Country`.
#[verifier::ext_equal]
pub struct CountryView {
    pub name: NameView,
    pub capital: Option<Seq<Seq<char>>>,
    pub population: Option<u64>,
    pub region: Option<Seq<char>>,
}

impl View for Name {
    type V = NameView;

    open spec fn view(&self) -> NameView {
        NameView { common: self.common@, official: self.official@ }
    }
}

impl View for Country {
    type V = CountryView;

    open spec fn view(&self) -> CountryView {
        CountryView {
            name: self.name@,
            capital: match self.capital {
                Some(v) => Some(v@.map_values(|s: String| s@)),
                None => None,
            },
            population: self.population,
            region: match self.region {
                Some(s) => Some(s@),
                None => None,
            },
        }
    }
}

/// The models of a sequence of records, in order.
pub open spec fn views(s: Seq<Country>) -> Seq<CountryView> {
    s.map_values(|c: Country| c@)
}

fn clone_string_vec(v: &Vec<String>) -> (r: Vec<String>)
    ensures
        r@.map_values(|s: String| s@) == v@.map_values(|s: String| s@),
{
    let mut r: Vec<String> = Vec::new();
    let mut i: usize = 0;
    while i < v.len()
        invariant
            i <= v@.len(),
            r@.len() == i,
            forall|j: int| 0 <= j < i ==> r@[j]@ == v@[j]@,
        decreases v@.len() - i,
    {
        r.push(v[i].clone());
        i = i + 1;
    }
    proof {
        assert(r@.map_values(|s: String| s@) =~= v@.map_values(|s: String| s@));
    }
    r
}

impl Clone for Name {
    fn clone(&self) -> (r: Self)
        ensures
            r@ == self@,
    {
        Name { common: self.common.clone(), official: self.official.clone() }
    }
}

impl Clone for Country {
    fn clone(&self) -> (r: Self)
        ensures
            r@ == self@,
    {
        let r = Country {
            name: self.name.clone(),
            capital: match &self.capital {
                Some(v) => Some(clone_string_vec(v)),
                None => None,
            },
            population: self.population,
            region: match &self.region {
                Some(s) => Some(s.clone()),
                None => None,
            },
        };
        proof {
            assert(r@ =~~= self@);
        }
        r
    }
}

/// Copies a whole dataset; the models of the records are unchanged.
pub fn clone_countries(v: &Vec<Country>) -> (r: Vec<Country>)
    ensures
        views(r@) == views(v@),
{
    let mut r: Vec<Country> = Vec::new();
    let mut i: usize = 0;
    while i < v.len()
        invariant
            i <= v@.len(),
            r@.len() == i,
            forall|j: int| 0 <= j < i ==> r@[j]@ == v@[j]@,
        decreases v@.len() - i,
    {
        r.push(v[i].clone());
        i = i + 1;
    }
    proof {
        assert(views(r@) =~= views(v@));
    }
    r
}

} // verus!
