use vstd::prelude::*;

use crate::filter::{search_country_by_name, spec_search};
use crate::format::{display_country_info, spec_display};
use crate::record::{clone_countries, Country, CountryView, views};
use crate::sort::{parse_sort_field, sort_by_field, sort_spec, spec_parse_sort_field};
use crate::text::{str_eq, trim, trim_of};

verus! {

/// Where the command loop stands: showing the menu, waiting for the line
/// that follows a menu choice, or done.
#[derive(Clone, Copy, Debug, PartialEq, Eq, Structural)]
pub enum LoopState {
    Ready,
    AwaitingSearchTerm,
    AwaitingSortField,
    Terminated,
}

/// The interactive session: the dataset fetched at startup, held unchanged
/// for the whole run, and the loop's state.
pub struct Session {
    pub countries: Vec<Country>,
    pub state: LoopState,
}

/// The prompt shown before the next line is read in each state.
pub open spec fn spec_prompt(st: LoopState) -> Seq<char> {
    match st {
        LoopState::Ready => "Options: \n1. Search Country \n2. Sort Countries \n3. Exit\n"@,
        LoopState::AwaitingSearchTerm => "Enter the country name to search: \n"@,
        LoopState::AwaitingSortField => "Enter the field to sort by (name, population, region): \n"@,
        LoopState::Terminated => Seq::empty(),
    }
}

/// The state after one line is handled in the given state.
pub open spec fn spec_next_state(st: LoopState, line: Seq<char>) -> LoopState {
    match st {
        LoopState::Ready => {
            if trim_of(line) == "1"@ {
                LoopState::AwaitingSearchTerm
            } else if trim_of(line) == "2"@ {
                LoopState::AwaitingSortField
            } else if trim_of(line) == "3"@ {
                LoopState::Terminated
            } else {
                LoopState::Ready
            }
        },
        LoopState::AwaitingSearchTerm => LoopState::Ready,
        LoopState::AwaitingSortField => LoopState::Ready,
        LoopState::Terminated => LoopState::Terminated,
    }
}

/// What a search command answers: the matching records, or a distinct
/// report when nothing matches.
pub open spec fn spec_search_response(ds: Seq<CountryView>, line: Seq<char>) -> Seq<char> {
    if spec_search(ds, line).len() == 0 {
        "No country found with the name: "@ + trim_of(line) + "\n"@
    } else {
        spec_display(spec_search(ds, line))
    }
}

/// What a sort command answers: the dataset sorted by the named field, or a
/// report for an empty or unrecognized field, with the dataset left as it was.
pub open spec fn spec_sort_response(ds: Seq<CountryView>, line: Seq<char>) -> Seq<char> {
    if trim_of(line).len() == 0 {
        "Invalid input, please enter a valid field.\n"@
    } else {
        match spec_parse_sort_field(trim_of(line)) {
            Some(f) => spec_display(sort_spec(f, ds)),
            None => "Invalid field! Choose from: name, population, region.\n"@,
        }
    }
}

/// What handling one line prints, in each state.
pub open spec fn spec_response(st: LoopState, ds: Seq<CountryView>, line: Seq<char>) -> Seq<char> {
    match st {
        LoopState::Ready => {
            if trim_of(line) == "1"@ || trim_of(line) == "2"@ || trim_of(line) == "3"@ {
                Seq::empty()
            } else {
                "Invalid option, please choose again.\n"@
            }
        },
        LoopState::AwaitingSearchTerm => spec_search_response(ds, line),
        LoopState::AwaitingSortField => spec_sort_response(ds, line),
        LoopState::Terminated => Seq::empty(),
    }
}

impl Session {
    /// Opens a session on a freshly fetched dataset, at the menu.
    pub fn new(countries: Vec<Country>) -> (s: Session)
        ensures
            views(s.countries@) == views(countries@),
            s.state == LoopState::Ready,
    {
        Session { countries, state: LoopState::Ready }
    }

    /// The session has ended and no further line is read.
    pub fn is_terminated(&self) -> (r: bool)
        ensures
            r == (self.state == LoopState::Terminated),
    {
        match self.state {
            LoopState::Terminated => true,
            _ => false,
        }
    }

    /// The prompt to show before reading the next line.
    pub fn prompt(&self) -> (r: String)
        ensures
            r@ == spec_prompt(self.state),
    {
        match self.state {
            LoopState::Ready => String::from_str(
                "Options: \n1. Search Country \n2. Sort Countries \n3. Exit\n",
            ),
            LoopState::AwaitingSearchTerm => String::from_str(
                "Enter the country name to search: \n",
            ),
            LoopState::AwaitingSortField => String::from_str(
                "Enter the field to sort by (name, population, region): \n",
            ),
            LoopState::Terminated => String::new(),
        }
    }

    /// Handles one line of input: dispatches on the menu choice, runs a
    /// search or a sort, and answers with the text to print. The dataset
    /// itself is never changed; a sort works on a discarded copy.
    pub fn handle_line(&mut self, line: &str) -> (out: String)
        ensures
            views(final(self).countries@) == views(old(self).countries@),
            final(self).state == spec_next_state(old(self).state, line@),
            out@ == spec_response(old(self).state, views(old(self).countries@), line@),
    {
        match self.state {
            LoopState::Ready => {
                let t = trim(line);
                if str_eq(t, "1") {
                    self.state = LoopState::AwaitingSearchTerm;
                    String::new()
                } else if str_eq(t, "2") {
                    self.state = LoopState::AwaitingSortField;
                    String::new()
                } else if str_eq(t, "3") {
                    self.state = LoopState::Terminated;
                    String::new()
                } else {
                    String::from_str("Invalid option, please choose again.\n")
                }
            },
            LoopState::AwaitingSearchTerm => {
                self.state = LoopState::Ready;
                let results = search_country_by_name(&self.countries, line);
                if results.len() == 0 {
                    let mut out = String::from_str("No country found with the name: ");
                    out.append(trim(line));
                    out.append("\n");
                    out
                } else {
                    display_country_info(&results)
                }
            },
            LoopState::AwaitingSortField => {
                self.state = LoopState::Ready;
                let t = trim(line);
                if t.is_empty() {
                    String::from_str("Invalid input, please enter a valid field.\n")
                } else {
                    match parse_sort_field(t) {
                        Some(f) => {
                            let mut sorted = clone_countries(&self.countries);
                            sort_by_field(&mut sorted, f);
                            display_country_info(&sorted)
                        },
                        None => String::from_str(
                            "Invalid field! Choose from: name, population, region.\n",
                        ),
                    }
                }
            },
            LoopState::Terminated => String::new(),
        }
    }
}

} // verus!
