use country_browser::command::{LoopState, Session};
use country_browser::filter::search_country_by_name;
use country_browser::format::{display_country_info, format_country, u64_to_string};
use country_browser::record::{Country, Name};
use country_browser::sort::{parse_sort_field, sort_by_field, sort_countries, SortField};
use country_browser::text::{contains_substring, lex_le_exec, str_eq};

fn country(
    common: &str,
    official: &str,
    capital: Option<Vec<&str>>,
    population: Option<u64>,
    region: Option<&str>,
) -> Country {
    Country {
        name: Name { common: common.to_string(), official: official.to_string() },
        capital: capital.map(|c| c.into_iter().map(|s| s.to_string()).collect()),
        population,
        region: region.map(|s| s.to_string()),
    }
}

fn sample() -> Vec<Country> {
    vec![
        country(
            "France",
            "French Republic",
            Some(vec!["Paris"]),
            Some(67_000_000),
            Some("Europe"),
        ),
        country(
            "Germany",
            "Federal Republic of Germany",
            Some(vec!["Berlin"]),
            Some(83_000_000),
            Some("Europe"),
        ),
        country("Japan", "Japan", Some(vec!["Tokyo"]), Some(125_000_000), Some("Asia")),
    ]
}

fn common_names(v: &[Country]) -> Vec<String> {
    v.iter().map(|c| c.name.common.clone()).collect()
}

#[test]
fn population_sort_missing_counts_as_zero() {
    let mut data = vec![
        country("Avalon", "Avalon", None, Some(5), None),
        country("Brigadoon", "Brigadoon", None, None, None),
        country("Carcosa", "Carcosa", None, Some(1), None),
        country("Drangleic", "Drangleic", None, None, None),
    ];
    sort_by_field(&mut data, SortField::Population);
    // missing populations sort before every positive one, in their original
    // relative order
    assert_eq!(common_names(&data), vec!["Brigadoon", "Drangleic", "Carcosa", "Avalon"]);
}

#[test]
fn population_sort_missing_ties_with_explicit_zero() {
    let mut data = vec![
        country("Avalon", "Avalon", None, Some(0), None),
        country("Brigadoon", "Brigadoon", None, None, None),
        country("Carcosa", "Carcosa", None, Some(0), None),
    ];
    sort_by_field(&mut data, SortField::Population);
    assert_eq!(common_names(&data), vec!["Avalon", "Brigadoon", "Carcosa"]);
}

#[test]
fn region_sort_missing_counts_as_empty() {
    let mut data = vec![
        country("Avalon", "Avalon", None, None, Some("Europe")),
        country("Brigadoon", "Brigadoon", None, None, None),
        country("Carcosa", "Carcosa", None, None, Some("Asia")),
        country("Drangleic", "Drangleic", None, None, None),
    ];
    sort_by_field(&mut data, SortField::Region);
    assert_eq!(common_names(&data), vec!["Brigadoon", "Drangleic", "Carcosa", "Avalon"]);
}

#[test]
fn search_is_idempotent() {
    let data = sample();
    let once = search_country_by_name(&data, "an");
    let twice = search_country_by_name(&once, "an");
    assert_eq!(common_names(&once), common_names(&twice));
    assert_eq!(common_names(&once), vec!["France", "Germany", "Japan"]);
}

#[test]
fn search_is_case_insensitive() {
    let data = sample();
    let upper = search_country_by_name(&data, "FRANCE");
    let lower = search_country_by_name(&data, "france");
    assert_eq!(common_names(&upper), vec!["France"]);
    assert_eq!(common_names(&upper), common_names(&lower));
}

#[test]
fn search_trims_whitespace() {
    let data = sample();
    let padded = search_country_by_name(&data, "  France  ");
    let plain = search_country_by_name(&data, "France");
    assert_eq!(common_names(&padded), vec!["France"]);
    assert_eq!(common_names(&padded), common_names(&plain));
}

#[test]
fn search_preserves_dataset_order() {
    let data = sample();
    let hits = search_country_by_name(&data, "a");
    assert_eq!(common_names(&hits), vec!["France", "Germany", "Japan"]);
}

#[test]
fn search_no_match_yields_empty() {
    let data = sample();
    let hits = search_country_by_name(&data, "Atlantis");
    assert!(hits.is_empty());
}

#[test]
fn unrecognized_sort_field_changes_nothing() {
    let mut data = sample();
    let before = common_names(&data);
    let ok = sort_countries(&mut data, "area");
    assert!(!ok);
    assert_eq!(common_names(&data), before);
}

#[test]
fn recognized_sort_fields_parse() {
    assert_eq!(parse_sort_field("name"), Some(SortField::Name));
    assert_eq!(parse_sort_field("population"), Some(SortField::Population));
    assert_eq!(parse_sort_field("region"), Some(SortField::Region));
    assert_eq!(parse_sort_field("area"), None);
    assert_eq!(parse_sort_field(""), None);
}

#[test]
fn end_to_end_france_germany() {
    let data = vec![
        country(
            "Germany",
            "Federal Republic of Germany",
            Some(vec!["Berlin"]),
            Some(83_000_000),
            Some("Europe"),
        ),
        country(
            "France",
            "French Republic",
            Some(vec!["Paris"]),
            Some(67_000_000),
            Some("Europe"),
        ),
    ];
    let mut by_pop = data.clone();
    sort_by_field(&mut by_pop, SortField::Population);
    assert_eq!(common_names(&by_pop), vec!["France", "Germany"]);
    let mut by_name = data.clone();
    sort_by_field(&mut by_name, SortField::Name);
    assert_eq!(common_names(&by_name), vec!["France", "Germany"]);
    let hits = search_country_by_name(&data, "Ger");
    assert_eq!(common_names(&hits), vec!["Germany"]);
}

#[test]
fn name_sort_orders_by_code_point() {
    let mut data = vec![
        country("apple", "apple", None, None, None),
        country("Banana", "Banana", None, None, None),
    ];
    sort_by_field(&mut data, SortField::Name);
    // ASCII upper case letters come before lower case ones
    assert_eq!(common_names(&data), vec!["Banana", "apple"]);
}

#[test]
fn name_sort_is_stable_on_equal_names() {
    let mut data = vec![
        country("Avalon", "First Avalon", None, Some(1), None),
        country("Avalon", "Second Avalon", None, Some(2), None),
    ];
    sort_by_field(&mut data, SortField::Name);
    assert_eq!(data[0].name.official, "First Avalon");
    assert_eq!(data[1].name.official, "Second Avalon");
}

#[test]
fn format_renders_all_fields() {
    let c = country(
        "France",
        "French Republic",
        Some(vec!["Paris"]),
        Some(67_000_000),
        Some("Europe"),
    );
    let text = format_country(&c);
    assert_eq!(
        text,
        "Common Name: France\nOfficial Name: French Republic\nCapital: Paris\n\
         Population: 67000000\nRegion: Europe\n\n----------------------------------\n"
    );
}

#[test]
fn format_renders_sentinels_for_missing_fields() {
    let c = country("Atlantis", "Lost Atlantis", None, None, None);
    let text = format_country(&c);
    assert_eq!(
        text,
        "Common Name: Atlantis\nOfficial Name: Lost Atlantis\nCapital: N/A\n\
         Population: 0\nRegion: N/A\n\n----------------------------------\n"
    );
}

#[test]
fn format_treats_empty_capital_list_as_missing() {
    let c = country("Atlantis", "Lost Atlantis", Some(vec![]), None, None);
    let text = format_country(&c);
    assert!(text.contains("Capital: N/A\n"));
}

#[test]
fn format_joins_multiple_capitals() {
    let c = country(
        "Bolivia",
        "Plurinational State of Bolivia",
        Some(vec!["Sucre", "La Paz"]),
        Some(11_000_000),
        Some("Americas"),
    );
    let text = format_country(&c);
    assert!(text.contains("Capital: Sucre, La Paz\n"));
}

#[test]
fn display_concatenates_blocks_in_order() {
    let data = sample();
    let listing = display_country_info(&data);
    let blocks: String = data.iter().map(|c| format_country(c)).collect();
    assert_eq!(listing, blocks);
}

#[test]
fn decimal_rendering_is_exact() {
    assert_eq!(u64_to_string(0), "0");
    assert_eq!(u64_to_string(7), "7");
    assert_eq!(u64_to_string(1234567890), "1234567890");
    assert_eq!(u64_to_string(u64::MAX), u64::MAX.to_string());
}

#[test]
fn substring_search_matches_rust_contains() {
    assert!(contains_substring("hello world", "lo wo"));
    assert!(contains_substring("hello", ""));
    assert!(!contains_substring("hello", "world"));
    assert!(!contains_substring("", "a"));
}

#[test]
fn string_helpers_agree_with_std() {
    assert!(str_eq("abc", "abc"));
    assert!(!str_eq("abc", "abd"));
    assert!(!str_eq("abc", "abcd"));
    assert!(lex_le_exec("abc", "abd"));
    assert!(lex_le_exec("abc", "abc"));
    assert!(!lex_le_exec("b", "aaa"));
    assert!(lex_le_exec("", "a"));
}

#[test]
fn menu_dispatch_transitions() {
    let mut s = Session::new(sample());
    assert!(matches!(s.state, LoopState::Ready));
    assert_eq!(s.handle_line("1\n"), "");
    assert!(matches!(s.state, LoopState::AwaitingSearchTerm));
    s.handle_line("France\n");
    assert!(matches!(s.state, LoopState::Ready));
    assert_eq!(s.handle_line("2\n"), "");
    assert!(matches!(s.state, LoopState::AwaitingSortField));
    s.handle_line("name\n");
    assert!(matches!(s.state, LoopState::Ready));
    assert_eq!(s.handle_line("nonsense\n"), "Invalid option, please choose again.\n");
    assert!(matches!(s.state, LoopState::Ready));
    assert_eq!(s.handle_line("3\n"), "");
    assert!(s.is_terminated());
}

#[test]
fn search_command_reports_missing_country() {
    let mut s = Session::new(sample());
    s.handle_line("1\n");
    let out = s.handle_line("  Atlantis  \n");
    assert_eq!(out, "No country found with the name: Atlantis\n");
    assert!(matches!(s.state, LoopState::Ready));
}

#[test]
fn search_command_displays_matches() {
    let mut s = Session::new(sample());
    s.handle_line("1\n");
    let out = s.handle_line("Ger\n");
    let expected = format_country(&country(
        "Germany",
        "Federal Republic of Germany",
        Some(vec!["Berlin"]),
        Some(83_000_000),
        Some("Europe"),
    ));
    assert_eq!(out, expected);
}

#[test]
fn sort_command_rejects_empty_field() {
    let mut s = Session::new(sample());
    s.handle_line("2\n");
    let out = s.handle_line("   \n");
    assert_eq!(out, "Invalid input, please enter a valid field.\n");
    assert!(matches!(s.state, LoopState::Ready));
}

#[test]
fn sort_command_rejects_unknown_field_and_lists_valid_ones() {
    let mut s = Session::new(sample());
    s.handle_line("2\n");
    let out = s.handle_line("area\n");
    assert_eq!(out, "Invalid field! Choose from: name, population, region.\n");
    // the held dataset is untouched
    assert_eq!(common_names(&s.countries), vec!["France", "Germany", "Japan"]);
}

#[test]
fn sort_command_displays_sorted_copy_and_keeps_original() {
    let mut s = Session::new(sample());
    s.handle_line("2\n");
    let out = s.handle_line("region\n");
    let mut expected = sample();
    sort_by_field(&mut expected, SortField::Region);
    assert_eq!(out, display_country_info(&expected));
    // the baseline dataset keeps its fetch order for later commands
    assert_eq!(common_names(&s.countries), vec!["France", "Germany", "Japan"]);
}

#[test]
fn prompts_follow_the_state() {
    let mut s = Session::new(sample());
    assert_eq!(s.prompt(), "Options: \n1. Search Country \n2. Sort Countries \n3. Exit\n");
    s.handle_line("1\n");
    assert_eq!(s.prompt(), "Enter the country name to search: \n");
    s.handle_line("x\n");
    s.handle_line("2\n");
    assert_eq!(
        s.prompt(),
        "Enter the field to sort by (name, population, region): \n"
    );
}
