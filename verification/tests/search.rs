use mess::calendar::WeekBucket;
use mess::listing::{directory_names, past_week_names, project_names, starts_with_dot, Entry};
use mess::matcher::{fuzzy_matches, MAX_SCORED_CHARS};
use mess::report::{render_bucket, render_header};
use mess::scanner::{Phase, Scanner};

fn dir(name: &str) -> Entry {
    Entry { name: name.to_string(), is_dir: true }
}

fn file(name: &str) -> Entry {
    Entry { name: name.to_string(), is_dir: false }
}

fn texts(parts: &[&str]) -> Vec<String> {
    parts.iter().map(|part| part.to_string()).collect()
}

fn header(year: &str, week: &str) -> String {
    format!("\u{1b}[1m{}\u{1b}[0m/\u{1b}[2m{}\u{1b}[0m", year, week)
}

/// Runs a search on a tree given as pairs of a path and its listing. Returns
/// the lines, the paths that were read, and whether the search came to its
/// end; it stops at the first path that the tree does not hold.
fn search(
    tree: &[(Vec<&str>, Vec<Entry>)],
    today: WeekBucket,
    query: Option<&str>,
) -> (Vec<String>, Vec<Vec<String>>, bool) {
    let mut scanner = Scanner::new(today, query.map(|text| text.to_string()));
    let mut lines = Vec::new();
    let mut reads = Vec::new();
    while let Some(path) = scanner.request() {
        reads.push(path.clone());
        let found = tree
            .iter()
            .find(|(at, _)| at.iter().map(|part| part.to_string()).collect::<Vec<String>>() == path);
        match found {
            Some((_, listing)) => lines.extend(scanner.feed(listing)),
            None => return (lines, reads, false),
        }
    }
    (lines, reads, true)
}

fn two_weeks() -> Vec<(Vec<&'static str>, Vec<Entry>)> {
    vec![
        (vec![], vec![dir("2023"), file("notes.txt")]),
        (vec!["2023"], vec![dir("7"), dir("6"), file("6.bak")]),
        (vec!["2023", "7"], vec![dir("current"), dir("draft")]),
        (vec!["2023", "6"], vec![dir("alpha"), dir(".git"), dir("banana"), file("grape")]),
    ]
}

#[test]
fn query_in_order_matches() {
    assert!(fuzzy_matches("banana", "ban"));
    assert!(fuzzy_matches("banana", "bnn"));
    assert!(fuzzy_matches("banana", "banana"));
    assert!(fuzzy_matches("b-a-n", "ban"));
}

#[test]
fn query_out_of_order_or_missing_does_not_match() {
    assert!(!fuzzy_matches("alpha", "ban"));
    assert!(!fuzzy_matches("grape", "ban"));
    assert!(!fuzzy_matches("nab", "ban"));
    assert!(!fuzzy_matches("ba", "ban"));
    assert!(!fuzzy_matches("", "a"));
}

#[test]
fn empty_query_matches_everything() {
    assert!(fuzzy_matches("banana", ""));
    assert!(fuzzy_matches("", ""));
}

#[test]
fn matching_respects_case() {
    assert!(!fuzzy_matches("Banana", "ban"));
    assert!(!fuzzy_matches("BANANA", "ban"));
    assert!(!fuzzy_matches("banana", "Ban"));
    assert!(fuzzy_matches("Banana", "Ban"));
}

#[test]
fn matching_beyond_ascii() {
    assert!(fuzzy_matches("grüße", "üe"));
    assert!(!fuzzy_matches("grusse", "ü"));
}

#[test]
fn names_beyond_the_scored_length_are_matched_too() {
    let mut long = "a".repeat(MAX_SCORED_CHARS + 1);
    long.push('b');
    assert!(fuzzy_matches(&long, "ab"));
    assert!(fuzzy_matches(&long, "b"));
    assert!(!fuzzy_matches(&long, "ba"));
    assert!(!fuzzy_matches(&long, "c"));
}

#[test]
fn hidden_names_start_with_a_dot() {
    assert!(starts_with_dot(".git"));
    assert!(starts_with_dot("."));
    assert!(!starts_with_dot("a.b"));
    assert!(!starts_with_dot(""));
}

#[test]
fn header_marks_year_bold_and_week_dimmed() {
    assert_eq!(render_header("2023", "7"), "\u{1b}[1m2023\u{1b}[0m/\u{1b}[2m7\u{1b}[0m");
    assert_ne!(render_header("2023", "7"), "2023/7");
}

#[test]
fn bucket_report_has_header_and_indented_names() {
    let lines = render_bucket("2023", "6", &texts(&["alpha", "banana"]));
    assert_eq!(lines, vec![header("2023", "6"), "\talpha".to_string(), "\tbanana".to_string()]);
}

#[test]
fn bucket_without_projects_has_no_report() {
    assert_eq!(render_bucket("2023", "6", &Vec::new()), Vec::<String>::new());
}

#[test]
fn only_directories_are_searched() {
    let listing = vec![dir("2022"), file("README"), dir("2023"), dir(".cache")];
    assert_eq!(directory_names(&listing), texts(&["2022", "2023", ".cache"]));
    assert_eq!(directory_names(&Vec::new()), Vec::<String>::new());
}

#[test]
fn todays_week_is_left_out_of_its_year_only() {
    let listing = vec![dir("6"), dir("7"), file("8"), dir("07")];
    let year = "2023".to_string();
    let other = "2022".to_string();
    let today_year = "2023".to_string();
    let today_week = "7".to_string();
    assert_eq!(
        past_week_names(&year, &listing, &today_year, &today_week),
        texts(&["6", "07"])
    );
    assert_eq!(
        past_week_names(&other, &listing, &today_year, &today_week),
        texts(&["6", "7", "07"])
    );
}

#[test]
fn projects_without_a_query_are_all_but_the_hidden() {
    let listing = vec![dir("alpha"), dir(".git"), file("grape"), dir("banana")];
    assert_eq!(project_names(&listing, &None), texts(&["alpha", "grape", "banana"]));
}

#[test]
fn projects_with_a_query_are_those_that_match() {
    let listing = vec![dir("alpha"), dir("banana"), dir("grape")];
    let names = project_names(&listing, &Some("ban".to_string()));
    assert_eq!(names, texts(&["banana"]));
    assert!(names.contains(&"banana".to_string()));
    assert!(!names.contains(&"alpha".to_string()));
    assert!(!names.contains(&"grape".to_string()));
}

#[test]
fn hidden_projects_are_never_listed() {
    let listing = vec![dir(".ban"), dir(".banana"), dir("banana"), dir(".")];
    assert_eq!(project_names(&listing, &None), texts(&["banana"]));
    assert_eq!(project_names(&listing, &Some("ban".to_string())), texts(&["banana"]));
    assert_eq!(project_names(&listing, &Some(".".to_string())), Vec::<String>::new());
}

#[test]
fn projects_keep_the_order_of_the_listing() {
    let listing = vec![dir("zeta"), dir("beta"), dir("eta")];
    assert_eq!(project_names(&listing, &Some("eta".to_string())), texts(&["zeta", "beta", "eta"]));
}

#[test]
fn rescue_lists_past_weeks_and_never_today() {
    let today = WeekBucket { year: 2023, week: 7 };
    let (lines, reads, completed) = search(&two_weeks(), today, None);
    assert!(completed);
    assert_eq!(
        lines,
        vec![
            header("2023", "6"),
            "\talpha".to_string(),
            "\tbanana".to_string(),
            "\tgrape".to_string(),
        ]
    );
    assert!(!lines.contains(&"\tcurrent".to_string()));
    assert!(!lines.contains(&"\tdraft".to_string()));
    assert!(!reads.contains(&texts(&["2023", "7"])));
    assert_eq!(reads, vec![texts(&[]), texts(&["2023"]), texts(&["2023", "6"])]);
}

#[test]
fn rescue_with_a_query_filters_the_projects() {
    let today = WeekBucket { year: 2023, week: 7 };
    let (lines, _, completed) = search(&two_weeks(), today, Some("ban"));
    assert!(completed);
    assert_eq!(lines, vec![header("2023", "6"), "\tbanana".to_string()]);
}

#[test]
fn rescue_prints_nothing_for_a_bucket_without_matches() {
    let today = WeekBucket { year: 2023, week: 7 };
    let (lines, reads, completed) = search(&two_weeks(), today, Some("xyz"));
    assert!(completed);
    assert_eq!(lines, Vec::<String>::new());
    assert_eq!(reads.len(), 3);
}

#[test]
fn rescue_prints_nothing_for_an_empty_bucket() {
    let tree = vec![
        (vec![], vec![dir("2022")]),
        (vec!["2022"], vec![dir("51"), dir("52")]),
        (vec!["2022", "51"], vec![dir(".hidden")]),
        (vec!["2022", "52"], vec![]),
    ];
    let (lines, reads, completed) = search(&tree, WeekBucket { year: 2023, week: 7 }, None);
    assert!(completed);
    assert_eq!(lines, Vec::<String>::new());
    assert_eq!(reads.len(), 4);
}

#[test]
fn rescue_groups_by_year_and_week_in_listing_order() {
    let tree = vec![
        (vec![], vec![dir("2023"), dir("2022")]),
        (vec!["2023"], vec![dir("2"), dir("1")]),
        (vec!["2023", "2"], vec![dir("b")]),
        (vec!["2023", "1"], vec![dir("a")]),
        (vec!["2022"], vec![dir("52")]),
        (vec!["2022", "52"], vec![dir("z"), dir("y")]),
    ];
    let (lines, _, completed) = search(&tree, WeekBucket { year: 2023, week: 7 }, None);
    assert!(completed);
    assert_eq!(
        lines,
        vec![
            header("2023", "2"),
            "\tb".to_string(),
            header("2023", "1"),
            "\ta".to_string(),
            header("2022", "52"),
            "\tz".to_string(),
            "\ty".to_string(),
        ]
    );
}

#[test]
fn rescue_compares_paths_and_not_numbers() {
    let tree = vec![
        (vec![], vec![dir("2023")]),
        (vec!["2023"], vec![dir("07"), dir("7")]),
        (vec!["2023", "07"], vec![dir("padded")]),
        (vec!["2023", "7"], vec![dir("today")]),
    ];
    let (lines, reads, completed) = search(&tree, WeekBucket { year: 2023, week: 7 }, None);
    assert!(completed);
    assert_eq!(lines, vec![header("2023", "07"), "\tpadded".to_string()]);
    assert!(!reads.contains(&texts(&["2023", "7"])));
}

#[test]
fn rescue_searches_the_same_week_number_of_another_year() {
    let tree = vec![
        (vec![], vec![dir("2022"), dir("2023")]),
        (vec!["2022"], vec![dir("7")]),
        (vec!["2022", "7"], vec![dir("old")]),
        (vec!["2023"], vec![dir("7")]),
    ];
    let (lines, reads, completed) = search(&tree, WeekBucket { year: 2023, week: 7 }, None);
    assert!(completed);
    assert_eq!(lines, vec![header("2022", "7"), "\told".to_string()]);
    assert_eq!(reads.len(), 4);
}

#[test]
fn rescue_stops_at_the_first_directory_that_cannot_be_read() {
    let tree = vec![
        (vec![], vec![dir("2021"), dir("2022")]),
        (vec!["2021"], vec![dir("1"), dir("2")]),
        (vec!["2021", "1"], vec![dir("kept")]),
        (vec!["2022"], vec![dir("1")]),
        (vec!["2022", "1"], vec![dir("unreached")]),
    ];
    let (lines, reads, completed) = search(&tree, WeekBucket { year: 2023, week: 7 }, None);
    assert!(!completed);
    assert_eq!(lines, vec![header("2021", "1"), "\tkept".to_string()]);
    assert_eq!(reads.last().unwrap(), &texts(&["2021", "2"]));
}

#[test]
fn rescue_of_an_unreadable_base_reads_nothing_more() {
    let tree: Vec<(Vec<&str>, Vec<Entry>)> = Vec::new();
    let (lines, reads, completed) = search(&tree, WeekBucket { year: 2023, week: 7 }, None);
    assert!(!completed);
    assert_eq!(lines, Vec::<String>::new());
    assert_eq!(reads, vec![texts(&[])]);
}

#[test]
fn rescue_of_an_empty_base_is_over_at_once() {
    let tree = vec![(vec![], vec![file("stray")])];
    let (lines, reads, completed) = search(&tree, WeekBucket { year: 2023, week: 7 }, None);
    assert!(completed);
    assert_eq!(lines, Vec::<String>::new());
    assert_eq!(reads.len(), 1);
}

#[test]
fn scanner_walks_through_its_phases() {
    let mut scanner = Scanner::new(WeekBucket { year: 2023, week: 7 }, None);
    assert_eq!(scanner.phase(), Phase::Base);
    assert!(!scanner.is_done());
    assert_eq!(scanner.request(), Some(texts(&[])));
    assert_eq!(scanner.feed(&vec![dir("2023")]), Vec::<String>::new());
    assert_eq!(scanner.phase(), Phase::Year);
    assert_eq!(scanner.request(), Some(texts(&["2023"])));
    assert_eq!(scanner.feed(&vec![dir("7"), dir("3")]), Vec::<String>::new());
    assert_eq!(scanner.phase(), Phase::Week);
    assert_eq!(scanner.request(), Some(texts(&["2023", "3"])));
    assert_eq!(
        scanner.feed(&vec![dir("found")]),
        vec![header("2023", "3"), "\tfound".to_string()]
    );
    assert_eq!(scanner.phase(), Phase::Done);
    assert!(scanner.is_done());
    assert_eq!(scanner.request(), None);
}

#[test]
fn feeding_a_finished_scanner_changes_nothing() {
    let mut scanner = Scanner::new(WeekBucket { year: 2023, week: 7 }, None);
    assert_eq!(scanner.feed(&Vec::new()), Vec::<String>::new());
    assert!(scanner.is_done());
    assert_eq!(scanner.feed(&vec![dir("2020")]), Vec::<String>::new());
    assert!(scanner.is_done());
    assert_eq!(scanner.request(), None);
}

fn occurs_in_order(pattern: &[char], text: &[char]) -> bool {
    let mut wanted = pattern.iter().peekable();
    for c in text {
        if wanted.peek() == Some(&c) {
            wanted.next();
        }
    }
    wanted.peek().is_none()
}

fn words(alphabet: &[char], longest: usize) -> Vec<String> {
    let mut all = vec![String::new()];
    let mut last = vec![String::new()];
    for _ in 0..longest {
        let mut next = Vec::new();
        for word in &last {
            for c in alphabet {
                let mut longer = word.clone();
                longer.push(*c);
                next.push(longer);
            }
        }
        all.extend(next.iter().cloned());
        last = next;
    }
    all
}

#[test]
fn matching_is_occurrence_in_order_on_all_short_texts() {
    let names = words(&['a', 'b', 'A', '.'], 4);
    let queries = words(&['a', 'b', 'A', '.'], 3);
    for name in &names {
        let text: Vec<char> = name.chars().collect();
        for query in &queries {
            let pattern: Vec<char> = query.chars().collect();
            assert_eq!(fuzzy_matches(name, query), occurs_in_order(&pattern, &text));
        }
    }
}
