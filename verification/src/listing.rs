//! What is taken from the listing of a directory: the directories among its
//! children, the weeks that are not today's, and the projects to report.

use crate::matcher::{fuzzy_matches, is_subsequence};
use vstd::prelude::*;
use vstd::std_specs::iter::IteratorSpec;
use vstd::string::*;

verus! {

/// One child of a directory, as it was read: its name, and whether it is
/// itself a directory.
#[derive(Debug, Clone)]
pub struct Entry {
    pub name: String,
    pub is_dir: bool,
}

/// The model of an [`Entry`].
pub struct EntryView {
    pub name: Seq<char>,
    pub is_dir: bool,
}

impl DeepView for Entry {
    type V = EntryView;

    open spec fn deep_view(&self) -> EntryView {
        EntryView { name: self.name@, is_dir: self.is_dir }
    }
}

/// A name is hidden when it starts with a dot.
pub open spec fn is_hidden(name: Seq<char>) -> bool {
    name.len() > 0 && name[0] == '.'
}

/// The predicate that keeps the entries that are directories.
pub open spec fn is_directory() -> spec_fn(EntryView) -> bool {
    |entry: EntryView| entry.is_dir
}

/// The function that takes an entry to its name.
pub open spec fn entry_name() -> spec_fn(EntryView) -> Seq<char> {
    |entry: EntryView| entry.name
}

/// The names of the directories among `entries`, in the order of the listing.
pub open spec fn directories(entries: Seq<EntryView>) -> Seq<Seq<char>> {
    entries.filter(is_directory()).map_values(entry_name())
}

/// The week `week` of the year `year` is not today's bucket: the two names
/// are not both those of today.
pub open spec fn is_past(
    year: Seq<char>,
    week: Seq<char>,
    today_year: Seq<char>,
    today_week: Seq<char>,
) -> bool {
    !(year == today_year && week == today_week)
}

/// The predicate that keeps the weeks of `year` that are not today's bucket.
pub open spec fn past_of(year: Seq<char>, today_year: Seq<char>, today_week: Seq<char>) -> spec_fn(
    Seq<char>,
) -> bool {
    |week: Seq<char>| is_past(year, week, today_year, today_week)
}

/// The week directories of `year` to search: the directories among
/// `entries`, without today's bucket.
pub open spec fn past_weeks(
    year: Seq<char>,
    entries: Seq<EntryView>,
    today_year: Seq<char>,
    today_week: Seq<char>,
) -> Seq<Seq<char>> {
    directories(entries).filter(past_of(year, today_year, today_week))
}

/// A project of this name is reported: it is not hidden and, where there is
/// a query, it matches the query.
pub open spec fn is_listed(name: Seq<char>, query: Option<Seq<char>>) -> bool {
    &&& !is_hidden(name)
    &&& query matches Some(wanted) ==> is_subsequence(wanted, name)
}

/// The predicate that keeps the names to report under `query`.
pub open spec fn listed_under(query: Option<Seq<char>>) -> spec_fn(Seq<char>) -> bool {
    |name: Seq<char>| is_listed(name, query)
}

/// The projects of a bucket to report: the names among `entries` that are
/// listed, in the order of the listing.
pub open spec fn listed_projects(entries: Seq<EntryView>, query: Option<Seq<char>>) -> Seq<
    Seq<char>,
> {
    entries.map_values(entry_name()).filter(listed_under(query))
}

/// How `directories` grows with the listing.
pub proof fn lemma_directories_push(entries: Seq<EntryView>, entry: EntryView)
    ensures
        directories(entries.push(entry)) == if entry.is_dir {
            directories(entries).push(entry.name)
        } else {
            directories(entries)
        },
{
    entries.lemma_filter_push(entry, is_directory());
    entries.filter(is_directory()).lemma_push_map_commute(entry_name(), entry);
}

/// How `past_weeks` grows with the listing.
pub proof fn lemma_past_weeks_push(
    year: Seq<char>,
    entries: Seq<EntryView>,
    entry: EntryView,
    today_year: Seq<char>,
    today_week: Seq<char>,
)
    ensures
        past_weeks(year, entries.push(entry), today_year, today_week) == if entry.is_dir && is_past(
            year,
            entry.name,
            today_year,
            today_week,
        ) {
            past_weeks(year, entries, today_year, today_week).push(entry.name)
        } else {
            past_weeks(year, entries, today_year, today_week)
        },
{
    lemma_directories_push(entries, entry);
    directories(entries).lemma_filter_push(entry.name, past_of(year, today_year, today_week));
}

/// How `listed_projects` grows with the listing.
pub proof fn lemma_listed_projects_push(
    entries: Seq<EntryView>,
    entry: EntryView,
    query: Option<Seq<char>>,
)
    ensures
        listed_projects(entries.push(entry), query) == if is_listed(entry.name, query) {
            listed_projects(entries, query).push(entry.name)
        } else {
            listed_projects(entries, query)
        },
{
    entries.lemma_push_map_commute(entry_name(), entry);
    entries.map_values(entry_name()).lemma_filter_push(entry.name, listed_under(query));
}

/// No hidden name is ever reported, with or without a query, and with a
/// query every reported name matches it.
pub proof fn lemma_listed_projects_are_listed(entries: Seq<EntryView>, query: Option<Seq<char>>)
    ensures
        forall|k: int|
            0 <= k < listed_projects(entries, query).len() ==> {
                &&& !is_hidden(#[trigger] listed_projects(entries, query)[k])
                &&& is_listed(listed_projects(entries, query)[k], query)
            },
{
    let names = entries.map_values(entry_name());
    assert forall|k: int| 0 <= k < listed_projects(entries, query).len() implies {
        &&& !is_hidden(#[trigger] listed_projects(entries, query)[k])
        &&& is_listed(listed_projects(entries, query)[k], query)
    } by {
        names.lemma_filter_pred(listed_under(query), k);
    }
}

/// Today's bucket is never among the weeks to search.
pub proof fn lemma_past_weeks_exclude_today(
    entries: Seq<EntryView>,
    today_year: Seq<char>,
    today_week: Seq<char>,
)
    ensures
        !past_weeks(today_year, entries, today_year, today_week).contains(today_week),
{
    let weeks = past_weeks(today_year, entries, today_year, today_week);
    if weeks.contains(today_week) {
        let k = choose|k: int| 0 <= k < weeks.len() && weeks[k] == today_week;
        directories(entries).lemma_filter_pred(past_of(today_year, today_year, today_week), k);
    }
}

/// Whether `name` starts with a dot.
pub fn starts_with_dot(name: &str) -> (hidden: bool)
    ensures
        hidden == is_hidden(name@),
{
    broadcast use group_string_axioms;

    let mut chars = name.chars();
    match chars.next() {
        Some(first) => first == '.',
        None => false,
    }
}

/// The names of the directories among the entries of `listing`.
pub fn directory_names(listing: &Vec<Entry>) -> (names: Vec<String>)
    ensures
        names.deep_view() == directories(listing.deep_view()),
{
    let ghost entries = listing.deep_view();
    let mut names: Vec<String> = Vec::new();
    let mut i: usize = 0;
    proof {
        reveal(Seq::filter);
        assert(entries.take(0) =~= Seq::<EntryView>::empty());
        assert(names.deep_view() =~= directories(entries.take(0)));
    }
    while i < listing.len()
        invariant
            i <= listing.len(),
            entries == listing.deep_view(),
            names.deep_view() == directories(entries.take(i as int)),
        decreases listing.len() - i,
    {
        let ghost before = names.deep_view();
        proof {
            assert(entries.take(i + 1) =~= entries.take(i as int).push(entries[i as int]));
            lemma_directories_push(entries.take(i as int), entries[i as int]);
        }
        if listing[i].is_dir {
            names.push(listing[i].name.clone());
            assert(names.deep_view() =~= before.push(entries[i as int].name));
        }
        i += 1;
    }
    assert(entries.take(listing.len() as int) =~= entries);
    names
}

/// The names of the week directories of `year` to search: the directories
/// among the entries of `listing`, but for today's bucket.
pub fn past_week_names(
    year: &String,
    listing: &Vec<Entry>,
    today_year: &String,
    today_week: &String,
) -> (names: Vec<String>)
    ensures
        names.deep_view() == past_weeks(year@, listing.deep_view(), today_year@, today_week@),
{
    let ghost entries = listing.deep_view();
    let in_todays_year = *year == *today_year;
    let mut names: Vec<String> = Vec::new();
    let mut i: usize = 0;
    proof {
        reveal(Seq::filter);
        assert(entries.take(0) =~= Seq::<EntryView>::empty());
        assert(names.deep_view() =~= past_weeks(
            year@,
            entries.take(0),
            today_year@,
            today_week@,
        ));
    }
    while i < listing.len()
        invariant
            i <= listing.len(),
            entries == listing.deep_view(),
            in_todays_year == (year@ == today_year@),
            names.deep_view() == past_weeks(
                year@,
                entries.take(i as int),
                today_year@,
                today_week@,
            ),
        decreases listing.len() - i,
    {
        let ghost before = names.deep_view();
        proof {
            assert(entries.take(i + 1) =~= entries.take(i as int).push(entries[i as int]));
            lemma_past_weeks_push(
                year@,
                entries.take(i as int),
                entries[i as int],
                today_year@,
                today_week@,
            );
        }
        if listing[i].is_dir && !(in_todays_year && listing[i].name == *today_week) {
            names.push(listing[i].name.clone());
            assert(names.deep_view() =~= before.push(entries[i as int].name));
        }
        i += 1;
    }
    assert(entries.take(listing.len() as int) =~= entries);
    names
}

/// Whether a project of this name is reported under `query`.
pub fn name_is_listed(name: &str, query: &Option<String>) -> (listed: bool)
    ensures
        listed == is_listed(name@, query.deep_view()),
{
    if starts_with_dot(name) {
        return false;
    }
    match query {
        Some(wanted) => fuzzy_matches(name, wanted.as_str()),
        None => true,
    }
}

/// The names of the projects to report among the entries of `listing`:
/// those that are not hidden and that match `query`, where there is one.
pub fn project_names(listing: &Vec<Entry>, query: &Option<String>) -> (names: Vec<String>)
    ensures
        names.deep_view() == listed_projects(listing.deep_view(), query.deep_view()),
        forall|k: int| 0 <= k < names@.len() ==> !is_hidden(#[trigger] names@[k]@),
{
    let ghost entries = listing.deep_view();
    let mut names: Vec<String> = Vec::new();
    let mut i: usize = 0;
    proof {
        reveal(Seq::filter);
        assert(entries.take(0) =~= Seq::<EntryView>::empty());
        assert(entries.take(0).map_values(entry_name()) =~= Seq::<Seq<char>>::empty());
        assert(names.deep_view() =~= listed_projects(entries.take(0), query.deep_view()));
    }
    while i < listing.len()
        invariant
            i <= listing.len(),
            entries == listing.deep_view(),
            names.deep_view() == listed_projects(entries.take(i as int), query.deep_view()),
        decreases listing.len() - i,
    {
        let ghost before = names.deep_view();
        proof {
            assert(entries.take(i + 1) =~= entries.take(i as int).push(entries[i as int]));
            lemma_listed_projects_push(entries.take(i as int), entries[i as int], query.deep_view());
        }
        if name_is_listed(listing[i].name.as_str(), query) {
            names.push(listing[i].name.clone());
            assert(names.deep_view() =~= before.push(entries[i as int].name));
        }
        i += 1;
    }
    proof {
        assert(entries.take(listing.len() as int) =~= entries);
        lemma_listed_projects_are_listed(entries, query.deep_view());
        assert forall|k: int| 0 <= k < names@.len() implies !is_hidden(#[trigger] names@[k]@) by {
            assert(names.deep_view()[k] == names@[k]@);
        }
    }
    names
}

} // verus!
