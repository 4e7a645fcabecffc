//! What a search reports, stated over the whole tree of directories, and the
//! proof that the scanning machine reports exactly that.

use crate::listing::{
    directories, entry_name, is_hidden, lemma_past_weeks_exclude_today, listed_projects,
    listed_under, past_weeks, EntryView,
};
use crate::report::bucket_lines;
use crate::scanner::{Phase, ScanState};
use vstd::prelude::*;

verus! {

/// The directories below the base that can be read, each by its path, with
/// the listing that reading it gives. A path that is absent cannot be read.
pub type Tree = Map<Seq<Seq<char>>, Seq<EntryView>>;

/// What a search has printed, and whether it came to its end. A search that
/// could not read a directory did not.
#[verifier::ext_equal]
pub struct Outcome {
    pub lines: Seq<Seq<char>>,
    pub completed: bool,
}

/// The outcome of a search that had nothing to do.
pub open spec fn finished() -> Outcome {
    Outcome { lines: Seq::empty(), completed: true }
}

/// The outcome of a search whose first read failed.
pub open spec fn aborted() -> Outcome {
    Outcome { lines: Seq::empty(), completed: false }
}

/// The outcome of printing `lines`.
pub open spec fn printed(lines: Seq<Seq<char>>) -> Outcome {
    Outcome { lines, completed: true }
}

/// The outcome of `first` and then `rest`, where `rest` only happens if
/// `first` came to its end.
pub open spec fn followed_by(first: Outcome, rest: Outcome) -> Outcome {
    if first.completed {
        Outcome { lines: first.lines + rest.lines, completed: rest.completed }
    } else {
        first
    }
}

/// The report of the buckets `weeks` of `year`, in that order, up to the
/// first that cannot be read.
pub open spec fn rescue_weeks(
    tree: Tree,
    year: Seq<char>,
    weeks: Seq<Seq<char>>,
    query: Option<Seq<char>>,
) -> Outcome
    decreases weeks.len(),
{
    if weeks.len() == 0 {
        finished()
    } else {
        let path = seq![year, weeks[0]];
        if !tree.dom().contains(path) {
            aborted()
        } else {
            followed_by(
                printed(bucket_lines(year, weeks[0], listed_projects(tree[path], query))),
                rescue_weeks(tree, year, weeks.skip(1), query),
            )
        }
    }
}

/// The report of the past buckets of `years`, in that order, up to the
/// first directory that cannot be read.
pub open spec fn rescue_years(
    tree: Tree,
    years: Seq<Seq<char>>,
    today_year: Seq<char>,
    today_week: Seq<char>,
    query: Option<Seq<char>>,
) -> Outcome
    decreases years.len(),
{
    if years.len() == 0 {
        finished()
    } else {
        let path = seq![years[0]];
        if !tree.dom().contains(path) {
            aborted()
        } else {
            followed_by(
                rescue_weeks(
                    tree,
                    years[0],
                    past_weeks(years[0], tree[path], today_year, today_week),
                    query,
                ),
                rescue_years(tree, years.skip(1), today_year, today_week, query),
            )
        }
    }
}

/// The report of a whole search: of every directory of the base, every
/// directory in it that is not today's bucket, in the order of the listings.
pub open spec fn rescue(
    tree: Tree,
    today_year: Seq<char>,
    today_week: Seq<char>,
    query: Option<Seq<char>>,
) -> Outcome {
    let base = Seq::<Seq<char>>::empty();
    if !tree.dom().contains(base) {
        aborted()
    } else {
        rescue_years(tree, directories(tree[base]), today_year, today_week, query)
    }
}

/// How far a state is from the end of its search, first part.
pub open spec fn rank(state: ScanState) -> nat {
    match state.phase {
        Phase::Base => 2,
        Phase::Year => 1,
        Phase::Week => 1,
        Phase::Done => 0,
    }
}

/// How far a state is from the end of its search, third part.
pub open spec fn year_pending(state: ScanState) -> nat {
    if state.phase == Phase::Year {
        1
    } else {
        0
    }
}

/// What the machine reports from `state` on, when each listing it requests
/// is read from `tree` and it stops at the first that cannot be read.
pub open spec fn run(state: ScanState, tree: Tree) -> Outcome
    decreases rank(state), state.years.len(), year_pending(state), state.weeks.len(),
{
    match state.request() {
        None => finished(),
        Some(path) => if !tree.dom().contains(path) {
            aborted()
        } else {
            followed_by(
                printed(state.lines_for(tree[path])),
                run(state.fed(tree[path]), tree),
            )
        },
    }
}

/// Sequencing outcomes is associative.
pub proof fn lemma_followed_by_associative(a: Outcome, b: Outcome, c: Outcome)
    ensures
        followed_by(a, followed_by(b, c)) == followed_by(followed_by(a, b), c),
{
    assert(followed_by(a, followed_by(b, c)) =~= followed_by(followed_by(a, b), c));
}

/// Printing nothing first changes nothing.
pub proof fn lemma_followed_by_nothing(rest: Outcome)
    ensures
        followed_by(printed(Seq::empty()), rest) == rest,
        followed_by(finished(), rest) == rest,
{
    assert(followed_by(printed(Seq::empty()), rest) =~= rest);
    assert(followed_by(finished(), rest) =~= rest);
}

/// From the state that turns to `years`, the machine reports what
/// `rescue_years` says of them.
pub proof fn lemma_run_years(context: ScanState, years: Seq<Seq<char>>, tree: Tree)
    ensures
        run(context.enter_years(years), tree) == rescue_years(
            tree,
            years,
            context.today_year,
            context.today_week,
            context.query,
        ),
    decreases years.len(), 1nat, 0nat,
{
    let state = context.enter_years(years);
    if years.len() > 0 {
        let path = seq![years[0]];
        assert(state.request() == Some(path));
        if tree.dom().contains(path) {
            let weeks = past_weeks(years[0], tree[path], context.today_year, context.today_week);
            assert(state.fed(tree[path]) == state.enter_weeks(weeks));
            lemma_run_weeks(state, weeks, tree);
            lemma_followed_by_nothing(run(state.enter_weeks(weeks), tree));
        }
    }
}

/// From the state that turns to `weeks` of its current year, the machine
/// reports what `rescue_weeks` says of them, and then the years that are
/// left.
pub proof fn lemma_run_weeks(context: ScanState, weeks: Seq<Seq<char>>, tree: Tree)
    requires
        context.years.len() > 0,
    ensures
        run(context.enter_weeks(weeks), tree) == followed_by(
            rescue_weeks(tree, context.years[0], weeks, context.query),
            rescue_years(
                tree,
                context.years.skip(1),
                context.today_year,
                context.today_week,
                context.query,
            ),
        ),
    decreases context.years.len(), 0nat, weeks.len(),
{
    let state = context.enter_weeks(weeks);
    let later = rescue_years(
        tree,
        context.years.skip(1),
        context.today_year,
        context.today_week,
        context.query,
    );
    if weeks.len() == 0 {
        lemma_run_years(context, context.years.skip(1), tree);
        lemma_followed_by_nothing(later);
    } else {
        let path = seq![context.years[0], weeks[0]];
        assert(state.request() == Some(path));
        if tree.dom().contains(path) {
            let lines = bucket_lines(
                context.years[0],
                weeks[0],
                listed_projects(tree[path], context.query),
            );
            assert(state.lines_for(tree[path]) == lines);
            assert(state.fed(tree[path]) == state.enter_weeks(weeks.skip(1)));
            lemma_run_weeks(state, weeks.skip(1), tree);
            lemma_followed_by_associative(
                printed(lines),
                rescue_weeks(tree, context.years[0], weeks.skip(1), context.query),
                later,
            );
        }
    }
}

/// The machine reports exactly what `rescue` says of the tree: the same
/// lines in the same order, and it ends or stops on the same trees.
pub proof fn lemma_run_is_rescue(
    tree: Tree,
    today_year: Seq<char>,
    today_week: Seq<char>,
    query: Option<Seq<char>>,
)
    ensures
        run(ScanState::initial(today_year, today_week, query), tree) == rescue(
            tree,
            today_year,
            today_week,
            query,
        ),
{
    let start = ScanState::initial(today_year, today_week, query);
    let base = Seq::<Seq<char>>::empty();
    assert(start.request() == Some(base));
    if tree.dom().contains(base) {
        let years = directories(tree[base]);
        assert(start.fed(tree[base]) == start.enter_years(years));
        lemma_run_years(start, years, tree);
        lemma_followed_by_nothing(run(start.enter_years(years), tree));
    }
}

/// A bucket that holds nothing but hidden entries, or nothing at all, gets
/// no header and no line, with or without a query.
pub proof fn lemma_bucket_of_hidden_entries_prints_nothing(
    year: Seq<char>,
    week: Seq<char>,
    entries: Seq<EntryView>,
    query: Option<Seq<char>>,
)
    requires
        forall|k: int| 0 <= k < entries.len() ==> is_hidden(#[trigger] entries[k].name),
    ensures
        listed_projects(entries, query).len() == 0,
        bucket_lines(year, week, listed_projects(entries, query)).len() == 0,
{
    let names = entries.map_values(entry_name());
    let listed = listed_projects(entries, query);
    if listed.len() > 0 {
        names.lemma_filter_pred(listed_under(query), 0);
        assert(listed.contains(listed[0]));
        names.lemma_filter_contains_rev(listed_under(query), listed[0]);
        let k = choose|k: int| 0 <= k < names.len() && names[k] == listed[0];
        assert(is_hidden(entries[k].name));
    }
}

/// Two trees agree wherever the path is not `spared`: the same directories
/// can be read, with the same listings.
pub open spec fn agree_but_at(tree: Tree, other: Tree, spared: Seq<Seq<char>>) -> bool {
    forall|path: Seq<Seq<char>>|
        path != spared ==> {
            &&& #[trigger] tree.dom().contains(path) == other.dom().contains(path)
            &&& tree.dom().contains(path) ==> tree[path] == other[path]
        }
}

/// The report of some weeks of a year does not depend on a bucket that is
/// not among them.
pub proof fn lemma_rescue_weeks_spares(
    tree: Tree,
    other: Tree,
    year: Seq<char>,
    weeks: Seq<Seq<char>>,
    query: Option<Seq<char>>,
    spared_year: Seq<char>,
    spared_week: Seq<char>,
)
    requires
        agree_but_at(tree, other, seq![spared_year, spared_week]),
        year == spared_year ==> !weeks.contains(spared_week),
    ensures
        rescue_weeks(tree, year, weeks, query) == rescue_weeks(other, year, weeks, query),
    decreases weeks.len(),
{
    if weeks.len() > 0 {
        let path = seq![year, weeks[0]];
        let spared = seq![spared_year, spared_week];
        if path == spared {
            assert(path[0] == spared[0]);
            assert(path[1] == spared[1]);
            assert(weeks[0] == spared_week);
        }
        assert(tree.dom().contains(path) == other.dom().contains(path));
        let rest = weeks.skip(1);
        if rest.contains(spared_week) {
            let k = choose|k: int| 0 <= k < rest.len() && rest[k] == spared_week;
            assert(weeks[k + 1] == spared_week);
        }
        lemma_rescue_weeks_spares(tree, other, year, rest, query, spared_year, spared_week);
    }
}

/// The report of some years does not depend on today's bucket.
pub proof fn lemma_rescue_years_spares_today(
    tree: Tree,
    other: Tree,
    years: Seq<Seq<char>>,
    today_year: Seq<char>,
    today_week: Seq<char>,
    query: Option<Seq<char>>,
)
    requires
        agree_but_at(tree, other, seq![today_year, today_week]),
    ensures
        rescue_years(tree, years, today_year, today_week, query) == rescue_years(
            other,
            years,
            today_year,
            today_week,
            query,
        ),
    decreases years.len(),
{
    if years.len() > 0 {
        let path = seq![years[0]];
        let today = seq![today_year, today_week];
        assert(path.len() != today.len());
        assert(tree.dom().contains(path) == other.dom().contains(path));
        if tree.dom().contains(path) {
            let weeks = past_weeks(years[0], tree[path], today_year, today_week);
            if years[0] == today_year {
                lemma_past_weeks_exclude_today(tree[path], today_year, today_week);
            }
            lemma_rescue_weeks_spares(tree, other, years[0], weeks, query, today_year, today_week);
        }
        lemma_rescue_years_spares_today(tree, other, years.skip(1), today_year, today_week, query);
    }
}

/// Today's bucket is left out whatever it holds: two trees that differ only
/// in today's bucket, in what it lists or in whether it can be read at all,
/// give the same report.
pub proof fn lemma_rescue_spares_today(
    tree: Tree,
    other: Tree,
    today_year: Seq<char>,
    today_week: Seq<char>,
    query: Option<Seq<char>>,
)
    requires
        agree_but_at(tree, other, seq![today_year, today_week]),
    ensures
        rescue(tree, today_year, today_week, query) == rescue(
            other,
            today_year,
            today_week,
            query,
        ),
{
    let base = Seq::<Seq<char>>::empty();
    let today = seq![today_year, today_week];
    assert(base.len() != today.len());
    assert(tree.dom().contains(base) == other.dom().contains(base));
    if tree.dom().contains(base) {
        lemma_rescue_years_spares_today(
            tree,
            other,
            directories(tree[base]),
            today_year,
            today_week,
            query,
        );
    }
}

} // verus!
