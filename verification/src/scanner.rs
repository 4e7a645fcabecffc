//! The search through past buckets, as a machine that asks for one directory
//! listing at a time.
//!
//! The machine never reads a directory itself. It names the directory whose
//! listing it needs next, by its path below the base directory; the caller
//! reads that directory and feeds the listing back, and gets the lines to
//! print in return. A caller that cannot read a directory stops there.

use crate::calendar::WeekBucket;
use crate::decimal::{signed_decimal, unsigned_decimal};
use crate::listing::{
    directories, directory_names, lemma_past_weeks_exclude_today, listed_projects,
    past_week_names, past_weeks, project_names, Entry, EntryView,
};
use crate::report::{bucket_lines, render_bucket};
use vstd::prelude::*;

verus! {

/// Which listing the search waits for.
#[derive(Debug, Clone, Copy, PartialEq, Eq, Structural)]
pub enum Phase {
    /// That of the base directory.
    Base,
    /// That of a year directory.
    Year,
    /// That of a week directory.
    Week,
    /// None: the search is over.
    Done,
}

/// The state of a search.
#[verifier::ext_equal]
pub struct ScanState {
    /// The name of the year directory of today's bucket.
    pub today_year: Seq<char>,
    /// The name of today's bucket in its year directory.
    pub today_week: Seq<char>,
    /// The query that reported projects must match, if there is one.
    pub query: Option<Seq<char>>,
    pub phase: Phase,
    /// The year directories still to search, the current one first.
    pub years: Seq<Seq<char>>,
    /// The week directories of the current year still to search, the next
    /// one first.
    pub weeks: Seq<Seq<char>>,
}

impl ScanState {
    /// The state in which a search starts.
    pub open spec fn initial(
        today_year: Seq<char>,
        today_week: Seq<char>,
        query: Option<Seq<char>>,
    ) -> ScanState {
        ScanState {
            today_year,
            today_week,
            query,
            phase: Phase::Base,
            years: Seq::empty(),
            weeks: Seq::empty(),
        }
    }

    /// The lists fit the phase, and today's bucket is not among the weeks to
    /// search.
    pub open spec fn well_formed(self) -> bool {
        match self.phase {
            Phase::Base => self.years.len() == 0 && self.weeks.len() == 0,
            Phase::Year => self.years.len() > 0 && self.weeks.len() == 0,
            Phase::Week => {
                &&& self.years.len() > 0
                &&& self.weeks.len() > 0
                &&& self.years[0] == self.today_year ==> !self.weeks.contains(self.today_week)
            },
            Phase::Done => self.years.len() == 0 && self.weeks.len() == 0,
        }
    }

    /// The path, below the base directory, of the directory whose listing
    /// the search needs next; `None` when it needs no more.
    pub open spec fn request(self) -> Option<Seq<Seq<char>>> {
        match self.phase {
            Phase::Base => Some(Seq::empty()),
            Phase::Year => if self.years.len() > 0 {
                Some(seq![self.years[0]])
            } else {
                None
            },
            Phase::Week => if self.years.len() > 0 && self.weeks.len() > 0 {
                Some(seq![self.years[0], self.weeks[0]])
            } else {
                None
            },
            Phase::Done => None,
        }
    }

    /// The state that turns to the first of `years`, or ends the search
    /// where there is none.
    pub open spec fn enter_years(self, years: Seq<Seq<char>>) -> ScanState {
        if years.len() > 0 {
            ScanState { phase: Phase::Year, years, weeks: Seq::empty(), ..self }
        } else {
            ScanState { phase: Phase::Done, years: Seq::empty(), weeks: Seq::empty(), ..self }
        }
    }

    /// The state that turns to the first of `weeks` in the current year, or
    /// to the next year where there is none.
    pub open spec fn enter_weeks(self, weeks: Seq<Seq<char>>) -> ScanState {
        if weeks.len() > 0 {
            ScanState { phase: Phase::Week, weeks, ..self }
        } else {
            self.enter_years(self.years.skip(1))
        }
    }

    /// The state after the requested listing was fed.
    pub open spec fn fed(self, listing: Seq<EntryView>) -> ScanState {
        if self.request() is None {
            self
        } else {
            match self.phase {
                Phase::Base => self.enter_years(directories(listing)),
                Phase::Year => self.enter_weeks(
                    past_weeks(self.years[0], listing, self.today_year, self.today_week),
                ),
                Phase::Week => self.enter_weeks(self.weeks.skip(1)),
                Phase::Done => self,
            }
        }
    }

    /// The lines to print when the requested listing is fed: the report of
    /// the bucket for the listing of a week, nothing for any other.
    pub open spec fn lines_for(self, listing: Seq<EntryView>) -> Seq<Seq<char>> {
        if self.phase == Phase::Week && self.request() is Some {
            bucket_lines(self.years[0], self.weeks[0], listed_projects(listing, self.query))
        } else {
            Seq::empty()
        }
    }
}

/// Feeding a listing keeps the state well formed.
pub proof fn lemma_fed_is_well_formed(state: ScanState, listing: Seq<EntryView>)
    requires
        state.well_formed(),
    ensures
        state.fed(listing).well_formed(),
{
    match state.phase {
        Phase::Year => {
            if state.years[0] == state.today_year {
                lemma_past_weeks_exclude_today(listing, state.today_year, state.today_week);
            }
        },
        Phase::Week => {
            let rest = state.weeks.skip(1);
            if rest.contains(state.today_week) {
                let k = choose|k: int| 0 <= k < rest.len() && rest[k] == state.today_week;
                assert(state.weeks[k + 1] == state.today_week);
            }
        },
        _ => {},
    }
}

/// A well-formed search never asks for the listing of today's bucket.
pub proof fn lemma_today_is_never_requested(state: ScanState)
    requires
        state.well_formed(),
    ensures
        state.request() != Some(seq![state.today_year, state.today_week]),
{
    let today = seq![state.today_year, state.today_week];
    match state.phase {
        Phase::Base => {
            assert(today.len() == 2);
        },
        Phase::Year => {
            assert(today.len() == 2);
            assert(seq![state.years[0]].len() == 1);
        },
        Phase::Week => {
            let asked = seq![state.years[0], state.weeks[0]];
            if asked == today {
                assert(asked[0] == today[0]);
                assert(asked[1] == today[1]);
                assert(state.weeks[0] == state.today_week);
            }
        },
        Phase::Done => {},
    }
}

/// A search through past buckets.
pub struct Scanner {
    today_year: String,
    today_week: String,
    query: Option<String>,
    /// Whether the base directory was listed.
    started: bool,
    /// The year directories of the base, and the one that is being searched.
    years: Vec<String>,
    year_at: usize,
    /// The week directories to search in that year, and the next of them.
    weeks: Vec<String>,
    week_at: usize,
}

impl View for Scanner {
    type V = ScanState;

    closed spec fn view(&self) -> ScanState {
        ScanState {
            today_year: self.today_year@,
            today_week: self.today_week@,
            query: self.query.deep_view(),
            phase: self.phase_now(),
            years: self.years.deep_view().skip(self.year_at as int),
            weeks: if self.phase_now() == Phase::Week {
                self.weeks.deep_view().skip(self.week_at as int)
            } else {
                Seq::empty()
            },
        }
    }
}

impl Scanner {
    #[verifier::type_invariant]
    spec fn consistent(self) -> bool {
        &&& self.year_at <= self.years@.len()
        &&& self.week_at <= self.weeks@.len()
        &&& !self.started ==> self.years@.len() == 0 && self.weeks@.len() == 0
        &&& self.year_at < self.years@.len() && self.years@[self.year_at as int]@
            == self.today_year@ ==> !self.weeks.deep_view().contains(self.today_week@)
    }

    /// The phase that the lists and positions stand for.
    spec fn phase_now(self) -> Phase {
        if !self.started {
            Phase::Base
        } else if self.year_at >= self.years@.len() {
            Phase::Done
        } else if self.week_at < self.weeks@.len() {
            Phase::Week
        } else {
            Phase::Year
        }
    }

    /// What the type's invariant says of the state.
    proof fn lemma_view_is_well_formed(self)
        requires
            self.consistent(),
        ensures
            self@.well_formed(),
    {
        if self.phase_now() == Phase::Week {
            let weeks = self.weeks.deep_view();
            let rest = weeks.skip(self.week_at as int);
            if self@.years[0] == self@.today_year && rest.contains(self@.today_week) {
                let k = choose|k: int| 0 <= k < rest.len() && rest[k] == self@.today_week;
                assert(weeks[self.week_at + k] == self@.today_week);
            }
        }
    }

    /// A search that leaves out the bucket `today` and reports the projects
    /// that match `query`, or all that are not hidden where there is none.
    pub fn new(today: WeekBucket, query: Option<String>) -> (scanner: Scanner)
        ensures
            scanner@ == ScanState::initial(today.year_name(), today.week_name(), query.deep_view()),
            scanner@.well_formed(),
    {
        let scanner = Scanner {
            today_year: signed_decimal(today.year),
            today_week: unsigned_decimal(today.week),
            query,
            started: false,
            years: Vec::new(),
            year_at: 0,
            weeks: Vec::new(),
            week_at: 0,
        };
        assert(scanner@ =~= ScanState::initial(
            today.year_name(),
            today.week_name(),
            query.deep_view(),
        ));
        scanner
    }

    /// Which listing the search waits for.
    pub fn phase(&self) -> (phase: Phase)
        ensures
            phase == self@.phase,
            self@.well_formed(),
    {
        proof {
            use_type_invariant(self);
            self.lemma_view_is_well_formed();
        }
        if !self.started {
            Phase::Base
        } else if self.year_at >= self.years.len() {
            Phase::Done
        } else if self.week_at < self.weeks.len() {
            Phase::Week
        } else {
            Phase::Year
        }
    }

    /// Whether the search is over.
    pub fn is_done(&self) -> (done: bool)
        ensures
            done == (self@.request() is None),
    {
        match self.phase() {
            Phase::Done => true,
            _ => false,
        }
    }

    /// The path, below the base directory, of the directory to list next;
    /// `None` when the search is over. It is never the path of today's
    /// bucket.
    pub fn request(&self) -> (path: Option<Vec<String>>)
        ensures
            path.deep_view() == self@.request(),
            path.deep_view() != Some(seq![self@.today_year, self@.today_week]),
            self@.well_formed(),
    {
        proof {
            use_type_invariant(self);
            self.lemma_view_is_well_formed();
            lemma_today_is_never_requested(self@);
        }
        match self.phase() {
            Phase::Base => {
                let path: Vec<String> = Vec::new();
                assert(path.deep_view() =~= Seq::<Seq<char>>::empty());
                Some(path)
            },
            Phase::Year => {
                let mut path: Vec<String> = Vec::new();
                path.push(self.years[self.year_at].clone());
                assert(path.deep_view() =~= seq![self@.years[0]]);
                Some(path)
            },
            Phase::Week => {
                let mut path: Vec<String> = Vec::new();
                path.push(self.years[self.year_at].clone());
                path.push(self.weeks[self.week_at].clone());
                assert(path.deep_view() =~= seq![self@.years[0], self@.weeks[0]]);
                Some(path)
            },
            Phase::Done => None,
        }
    }

    /// Takes the listing of the directory that was requested, and returns
    /// the lines to print for it. Feeding a search that is over changes
    /// nothing.
    pub fn feed(&mut self, listing: &Vec<Entry>) -> (lines: Vec<String>)
        ensures
            final(self)@ == old(self)@.fed(listing.deep_view()),
            lines.deep_view() == old(self)@.lines_for(listing.deep_view()),
            final(self)@.well_formed(),
    {
        let ghost before = self@;
        proof {
            use_type_invariant(&*self);
            self.lemma_view_is_well_formed();
            lemma_fed_is_well_formed(before, listing.deep_view());
        }
        match self.phase() {
            Phase::Base => {
                let years = directory_names(listing);
                self.started = true;
                self.years = years;
                assert(self.years.deep_view().skip(0) =~= self.years.deep_view());
                assert(self@ =~= before.fed(listing.deep_view()));
                let lines: Vec<String> = Vec::new();
                assert(lines.deep_view() =~= Seq::<Seq<char>>::empty());
                lines
            },
            Phase::Year => {
                let weeks = past_week_names(
                    &self.years[self.year_at],
                    listing,
                    &self.today_year,
                    &self.today_week,
                );
                proof {
                    if before.years[0] == before.today_year {
                        lemma_past_weeks_exclude_today(
                            listing.deep_view(),
                            before.today_year,
                            before.today_week,
                        );
                    }
                    assert(weeks.deep_view().skip(0) =~= weeks.deep_view());
                }
                let year_count = self.years.len();
                self.week_at = 0;
                self.weeks = weeks;
                if self.weeks.len() == 0 {
                    assert(self.year_at < year_count);
                    self.year_at = self.year_at + 1;
                    assert(self.years.deep_view().skip(self.year_at as int) =~= before.years.skip(
                        1,
                    ));
                }
                assert(self@ =~= before.fed(listing.deep_view()));
                let lines: Vec<String> = Vec::new();
                assert(lines.deep_view() =~= Seq::<Seq<char>>::empty());
                lines
            },
            Phase::Week => {
                let projects = project_names(listing, &self.query);
                let lines = render_bucket(
                    self.years[self.year_at].as_str(),
                    self.weeks[self.week_at].as_str(),
                    &projects,
                );
                let year_count = self.years.len();
                let week_count = self.weeks.len();
                self.week_at = self.week_at + 1;
                assert(self.weeks.deep_view().skip(self.week_at as int) =~= before.weeks.skip(1));
                if self.week_at >= week_count {
                    self.week_at = 0;
                    self.weeks = Vec::new();
                    assert(self.year_at < year_count);
                    self.year_at = self.year_at + 1;
                    assert(self.years.deep_view().skip(self.year_at as int) =~= before.years.skip(
                        1,
                    ));
                }
                assert(self@ =~= before.fed(listing.deep_view()));
                lines
            },
            Phase::Done => {
                let lines: Vec<String> = Vec::new();
                assert(lines.deep_view() =~= Seq::<Seq<char>>::empty());
                lines
            },
        }
    }
}

} // verus!
