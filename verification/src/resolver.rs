//! Where `new` puts a project: in the bucket of the day, under the name
//! given, and what is done with that directory before its path is printed.

use crate::calendar::{CalendarDay, WeekBucket};
use crate::name::{has_separator, is_single_segment, Directory, NameParseError};
use vstd::prelude::*;
use vstd::string::*;

verus! {

/// The path, below the base directory, of the bucket of `day`; `None` for a
/// day that does not exist.
pub open spec fn bucket_path_of(day: CalendarDay) -> Option<Seq<Seq<char>>> {
    if day.exists_in_calendar() {
        Some(WeekBucket::of_day(day).path())
    } else {
        None
    }
}

/// The path, below the base directory, of the directory that `new` reports:
/// the bucket, or the directory `name` in it.
pub open spec fn target_path(bucket: WeekBucket, name: Option<Seq<char>>) -> Seq<Seq<char>> {
    match name {
        Some(name) => bucket.path().push(name),
        None => bucket.path(),
    }
}

/// What `new` gives for a name as the user typed it: the target path where
/// the name is a single segment or there is none, else the refusal.
pub open spec fn resolved(bucket: WeekBucket, name: Option<Seq<char>>) -> Result<
    Seq<Seq<char>>,
    NameParseError,
> {
    match name {
        Some(name) if !is_single_segment(name) => Err(NameParseError::ContainsPathSeparator),
        _ => Ok(target_path(bucket, name)),
    }
}

/// The text of a name that may be absent.
pub open spec fn text_of(name: Option<&Directory>) -> Option<Seq<char>> {
    match name {
        Some(name) => Some(name@),
        None => None,
    }
}

/// The path of the bucket of `day`, for every day that exists.
pub fn bucket_path(day: CalendarDay) -> (path: Option<Vec<String>>)
    ensures
        path.deep_view() == bucket_path_of(day),
{
    match WeekBucket::containing(day) {
        Some(bucket) => Some(bucket.components()),
        None => None,
    }
}

/// The path of the directory that `new` reports for `bucket` and a name
/// that was checked. Its last component is the name, where there is one.
pub fn resolve(bucket: &WeekBucket, name: Option<&Directory>) -> (path: Vec<String>)
    ensures
        path.deep_view() == target_path(*bucket, text_of(name)),
        name is Some ==> path.deep_view().last() == name->Some_0@,
{
    let mut path = bucket.components();
    match name {
        Some(name) => {
            let ghost before = path.deep_view();
            path.push(String::from_str(name.as_ref()));
            assert(path.deep_view() =~= before.push(name@));
        },
        None => {},
    }
    path
}

/// Checks the name, where there is one, and resolves the directory that
/// `new` reports. A name that is not a single path segment is refused, and
/// nothing is resolved.
pub fn resolve_named(bucket: &WeekBucket, name: Option<&str>) -> (outcome: Result<
    Vec<String>,
    NameParseError,
>)
    ensures
        match resolved(*bucket, name.deep_view()) {
            Ok(path) => outcome is Ok && outcome->Ok_0.deep_view() == path,
            Err(refusal) => outcome == Err::<Vec<String>, NameParseError>(refusal),
        },
{
    match name {
        Some(text) => match Directory::from_str(text) {
            Ok(checked) => Ok(resolve(bucket, Some(&checked))),
            Err(refusal) => Err(refusal),
        },
        None => Ok(resolve(bucket, None)),
    }
}

/// Resolving the bucket path of one day twice gives the same path.
pub proof fn lemma_bucket_path_is_determined(
    day: CalendarDay,
    first: Option<Seq<Seq<char>>>,
    second: Option<Seq<Seq<char>>>,
)
    requires
        first == bucket_path_of(day),
        second == bucket_path_of(day),
    ensures
        first == second,
{
}

/// `new` accepts every single-segment name and ends the path with it; it
/// refuses every name that holds a separator.
pub proof fn lemma_new_keeps_or_refuses_the_name(bucket: WeekBucket, name: Seq<char>)
    ensures
        is_single_segment(name) ==> resolved(bucket, Some(name)) is Ok && resolved(
            bucket,
            Some(name),
        )->Ok_0.last() == name,
        has_separator(name) ==> resolved(bucket, Some(name)) == Err::<
            Seq<Seq<char>>,
            NameParseError,
        >(NameParseError::ContainsPathSeparator),
{
}

/// What `new` does with its directory before it prints the path.
#[derive(Debug, Clone, Copy, PartialEq, Eq, Structural)]
pub enum NewAction {
    /// Create the directory, with every directory above it that is missing.
    Create,
    /// Leave the file system as it is.
    Keep,
}

impl NewAction {
    /// The action for a directory that exists or does not.
    pub open spec fn when(exists: bool) -> NewAction {
        if exists {
            NewAction::Keep
        } else {
            NewAction::Create
        }
    }

    /// The action for a directory that exists or does not: only a
    /// directory that is missing is created.
    pub fn for_directory(exists: bool) -> (action: NewAction)
        ensures
            action == NewAction::when(exists),
    {
        if exists {
            NewAction::Keep
        } else {
            NewAction::Create
        }
    }
}

/// `prefix` is the path of `path` or of a directory above it.
pub open spec fn leads_to(prefix: Seq<Seq<char>>, path: Seq<Seq<char>>) -> bool {
    prefix.len() <= path.len() && path.take(prefix.len() as int) == prefix
}

/// The directories that exist after `action` was carried out on `path`.
pub open spec fn carried_out(
    existing: Set<Seq<Seq<char>>>,
    path: Seq<Seq<char>>,
    action: NewAction,
) -> Set<Seq<Seq<char>>> {
    match action {
        NewAction::Keep => existing,
        NewAction::Create => existing.union(Set::new(|prefix: Seq<Seq<char>>| leads_to(prefix, path))),
    }
}

/// The directories that exist after `new` ran for `bucket` and `name`.
pub open spec fn after_new(
    existing: Set<Seq<Seq<char>>>,
    bucket: WeekBucket,
    name: Option<Seq<char>>,
) -> Set<Seq<Seq<char>>> {
    let path = target_path(bucket, name);
    carried_out(existing, path, NewAction::when(existing.contains(path)))
}

/// `new` is idempotent: after one run the directory exists, so a second run
/// for the same bucket and name creates nothing, leaves the same
/// directories, and reports the same path.
pub proof fn lemma_new_is_idempotent(
    existing: Set<Seq<Seq<char>>>,
    bucket: WeekBucket,
    name: Option<Seq<char>>,
)
    ensures
        after_new(existing, bucket, name).contains(target_path(bucket, name)),
        NewAction::when(after_new(existing, bucket, name).contains(target_path(bucket, name)))
            == NewAction::Keep,
        after_new(after_new(existing, bucket, name), bucket, name) == after_new(
            existing,
            bucket,
            name,
        ),
{
    let path = target_path(bucket, name);
    assert(path.take(path.len() as int) =~= path);
    assert(leads_to(path, path));
}

} // verus!
