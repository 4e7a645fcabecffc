//! Project names: a name is one path segment, checked when it is built.

use vstd::prelude::*;
use vstd::std_specs::iter::IteratorSpec;
use vstd::string::*;

verus! {

/// The character that parts the segments of a path.
pub open spec fn is_separator(c: char) -> bool {
    c == '/'
}

/// Some character of `name` is a separator.
pub open spec fn has_separator(name: Seq<char>) -> bool {
    exists|i: int| 0 <= i < name.len() && is_separator(#[trigger] name[i])
}

/// `name` is exactly one path segment: it is not empty and holds no separator.
pub open spec fn is_single_segment(name: Seq<char>) -> bool {
    name.len() > 0 && !has_separator(name)
}

/// Why a text was refused as a project name.
#[derive(Debug, Clone, Copy, PartialEq, Eq, Structural)]
pub enum NameParseError {
    /// The text is not a single path segment.
    ContainsPathSeparator,
}

impl NameParseError {
    /// The message shown to the user.
    pub fn to_string(&self) -> (message: String)
        ensures
            message@ == "Directory name cannot contain path separator"@,
    {
        match self {
            NameParseError::ContainsPathSeparator => String::from_str(
                "Directory name cannot contain path separator",
            ),
        }
    }
}

/// A project name that is known to be a single path segment.
pub struct Directory {
    name: String,
}

impl View for Directory {
    type V = Seq<char>;

    closed spec fn view(&self) -> Seq<char> {
        self.name@
    }
}

impl Directory {
    #[verifier::type_invariant]
    spec fn holds_one_segment(self) -> bool {
        is_single_segment(self.name@)
    }

    /// Accepts `src` as a project name if and only if it is a single path
    /// segment, and keeps its text unchanged.
    pub fn from_str(src: &str) -> (parsed: Result<Directory, NameParseError>)
        ensures
            is_single_segment(src@) ==> parsed is Ok && parsed->Ok_0@ == src@,
            !is_single_segment(src@) ==> parsed == Err::<Directory, NameParseError>(
                NameParseError::ContainsPathSeparator,
            ),
    {
        broadcast use group_string_axioms;

        let mut chars = src.chars();
        let ghost mut seen: int = 0;
        loop
            invariant
                chars.obeys_prophetic_iter_laws(),
                0 <= seen <= src@.len(),
                chars.remaining() == src@.skip(seen),
                forall|k: int| 0 <= k < seen ==> !is_separator(#[trigger] src@[k]),
            decreases src@.len() - seen,
        {
            match chars.next() {
                Some(c) => {
                    if c == '/' {
                        assert(is_separator(src@[seen]));
                        return Err(NameParseError::ContainsPathSeparator);
                    }
                    proof {
                        assert(src@.skip(seen).drop_first() == src@.skip(seen + 1));
                        seen = seen + 1;
                    }
                },
                None => {
                    assert(seen == src@.len());
                    if src.is_empty() {
                        return Err(NameParseError::ContainsPathSeparator);
                    }
                    return Ok(Directory { name: String::from_str(src) });
                },
            }
        }
    }

    /// The name's text, which is a single path segment.
    pub fn as_ref(&self) -> (text: &str)
        ensures
            text@ == self@,
            is_single_segment(self@),
    {
        proof {
            use_type_invariant(self);
        }
        self.name.as_str()
    }
}

} // verus!
