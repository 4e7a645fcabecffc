//! The lines that report one bucket: a header that names the year and the
//! week, then one indented line for each project.

use ansi_term::Style;
use vstd::prelude::*;
use vstd::string::*;

verus! {

/// The ANSI escape sequence that selects the graphic rendition `code`.
pub open spec fn escape(code: char) -> Seq<char> {
    seq!['\u{1b}', '[', code, 'm']
}

/// `text` between the escape sequences for bold and for reset.
pub open spec fn bold_text(text: Seq<char>) -> Seq<char> {
    escape('1') + text + escape('0')
}

/// `text` between the escape sequences for faint and for reset.
pub open spec fn dimmed_text(text: Seq<char>) -> Seq<char> {
    escape('2') + text + escape('0')
}

/// The header of a bucket: the year in bold, a slash, the week dimmed.
pub open spec fn header_line(year: Seq<char>, week: Seq<char>) -> Seq<char> {
    bold_text(year) + seq!['/'] + dimmed_text(week)
}

/// The line of one project: a tab, then its name.
pub open spec fn entry_line(name: Seq<char>) -> Seq<char> {
    seq!['\t'] + name
}

/// The report of one bucket: nothing for a bucket without projects, else the
/// header and the projects' lines in the order given.
pub open spec fn bucket_lines(year: Seq<char>, week: Seq<char>, projects: Seq<Seq<char>>) -> Seq<
    Seq<char>,
> {
    if projects.len() == 0 {
        Seq::empty()
    } else {
        seq![header_line(year, week)] + projects.map_values(|name: Seq<char>| entry_line(name))
    }
}

/// Formats `text` painted with ansi_term's `Style::new().bold()`. Trusted:
/// the style's prefix is the escape sequence with code 1 and its suffix the
/// reset sequence, around the text unchanged.
#[verifier::external_body]
fn paint_bold(text: &str) -> (painted: String)
    ensures
        painted@ == bold_text(text@),
{
    Style::new().bold().paint(text).to_string()
}

/// Formats `text` painted with ansi_term's `Style::new().dimmed()`. Trusted:
/// the style's prefix is the escape sequence with code 2 and its suffix the
/// reset sequence, around the text unchanged.
#[verifier::external_body]
fn paint_dimmed(text: &str) -> (painted: String)
    ensures
        painted@ == dimmed_text(text@),
{
    Style::new().dimmed().paint(text).to_string()
}

/// The header line of the bucket `year`/`week`.
pub fn render_header(year: &str, week: &str) -> (line: String)
    ensures
        line@ == header_line(year@, week@),
{
    let mut line = paint_bold(year);
    proof {
        reveal_strlit("/");
    }
    line.append("/");
    let week_part = paint_dimmed(week);
    line.append(week_part.as_str());
    assert(line@ =~= header_line(year@, week@));
    line
}

/// The report of the bucket `year`/`week` that holds `projects`.
pub fn render_bucket(year: &str, week: &str, projects: &Vec<String>) -> (lines: Vec<String>)
    ensures
        lines.deep_view() == bucket_lines(year@, week@, projects.deep_view()),
{
    let mut lines: Vec<String> = Vec::new();
    if projects.len() == 0 {
        assert(lines.deep_view() =~= bucket_lines(year@, week@, projects.deep_view()));
        return lines;
    }
    lines.push(render_header(year, week));
    let mut i: usize = 0;
    while i < projects.len()
        invariant
            i <= projects.len(),
            lines@.len() == i + 1,
            lines@[0]@ == header_line(year@, week@),
            forall|k: int| 0 <= k < i ==> (#[trigger] lines@[k + 1])@ == entry_line(projects@[k]@),
        decreases projects.len() - i,
    {
        let mut line = String::from_str("\t");
        proof {
            reveal_strlit("\t");
        }
        line.append(projects[i].as_str());
        assert(line@ =~= entry_line(projects@[i as int]@));
        lines.push(line);
        i += 1;
        assert forall|k: int| 0 <= k < i implies (#[trigger] lines@[k + 1])@ == entry_line(
            projects@[k]@,
        ) by {}
    }
    proof {
        let expected = bucket_lines(year@, week@, projects.deep_view());
        assert(lines.deep_view().len() == expected.len());
        assert forall|k: int| 0 <= k < expected.len() implies lines.deep_view()[k] == expected[k] by {
            if k > 0 {
                assert(lines@[(k - 1) + 1]@ == entry_line(projects@[k - 1]@));
            }
        }
        assert(lines.deep_view() =~= expected);
    }
    lines
}

/// A bucket without projects is not reported: it gets no header and no line.
/// A bucket with projects gets its header and one line for each of them.
pub proof fn lemma_bucket_lines_count(year: Seq<char>, week: Seq<char>, projects: Seq<Seq<char>>)
    ensures
        projects.len() == 0 ==> bucket_lines(year, week, projects).len() == 0,
        projects.len() > 0 ==> bucket_lines(year, week, projects).len() == projects.len() + 1,
{
}

} // verus!
