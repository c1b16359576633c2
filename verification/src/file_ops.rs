//! What is read from and written to a file's content.

use glob::Pattern;
use regex::Regex;
use vstd::prelude::*;
use crate::config::{matches_any, not_ignored, sources};
use crate::regex_ops::{first_group, regex_first_group};
use crate::text::{
    join_lines, join_with_newlines, lemma_join_concat, lemma_join_split, lemma_split_join,
    lemma_split_lines_shape, single_line, split_into_lines, split_lines, views,
};

verus! {

/// How many lines at the top of a file are searched for a copyright line.
pub const HEADER_LINES: usize = 3;

/// The lines at the top of a file as plain text; `None` stands for a line
/// that could not be read as text.
pub open spec fn header_model(header: Seq<Option<String>>) -> Seq<Option<Seq<char>>> {
    Seq::new(
        header.len(),
        |i: int|
            match header[i] {
                Some(line) => Some(line@),
                None => None,
            },
    )
}

/// The years that the pattern finds in a header line, if it finds any.
pub open spec fn years_in_line(line: Option<Seq<char>>, re: Regex) -> Option<Seq<char>> {
    match line {
        Some(text) => regex_first_group(re, text),
        None => None,
    }
}

/// The first of the header's lines from `from` on, among the first three,
/// in which the pattern finds years: its index and the years.
pub open spec fn existing_copyright_from(header: Seq<Option<Seq<char>>>, re: Regex, from: int)
    -> Option<(int, Seq<char>)>
    decreases HEADER_LINES - from,
{
    if from < 0 || from >= HEADER_LINES || from >= header.len() {
        None
    } else {
        match years_in_line(header[from], re) {
            Some(years) => Some((from, years)),
            None => existing_copyright_from(header, re, from + 1),
        }
    }
}

/// The existing copyright of a file: the index of the first of its first
/// three lines that the pattern recognises, and the years found there.
pub open spec fn existing_copyright(header: Seq<Option<Seq<char>>>, re: Regex) -> Option<
    (int, Seq<char>),
> {
    existing_copyright_from(header, re, 0)
}

/// What `read_copyright_years` found, as plain values.
pub open spec fn found_model(found: Option<(usize, String)>) -> Option<(int, Seq<char>)> {
    match found {
        Some((idx, years)) => Some((idx as int, years@)),
        None => None,
    }
}

/// Filter files based on glob patterns for files and directories to ignore:
/// the files that no pattern matches stay, in order.
pub fn filter_files(glob_patterns: &Vec<Pattern>, files: Vec<String>) -> (kept: Vec<String>)
    ensures
        views(kept@) == not_ignored(sources(glob_patterns@), views(files@)),
{
    let mut kept: Vec<String> = Vec::new();
    let ghost all = views(files@);
    for file in it: files
        invariant
            views(it.seq()) == all,
            views(kept@) == not_ignored(sources(glob_patterns@), all.take(it.index() as int)),
    {
        let ghost next = all.take(it.index() + 1);
        assert(next.drop_last() == all.take(it.index() as int));
        assert(next.last() == file@);
        if !matches_any(glob_patterns, file.as_str()) {
            let ghost before = views(kept@);
            kept.push(file);
            assert(views(kept@) == before.push(next.last()));
        }
    }
    assert(all.take(all.len() as int) == all);
    kept
}

/// Read the copyright years from the first lines of a file: the index of
/// the first line among the first three that the pattern recognises, and the
/// years it holds.
pub fn read_copyright_years(header: &Vec<Option<String>>, copyright_re: &Regex) -> (found: Option<
    (usize, String),
>)
    ensures
        found_model(found) == existing_copyright(header_model(header@), *copyright_re),
{
    let ghost lines = header_model(header@);
    let mut line_idx: usize = 0;
    while line_idx < HEADER_LINES && line_idx < header.len()
        invariant
            line_idx <= HEADER_LINES,
            lines == header_model(header@),
            existing_copyright(lines, *copyright_re) == existing_copyright_from(
                lines,
                *copyright_re,
                line_idx as int,
            ),
        decreases HEADER_LINES - line_idx,
    {
        if let Some(line) = &header[line_idx] {
            if let Some(years) = first_group(copyright_re, line.as_str()) {
                return Some((line_idx, years));
            }
        }
        line_idx = line_idx + 1;
    }
    None
}

/// The text opens with `#!`, the mark of an interpreter line.
pub open spec fn has_shebang(content: Seq<char>) -> bool {
    content.len() >= 2 && content[0] == '#' && content[1] == '!'
}

/// The content with the copyright line put in.
///
/// With a line index, the line at that index gives way to the copyright line;
/// an index past the last line changes nothing. Without one, the copyright
/// line becomes the second line of a text that opens with `#!`, and otherwise
/// goes on top, followed by a blank line.
pub open spec fn updated_text(content: Seq<char>, copyright_line: Seq<char>, line_idx: Option<int>)
    -> Seq<char> {
    match line_idx {
        Some(idx) => {
            if 0 <= idx < split_lines(content).len() {
                join_lines(split_lines(content).update(idx, copyright_line))
            } else {
                content
            }
        },
        None => {
            if has_shebang(content) {
                join_lines(split_lines(content).insert(1, copyright_line))
            } else {
                copyright_line + seq!['\n', '\n'] + content
            }
        },
    }
}

/// A line index as the mathematical integer it stands for.
pub open spec fn index_model(line_idx: Option<usize>) -> Option<int> {
    match line_idx {
        Some(idx) => Some(idx as int),
        None => None,
    }
}

/// Whether the text opens with `#!`.
pub fn starts_with_shebang(content: &str) -> (found: bool)
    ensures
        found == has_shebang(content@),
{
    let mut chars = content.chars();
    let first = chars.next();
    let second = chars.next();
    first == Some('#') && second == Some('!')
}

/// Put the copyright line into a file's content: in place of the line at
/// `line_idx` where an outdated one was found there, else below an
/// interpreter line or on top.
pub fn updated_content(content: &str, copyright_line: &str, line_idx: Option<usize>) -> (updated:
    String)
    ensures
        updated@ == updated_text(content@, copyright_line@, index_model(line_idx)),
{
    match line_idx {
        Some(idx) => {
            let mut lines = split_into_lines(content);
            if idx < lines.len() {
                lines.set(idx, copyright_line.to_owned());
                assert(views(lines@) == split_lines(content@).update(idx as int, copyright_line@));
                join_with_newlines(&lines)
            } else {
                content.to_owned()
            }
        },
        None => {
            if starts_with_shebang(content) {
                let mut lines = split_into_lines(content);
                proof {
                    crate::text::lemma_split_lines_shape(content@);
                }
                lines.insert(1, copyright_line.to_owned());
                assert(views(lines@) == split_lines(content@).insert(1, copyright_line@));
                join_with_newlines(&lines)
            } else {
                let mut updated = copyright_line.to_owned();
                updated.append("\n\n");
                updated.append(content);
                proof {
                    reveal_strlit("\n\n");
                    assert("\n\n"@ == seq!['\n', '\n']);
                }
                updated
            }
        },
    }
}

/// Where a search from `from` on finds a copyright, it is at an index from
/// `from` on among the first three lines, the years are what the pattern
/// finds in that line, and the pattern finds nothing in the lines between;
/// where it finds none, the pattern finds nothing in any of those lines.
pub proof fn lemma_existing_copyright_from(header: Seq<Option<Seq<char>>>, re: Regex, from: int)
    requires
        0 <= from,
    ensures
        match existing_copyright_from(header, re, from) {
            Some((idx, years)) => {
                &&& from <= idx < HEADER_LINES
                &&& idx < header.len()
                &&& years_in_line(header[idx], re) == Some(years)
                &&& forall|j: int| from <= j < idx ==> years_in_line(#[trigger] header[j], re) is None
            },
            None => forall|j: int|
                from <= j < HEADER_LINES && j < header.len() ==> years_in_line(
                    #[trigger] header[j],
                    re,
                ) is None,
        },
    decreases HEADER_LINES - from,
{
    if from < HEADER_LINES && from < header.len() && years_in_line(header[from], re) is None {
        lemma_existing_copyright_from(header, re, from + 1);
    }
}

/// An existing copyright is always found within the first three lines: at
/// the first of them that the pattern recognises, with the years of that
/// line.
pub proof fn lemma_existing_copyright(header: Seq<Option<Seq<char>>>, re: Regex)
    ensures
        match existing_copyright(header, re) {
            Some((idx, years)) => {
                &&& 0 <= idx < HEADER_LINES
                &&& idx < header.len()
                &&& years_in_line(header[idx], re) == Some(years)
                &&& forall|j: int| 0 <= j < idx ==> years_in_line(#[trigger] header[j], re) is None
            },
            None => forall|j: int|
                0 <= j < HEADER_LINES && j < header.len() ==> years_in_line(
                    #[trigger] header[j],
                    re,
                ) is None,
        },
{
    lemma_existing_copyright_from(header, re, 0);
}

/// Replacing a line touches that line alone: the new content has the
/// copyright line at the index, and every other line as it was, in order.
pub proof fn lemma_replaced_lines(content: Seq<char>, copyright_line: Seq<char>, idx: int)
    requires
        single_line(copyright_line),
        0 <= idx < split_lines(content).len(),
    ensures
        split_lines(updated_text(content, copyright_line, Some(idx))) == split_lines(
            content,
        ).update(idx, copyright_line),
{
    lemma_split_lines_shape(content);
    let lines = split_lines(content).update(idx, copyright_line);
    assert forall|k: int| 0 <= k < lines.len() implies single_line(#[trigger] lines[k]) by {
        if k != idx {
            assert(lines[k] == split_lines(content)[k]);
        }
    }
    lemma_split_join(lines);
}

/// Below an interpreter line the copyright line becomes the second line, and
/// the lines of the old content stay around it, in order.
pub proof fn lemma_inserted_lines(content: Seq<char>, copyright_line: Seq<char>)
    requires
        single_line(copyright_line),
        has_shebang(content),
    ensures
        split_lines(updated_text(content, copyright_line, None)) == split_lines(content).insert(
            1,
            copyright_line,
        ),
{
    lemma_split_lines_shape(content);
    let old_lines = split_lines(content);
    let lines = old_lines.insert(1, copyright_line);
    assert forall|k: int| 0 <= k < lines.len() implies single_line(#[trigger] lines[k]) by {
        if k < 1 {
            assert(lines[k] == old_lines[k]);
        } else if k > 1 {
            assert(lines[k] == old_lines[k - 1]);
        }
    }
    lemma_split_join(lines);
}

/// On top of a text without an interpreter line stand the copyright line and
/// a blank line, and below them every line of the old content, in order.
pub proof fn lemma_prepended_lines(content: Seq<char>, copyright_line: Seq<char>)
    requires
        single_line(copyright_line),
        !has_shebang(content),
    ensures
        split_lines(updated_text(content, copyright_line, None)) == seq![
            copyright_line,
            Seq::<char>::empty(),
        ] + split_lines(content),
{
    lemma_split_lines_shape(content);
    lemma_join_split(content);
    let top = seq![copyright_line, Seq::<char>::empty()];
    let lines = top + split_lines(content);
    assert(top.drop_last() == seq![copyright_line]);
    assert(join_lines(top) == join_lines(seq![copyright_line]) + seq!['\n'] + Seq::<char>::empty());
    assert(join_lines(top) == copyright_line + seq!['\n']);
    lemma_join_concat(top, split_lines(content));
    assert(copyright_line + seq!['\n'] + seq!['\n'] + content == copyright_line + seq![
        '\n',
        '\n',
    ] + content);
    assert forall|k: int| 0 <= k < lines.len() implies single_line(#[trigger] lines[k]) by {
        if k >= 2 {
            assert(lines[k] == split_lines(content)[k - 2]);
        }
    }
    lemma_split_join(lines);
}

/// Replacing a line by what already stands there leaves the content as it is.
pub proof fn lemma_update_same_line(content: Seq<char>, copyright_line: Seq<char>, idx: int)
    requires
        0 <= idx < split_lines(content).len(),
        split_lines(content)[idx] == copyright_line,
    ensures
        updated_text(content, copyright_line, Some(idx)) == content,
{
    assert(split_lines(content).update(idx, copyright_line) == split_lines(content));
    lemma_join_split(content);
}

/// Replacing the same line twice is replacing it once by the second line:
/// the result has the second line at the index and every other line of the
/// original content. The first line put in must be a single line, or the
/// line count between the two steps would change.
pub proof fn lemma_update_twice(
    content: Seq<char>,
    first_line: Seq<char>,
    second_line: Seq<char>,
    idx: int,
)
    requires
        single_line(first_line),
        0 <= idx,
    ensures
        updated_text(updated_text(content, first_line, Some(idx)), second_line, Some(idx))
            == updated_text(content, second_line, Some(idx)),
        idx < split_lines(content).len() ==> updated_text(
            updated_text(content, first_line, Some(idx)),
            second_line,
            Some(idx),
        ) == join_lines(split_lines(content).update(idx, second_line)),
{
    if idx < split_lines(content).len() {
        lemma_replaced_lines(content, first_line, idx);
        assert(split_lines(content).update(idx, first_line).update(idx, second_line)
            == split_lines(content).update(idx, second_line));
    }
}

} // verus!
