//! What the version-control tool reports, and what follows from it.

use chrono::Utc;
use vstd::prelude::*;
use vstd::utf8::{decode_utf8, valid_utf8};
use crate::error::Error;
use crate::text::{chars_of, split_into_lines, split_lines, string_between, views};

verus! {

/// How many characters at the start of a commit date make up the year.
pub const YEAR_LENGTH: usize = 4;

/// The text that `String::from_utf8_lossy` makes of the bytes.
pub uninterp spec fn utf8_lossy(bytes: Seq<u8>) -> Seq<char>;

/// `String::from_utf8_lossy`: the bytes as text, with the replacement
/// character in place of each sequence that is not valid UTF-8. Bytes that
/// are valid UTF-8 come out as the text they encode.
#[verifier::external_body]
fn lossy_text(bytes: &[u8]) -> (text: String)
    ensures
        text@ == utf8_lossy(bytes@),
        valid_utf8(bytes@) ==> text@ == decode_utf8(bytes@),
{
    String::from_utf8_lossy(bytes).to_string()
}

/// `std::str::from_utf8`: the text that the bytes encode, exactly when they
/// are valid UTF-8; else the report of the error, as text.
#[verifier::external_body]
fn utf8_text(bytes: &[u8]) -> (text: Result<String, String>)
    ensures
        text is Ok <==> valid_utf8(bytes@),
        text matches Ok(decoded) ==> decoded@ == decode_utf8(bytes@),
{
    match std::str::from_utf8(bytes) {
        Ok(decoded) => Ok(decoded.to_owned()),
        Err(e) => Err(e.to_string()),
    }
}

/// `Utc::now`, `DateTime::date_naive` and `NaiveDate::format` with `%Y`: the
/// calendar year of the present moment in UTC, written out. It depends on the
/// clock, and nothing is claimed of it; with a clock set before 1970
/// `Utc::now` does not return.
#[verifier::external_body]
fn current_year() -> (year: String) {
    Utc::now().date_naive().format("%Y").to_string()
}

/// The lines that are not empty, in order.
pub open spec fn nonempty(lines: Seq<Seq<char>>) -> Seq<Seq<char>>
    decreases lines.len(),
{
    if lines.len() == 0 {
        Seq::<Seq<char>>::empty()
    } else if lines.last().len() == 0 {
        nonempty(lines.drop_last())
    } else {
        nonempty(lines.drop_last()).push(lines.last())
    }
}

/// The entries that a command printed: the lines of its output that are not
/// empty.
pub open spec fn output_entries(output: Seq<char>) -> Seq<Seq<char>> {
    nonempty(split_lines(output))
}

/// The year of each commit date: its first four characters, or all of it
/// where it has fewer.
pub open spec fn leading_years(dates: Seq<Seq<char>>) -> Seq<Seq<char>> {
    Seq::new(
        dates.len(),
        |i: int|
            if dates[i].len() <= YEAR_LENGTH {
                dates[i]
            } else {
                dates[i].take(YEAR_LENGTH as int)
            },
    )
}

/// The years of a history with at least one commit, newest first: the one
/// year where the file was added and last modified in the same year, else
/// the year it was added, a hyphen, and the year it was last modified.
pub open spec fn collapsed_years(commit_years: Seq<Seq<char>>) -> Seq<char>
    recommends
        commit_years.len() > 0,
{
    let last_modified = commit_years.first();
    let added = commit_years.last();
    if added == last_modified {
        added
    } else {
        added + seq!['-'] + last_modified
    }
}

/// The years for a file: those of its history or, for a file without
/// history, the current year.
pub open spec fn history_years(commit_years: Seq<Seq<char>>, current_year: Seq<char>) -> Seq<char> {
    if commit_years.len() == 0 {
        current_year
    } else {
        collapsed_years(commit_years)
    }
}

/// The lines of a command's output that are not empty.
pub fn entries_of(output: &str) -> (entries: Vec<String>)
    ensures
        views(entries@) == output_entries(output@),
{
    let lines = split_into_lines(output);
    let ghost all = views(lines@);
    let mut entries: Vec<String> = Vec::new();
    for line in it: lines
        invariant
            views(it.seq()) == all,
            views(entries@) == nonempty(all.take(it.index() as int)),
    {
        let ghost next = all.take(it.index() + 1);
        assert(next.drop_last() == all.take(it.index() as int));
        assert(next.last() == line@);
        if !line.as_str().is_empty() {
            let ghost before = views(entries@);
            entries.push(line);
            assert(views(entries@) == before.push(next.last()));
        }
    }
    assert(all.take(all.len() as int) == all);
    entries
}

/// Check the repository for changes of tracked files: with the flag set, a
/// change is an error.
pub fn check_for_changes(diff_files: &Vec<String>, fail_on_changes: bool) -> (checked: Result<
    (),
    Error,
>)
    ensures
        checked is Err <==> diff_files.len() > 0 && fail_on_changes,
        checked is Err ==> checked matches Err(Error::FilesChanged),
{
    if !diff_files.is_empty() && fail_on_changes {
        return Err(Error::FilesChanged);
    }
    Ok(())
}

/// What the operator is told of the changed files: nothing where there is
/// none, else a heading and one line for each file.
pub open spec fn report_lines(diff_files: Seq<Seq<char>>) -> Seq<Seq<char>> {
    if diff_files.len() == 0 {
        Seq::<Seq<char>>::empty()
    } else {
        seq!["The following files have changed:"@] + Seq::new(
            diff_files.len(),
            |i: int| "- "@ + diff_files[i],
        )
    }
}

/// The lines that tell the operator which files have changed.
pub fn changes_report(diff_files: &Vec<String>) -> (report: Vec<String>)
    ensures
        views(report@) == report_lines(views(diff_files@)),
{
    let mut report: Vec<String> = Vec::new();
    if diff_files.is_empty() {
        return report;
    }
    report.push("The following files have changed:".to_owned());
    let mut i: usize = 0;
    while i < diff_files.len()
        invariant
            i <= diff_files.len(),
            report.len() == i + 1,
            report[0]@ == "The following files have changed:"@,
            forall|j: int| 0 <= j < i ==> (#[trigger] report[j + 1])@ == "- "@ + diff_files[j]@,
        decreases diff_files.len() - i,
    {
        let mut line = "- ".to_owned();
        line.append(diff_files[i].as_str());
        report.push(line);
        i = i + 1;
    }
    proof {
        let files = views(diff_files@);
        let heading = seq!["The following files have changed:"@];
        let items = Seq::new(files.len(), |i: int| "- "@ + files[i]);
        let wanted = report_lines(files);
        assert(wanted == heading + items);
        assert forall|k: int| 0 <= k < wanted.len() implies views(report@)[k] == wanted[k] by {
            if k > 0 {
                assert(wanted[k] == items[k - 1]);
                assert(report[(k - 1) + 1]@ == "- "@ + diff_files[k - 1]@);
            }
        }
        assert(views(report@) =~= wanted);
    }
    report
}

/// Read what a command of the version-control tool gave back.
///
/// A command that failed is an error with what it printed to its error
/// output. Else its output must be text, and each line of it that is not
/// empty is one entry.
pub fn parse_cmd_output(success: bool, stdout: &[u8], stderr: &[u8]) -> (parsed: Result<
    Vec<String>,
    Error,
>)
    ensures
        match parsed {
            Ok(entries) => success && valid_utf8(stdout@) && views(entries@) == output_entries(
                decode_utf8(stdout@),
            ),
            Err(Error::GitCommand(report)) => !success && report@ == utf8_lossy(stderr@),
            Err(Error::Utf8(_)) => success && !valid_utf8(stdout@),
            Err(_) => false,
        },
{
    if !success {
        return Err(Error::GitCommand(lossy_text(stderr)));
    }
    match utf8_text(stdout) {
        Ok(output) => Ok(entries_of(output.as_str())),
        Err(report) => Err(Error::Utf8(report)),
    }
}

/// The years of the commits that a history query printed, one commit date to
/// a line, in the order of the lines.
pub fn commit_years(log_output: &str) -> (years: Vec<String>)
    ensures
        views(years@) == leading_years(output_entries(log_output@)),
{
    let dates = entries_of(log_output);
    let mut years: Vec<String> = Vec::new();
    let mut i: usize = 0;
    while i < dates.len()
        invariant
            i <= dates.len(),
            years.len() == i,
            views(dates@) == output_entries(log_output@),
            forall|j: int| 0 <= j < i ==> (#[trigger] years[j])@ == leading_years(views(dates@))[j],
        decreases dates.len() - i,
    {
        let chars = chars_of(dates[i].as_str());
        let end = if chars.len() <= YEAR_LENGTH {
            chars.len()
        } else {
            YEAR_LENGTH
        };
        let year = string_between(&chars, 0, end);
        assert(chars@.subrange(0, end as int) =~= leading_years(views(dates@))[i as int]);
        years.push(year);
        i = i + 1;
    }
    assert(views(years@) =~= leading_years(views(dates@)));
    years
}

/// The years of a history that holds a commit, from the years of its
/// commits, newest first.
fn collapse_years(commit_years: &Vec<String>) -> (years: String)
    requires
        commit_years.len() > 0,
    ensures
        years@ == collapsed_years(views(commit_years@)),
{
    let last_modified = &commit_years[0];
    let added = &commit_years[commit_years.len() - 1];
    assert(views(commit_years@).first() == last_modified@);
    assert(views(commit_years@).last() == added@);
    if *added == *last_modified {
        added.clone()
    } else {
        let mut years = added.clone();
        years.append("-");
        years.append(last_modified.as_str());
        proof {
            reveal_strlit("-");
            assert("-"@ == seq!['-']);
        }
        years
    }
}

/// The years for a file from the years of its commits, newest first, and the
/// current year: a file without history counts as added this year.
pub fn years_for_history(commit_years: &Vec<String>, current_year: &str) -> (years: String)
    ensures
        years@ == history_years(views(commit_years@), current_year@),
{
    if commit_years.len() == 0 {
        current_year.to_owned()
    } else {
        collapse_years(commit_years)
    }
}

/// Get the added and modified times for a file from what the history query
/// printed for it.
///
/// Where the history holds a commit, the years are those of the history; the
/// clock is asked only for a file without one, and the answer is then
/// whatever year the clock gives.
pub fn get_added_mod_times_for_file(log_output: &str) -> (years: String)
    ensures
        output_entries(log_output@).len() > 0 ==> years@ == collapsed_years(
            leading_years(output_entries(log_output@)),
        ),
{
    let commit_years = commit_years(log_output);
    if commit_years.len() == 0 {
        current_year()
    } else {
        collapse_years(&commit_years)
    }
}

} // verus!
