//! Runner definition: what is decided for one file, and what the dispatcher
//! of a run does next.

use std::sync::Arc;
use regex::Regex;
use vstd::prelude::*;
use crate::config::{lemma_nothing_ignored, not_ignored, Config};
use crate::error::Error;
use crate::file_ops::{
    existing_copyright, filter_files, found_model, header_model, read_copyright_years,
};
use crate::regex_ops::{
    copyright_pattern_text, copyright_text, generate_copyright_line, regex_accepts, regex_source,
    RegexCache,
};
use crate::text::views;
use crate::{CommentSign, SignModel};

verus! {

/// What the check of one file found, and so what is to be done with it.
#[derive(Debug)]
pub enum FileCheck {
    /// The file holds a copyright line with the right years: nothing to do.
    UpToDate,
    /// The copyright line at index `line` holds the years `found`, which are
    /// not those of the history: `copyright` takes its place.
    Outdated { line: usize, found: String, copyright: String },
    /// The file holds no copyright line: `copyright` is put in.
    Missing { copyright: String },
    /// The pattern for the file's comment sign is no valid regular
    /// expression, so the file cannot be searched.
    PatternRejected,
}

/// Whether a check is the one that follows from the existing copyright of a
/// file, the years of its history and the copyright line made for it.
pub open spec fn check_follows(
    check: FileCheck,
    existing: Option<(int, Seq<char>)>,
    tracked_years: Seq<char>,
    copyright_line: Seq<char>,
) -> bool {
    match existing {
        Some((idx, years)) => {
            if years == tracked_years {
                check is UpToDate
            } else {
                match check {
                    FileCheck::Outdated { line, found, copyright } => line == idx && found@ == years
                        && copyright@ == copyright_line,
                    _ => false,
                }
            }
        },
        None => match check {
            FileCheck::Missing { copyright } => copyright@ == copyright_line,
            _ => false,
        },
    }
}

/// Decide what is to be done with a file from the copyright found in it.
///
/// A file whose copyright line holds the years of its history is left as it
/// is; one with other years gets the new line in the old one's place; one
/// without a copyright line gets the new line put in.
pub fn decide(existing: Option<(usize, String)>, tracked_years: &str, copyright: String) -> (check:
    FileCheck)
    ensures
        check_follows(check, found_model(existing), tracked_years@, copyright@),
{
    match existing {
        Some((line, found)) => {
            if crate::text::chars_equal(found.as_str(), tracked_years) {
                FileCheck::UpToDate
            } else {
                FileCheck::Outdated { line, found, copyright }
            }
        },
        None => FileCheck::Missing { copyright },
    }
}

/// Check a file whose comment sign and pattern are at hand: make its
/// copyright line, search the first lines for an existing one, and decide.
pub fn check_with_pattern(
    template: &str,
    comment_sign: &CommentSign,
    copyright_re: &Regex,
    tracked_years: &str,
    header: &Vec<Option<String>>,
) -> (check: FileCheck)
    ensures
        check_follows(
            check,
            existing_copyright(header_model(header@), *copyright_re),
            tracked_years@,
            copyright_text(template@, comment_sign@, tracked_years@),
        ),
{
    let copyright = generate_copyright_line(template, comment_sign, tracked_years);
    let existing = read_copyright_years(header, copyright_re);
    decide(existing, tracked_years, copyright)
}

/// Whether a result is the one that the check of a file comes to, given the
/// pattern that the cache holds for the file's comment sign once the check
/// is through.
///
/// A file without a configured comment sign is an error that names it. With
/// a pattern, the check is the one that follows from the first lines of the
/// file. Without one, the pattern was rejected.
pub open spec fn check_result(
    checked: Result<FileCheck, Error>,
    sign: Option<SignModel>,
    pattern: Option<Arc<Regex>>,
    template: Seq<char>,
    filename: Seq<char>,
    tracked_years: Seq<char>,
    header: Seq<Option<Seq<char>>>,
) -> bool {
    match checked {
        Ok(check) => {
            &&& sign is Some
            &&& match pattern {
                Some(re) => check_follows(
                    check,
                    existing_copyright(header, *re),
                    tracked_years,
                    copyright_text(template, sign->0, tracked_years),
                ),
                None => check is PatternRejected,
            }
        },
        Err(Error::UnknownCommentSign(name)) => sign is None && name@ == filename,
        Err(_) => false,
    }
}

/// Check one file with a cache that is only read: the result of the check
/// where it can be had without compiling a pattern, that is for a file
/// without a configured comment sign and for one whose pattern the cache
/// holds; `None` for a file whose pattern is yet to be compiled.
pub fn file_checker_cached(
    config: &Config,
    regex_cache: &RegexCache,
    filename: &str,
    tracked_years: &str,
    header: &Vec<Option<String>>,
) -> (checked: Option<Result<FileCheck, Error>>)
    ensures
        checked is None <==> config.sign_of(filename@) is Some && regex_cache.cached(
            config.sign_of(filename@)->0,
        ) is None,
        checked matches Some(result) ==> check_result(
            result,
            config.sign_of(filename@),
            if config.sign_of(filename@) is Some {
                regex_cache.cached(config.sign_of(filename@)->0)
            } else {
                None
            },
            regex_cache.template(),
            filename@,
            tracked_years@,
            header_model(header@),
        ),
{
    let comment_sign = match config.get_comment_sign(filename) {
        Ok(sign) => sign,
        Err(e) => {
            return Some(Err(e));
        },
    };
    match regex_cache.lookup(comment_sign) {
        Some(copyright_re) => Some(
            Ok(
                check_with_pattern(
                    regex_cache.template_str(),
                    comment_sign,
                    &copyright_re,
                    tracked_years,
                    header,
                ),
            ),
        ),
        None => None,
    }
}

/// Check one file: find its comment sign, get the pattern for that sign,
/// search the first lines of the file for a copyright line, and decide.
///
/// `tracked_years` are the years of the file's history and `header` its
/// first lines. A pattern is compiled only where the cache holds none for
/// the sign; one that the cache holds is used as it is. Where the pattern is
/// rejected, or the file has no comment sign, the cache stays as it was.
pub fn file_checker(
    config: &Config,
    regex_cache: &mut RegexCache,
    filename: &str,
    tracked_years: &str,
    header: &Vec<Option<String>>,
) -> (checked: Result<FileCheck, Error>)
    ensures
        final(regex_cache).template() == old(regex_cache).template(),
        check_result(
            checked,
            config.sign_of(filename@),
            if config.sign_of(filename@) is Some {
                final(regex_cache).cached(config.sign_of(filename@)->0)
            } else {
                None
            },
            old(regex_cache).template(),
            filename@,
            tracked_years@,
            header_model(header@),
        ),
        match config.sign_of(filename@) {
            Some(sign) => {
                &&& final(regex_cache).cached(sign) matches Some(re) ==> regex_source(*re)
                    == copyright_pattern_text(old(regex_cache).template(), sign)
                &&& match old(regex_cache).cached(sign) {
                    Some(re) => {
                        &&& final(regex_cache).cached(sign) == Some(re)
                        &&& final(regex_cache).entries() == old(regex_cache).entries()
                    },
                    None => {
                        &&& final(regex_cache).cached(sign) is Some <==> regex_accepts(
                            copyright_pattern_text(old(regex_cache).template(), sign),
                        )
                        &&& final(regex_cache).cached(sign) is None ==> final(
                            regex_cache
                        ).entries() == old(regex_cache).entries()
                    },
                }
            },
            None => final(regex_cache).entries() == old(regex_cache).entries(),
        },
{
    let comment_sign = match config.get_comment_sign(filename) {
        Ok(sign) => sign,
        Err(e) => {
            return Err(e);
        },
    };
    let copyright_re = match regex_cache.get_regex(comment_sign) {
        Some(re) => re,
        None => {
            return Ok(FileCheck::PatternRejected);
        },
    };
    Ok(
        check_with_pattern(
            regex_cache.template_str(),
            comment_sign,
            &copyright_re,
            tracked_years,
            header,
        ),
    )
}

/// A file whose copyright line already holds the years of its history is
/// left as it is: the check asks for no write.
pub proof fn lemma_correct_copyright_kept(
    check: FileCheck,
    idx: int,
    tracked_years: Seq<char>,
    copyright_line: Seq<char>,
)
    requires
        check_follows(check, Some((idx, tracked_years)), tracked_years, copyright_line),
    ensures
        check is UpToDate,
{
}

/// The phases of a run.
#[derive(Debug, Clone, Copy, PartialEq, Eq, Structural)]
pub enum Phase {
    /// Nothing has been handed out yet.
    Idle,
    /// Filenames are being handed to the workers.
    Distributing,
    /// Every filename has been handed out; the workers finish.
    Draining,
    /// The workers are done; the result stands.
    Done,
}

/// What the program that drives a run has to do next.
#[derive(Debug)]
pub enum DispatchStep {
    /// Put this filename into the work queue, waiting while the queue is
    /// full, and report the errors that have come in meanwhile.
    Queue(String),
    /// Close the work queue, so that the workers leave once it is empty, and
    /// wait for them.
    CloseAndJoin,
    /// Report the errors that are still waiting and take the result.
    Finish,
}

/// The dispatcher of a run: it owns the list of files to check, hands each
/// filename out once and in order, and collects the errors of the workers.
#[derive(Debug)]
pub struct Dispatcher {
    phase: Phase,
    files: Vec<String>,
    next: usize,
    errors: Vec<Error>,
}

impl Dispatcher {
    /// The phase the run is in.
    pub closed spec fn phase_of(&self) -> Phase {
        self.phase
    }

    /// The files to check.
    pub closed spec fn files(&self) -> Seq<Seq<char>> {
        views(self.files@)
    }

    /// How many filenames have been handed out.
    pub closed spec fn handed_out(&self) -> int {
        self.next as int
    }

    /// The errors reported so far, in the order they came in.
    pub closed spec fn collected(&self) -> Seq<Error> {
        self.errors@
    }

    /// Filenames are handed out from the front of the list; none has been
    /// handed out before the run starts, and all have once it drains.
    #[verifier::type_invariant]
    spec fn progress_fits_phase(&self) -> bool {
        &&& self.next <= self.files.len()
        &&& self.phase == Phase::Idle ==> self.next == 0
        &&& (self.phase == Phase::Draining || self.phase == Phase::Done) ==> self.next
            == self.files.len()
    }

    /// A dispatcher for the files of a run, before anything is handed out.
    pub fn new(files: Vec<String>) -> (dispatcher: Dispatcher)
        ensures
            dispatcher.phase_of() == Phase::Idle,
            dispatcher.files() == views(files@),
            dispatcher.handed_out() == 0,
            dispatcher.collected() == Seq::<Error>::empty(),
    {
        Dispatcher { phase: Phase::Idle, files, next: 0, errors: Vec::new() }
    }

    /// The phase the run is in.
    ///
    /// At every moment of a run the filenames handed out are a front part of
    /// the list: none before the run starts, and all of them once it drains.
    pub fn phase(&self) -> (phase: Phase)
        ensures
            phase == self.phase_of(),
            0 <= self.handed_out() <= self.files().len(),
            phase == Phase::Idle ==> self.handed_out() == 0,
            phase == Phase::Draining || phase == Phase::Done ==> self.handed_out()
                == self.files().len(),
    {
        proof {
            use_type_invariant(self);
        }
        self.phase
    }

    /// The errors reported so far.
    pub fn errors(&self) -> (errors: &Vec<Error>)
        ensures
            errors@ == self.collected(),
    {
        &self.errors
    }

    /// Move the run on and say what is to be done next.
    ///
    /// While filenames are left, the next one is handed out. After the last
    /// one the run drains, and after that it is done. The files and the
    /// errors collected stay as they are.
    pub fn advance(&mut self) -> (step: DispatchStep)
        ensures
            final(self).files() == old(self).files(),
            final(self).collected() == old(self).collected(),
            match step {
                DispatchStep::Queue(filename) => {
                    &&& old(self).phase_of() == Phase::Idle || old(self).phase_of()
                        == Phase::Distributing
                    &&& old(self).handed_out() < old(self).files().len()
                    &&& filename@ == old(self).files()[old(self).handed_out()]
                    &&& final(self).handed_out() == old(self).handed_out() + 1
                    &&& final(self).phase_of() == Phase::Distributing
                },
                DispatchStep::CloseAndJoin => {
                    &&& old(self).phase_of() == Phase::Idle || old(self).phase_of()
                        == Phase::Distributing
                    &&& old(self).handed_out() == old(self).files().len()
                    &&& final(self).handed_out() == old(self).handed_out()
                    &&& final(self).phase_of() == Phase::Draining
                },
                DispatchStep::Finish => {
                    &&& old(self).phase_of() == Phase::Draining || old(self).phase_of()
                        == Phase::Done
                    &&& final(self).handed_out() == old(self).handed_out()
                    &&& final(self).phase_of() == Phase::Done
                },
            },
    {
        proof {
            use_type_invariant(&*self);
        }
        match self.phase {
            Phase::Idle | Phase::Distributing => {
                if self.next < self.files.len() {
                    let filename = self.files[self.next].clone();
                    self.phase = Phase::Distributing;
                    self.next = self.next + 1;
                    DispatchStep::Queue(filename)
                } else {
                    self.phase = Phase::Draining;
                    DispatchStep::CloseAndJoin
                }
            },
            Phase::Draining | Phase::Done => {
                self.phase = Phase::Done;
                DispatchStep::Finish
            },
        }
    }

    /// Take in an error that a worker reported. It is added behind those
    /// collected before, and nothing else changes.
    pub fn report_error(&mut self, error: Error)
        ensures
            final(self).collected() == old(self).collected().push(error),
            final(self).phase_of() == old(self).phase_of(),
            final(self).files() == old(self).files(),
            final(self).handed_out() == old(self).handed_out(),
    {
        proof {
            use_type_invariant(&*self);
        }
        let mut errors: Vec<Error> = Vec::new();
        std::mem::swap(&mut errors, &mut self.errors);
        errors.push(error);
        self.errors = errors;
    }

    /// The result of the run: success where no error was reported, else the
    /// first error that was.
    pub fn result(self) -> (outcome: Result<(), Error>)
        ensures
            match outcome {
                Ok(()) => self.collected().len() == 0,
                Err(error) => self.collected().len() > 0 && error == self.collected()[0],
            },
    {
        let mut errors = self.errors;
        if errors.len() > 0 {
            Err(errors.remove(0))
        } else {
            Ok(())
        }
    }
}

/// Check the copyrights of tracked files in a repository: begin a run over
/// the tracked files that no ignore pattern of the configuration matches.
pub fn check_repo_copyright(config: &Config, files_on_ref: Vec<String>) -> (dispatcher: Dispatcher)
    ensures
        dispatcher.phase_of() == Phase::Idle,
        dispatcher.files() == not_ignored(config.active_patterns(), views(files_on_ref@)),
        dispatcher.handed_out() == 0,
        dispatcher.collected() == Seq::<Error>::empty(),
{
    match config.glob_pattern() {
        Some(patterns) => Dispatcher::new(filter_files(patterns, files_on_ref)),
        None => {
            proof {
                lemma_nothing_ignored(views(files_on_ref@));
            }
            Dispatcher::new(files_on_ref)
        },
    }
}

} // verus!
