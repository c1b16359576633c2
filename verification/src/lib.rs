//! Keeps the copyright notice in the header of each tracked file of a
//! repository in step with the years in which the file was added and last
//! modified.
//!
//! The library holds the rules: which comment sign a file takes, what a
//! copyright line looks like and how an existing one is recognised, how the
//! years of a file's history collapse into a year or a range, how a file's
//! content is rewritten, and what the dispatcher of a run does next. Reading
//! and writing files, running the version-control tool and the worker threads
//! are left to the program around it.

use vstd::prelude::*;

pub mod cli;
pub mod config;
pub mod error;
pub mod escaping;
pub mod file_ops;
pub mod git_ops;
pub mod regex_ops;
pub mod runner;
pub mod text;

pub use config::Config;

verus! {

/// A comment sign as plain text: the opening sign and, for an enclosing
/// style, the closing sign.
pub type SignModel = (Seq<char>, Option<Seq<char>>);

/// Comment sign for a specific file type.
#[derive(Debug, Hash, PartialEq, Eq)]
pub enum CommentSign {
    /// A sign that opens a comment running to the end of the line.
    LeftOnly(String),
    /// A pair of signs that open and close a comment.
    Enclosing(String, String),
}

impl View for CommentSign {
    type V = SignModel;

    open spec fn view(&self) -> SignModel {
        match self {
            CommentSign::LeftOnly(left) => (left@, None),
            CommentSign::Enclosing(left, right) => (left@, Some(right@)),
        }
    }
}

impl CommentSign {
    /// An independent value with the same signs.
    pub fn duplicate(&self) -> (copy: CommentSign)
        ensures
            copy@ == self@,
    {
        match self {
            CommentSign::LeftOnly(left) => CommentSign::LeftOnly(left.clone()),
            CommentSign::Enclosing(left, right) => CommentSign::Enclosing(
                left.clone(),
                right.clone(),
            ),
        }
    }

    /// Whether two values are the same style with the same signs.
    pub fn same_as(&self, other: &CommentSign) -> (same: bool)
        ensures
            same == (self@ == other@),
    {
        match (self, other) {
            (CommentSign::LeftOnly(a), CommentSign::LeftOnly(b)) => *a == *b,
            (CommentSign::Enclosing(a, c), CommentSign::Enclosing(b, d)) => *a == *b && *c == *d,
            _ => false,
        }
    }
}

} // verus!
