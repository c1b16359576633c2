//! Copyright lines, and the patterns that recognise them.
//!
//! A pattern is compiled once per comment sign and kept in a cache.

use std::collections::hash_map::DefaultHasher;
use std::collections::HashMap;
use std::hash::Hasher;
use std::sync::Arc;
use regex::Regex;
use vstd::prelude::*;
use vstd::std_specs::hash::DefaultHasherAdditionalSpecFns;
use crate::{CommentSign, SignModel};
use crate::text::{option_view, push_char, replace_all, replace_text};

verus! {

/// What stands for the years in a copyright template.
pub const YEARS_PLACEHOLDER: &'static str = "{years}";

/// The placeholder as it reads once the template has been escaped.
pub const ESCAPED_YEARS_PLACEHOLDER: &'static str = "\\{years\\}";

/// The expression that takes the placeholder's place in a pattern: one
/// four-digit year, or two of them joined by a hyphen, as the first group.
pub const YEARS_REGEX: &'static str = "(\\d{4}(-\\d{4}){0,1})";

/// A compiled regular expression of the `regex` crate.
#[verifier::external_type_specification]
#[verifier::external_body]
pub struct ExRegex(Regex);

/// Whether `Regex::new` compiles the expression.
pub uninterp spec fn regex_accepts(expr: Seq<char>) -> bool;

/// The expression a compiled pattern was built from, as `Regex::as_str`
/// gives it.
pub uninterp spec fn regex_source(re: Regex) -> Seq<char>;

/// The text of the first group in the leftmost match of the pattern in
/// `line`; `None` where the pattern matches nowhere in the line, has no first
/// group, or matched without that group taking part.
pub uninterp spec fn regex_first_group(re: Regex, line: Seq<char>) -> Option<Seq<char>>;

/// `Regex::new`: the expression is compiled with the crate's default
/// options. It fails on an expression that is not valid or that compiles to
/// more than the default size limit, and the error is dropped; a pattern that
/// comes back remembers the expression it was built from.
#[verifier::external_body]
fn compile_regex(expr: &str) -> (compiled: Option<Regex>)
    ensures
        compiled is Some <==> regex_accepts(expr@),
        compiled matches Some(re) ==> regex_source(re) == expr@,
{
    Regex::new(expr).ok()
}

/// `Regex::captures_iter`, its first item, and `Captures::get(1)` of that:
/// the text that the first group matched in the leftmost match of the
/// pattern in the line.
#[verifier::external_body]
pub(crate) fn first_group(re: &Regex, line: &str) -> (found: Option<String>)
    ensures
        option_view(found) == regex_first_group(*re, line@),
{
    re.captures_iter(line).next().and_then(|cap| cap.get(1)).map(|m| m.as_str().to_owned())
}

/// The copyright line for a template, a comment sign and the years: the
/// template with the years in the placeholder's place, after the opening sign
/// and, for an enclosing style, before the closing sign, one space apart.
pub open spec fn copyright_text(template: Seq<char>, sign: SignModel, years: Seq<char>) -> Seq<
    char,
> {
    let notice = replace_all(template, YEARS_PLACEHOLDER@, years);
    match sign.1 {
        None => sign.0 + seq![' '] + notice,
        Some(right) => sign.0 + seq![' '] + notice + seq![' '] + right,
    }
}

/// Generate a copyright line based on the template.
///
/// The template holds `{years}` where the years go, as in
/// `Copyright (c) DummyCompany Ltd. {years}`.
pub fn generate_copyright_line(template: &str, comment_sign: &CommentSign, years: &str) -> (line:
    String)
    ensures
        line@ == copyright_text(template@, comment_sign@, years@),
{
    let copyright = replace_text(template, YEARS_PLACEHOLDER, years);
    match comment_sign {
        CommentSign::LeftOnly(left) => {
            let mut line = left.clone();
            push_char(&mut line, ' ');
            line.append(copyright.as_str());
            line
        },
        CommentSign::Enclosing(left, right) => {
            let mut line = left.clone();
            push_char(&mut line, ' ');
            line.append(copyright.as_str());
            push_char(&mut line, ' ');
            line.append(right.as_str());
            line
        },
    }
}

/// The characters that are written with a backslash in front.
pub open spec fn is_special(c: char) -> bool {
    c == '*' || c == '.' || c == '(' || c == ')' || c == '{' || c == '}' || c == '^' || c == '$'
}

/// The text with a backslash in front of each special character.
pub open spec fn escaped(text: Seq<char>) -> Seq<char>
    decreases text.len(),
{
    if text.len() == 0 {
        Seq::<char>::empty()
    } else if is_special(text.last()) {
        escaped(text.drop_last()).push('\\').push(text.last())
    } else {
        escaped(text.drop_last()).push(text.last())
    }
}

/// Put a backslash in front of each of `* . ( ) { } ^ $`.
pub fn escape_for_regex(text: &str) -> (escaped_text: String)
    ensures
        escaped_text@ == escaped(text@),
{
    let mut escaped_text = String::new();
    for c in it: text.chars()
        invariant
            it.seq() == text@,
            escaped_text@ == escaped(text@.take(it.index() as int)),
    {
        let ghost next = text@.take(it.index() + 1);
        assert(next.drop_last() == text@.take(it.index() as int));
        assert(next.last() == c);
        if c == '*' || c == '.' || c == '(' || c == ')' || c == '{' || c == '}' || c == '^' || c
            == '$' {
            push_char(&mut escaped_text, '\\');
        }
        push_char(&mut escaped_text, c);
    }
    assert(text@.take(text@.len() as int) == text@);
    escaped_text
}

/// The escaped template with `years_expr` in the placeholder's place,
/// between the escaped comment signs, anchored at both ends of the line.
pub open spec fn anchored_pattern(template: Seq<char>, sign: SignModel, years_expr: Seq<char>)
    -> Seq<char> {
    let notice = replace_all(escaped(template), ESCAPED_YEARS_PLACEHOLDER@, years_expr);
    match sign.1 {
        None => seq!['^'] + escaped(sign.0) + seq![' '] + notice + seq!['$'],
        Some(right) => seq!['^'] + escaped(sign.0) + seq![' '] + notice + seq![' '] + escaped(right)
            + seq!['$'],
    }
}

/// The expression of the pattern that recognises a copyright line: the
/// anchored pattern with the years expression in the placeholder's place.
pub open spec fn copyright_pattern_text(template: Seq<char>, sign: SignModel) -> Seq<char> {
    anchored_pattern(template, sign, YEARS_REGEX@)
}

/// Write out the expression of the pattern for a template and a comment sign.
pub fn copyright_pattern_expr(template: &str, comment_sign: &CommentSign) -> (expr: String)
    ensures
        expr@ == copyright_pattern_text(template@, comment_sign@),
{
    let notice = replace_text(
        escape_for_regex(template).as_str(),
        ESCAPED_YEARS_PLACEHOLDER,
        YEARS_REGEX,
    );
    let mut expr = String::new();
    push_char(&mut expr, '^');
    match comment_sign {
        CommentSign::LeftOnly(left) => {
            expr.append(escape_for_regex(left.as_str()).as_str());
            push_char(&mut expr, ' ');
            expr.append(notice.as_str());
        },
        CommentSign::Enclosing(left, right) => {
            expr.append(escape_for_regex(left.as_str()).as_str());
            push_char(&mut expr, ' ');
            expr.append(notice.as_str());
            push_char(&mut expr, ' ');
            expr.append(escape_for_regex(right.as_str()).as_str());
        },
    }
    push_char(&mut expr, '$');
    expr
}

/// Turn a copyright template into the pattern for one comment sign.
///
/// There is a pattern exactly when the regex compiler takes the expression,
/// and it is built from that expression and nothing else.
pub fn generate_copyright_regex(template: &str, comment_sign: &CommentSign) -> (compiled: Option<
    Regex,
>)
    ensures
        compiled is Some <==> regex_accepts(copyright_pattern_text(template@, comment_sign@)),
        compiled matches Some(re) ==> regex_source(re) == copyright_pattern_text(
            template@,
            comment_sign@,
        ),
{
    let expr = copyright_pattern_expr(template, comment_sign);
    compile_regex(expr.as_str())
}

/// In escaped text every special character stands right behind a backslash.
pub proof fn lemma_escaped_specials_guarded(text: Seq<char>)
    ensures
        forall|j: int|
            0 <= j < escaped(text).len() && is_special(#[trigger] escaped(text)[j]) ==> j > 0
                && escaped(text)[j - 1] == '\\',
    decreases text.len(),
{
    if text.len() > 0 {
        let head = escaped(text.drop_last());
        lemma_escaped_specials_guarded(text.drop_last());
        assert forall|j: int|
            0 <= j < escaped(text).len() && is_special(#[trigger] escaped(text)[j]) implies j > 0
            && escaped(text)[j - 1] == '\\' by {
            if j < head.len() {
                assert(escaped(text)[j] == head[j]);
                assert(escaped(text)[j - 1] == head[j - 1]);
            }
        }
    }
}

/// Text without a special character is its own escaped form.
pub proof fn lemma_escaped_plain(text: Seq<char>)
    requires
        forall|i: int| 0 <= i < text.len() ==> !is_special(#[trigger] text[i]),
    ensures
        escaped(text) == text,
    decreases text.len(),
{
    if text.len() > 0 {
        lemma_escaped_plain(text.drop_last());
        assert(text.drop_last().push(text.last()) == text);
    }
}

/// What is fed to the hasher for a comment sign: a tag for the style, then
/// the bytes of the opening sign and, for an enclosing style, a separator and
/// the bytes of the closing sign.
pub open spec fn hash_input(sign: SignModel) -> Seq<Seq<u8>> {
    match sign.1 {
        None => seq![seq![0u8], vstd::utf8::encode_utf8(sign.0)],
        Some(right) => seq![
            seq![1u8],
            vstd::utf8::encode_utf8(sign.0),
            seq![255u8],
            vstd::utf8::encode_utf8(right),
        ],
    }
}

/// The hash of a comment sign.
pub open spec fn sign_hash(sign: SignModel) -> u64 {
    DefaultHasher::spec_finish(hash_input(sign))
}

/// Hash a comment sign with the standard hasher in its initial state. Equal
/// signs have equal hashes.
pub fn get_hash(comment_sign: &CommentSign) -> (hash: u64)
    ensures
        hash == sign_hash(comment_sign@),
{
    let mut hasher = DefaultHasher::new();
    match comment_sign {
        CommentSign::LeftOnly(left) => {
            let tag: Vec<u8> = vec![0u8];
            hasher.write(tag.as_slice());
            hasher.write(left.as_str().as_bytes());
            assert(tag@ =~= seq![0u8]);
            assert(hasher@ =~~= hash_input(comment_sign@));
        },
        CommentSign::Enclosing(left, right) => {
            let tag: Vec<u8> = vec![1u8];
            let separator: Vec<u8> = vec![255u8];
            hasher.write(tag.as_slice());
            hasher.write(left.as_str().as_bytes());
            hasher.write(separator.as_slice());
            hasher.write(right.as_str().as_bytes());
            assert(tag@ =~= seq![1u8]);
            assert(separator@ =~= seq![255u8]);
            assert(hasher@ =~~= hash_input(comment_sign@));
        },
    }
    hasher.finish()
}

/// A compiled pattern with the comment sign it was compiled for.
pub struct CachedRegex {
    pub sign: CommentSign,
    pub regex: Arc<Regex>,
}

/// Copyright regex cache: the patterns compiled so far for one template,
/// found by the hash of their comment sign.
pub struct RegexCache {
    regexes: HashMap<u64, CachedRegex>,
    template: String,
}

impl RegexCache {
    /// The template that every pattern of the cache is built from.
    pub closed spec fn template(&self) -> Seq<char> {
        self.template@
    }

    /// The cached patterns by the hash they are kept under.
    pub closed spec fn entries(&self) -> Map<u64, CachedRegex> {
        self.regexes@
    }

    /// Every entry is kept under the hash of its own comment sign and holds
    /// the pattern for the cache's template and that sign.
    #[verifier::type_invariant]
    spec fn entries_fit(&self) -> bool {
        forall|hash: u64| #[trigger]
            self.regexes@.contains_key(hash) ==> sign_hash(self.regexes@[hash].sign@) == hash
                && regex_source(*self.regexes@[hash].regex) == copyright_pattern_text(
                self.template@,
                self.regexes@[hash].sign@,
            )
    }

    /// The pattern that the cache holds for a comment sign, if it holds one.
    pub open spec fn cached(&self, sign: SignModel) -> Option<Arc<Regex>> {
        let hash = sign_hash(sign);
        if self.entries().contains_key(hash) && self.entries()[hash].sign@ == sign {
            Some(self.entries()[hash].regex)
        } else {
            None
        }
    }

    /// Create a new instance, with nothing compiled yet.
    pub fn new(template: &str) -> (cache: Self)
        ensures
            cache.template() == template@,
            cache.entries() == Map::<u64, CachedRegex>::empty(),
    {
        RegexCache { regexes: HashMap::new(), template: template.to_owned() }
    }

    /// The template that the cache was made for.
    pub fn template_str(&self) -> (template: &str)
        ensures
            template@ == self.template(),
    {
        self.template.as_str()
    }

    /// The cached pattern for a comment sign, without compiling anything. A
    /// pattern that the cache holds for a sign is the one built from the
    /// expression for the cache's template and that sign.
    pub fn lookup(&self, comment_sign: &CommentSign) -> (found: Option<Arc<Regex>>)
        ensures
            found == self.cached(comment_sign@),
            found matches Some(re) ==> regex_source(*re) == copyright_pattern_text(
                self.template(),
                comment_sign@,
            ),
    {
        proof {
            use_type_invariant(self);
        }
        let hash = get_hash(comment_sign);
        match self.regexes.get(&hash) {
            Some(entry) => {
                if entry.sign.same_as(comment_sign) {
                    Some(entry.regex.clone())
                } else {
                    None
                }
            },
            None => None,
        }
    }

    /// Get the pattern for a certain comment sign.
    ///
    /// A pattern that the cache already holds for an equal sign is handed out
    /// as it is and nothing is compiled. Otherwise the pattern is compiled
    /// and, where the compiler takes it, kept under the sign's hash.
    pub fn get_regex(&mut self, comment_sign: &CommentSign) -> (found: Option<Arc<Regex>>)
        ensures
            final(self).template() == old(self).template(),
            old(self).cached(comment_sign@) is Some ==> found == old(self).cached(comment_sign@)
                && final(self).entries() == old(self).entries(),
            old(self).cached(comment_sign@) is None ==> (found is Some <==> regex_accepts(
                copyright_pattern_text(old(self).template(), comment_sign@),
            )),
            old(self).cached(comment_sign@) is None && found is None ==> final(self).entries()
                == old(self).entries(),
            old(self).cached(comment_sign@) is None && found is Some ==> final(self).entries()
                == old(self).entries().insert(
                sign_hash(comment_sign@),
                final(self).entries()[sign_hash(comment_sign@)],
            ),
            found is Some ==> final(self).cached(comment_sign@) == found,
            found matches Some(re) ==> regex_source(*re) == copyright_pattern_text(
                old(self).template(),
                comment_sign@,
            ),
    {
        proof {
            use_type_invariant(&*self);
        }
        match self.lookup(comment_sign) {
            Some(re) => Some(re),
            None => {
                match generate_copyright_regex(self.template.as_str(), comment_sign) {
                    Some(compiled) => {
                        let regex = Arc::new(compiled);
                        let found = regex.clone();
                        let hash = get_hash(comment_sign);
                        let mut regexes: HashMap<u64, CachedRegex> = HashMap::new();
                        std::mem::swap(&mut regexes, &mut self.regexes);
                        regexes.insert(hash, CachedRegex { sign: comment_sign.duplicate(), regex });
                        self.regexes = regexes;
                        Some(found)
                    },
                    None => None,
                }
            },
        }
    }
}

} // verus!
