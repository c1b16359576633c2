//! The configuration: which comment sign a file takes, and which files are
//! left alone.

use glob::Pattern;
use vstd::prelude::*;
use crate::error::Error;
use crate::text::{chars_equal, chars_of, option_view, string_between, views};
use crate::{CommentSign, SignModel};

verus! {

/// A compiled glob pattern of the `glob` crate.
#[verifier::external_type_specification]
#[verifier::external_body]
pub struct ExPattern(Pattern);

/// Whether `Pattern::new` compiles the expression.
pub uninterp spec fn glob_accepts(expr: Seq<char>) -> bool;

/// The expression a compiled glob pattern was built from, as
/// `Pattern::as_str` gives it.
pub uninterp spec fn glob_source(pattern: Pattern) -> Seq<char>;

/// Whether the glob pattern compiled from `expr` matches the whole of
/// `path`, under the crate's default match options.
pub uninterp spec fn glob_matches(expr: Seq<char>, path: Seq<char>) -> bool;

/// `Pattern::new`: the expression is compiled as a Unix shell style pattern.
/// It fails on an invalid expression, and the error is dropped; a pattern
/// that comes back remembers the expression it was built from.
#[verifier::external_body]
fn compile_glob(expr: &str) -> (compiled: Option<Pattern>)
    ensures
        compiled is Some <==> glob_accepts(expr@),
        compiled matches Some(pattern) ==> glob_source(pattern) == expr@,
{
    Pattern::new(expr).ok()
}

/// `Pattern::matches`: whether the path matches the pattern under the
/// default match options. A pattern is made of its expression alone, so the
/// answer is that of the expression.
#[verifier::external_body]
fn pattern_matches(pattern: &Pattern, path: &str) -> (matched: bool)
    ensures
        matched == glob_matches(glob_source(*pattern), path@),
{
    pattern.matches(path)
}

/// The expressions of a sequence of compiled patterns.
pub open spec fn sources(patterns: Seq<Pattern>) -> Seq<Seq<char>> {
    Seq::new(patterns.len(), |i: int| glob_source(patterns[i]))
}

/// The expressions among `exprs` that compile, in order.
pub open spec fn compilable(exprs: Seq<Seq<char>>) -> Seq<Seq<char>>
    decreases exprs.len(),
{
    if exprs.len() == 0 {
        Seq::<Seq<char>>::empty()
    } else if glob_accepts(exprs.last()) {
        compilable(exprs.drop_last()).push(exprs.last())
    } else {
        compilable(exprs.drop_last())
    }
}

/// Some pattern matches the path.
pub open spec fn is_ignored(patterns: Seq<Seq<char>>, path: Seq<char>) -> bool {
    exists|k: int| 0 <= k < patterns.len() && glob_matches(#[trigger] patterns[k], path)
}

/// The paths that no pattern matches, in order.
pub open spec fn not_ignored(patterns: Seq<Seq<char>>, paths: Seq<Seq<char>>) -> Seq<Seq<char>>
    decreases paths.len(),
{
    if paths.len() == 0 {
        Seq::<Seq<char>>::empty()
    } else if is_ignored(patterns, paths.last()) {
        not_ignored(patterns, paths.drop_last())
    } else {
        not_ignored(patterns, paths.drop_last()).push(paths.last())
    }
}

/// Without a pattern every path stays.
pub proof fn lemma_nothing_ignored(paths: Seq<Seq<char>>)
    ensures
        not_ignored(Seq::<Seq<char>>::empty(), paths) == paths,
    decreases paths.len(),
{
    if paths.len() > 0 {
        lemma_nothing_ignored(paths.drop_last());
        assert(paths.drop_last().push(paths.last()) == paths);
    }
}

/// Whether one of the patterns matches the path.
pub fn matches_any(glob_patterns: &Vec<Pattern>, path: &str) -> (ignored: bool)
    ensures
        ignored == is_ignored(sources(glob_patterns@), path@),
{
    let mut k: usize = 0;
    while k < glob_patterns.len()
        invariant
            k <= glob_patterns.len(),
            forall|j: int| 0 <= j < k ==> !glob_matches(#[trigger] sources(glob_patterns@)[j], path@),
        decreases glob_patterns.len() - k,
    {
        if pattern_matches(&glob_patterns[k], path) {
            assert(glob_matches(sources(glob_patterns@)[k as int], path@));
            return true;
        }
        k = k + 1;
    }
    false
}

/// Compile the expressions that the glob compiler takes, and leave the
/// others out.
pub fn compile_patterns(exprs: &Vec<String>) -> (patterns: Vec<Pattern>)
    ensures
        sources(patterns@) == compilable(views(exprs@)),
{
    let mut patterns: Vec<Pattern> = Vec::new();
    let mut i: usize = 0;
    while i < exprs.len()
        invariant
            i <= exprs.len(),
            sources(patterns@) == compilable(views(exprs@).take(i as int)),
        decreases exprs.len() - i,
    {
        let ghost seen = views(exprs@).take(i as int);
        let ghost next = views(exprs@).take(i + 1);
        assert(next.drop_last() == seen);
        assert(next.last() == exprs[i as int]@);
        let ghost before = sources(patterns@);
        match compile_glob(exprs[i].as_str()) {
            Some(pattern) => {
                patterns.push(pattern);
                assert(sources(patterns@) == before.push(exprs[i as int]@));
            },
            None => {},
        }
        i = i + 1;
    }
    assert(views(exprs@).take(exprs.len() as int) == views(exprs@));
    patterns
}

/// The index of the last `c` in `s`, or -1 where there is none.
pub open spec fn last_index_of(s: Seq<char>, c: char) -> int
    decreases s.len(),
{
    if s.len() == 0 {
        -1
    } else if s.last() == c {
        s.len() - 1
    } else {
        last_index_of(s.drop_last(), c)
    }
}

/// The path up to where its last component ends: without a `/` at its end,
/// and without a `.` at its end that stands alone behind a `/`.
pub open spec fn trimmed(path: Seq<char>) -> Seq<char>
    decreases path.len(),
{
    if path.len() >= 1 && path.last() == '/' {
        trimmed(path.drop_last())
    } else if path.len() >= 2 && path.last() == '.' && path[path.len() - 2] == '/' {
        trimmed(path.drop_last())
    } else {
        path
    }
}

/// The last component of a path: what follows the last `/` of the trimmed
/// path.
pub open spec fn file_name(path: Seq<char>) -> Seq<char> {
    trimmed(path).skip(last_index_of(trimmed(path), '/') + 1)
}

/// The extension of a file name: what follows its last `.`, unless the name
/// has none or has its only one in front.
pub open spec fn extension(name: Seq<char>) -> Option<Seq<char>> {
    let dot = last_index_of(name, '.');
    if dot <= 0 {
        None
    } else {
        Some(name.skip(dot + 1))
    }
}

/// The key under which a file's comment sign is looked up: the extension of
/// its name or, where the name has none, the whole name. A path whose last
/// component is empty, `.` or `..` names no file and has no key.
pub open spec fn lookup_key(path: Seq<char>) -> Option<Seq<char>> {
    let name = file_name(path);
    if name.len() == 0 || name == seq!['.'] || name == seq!['.', '.'] {
        None
    } else {
        match extension(name) {
            Some(ext) => Some(ext),
            None => Some(name),
        }
    }
}

/// The entries of a table as plain text.
pub open spec fn entry_models(entries: Seq<(String, CommentSign)>) -> Seq<(Seq<char>, SignModel)> {
    Seq::new(entries.len(), |i: int| (entries[i].0@, entries[i].1@))
}

/// The table that a list of entries stands for: each key maps to the sign of
/// the last entry that has it.
pub open spec fn sign_table(entries: Seq<(Seq<char>, SignModel)>) -> Map<Seq<char>, SignModel>
    decreases entries.len(),
{
    if entries.len() == 0 {
        Map::<Seq<char>, SignModel>::empty()
    } else {
        sign_table(entries.drop_last()).insert(entries.last().0, entries.last().1)
    }
}

/// One more than the index of the last `c` between `start` and `end`,
/// counted from `start`; 0 where there is none.
fn last_offset(chars: &Vec<char>, start: usize, end: usize, c: char) -> (offset: usize)
    requires
        start <= end <= chars.len(),
    ensures
        offset == last_index_of(chars@.subrange(start as int, end as int), c) + 1,
        offset <= end - start,
{
    let ghost part = chars@.subrange(start as int, end as int);
    let mut offset: usize = 0;
    let mut i: usize = start;
    while i < end
        invariant
            start <= i <= end,
            end <= chars.len(),
            part == chars@.subrange(start as int, end as int),
            offset == last_index_of(part.take(i - start), c) + 1,
            offset <= i - start,
        decreases end - i,
    {
        let ghost next = part.take(i - start + 1);
        assert(next.drop_last() == part.take(i - start));
        assert(next.last() == chars[i as int]);
        if chars[i] == c {
            offset = i - start + 1;
        }
        i = i + 1;
    }
    assert(part.take(end - start) == part);
    offset
}

/// Where the last component of a path ends.
fn trimmed_length(chars: &Vec<char>) -> (end: usize)
    ensures
        end <= chars.len(),
        trimmed(chars@) == chars@.take(end as int),
{
    let mut end: usize = chars.len();
    assert(chars@.take(end as int) == chars@);
    while end > 0 && (chars[end - 1] == '/' || (end >= 2 && chars[end - 1] == '.' && chars[end
        - 2] == '/'))
        invariant
            end <= chars.len(),
            trimmed(chars@) == trimmed(chars@.take(end as int)),
        decreases end,
    {
        assert(chars@.take(end as int).drop_last() == chars@.take(end - 1));
        end = end - 1;
    }
    end
}

/// The key under which the comment sign of a file is looked up.
pub fn resolution_key(filename: &str) -> (key: Option<String>)
    ensures
        option_view(key) == lookup_key(filename@),
{
    let chars = chars_of(filename);
    let end = trimmed_length(&chars);
    let start = last_offset(&chars, 0, end, '/');
    assert(chars@.subrange(0, end as int) == chars@.take(end as int));
    let ghost name = file_name(filename@);
    assert(name == chars@.subrange(start as int, end as int));
    let len = end - start;
    if len == 0 {
        return None;
    }
    assert(name[0] == chars[start as int]);
    if len == 1 && chars[start] == '.' {
        assert(name =~= seq!['.']);
        return None;
    }
    if len == 2 && chars[start] == '.' && chars[start + 1] == '.' {
        assert(name[1] == chars[start + 1]);
        assert(name =~= seq!['.', '.']);
        return None;
    }
    assert(name != seq!['.']) by {
        if name == seq!['.'] {
            assert(seq!['.'].len() == 1);
            assert(seq!['.'][0] == '.');
        }
    }
    assert(name != seq!['.', '.']) by {
        if name == seq!['.', '.'] {
            assert(seq!['.', '.'].len() == 2);
            assert(seq!['.', '.'][0] == '.');
            assert(seq!['.', '.'][1] == '.');
            assert(name[1] == chars[start + 1]);
        }
    }
    let dot = last_offset(&chars, start, end, '.');
    if dot <= 1 {
        Some(string_between(&chars, start, end))
    } else {
        let key = string_between(&chars, start + dot, end);
        assert(chars@.subrange(start + dot, end as int) == name.skip(dot as int));
        Some(key)
    }
}

/// The comment signs of the baseline configuration.
pub open spec fn default_comment_signs() -> Seq<(Seq<char>, SignModel)> {
    seq![
        ("c"@, ("//"@, None)),
        ("cpp"@, ("//"@, None)),
        ("h"@, ("//"@, None)),
        ("js"@, ("//"@, None)),
        ("rs"@, ("//"@, None)),
        ("ts"@, ("//"@, None)),
        ("py"@, ("#"@, None)),
        ("sh"@, ("#"@, None)),
        ("toml"@, ("#"@, None)),
        ("yml"@, ("#"@, None)),
        ("Dockerfile"@, ("#"@, None)),
        ("Makefile"@, ("#"@, None)),
        ("css"@, ("/*"@, Some("*/"@))),
        ("html"@, ("<!--"@, Some("-->"@))),
    ]
}

/// The expressions for files that the baseline configuration leaves alone.
pub open spec fn default_ignore_files() -> Seq<Seq<char>> {
    seq!["*.txt"@, "*.json"@, "*.lock"@]
}

/// The expressions for directories that the baseline configuration leaves
/// alone.
pub open spec fn default_ignore_dirs() -> Seq<Seq<char>> {
    seq!["*__pycache__*"@, "*node_modules*"@]
}

/// An entry for a sign that opens a comment running to the end of the line.
fn left_only(key: &str, left: &str) -> (entry: (String, CommentSign))
    ensures
        entry.0@ == key@,
        entry.1@ == (left@, None::<Seq<char>>),
{
    (key.to_owned(), CommentSign::LeftOnly(left.to_owned()))
}

/// An entry for a pair of signs that open and close a comment.
fn enclosing(key: &str, left: &str, right: &str) -> (entry: (String, CommentSign))
    ensures
        entry.0@ == key@,
        entry.1@ == (left@, Some(right@)),
{
    (key.to_owned(), CommentSign::Enclosing(left.to_owned(), right.to_owned()))
}

/// The configuration of a run.
#[derive(Debug)]
pub struct Config {
    comment_sign_map: Vec<(String, CommentSign)>,
    ignore_files: Vec<String>,
    ignore_dirs: Vec<String>,
    glob_pattern: Option<Vec<Pattern>>,
}

impl Config {
    /// The entries of the comment sign table, in the order they were given.
    pub closed spec fn sign_entries(&self) -> Seq<(Seq<char>, SignModel)> {
        entry_models(self.comment_sign_map@)
    }

    /// The comment sign configured for each key.
    pub open spec fn comment_signs(&self) -> Map<Seq<char>, SignModel> {
        sign_table(self.sign_entries())
    }

    /// The expressions for files to leave alone.
    pub closed spec fn ignored_files(&self) -> Seq<Seq<char>> {
        views(self.ignore_files@)
    }

    /// The expressions for directories to leave alone.
    pub closed spec fn ignored_dirs(&self) -> Seq<Seq<char>> {
        views(self.ignore_dirs@)
    }

    /// The expressions of the compiled ignore patterns, once they are built.
    pub closed spec fn patterns(&self) -> Option<Seq<Seq<char>>> {
        match self.glob_pattern {
            Some(patterns) => Some(sources(patterns@)),
            None => None,
        }
    }

    /// The expressions that filtering goes by: those of the compiled
    /// patterns, or none while no pattern is built.
    pub open spec fn active_patterns(&self) -> Seq<Seq<char>> {
        match self.patterns() {
            Some(exprs) => exprs,
            None => Seq::<Seq<char>>::empty(),
        }
    }

    /// The comment sign that a file of this name takes, if one is
    /// configured for its key.
    pub open spec fn sign_of(&self, filename: Seq<char>) -> Option<SignModel> {
        match lookup_key(filename) {
            Some(key) => {
                if self.comment_signs().contains_key(key) {
                    Some(self.comment_signs()[key])
                } else {
                    None
                }
            },
            None => None,
        }
    }

    /// A configuration from its parts, with the ignore patterns compiled.
    ///
    /// Where two entries have the same key, the later one counts.
    pub fn new(
        comment_sign_map: Vec<(String, CommentSign)>,
        ignore_files: Vec<String>,
        ignore_dirs: Vec<String>,
    ) -> (config: Config)
        ensures
            config.sign_entries() == entry_models(comment_sign_map@),
            config.ignored_files() == views(ignore_files@),
            config.ignored_dirs() == views(ignore_dirs@),
            config.patterns() == Some(
                compilable(views(ignore_files@)) + compilable(views(ignore_dirs@)),
            ),
    {
        let mut config = Config { comment_sign_map, ignore_files, ignore_dirs, glob_pattern: None };
        config.build_glob_pattern();
        config
    }

    /// The baseline configuration, for a run that is given no other.
    pub fn default() -> (config: Config)
        ensures
            config.sign_entries() == default_comment_signs(),
            config.ignored_files() == default_ignore_files(),
            config.ignored_dirs() == default_ignore_dirs(),
            config.patterns() == Some(
                compilable(default_ignore_files()) + compilable(default_ignore_dirs()),
            ),
    {
        let mut signs: Vec<(String, CommentSign)> = Vec::new();
        signs.push(left_only("c", "//"));
        signs.push(left_only("cpp", "//"));
        signs.push(left_only("h", "//"));
        signs.push(left_only("js", "//"));
        signs.push(left_only("rs", "//"));
        signs.push(left_only("ts", "//"));
        signs.push(left_only("py", "#"));
        signs.push(left_only("sh", "#"));
        signs.push(left_only("toml", "#"));
        signs.push(left_only("yml", "#"));
        signs.push(left_only("Dockerfile", "#"));
        signs.push(left_only("Makefile", "#"));
        signs.push(enclosing("css", "/*", "*/"));
        signs.push(enclosing("html", "<!--", "-->"));
        assert(entry_models(signs@) =~= default_comment_signs());
        let mut ignore_files: Vec<String> = Vec::new();
        ignore_files.push("*.txt".to_owned());
        ignore_files.push("*.json".to_owned());
        ignore_files.push("*.lock".to_owned());
        assert(views(ignore_files@) =~= default_ignore_files());
        let mut ignore_dirs: Vec<String> = Vec::new();
        ignore_dirs.push("*__pycache__*".to_owned());
        ignore_dirs.push("*node_modules*".to_owned());
        assert(views(ignore_dirs@) =~= default_ignore_dirs());
        Config::new(signs, ignore_files, ignore_dirs)
    }

    /// The entries of the comment sign table, in the order they were given.
    pub fn comment_sign_map(&self) -> (entries: &Vec<(String, CommentSign)>)
        ensures
            entry_models(entries@) == self.sign_entries(),
    {
        &self.comment_sign_map
    }

    /// The expressions for files to leave alone.
    pub fn ignore_files(&self) -> (exprs: &Vec<String>)
        ensures
            views(exprs@) == self.ignored_files(),
    {
        &self.ignore_files
    }

    /// The expressions for directories to leave alone.
    pub fn ignore_dirs(&self) -> (exprs: &Vec<String>)
        ensures
            views(exprs@) == self.ignored_dirs(),
    {
        &self.ignore_dirs
    }

    /// The compiled ignore patterns, once they are built.
    pub fn glob_pattern(&self) -> (patterns: &Option<Vec<Pattern>>)
        ensures
            match *patterns {
                Some(compiled) => self.patterns() == Some(sources(compiled@)),
                None => self.patterns() is None,
            },
    {
        &self.glob_pattern
    }

    /// The comment sign configured for a key, if there is one.
    pub fn sign_for_key(&self, key: &str) -> (found: Option<&CommentSign>)
        ensures
            found is Some <==> self.comment_signs().contains_key(key@),
            found matches Some(sign) ==> sign@ == self.comment_signs()[key@],
    {
        let ghost table = entry_models(self.comment_sign_map@);
        let mut i: usize = self.comment_sign_map.len();
        assert(table.take(i as int) == table);
        while i > 0
            invariant
                i <= self.comment_sign_map.len(),
                table == entry_models(self.comment_sign_map@),
                sign_table(table).contains_key(key@) <==> sign_table(
                    table.take(i as int),
                ).contains_key(key@),
                sign_table(table).contains_key(key@) ==> sign_table(table)[key@] == sign_table(
                    table.take(i as int),
                )[key@],
            decreases i,
        {
            let ghost upto = table.take(i as int);
            assert(upto.drop_last() == table.take(i - 1));
            assert(upto.last() == table[i - 1]);
            i = i - 1;
            let entry = &self.comment_sign_map[i];
            if chars_equal(entry.0.as_str(), key) {
                return Some(&entry.1);
            }
        }
        None
    }

    /// The comment sign for a file: that of its extension or, for a name
    /// without one, that of the whole name.
    pub fn get_comment_sign(&self, filename: &str) -> (found: Result<&CommentSign, Error>)
        ensures
            match found {
                Ok(sign) => self.sign_of(filename@) == Some(sign@),
                Err(Error::UnknownCommentSign(name)) => self.sign_of(filename@) is None && name@
                    == filename@,
                Err(_) => false,
            },
    {
        if let Some(key) = resolution_key(filename) {
            if let Some(c_sign) = self.sign_for_key(key.as_str()) {
                return Ok(c_sign);
            }
        }
        Err(Error::UnknownCommentSign(filename.to_owned()))
    }

    /// The files that no ignore pattern matches, in order. While no pattern
    /// is built, every file stays.
    pub fn filter_files<'a>(&self, files: &'a Vec<String>) -> (kept: Vec<&'a String>)
        ensures
            ref_views(kept@) == not_ignored(self.active_patterns(), views(files@)),
    {
        let mut kept: Vec<&'a String> = Vec::new();
        let mut i: usize = 0;
        while i < files.len()
            invariant
                i <= files.len(),
                ref_views(kept@) == not_ignored(
                    self.active_patterns(),
                    views(files@).take(i as int),
                ),
            decreases files.len() - i,
        {
            let ghost next = views(files@).take(i + 1);
            assert(next.drop_last() == views(files@).take(i as int));
            assert(next.last() == files[i as int]@);
            let ignored = match &self.glob_pattern {
                Some(patterns) => matches_any(patterns, files[i].as_str()),
                None => {
                    assert(!is_ignored(self.active_patterns(), files[i as int]@));
                    false
                },
            };
            if !ignored {
                let ghost before = ref_views(kept@);
                kept.push(&files[i]);
                assert(ref_views(kept@) == before.push(files[i as int]@));
            }
            i = i + 1;
        }
        assert(views(files@).take(files.len() as int) == views(files@));
        kept
    }

    /// Compile the ignore expressions, those for files first; one that the
    /// glob compiler does not take is left out.
    pub fn build_glob_pattern(&mut self)
        ensures
            final(self).sign_entries() == old(self).sign_entries(),
            final(self).ignored_files() == old(self).ignored_files(),
            final(self).ignored_dirs() == old(self).ignored_dirs(),
            final(self).patterns() == Some(
                compilable(old(self).ignored_files()) + compilable(old(self).ignored_dirs()),
            ),
    {
        let mut patterns = compile_patterns(&self.ignore_files);
        let mut for_dirs = compile_patterns(&self.ignore_dirs);
        let ghost front = sources(patterns@);
        let ghost back = sources(for_dirs@);
        patterns.append(&mut for_dirs);
        assert(sources(patterns@) == front + back);
        self.glob_pattern = Some(patterns);
    }
}

/// The views of a sequence of borrowed strings.
pub open spec fn ref_views(strings: Seq<&String>) -> Seq<Seq<char>> {
    Seq::new(strings.len(), |i: int| strings[i]@)
}

} // verus!
