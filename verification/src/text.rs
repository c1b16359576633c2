//! Text as sequences of characters: lines, joining, and replacement.

use vstd::prelude::*;

verus! {

/// The views of a sequence of strings.
pub open spec fn views(strings: Seq<String>) -> Seq<Seq<char>> {
    Seq::new(strings.len(), |i: int| strings[i]@)
}

/// The view of an optional string.
pub open spec fn option_view(text: Option<String>) -> Option<Seq<char>> {
    match text {
        Some(s) => Some(s@),
        None => None,
    }
}

/// The text with each occurrence of `pattern` replaced, found from the left
/// and never overlapping. An empty pattern occurs nowhere.
pub open spec fn replace_all(text: Seq<char>, pattern: Seq<char>, replacement: Seq<char>) -> Seq<
    char,
>
    decreases text.len(),
{
    if pattern.len() == 0 || text.len() < pattern.len() {
        text
    } else if text.take(pattern.len() as int) == pattern {
        replacement + replace_all(text.skip(pattern.len() as int), pattern, replacement)
    } else {
        seq![text[0]] + replace_all(text.skip(1), pattern, replacement)
    }
}

/// The pieces of `s` between its newline characters, in order.
///
/// There is always at least one piece: a text without a newline is its own
/// single line, and a text that ends in a newline has an empty last line.
pub open spec fn split_lines(s: Seq<char>) -> Seq<Seq<char>>
    decreases s.len(),
{
    if s.len() == 0 {
        seq![Seq::<char>::empty()]
    } else {
        let before = split_lines(s.drop_last());
        if s.last() == '\n' {
            before.push(Seq::<char>::empty())
        } else {
            before.drop_last().push(before.last().push(s.last()))
        }
    }
}

/// The lines with one newline between each two neighbours.
pub open spec fn join_lines(lines: Seq<Seq<char>>) -> Seq<char>
    decreases lines.len(),
{
    if lines.len() == 0 {
        Seq::<char>::empty()
    } else if lines.len() == 1 {
        lines[0]
    } else {
        join_lines(lines.drop_last()) + seq!['\n'] + lines.last()
    }
}

/// No character of `line` is a newline.
pub open spec fn single_line(line: Seq<char>) -> bool {
    forall|i: int| 0 <= i < line.len() ==> line[i] != '\n'
}

/// Splitting always yields at least one line, and no line holds a newline.
pub proof fn lemma_split_lines_shape(s: Seq<char>)
    ensures
        split_lines(s).len() >= 1,
        forall|k: int| 0 <= k < split_lines(s).len() ==> single_line(#[trigger] split_lines(s)[k]),
    decreases s.len(),
{
    if s.len() > 0 {
        lemma_split_lines_shape(s.drop_last());
    }
}

/// Joining the lines of a text gives the text back.
pub proof fn lemma_join_split(s: Seq<char>)
    ensures
        join_lines(split_lines(s)) == s,
    decreases s.len(),
{
    if s.len() > 0 {
        let t = s.drop_last();
        let before = split_lines(t);
        lemma_join_split(t);
        lemma_split_lines_shape(t);
        if s.last() == '\n' {
            let after = before.push(Seq::<char>::empty());
            assert(after.drop_last() == before);
            assert(join_lines(after) == join_lines(before) + seq!['\n'] + Seq::<char>::empty());
            assert(join_lines(after) == t.push('\n'));
        } else {
            let after = before.drop_last().push(before.last().push(s.last()));
            if before.len() == 1 {
                assert(join_lines(before) == before[0]);
                assert(join_lines(after) == after[0]);
            } else {
                assert(after.drop_last() == before.drop_last());
                assert(join_lines(after) == join_lines(before.drop_last()) + seq!['\n']
                    + before.last().push(s.last()));
                assert(join_lines(before) == join_lines(before.drop_last()) + seq!['\n']
                    + before.last());
                assert(join_lines(after) == join_lines(before).push(s.last()));
            }
        }
        assert(t.push(s.last()) == s);
    }
}

/// Appending text without a newline extends the last line.
pub proof fn lemma_split_append_line(s: Seq<char>, tail: Seq<char>)
    requires
        single_line(tail),
    ensures
        split_lines(s + tail) == split_lines(s).drop_last().push(split_lines(s).last() + tail),
    decreases tail.len(),
{
    lemma_split_lines_shape(s);
    if tail.len() == 0 {
        assert(s + tail == s);
        assert(split_lines(s).last() + tail == split_lines(s).last());
        assert(split_lines(s).drop_last().push(split_lines(s).last()) == split_lines(s));
    } else {
        let shorter = tail.drop_last();
        lemma_split_append_line(s, shorter);
        assert((s + tail).drop_last() == s + shorter);
        assert((s + tail).last() == tail.last());
        let before = split_lines(s + shorter);
        assert(before.last() == split_lines(s).last() + shorter);
        assert(before.drop_last() == split_lines(s).drop_last());
        assert((split_lines(s).last() + shorter).push(tail.last()) == split_lines(s).last() + tail);
    }
}

/// Splitting what was joined from newline-free lines gives the lines back.
pub proof fn lemma_split_join(lines: Seq<Seq<char>>)
    requires
        lines.len() >= 1,
        forall|k: int| 0 <= k < lines.len() ==> single_line(#[trigger] lines[k]),
    ensures
        split_lines(join_lines(lines)) == lines,
    decreases lines.len(),
{
    if lines.len() == 1 {
        lemma_split_append_line(Seq::<char>::empty(), lines[0]);
        assert(Seq::<char>::empty() + lines[0] == lines[0]);
        assert(split_lines(Seq::<char>::empty()) == seq![Seq::<char>::empty()]);
        assert(seq![Seq::<char>::empty()].drop_last().push(Seq::<char>::empty() + lines[0])
            == lines);
    } else {
        let head = lines.drop_last();
        lemma_split_join(head);
        let joined = join_lines(head);
        let opened = joined.push('\n');
        assert(opened.drop_last() == joined);
        assert(split_lines(opened) == head.push(Seq::<char>::empty()));
        lemma_split_append_line(opened, lines.last());
        assert(joined + seq!['\n'] + lines.last() == opened + lines.last());
        assert(head.push(Seq::<char>::empty()).drop_last() == head);
        assert(Seq::<char>::empty() + lines.last() == lines.last());
        assert(head.push(lines.last()) == lines);
    }
}

/// Joining two runs of lines is joining each and putting a newline between.
pub proof fn lemma_join_concat(front: Seq<Seq<char>>, back: Seq<Seq<char>>)
    requires
        front.len() >= 1,
        back.len() >= 1,
    ensures
        join_lines(front + back) == join_lines(front) + seq!['\n'] + join_lines(back),
    decreases back.len(),
{
    let all = front + back;
    assert(all.drop_last() == front + back.drop_last());
    assert(all.last() == back.last());
    if back.len() == 1 {
        assert(front + back.drop_last() == front);
        assert(join_lines(back) == back.last());
    } else {
        lemma_join_concat(front, back.drop_last());
        assert(join_lines(back) == join_lines(back.drop_last()) + seq!['\n'] + back.last());
        assert(join_lines(all) == join_lines(front + back.drop_last()) + seq!['\n']
            + back.last());
        assert(join_lines(front) + seq!['\n'] + join_lines(back.drop_last()) + seq!['\n']
            + back.last() == join_lines(front) + seq!['\n'] + (join_lines(back.drop_last())
            + seq!['\n'] + back.last()));
    }
}

/// `String::push`: the character is appended to the end of the string and
/// nothing else changes.
#[verifier::external_body]
pub(crate) fn push_char(s: &mut String, c: char)
    ensures
        final(s)@ == old(s)@.push(c),
{
    s.push(c);
}

/// Split a text at its newline characters.
pub fn split_into_lines(s: &str) -> (lines: Vec<String>)
    ensures
        views(lines@) == split_lines(s@),
{
    let mut done: Vec<String> = Vec::new();
    let mut current = String::new();
    for c in it: s.chars()
        invariant
            it.seq() == s@,
            views(done@).push(current@) == split_lines(s@.take(it.index() as int)),
    {
        let ghost seen = s@.take(it.index() as int);
        let ghost next = s@.take(it.index() + 1);
        assert(next.drop_last() == seen);
        assert(next.last() == c);
        if c == '\n' {
            done.push(current);
            current = String::new();
            assert(views(done@).push(current@) == split_lines(seen).push(Seq::<char>::empty()));
        } else {
            let ghost before = current@;
            push_char(&mut current, c);
            assert(views(done@).push(before).drop_last() == views(done@));
            assert(views(done@).push(current@) == split_lines(seen).drop_last().push(
                split_lines(seen).last().push(c),
            ));
        }
    }
    assert(s@.take(s@.len() as int) == s@);
    let ghost whole = views(done@).push(current@);
    done.push(current);
    assert(views(done@) == whole);
    done
}

/// Join lines with one newline between each two neighbours.
pub fn join_with_newlines(lines: &Vec<String>) -> (joined: String)
    ensures
        joined@ == join_lines(views(lines@)),
{
    let mut joined = String::new();
    let mut i: usize = 0;
    while i < lines.len()
        invariant
            i <= lines.len(),
            joined@ == join_lines(views(lines@).take(i as int)),
        decreases lines.len() - i,
    {
        let ghost before = views(lines@).take(i as int);
        let ghost after = views(lines@).take(i + 1);
        assert(after.drop_last() == before);
        assert(after.last() == lines[i as int]@);
        if i > 0 {
            joined.append("\n");
            proof {
                reveal_strlit("\n");
                assert("\n"@ == seq!['\n']);
            }
        }
        joined.append(lines[i].as_str());
        i = i + 1;
    }
    assert(views(lines@).take(lines.len() as int) == views(lines@));
    joined
}

/// The characters of a text.
pub fn chars_of(s: &str) -> (chars: Vec<char>)
    ensures
        chars@ == s@,
{
    let mut chars: Vec<char> = Vec::new();
    for c in it: s.chars()
        invariant
            it.seq() == s@,
            chars@ == s@.take(it.index() as int),
    {
        chars.push(c);
    }
    chars
}

/// Whether `pattern` stands in `text` at position `at`.
fn occurs_at(text: &Vec<char>, at: usize, pattern: &Vec<char>) -> (found: bool)
    requires
        at <= text.len(),
    ensures
        found == (pattern.len() <= text.len() - at && text@.skip(at as int).take(
            pattern.len() as int,
        ) == pattern@),
{
    if pattern.len() > text.len() - at {
        return false;
    }
    let ghost window = text@.skip(at as int).take(pattern.len() as int);
    let mut k: usize = 0;
    while k < pattern.len()
        invariant
            k <= pattern.len(),
            pattern.len() <= text.len() - at,
            window == text@.skip(at as int).take(pattern.len() as int),
            forall|j: int| 0 <= j < k ==> window[j] == pattern[j],
        decreases pattern.len() - k,
    {
        assert(window[k as int] == text[at + k]);
        if text[at + k] != pattern[k] {
            return false;
        }
        k = k + 1;
    }
    assert(window =~= pattern@);
    true
}

/// Replace each occurrence of `pattern` in `text`, from the left.
pub fn replace_text(text: &str, pattern: &str, replacement: &str) -> (replaced: String)
    ensures
        replaced@ == replace_all(text@, pattern@, replacement@),
{
    let source = chars_of(text);
    let wanted = chars_of(pattern);
    if wanted.len() == 0 {
        return text.to_owned();
    }
    let mut replaced = String::new();
    let mut at: usize = 0;
    assert(text@.skip(0) == text@);
    assert(replaced@ + replace_all(text@, pattern@, replacement@) == replace_all(
        text@,
        pattern@,
        replacement@,
    ));
    while at < source.len()
        invariant
            at <= source.len(),
            source@ == text@,
            wanted@ == pattern@,
            wanted.len() > 0,
            replaced@ + replace_all(text@.skip(at as int), pattern@, replacement@) == replace_all(
                text@,
                pattern@,
                replacement@,
            ),
        decreases source.len() - at,
    {
        let ghost rest = text@.skip(at as int);
        if occurs_at(&source, at, &wanted) {
            replaced.append(replacement);
            at = at + wanted.len();
            assert(rest.skip(pattern@.len() as int) == text@.skip(at as int));
        } else {
            push_char(&mut replaced, source[at]);
            at = at + 1;
            assert(rest.skip(1) == text@.skip(at as int));
            assert(rest.len() < pattern@.len() ==> text@.skip(at as int).len() < pattern@.len());
            assert(rest.len() < pattern@.len() ==> rest == seq![rest[0]] + rest.skip(1));
        }
    }
    assert(text@.skip(source.len() as int).len() == 0);
    replaced
}

/// The characters from `from` up to `to` as a string.
pub(crate) fn string_between(chars: &Vec<char>, from: usize, to: usize) -> (text: String)
    requires
        from <= to <= chars.len(),
    ensures
        text@ == chars@.subrange(from as int, to as int),
{
    let mut text = String::new();
    let mut i: usize = from;
    while i < to
        invariant
            from <= i <= to,
            to <= chars.len(),
            text@ == chars@.subrange(from as int, i as int),
        decreases to - i,
    {
        push_char(&mut text, chars[i]);
        assert(chars@.subrange(from as int, i as int).push(chars[i as int]) == chars@.subrange(
            from as int,
            i + 1,
        ));
        i = i + 1;
    }
    text
}

/// Whether two texts are the same.
pub fn chars_equal(a: &str, b: &str) -> (same: bool)
    ensures
        same == (a@ == b@),
{
    let left = chars_of(a);
    let right = chars_of(b);
    if left.len() != right.len() {
        return false;
    }
    let mut i: usize = 0;
    while i < left.len()
        invariant
            i <= left.len(),
            left.len() == right.len(),
            left@ == a@,
            right@ == b@,
            forall|j: int| 0 <= j < i ==> left[j] == right[j],
        decreases left.len() - i,
    {
        if left[i] != right[i] {
            assert(a@[i as int] != b@[i as int]);
            return false;
        }
        i = i + 1;
    }
    assert(left@ =~= right@);
    true
}

} // verus!
