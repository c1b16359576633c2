//! How escaping and filling the placeholder go together: the expression of a
//! pattern is the escaped copyright line, with the years expression where the
//! line has its years.

use vstd::prelude::*;
use crate::regex_ops::{
    anchored_pattern, copyright_text, escaped, is_special, lemma_escaped_plain,
    lemma_escaped_specials_guarded, ESCAPED_YEARS_PLACEHOLDER, YEARS_PLACEHOLDER,
};
use crate::text::replace_all;
use crate::SignModel;

verus! {

/// A character as it stands in escaped text.
pub open spec fn escaped_char(c: char) -> Seq<char> {
    if is_special(c) {
        seq!['\\', c]
    } else {
        seq![c]
    }
}

/// Escaping goes through a text piece by piece.
pub proof fn lemma_escaped_concat(front: Seq<char>, back: Seq<char>)
    ensures
        escaped(front + back) == escaped(front) + escaped(back),
    decreases back.len(),
{
    if back.len() == 0 {
        assert(front + back == front);
        assert(escaped(front) + escaped(back) == escaped(front));
    } else {
        lemma_escaped_concat(front, back.drop_last());
        assert((front + back).drop_last() == front + back.drop_last());
        assert((front + back).last() == back.last());
        if is_special(back.last()) {
            assert((escaped(front) + escaped(back.drop_last())).push('\\').push(back.last())
                == escaped(front) + escaped(back.drop_last()).push('\\').push(back.last()));
        } else {
            assert((escaped(front) + escaped(back.drop_last())).push(back.last()) == escaped(front)
                + escaped(back.drop_last()).push(back.last()));
        }
    }
}

/// Escaped text begins with its escaped first character.
pub proof fn lemma_escaped_front(text: Seq<char>)
    requires
        text.len() > 0,
    ensures
        escaped(text) == escaped_char(text[0]) + escaped(text.skip(1)),
{
    let head = seq![text[0]];
    assert(head + text.skip(1) == text);
    lemma_escaped_concat(head, text.skip(1));
    assert(head.drop_last() == Seq::<char>::empty());
    assert(escaped(head.drop_last()) == Seq::<char>::empty());
    assert(escaped(head) == escaped_char(text[0]));
}

/// Escaped text never begins with a special character.
pub proof fn lemma_escaped_head(text: Seq<char>)
    ensures
        escaped(text).len() >= text.len(),
        escaped(text).len() > 0 ==> !is_special(escaped(text)[0]),
    decreases text.len(),
{
    lemma_escaped_specials_guarded(text);
    if text.len() > 0 {
        lemma_escaped_head(text.drop_last());
    }
}

/// The text has the given beginning.
pub open spec fn begins_with(text: Seq<char>, beginning: Seq<char>) -> bool {
    beginning.len() <= text.len() && text.take(beginning.len() as int) == beginning
}

/// The placeholder, character by character.
pub open spec fn placeholder() -> Seq<char> {
    seq!['{', 'y', 'e', 'a', 'r', 's', '}']
}

/// The escaped placeholder, character by character.
pub open spec fn escaped_placeholder() -> Seq<char> {
    seq!['\\', '{', 'y', 'e', 'a', 'r', 's', '\\', '}']
}

/// The escaped text with `fill` in the place of each placeholder.
pub open spec fn filled(text: Seq<char>, fill: Seq<char>) -> Seq<char>
    decreases text.len(),
{
    if text.len() == 0 {
        Seq::<char>::empty()
    } else if begins_with(text, placeholder()) {
        fill + filled(text.skip(7), fill)
    } else {
        escaped_char(text[0]) + filled(text.skip(1), fill)
    }
}

/// The constants of the library are the placeholder and its escaped form.
pub proof fn lemma_placeholder_texts()
    ensures
        YEARS_PLACEHOLDER@ == placeholder(),
        ESCAPED_YEARS_PLACEHOLDER@ == escaped_placeholder(),
        escaped(placeholder()) == escaped_placeholder(),
{
    reveal_strlit("{years}");
    reveal_strlit("\\{years\\}");
    assert(YEARS_PLACEHOLDER@ =~= placeholder());
    assert(ESCAPED_YEARS_PLACEHOLDER@ =~= escaped_placeholder());
    let p = placeholder();
    lemma_escaped_front(p);
    lemma_escaped_front(p.skip(1));
    lemma_escaped_front(p.skip(1).skip(1));
    lemma_escaped_front(p.skip(1).skip(1).skip(1));
    lemma_escaped_front(p.skip(1).skip(1).skip(1).skip(1));
    lemma_escaped_front(p.skip(1).skip(1).skip(1).skip(1).skip(1));
    lemma_escaped_front(p.skip(1).skip(1).skip(1).skip(1).skip(1).skip(1));
    assert(p.skip(1).skip(1).skip(1).skip(1).skip(1).skip(1).skip(1) == Seq::<char>::empty());
    assert(escaped(placeholder()) =~= escaped_placeholder());
}

/// Where escaped text begins with a character that is written as it is, the
/// text begins with that character, and the rest goes on alike.
proof fn lemma_plain_step(text: Seq<char>, c: char, rest: Seq<char>)
    requires
        !is_special(c),
        c != '\\',
        begins_with(escaped(text), seq![c] + rest),
    ensures
        text.len() > 0,
        text[0] == c,
        begins_with(escaped(text.skip(1)), rest),
{
    let wanted = seq![c] + rest;
    assert(escaped(text)[0] == wanted[0]);
    lemma_escaped_front(text);
    assert(escaped(text).skip(1) == escaped(text.skip(1)));
    assert(escaped(text).skip(1).take(rest.len() as int) == escaped(text).take(
        wanted.len() as int,
    ).skip(1));
    assert(wanted.skip(1) == rest);
}

/// Where escaped text begins with a backslash and a special character, the
/// text begins with that character, and the rest goes on alike.
proof fn lemma_special_step(text: Seq<char>, c: char, rest: Seq<char>)
    requires
        is_special(c),
        begins_with(escaped(text), seq!['\\', c] + rest),
    ensures
        text.len() > 0,
        text[0] == c,
        begins_with(escaped(text.skip(1)), rest),
{
    let wanted = seq!['\\', c] + rest;
    assert(escaped(text)[0] == wanted[0]);
    assert(escaped(text)[1] == wanted[1]);
    lemma_escaped_front(text);
    lemma_escaped_head(text.skip(1));
    if !is_special(text[0]) {
        assert(escaped(text)[1] == escaped(text.skip(1))[0]);
    }
    assert(escaped(text).skip(2) == escaped(text.skip(1)));
    assert(escaped(text).skip(2).take(rest.len() as int) == escaped(text).take(
        wanted.len() as int,
    ).skip(2));
    assert(wanted.skip(2) == rest);
}

/// Escaped text begins with the escaped placeholder exactly where the text
/// begins with the placeholder.
pub proof fn lemma_placeholder_found(text: Seq<char>)
    ensures
        begins_with(escaped(text), escaped_placeholder()) <==> begins_with(text, placeholder()),
{
    lemma_placeholder_texts();
    if begins_with(text, placeholder()) {
        assert(text == placeholder() + text.skip(7));
        lemma_escaped_concat(placeholder(), text.skip(7));
        assert(escaped(text).take(9) == escaped_placeholder());
    }
    if begins_with(escaped(text), escaped_placeholder()) {
        let end = Seq::<char>::empty();
        let r6 = seq!['\\', '}'] + end;
        let r5 = seq!['s'] + r6;
        let r4 = seq!['r'] + r5;
        let r3 = seq!['a'] + r4;
        let r2 = seq!['e'] + r3;
        let r1 = seq!['y'] + r2;
        assert(escaped_placeholder() =~= seq!['\\', '{'] + r1);
        let t1 = text.skip(1);
        let t2 = t1.skip(1);
        let t3 = t2.skip(1);
        let t4 = t3.skip(1);
        let t5 = t4.skip(1);
        let t6 = t5.skip(1);
        lemma_special_step(text, '{', r1);
        lemma_plain_step(t1, 'y', r2);
        lemma_plain_step(t2, 'e', r3);
        lemma_plain_step(t3, 'a', r4);
        lemma_plain_step(t4, 'r', r5);
        lemma_plain_step(t5, 's', r6);
        lemma_special_step(t6, '}', end);
        assert(text.len() >= 7);
        assert(text.take(7) =~= placeholder());
    }
}

/// Text too short for a placeholder is filled by escaping it.
proof fn lemma_filled_short(text: Seq<char>, fill: Seq<char>)
    requires
        text.len() < 7,
    ensures
        filled(text, fill) == escaped(text),
    decreases text.len(),
{
    if text.len() > 0 {
        lemma_filled_short(text.skip(1), fill);
        lemma_escaped_front(text);
    }
}

/// Escaping a text whose placeholders were replaced is filling the text with
/// the escaped replacement.
proof fn lemma_escape_after_replace(text: Seq<char>, years: Seq<char>)
    ensures
        escaped(replace_all(text, placeholder(), years)) == filled(text, escaped(years)),
    decreases text.len(),
{
    if text.len() < 7 {
        lemma_filled_short(text, escaped(years));
    } else if text.take(7) == placeholder() {
        lemma_escape_after_replace(text.skip(7), years);
        lemma_escaped_concat(years, replace_all(text.skip(7), placeholder(), years));
    } else {
        let rest = replace_all(text.skip(1), placeholder(), years);
        lemma_escape_after_replace(text.skip(1), years);
        lemma_escaped_concat(seq![text[0]], rest);
        lemma_escaped_front(seq![text[0]] + rest);
        assert((seq![text[0]] + rest).skip(1) == rest);
    }
}

/// Where a text does not begin with the pattern, replacing goes on behind
/// its first character.
proof fn lemma_replace_passes(text: Seq<char>, pattern: Seq<char>, replacement: Seq<char>)
    requires
        text.len() > 0,
        pattern.len() > 0,
        !begins_with(text, pattern),
    ensures
        replace_all(text, pattern, replacement) == seq![text[0]] + replace_all(
            text.skip(1),
            pattern,
            replacement,
        ),
{
    if text.len() < pattern.len() {
        assert(seq![text[0]] + text.skip(1) == text);
    }
}

/// Replacing the escaped placeholder in escaped text is filling the text.
proof fn lemma_replace_after_escape(text: Seq<char>, fill: Seq<char>)
    ensures
        replace_all(escaped(text), escaped_placeholder(), fill) == filled(text, fill),
    decreases text.len(),
{
    let whole = escaped(text);
    let pattern = escaped_placeholder();
    lemma_placeholder_found(text);
    if text.len() == 0 {
    } else if begins_with(text, placeholder()) {
        lemma_placeholder_texts();
        assert(text == placeholder() + text.skip(7));
        lemma_escaped_concat(placeholder(), text.skip(7));
        assert(whole.skip(9) == escaped(text.skip(7)));
        lemma_replace_after_escape(text.skip(7), fill);
    } else {
        let rest = escaped(text.skip(1));
        lemma_escaped_front(text);
        lemma_replace_after_escape(text.skip(1), fill);
        lemma_replace_passes(whole, pattern, fill);
        if is_special(text[0]) {
            let behind = whole.skip(1);
            assert(behind == seq![text[0]] + rest);
            assert(behind[0] != pattern[0]);
            assert(!begins_with(behind, pattern)) by {
                if begins_with(behind, pattern) {
                    assert(behind.take(9)[0] == pattern[0]);
                }
            }
            lemma_replace_passes(behind, pattern, fill);
            assert(behind.skip(1) == rest);
            assert(seq![whole[0]] + (seq![behind[0]] + filled(text.skip(1), fill))
                == escaped_char(text[0]) + filled(text.skip(1), fill));
        } else {
            assert(whole.skip(1) == rest);
        }
    }
}

/// Escaping and filling the placeholder may change places: escaping the
/// template with the years filled in gives the escaped template with the
/// escaped years filled in.
pub proof fn lemma_escaped_notice(template: Seq<char>, years: Seq<char>)
    ensures
        escaped(replace_all(template, YEARS_PLACEHOLDER@, years)) == replace_all(
            escaped(template),
            ESCAPED_YEARS_PLACEHOLDER@,
            escaped(years),
        ),
{
    lemma_placeholder_texts();
    lemma_escape_after_replace(template, years);
    lemma_replace_after_escape(template, escaped(years));
}

/// The expression of a pattern is made like the copyright line it is to
/// recognise: escaping the line for a template, a comment sign and some years
/// and anchoring it gives the anchored pattern with the escaped years in the
/// placeholder's place, where the pattern itself has the years expression.
pub proof fn lemma_pattern_of_line(template: Seq<char>, sign: SignModel, years: Seq<char>)
    ensures
        seq!['^'] + escaped(copyright_text(template, sign, years)) + seq!['$'] == anchored_pattern(
            template,
            sign,
            escaped(years),
        ),
{
    let space = seq![' '];
    let notice = replace_all(template, YEARS_PLACEHOLDER@, years);
    lemma_escaped_notice(template, years);
    assert(escaped(space) == space) by {
        lemma_escaped_plain(space);
    }
    lemma_escaped_concat(sign.0, space);
    lemma_escaped_concat(sign.0 + space, notice);
    match sign.1 {
        None => {},
        Some(right) => {
            lemma_escaped_concat(sign.0 + space + notice, space);
            lemma_escaped_concat(sign.0 + space + notice + space, right);
        },
    }
}

/// Years written with digits and hyphens are their own escaped form, so for
/// them the anchored, escaped copyright line is the anchored pattern with
/// the years themselves in the placeholder's place.
pub proof fn lemma_pattern_of_line_with_plain_years(
    template: Seq<char>,
    sign: SignModel,
    years: Seq<char>,
)
    requires
        forall|i: int|
            0 <= i < years.len() ==> ('0' <= #[trigger] years[i] <= '9' || years[i] == '-'),
    ensures
        seq!['^'] + escaped(copyright_text(template, sign, years)) + seq!['$'] == anchored_pattern(
            template,
            sign,
            years,
        ),
{
    lemma_escaped_plain(years);
    lemma_pattern_of_line(template, sign, years);
}

} // verus!
