//! Texts as sequences of characters.

use vstd::prelude::*;

verus! {

/// `String::push`: the character is appended to the end of the text.
pub assume_specification[ String::push ](text: &mut String, c: char)
    ensures
        final(text)@ == old(text)@.push(c),
;

/// The characters of a text.
pub fn chars_of(text: &str) -> (chars: Vec<char>)
    ensures
        chars@ == text@,
{
    let mut chars: Vec<char> = Vec::new();
    for c in it: text.chars()
        invariant
            it.seq() == text@,
            chars@ == text@.take(it.index() as int),
    {
        proof {
            let i = it.index() as int;
            assert(text@.take(i + 1) =~= text@.take(i).push(text@[i]));
        }
        chars.push(c);
    }
    proof {
        assert(text@.take(text@.len() as int) =~= text@);
    }
    chars
}

/// The characters of a text that may be missing.
pub open spec fn text_view(text: Option<String>) -> Option<Seq<char>> {
    match text {
        Some(s) => Some(s@),
        None => None,
    }
}

/// Whether `text` spells `name`.
pub fn spells(text: &String, name: &str) -> (same: bool)
    ensures
        same == (text@ == name@),
{
    let wanted = name.to_owned();
    *text == wanted
}

/// Whether a character is white space, as Unicode defines it.
pub open spec fn is_white_space(c: char) -> bool {
    let code = c as u32;
    ||| 0x09 <= code <= 0x0d
    ||| code == 0x20
    ||| code == 0x85
    ||| code == 0xa0
    ||| code == 0x1680
    ||| 0x2000 <= code <= 0x200a
    ||| code == 0x2028
    ||| code == 0x2029
    ||| code == 0x202f
    ||| code == 0x205f
    ||| code == 0x3000
}

/// Tells white space.
pub fn white_space(c: char) -> (yes: bool)
    ensures
        yes == is_white_space(c),
{
    let code: u32 = c as u32;
    (0x09 <= code && code <= 0x0d) || code == 0x20 || code == 0x85 || code == 0xa0 || code
        == 0x1680 || (0x2000 <= code && code <= 0x200a) || code == 0x2028 || code == 0x2029 || code
        == 0x202f || code == 0x205f || code == 0x3000
}

/// Whether a text holds nothing but white space.
pub open spec fn is_blank(text: Seq<char>) -> bool {
    forall|i: int| 0 <= i < text.len() ==> is_white_space(#[trigger] text[i])
}

/// How many characters of white space a text begins with.
pub open spec fn leading_white(text: Seq<char>) -> int
    decreases text.len(),
{
    if text.len() > 0 && is_white_space(text[0]) {
        1 + leading_white(text.drop_first())
    } else {
        0
    }
}

/// How many characters of white space a text ends with.
pub open spec fn trailing_white(text: Seq<char>) -> int
    decreases text.len(),
{
    if text.len() > 0 && is_white_space(text.last()) {
        1 + trailing_white(text.drop_last())
    } else {
        0
    }
}

/// A text without the white space at its two ends.
pub open spec fn trimmed(text: Seq<char>) -> Seq<char> {
    let rest = text.skip(leading_white(text));
    rest.take(rest.len() - trailing_white(rest))
}

/// The text that a run of characters spells.
fn text_of(chars: &Vec<char>, from: usize, to: usize) -> (text: String)
    requires
        from <= to <= chars@.len(),
    ensures
        text@ == chars@.subrange(from as int, to as int),
{
    let mut text = String::new();
    let mut i: usize = from;
    while i < to
        invariant
            from <= i <= to <= chars@.len(),
            text@ == chars@.subrange(from as int, i as int),
        decreases to - i,
    {
        proof {
            assert(chars@.subrange(from as int, i + 1) =~= chars@.subrange(
                from as int,
                i as int,
            ).push(chars@[i as int]));
        }
        text.push(chars[i]);
        i = i + 1;
    }
    text
}

/// A copy of a text without the white space at its two ends.
pub fn trim(text: &str) -> (rest: String)
    ensures
        rest@ == trimmed(text@),
{
    let chars = chars_of(text);
    let mut from: usize = 0;
    proof {
        assert(chars@.skip(0) =~= chars@);
    }
    while from < chars.len() && white_space(chars[from])
        invariant
            from <= chars.len(),
            leading_white(chars@) == from + leading_white(chars@.skip(from as int)),
        decreases chars.len() - from,
    {
        proof {
            assert(chars@.skip(from as int).drop_first() =~= chars@.skip(from + 1));
        }
        from = from + 1;
    }
    let ghost rest = chars@.skip(from as int);
    let mut to: usize = chars.len();
    proof {
        assert(rest.take(rest.len() as int) =~= rest);
    }
    while to > from && white_space(chars[to - 1])
        invariant
            from <= to <= chars.len(),
            rest == chars@.skip(from as int),
            trailing_white(rest) == (chars.len() - to) + trailing_white(rest.take(to - from)),
        decreases to,
    {
        proof {
            let part = rest.take(to - from);
            assert(part.last() == chars@[to - 1]);
            assert(part.drop_last() =~= rest.take(to - from - 1));
        }
        to = to - 1;
    }
    proof {
        let part = rest.take(to - from);
        if to > from {
            assert(part.last() == chars@[to - 1]);
        }
        assert(rest.take(rest.len() - trailing_white(rest)) =~= chars@.subrange(
            from as int,
            to as int,
        ));
    }
    text_of(&chars, from, to)
}

/// The white space that a text begins with is white space, and ends where the
/// text ends or before a character that is none.
pub proof fn lemma_leading_white(text: Seq<char>)
    ensures
        0 <= leading_white(text) <= text.len(),
        forall|i: int| 0 <= i < leading_white(text) ==> is_white_space(#[trigger] text[i]),
        leading_white(text) < text.len() ==> !is_white_space(text[leading_white(text)]),
    decreases text.len(),
{
    if text.len() > 0 && is_white_space(text[0]) {
        let rest = text.drop_first();
        lemma_leading_white(rest);
        assert forall|i: int| 0 <= i < leading_white(text) implies is_white_space(
            #[trigger] text[i],
        ) by {
            if i > 0 {
                assert(text[i] == rest[i - 1]);
            }
        }
        if leading_white(text) < text.len() {
            assert(text[leading_white(text)] == rest[leading_white(rest)]);
        }
    }
}

/// The white space that a text ends with is white space.
pub proof fn lemma_trailing_white(text: Seq<char>)
    ensures
        0 <= trailing_white(text) <= text.len(),
        forall|i: int|
            text.len() - trailing_white(text) <= i < text.len() ==> is_white_space(
                #[trigger] text[i],
            ),
    decreases text.len(),
{
    if text.len() > 0 && is_white_space(text.last()) {
        let rest = text.drop_last();
        lemma_trailing_white(rest);
        assert forall|i: int|
            text.len() - trailing_white(text) <= i < text.len() implies is_white_space(
            #[trigger] text[i],
        ) by {
            if i < text.len() - 1 {
                assert(text[i] == rest[i]);
            }
        }
    }
}

/// A text of white space begins with as much white space as it is long.
pub proof fn lemma_blank_is_all_leading(text: Seq<char>)
    requires
        is_blank(text),
    ensures
        leading_white(text) == text.len(),
    decreases text.len(),
{
    if text.len() > 0 {
        let rest = text.drop_first();
        assert(is_white_space(text[0]));
        assert forall|i: int| 0 <= i < rest.len() implies is_white_space(#[trigger] rest[i]) by {
            assert(rest[i] == text[i + 1]);
        }
        lemma_blank_is_all_leading(rest);
    }
}

/// Nothing is left of a text without the white space at its ends exactly when
/// the text holds nothing but white space.
pub proof fn lemma_trimmed_is_empty_iff_blank(text: Seq<char>)
    ensures
        trimmed(text).len() == 0 <==> is_blank(text),
{
    lemma_leading_white(text);
    let rest = text.skip(leading_white(text));
    lemma_trailing_white(rest);
    if is_blank(text) {
        lemma_blank_is_all_leading(text);
    }
    if trimmed(text).len() == 0 {
        if rest.len() > 0 {
            assert(rest[0] == text[leading_white(text)]);
            assert(is_white_space(rest[0]));
        }
    }
}

} // verus!
