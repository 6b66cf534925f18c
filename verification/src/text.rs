//! Character-level text helpers shared by the configuration and command
//! code.

use vstd::prelude::*;

verus! {

/// `String::push` appends one character to the end of the string.
pub assume_specification[ String::push ](s: &mut String, ch: char)
    ensures
        final(s)@ == old(s)@.push(ch),
;

/// The lowercase form that `str::to_lowercase` gives a text.
pub uninterp spec fn lowercase(text: Seq<char>) -> Seq<char>;

/// `str::to_lowercase` returns the lowercase form of the text as a new
/// `String`; the form depends on the characters alone.
pub assume_specification[ str::to_lowercase ](s: &str) -> (lower: String)
    ensures
        lower@ == lowercase(s@),
;

/// Whether `char::is_whitespace` counts a character as white space.
pub uninterp spec fn is_space(c: char) -> bool;

/// Whether `c` is one of the ASCII characters with the Unicode
/// `White_Space` property: the space, and the controls from the
/// horizontal tab to the carriage return.
pub open spec fn is_ascii_space(c: char) -> bool {
    c == ' ' || (0x09 <= c as u32 && c as u32 <= 0x0d)
}

/// `char::is_whitespace` tells whether the character has the Unicode
/// `White_Space` property, which depends on the character alone. Among
/// the ASCII characters, those with the property are the space and the
/// controls from the horizontal tab to the carriage return.
pub assume_specification[ char::is_whitespace ](c: char) -> (space: bool)
    ensures
        space == is_space(c),
        (c as u32) < 0x80 ==> space == is_ascii_space(c),
;

/// The characters of `s`, in order.
pub fn chars_of(s: &str) -> (chars: Vec<char>)
    ensures
        chars@ == s@,
{
    let mut chars: Vec<char> = Vec::new();
    for c in it: s.chars()
        invariant
            it.seq() == s@,
            chars@ == s@.take(it.index()),
    {
        chars.push(c);
        assert(s@.take(it.index() + 1) =~= s@.take(it.index()).push(c));
    }
    assert(s@.take(s@.len() as int) =~= s@);
    chars
}

/// The string spelled by `chars`.
pub fn string_of(chars: &Vec<char>) -> (s: String)
    ensures
        s@ == chars@,
{
    let mut s = String::new();
    let mut i: usize = 0;
    while i < chars.len()
        invariant
            i <= chars.len(),
            s@ == chars@.take(i as int),
        decreases chars.len() - i,
    {
        s.push(chars[i]);
        assert(chars@.take(i + 1) =~= chars@.take(i as int).push(chars@[i as int]));
        i += 1;
    }
    assert(chars@.take(chars@.len() as int) =~= chars@);
    s
}

/// Whether `text` ends with `suffix`.
pub fn ends_with(text: &Vec<char>, suffix: &Vec<char>) -> (ends: bool)
    ensures
        ends == suffix@.is_suffix_of(text@),
{
    if suffix.len() > text.len() {
        return false;
    }
    let start: usize = text.len() - suffix.len();
    let mut i: usize = 0;
    while i < suffix.len()
        invariant
            suffix.len() <= text.len(),
            start == text.len() - suffix.len(),
            i <= suffix.len(),
            forall|k: int| 0 <= k < i ==> suffix@[k] == text@[start + k],
        decreases suffix.len() - i,
    {
        if suffix[i] != text[start + i] {
            assert(text@.subrange(start as int, text@.len() as int)[i as int] == text@[start + i]);
            return false;
        }
        i += 1;
    }
    assert(suffix@ =~= text@.subrange(start as int, text@.len() as int));
    true
}

/// `text` with `first_to` wherever `first` stands and `second_to`
/// wherever `second` stands, in one pass from the left: what was put in
/// is not looked into again. Where both stand at one place, `first` is
/// taken. An empty token stands nowhere.
pub open spec fn substituted(
    text: Seq<char>,
    first: Seq<char>,
    first_to: Seq<char>,
    second: Seq<char>,
    second_to: Seq<char>,
) -> Seq<char>
    decreases text.len(),
{
    if text.len() == 0 {
        text
    } else if first.len() > 0 && first.is_prefix_of(text) {
        first_to + substituted(text.skip(first.len() as int), first, first_to, second, second_to)
    } else if second.len() > 0 && second.is_prefix_of(text) {
        second_to + substituted(text.skip(second.len() as int), first, first_to, second, second_to)
    } else {
        seq![text[0]] + substituted(text.skip(1), first, first_to, second, second_to)
    }
}

/// Whether `from` stands in `text` at position `at`.
fn occurs_at(text: &Vec<char>, at: usize, from: &Vec<char>) -> (occurs: bool)
    requires
        at <= text.len(),
    ensures
        occurs == from@.is_prefix_of(text@.skip(at as int)),
{
    if from.len() > text.len() - at {
        return false;
    }
    let mut i: usize = 0;
    while i < from.len()
        invariant
            at + from.len() <= text.len(),
            i <= from.len(),
            forall|k: int| 0 <= k < i ==> from@[k] == text@[at + k],
        decreases from.len() - i,
    {
        if from[i] != text[at + i] {
            assert(text@.skip(at as int).subrange(0, from@.len() as int)[i as int] == text@[at + i]);
            return false;
        }
        i += 1;
    }
    assert(from@ =~= text@.skip(at as int).subrange(0, from@.len() as int));
    true
}

/// Appends `chars` to `out`.
fn push_all(out: &mut Vec<char>, chars: &Vec<char>)
    ensures
        final(out)@ == old(out)@ + chars@,
{
    let ghost before = out@;
    let mut k: usize = 0;
    assert(before + chars@.take(0) =~= before);
    while k < chars.len()
        invariant
            k <= chars.len(),
            out@ == before + chars@.take(k as int),
        decreases chars.len() - k,
    {
        out.push(chars[k]);
        assert(before + chars@.take(k + 1) =~= (before + chars@.take(k as int)).push(
            chars@[k as int],
        ));
        k += 1;
    }
    assert(chars@.take(chars@.len() as int) =~= chars@);
}

/// Puts `first_to` wherever `first` stands in `text` and `second_to`
/// wherever `second` stands, in one pass.
pub fn substitute(
    text: &Vec<char>,
    first: &Vec<char>,
    first_to: &Vec<char>,
    second: &Vec<char>,
    second_to: &Vec<char>,
) -> (filled: Vec<char>)
    ensures
        filled@ == substituted(text@, first@, first_to@, second@, second_to@),
{
    let ghost whole = substituted(text@, first@, first_to@, second@, second_to@);
    let mut filled: Vec<char> = Vec::new();
    let mut i: usize = 0;
    assert(text@.skip(0) =~= text@);
    assert(filled@ + whole =~= whole);
    while i < text.len()
        invariant
            i <= text.len(),
            whole == substituted(text@, first@, first_to@, second@, second_to@),
            whole == filled@ + substituted(
                text@.skip(i as int),
                first@,
                first_to@,
                second@,
                second_to@,
            ),
        decreases text.len() - i,
    {
        let ghost rest = text@.skip(i as int);
        let ghost before = filled@;
        if first.len() > 0 && occurs_at(text, i, first) {
            let ghost after = substituted(
                rest.skip(first@.len() as int),
                first@,
                first_to@,
                second@,
                second_to@,
            );
            push_all(&mut filled, first_to);
            assert(rest.skip(first@.len() as int) =~= text@.skip(i + first@.len()));
            assert(before + (first_to@ + after) =~= (before + first_to@) + after);
            i += first.len();
        } else if second.len() > 0 && occurs_at(text, i, second) {
            let ghost after = substituted(
                rest.skip(second@.len() as int),
                first@,
                first_to@,
                second@,
                second_to@,
            );
            push_all(&mut filled, second_to);
            assert(rest.skip(second@.len() as int) =~= text@.skip(i + second@.len()));
            assert(before + (second_to@ + after) =~= (before + second_to@) + after);
            i += second.len();
        } else {
            let ghost after = substituted(rest.skip(1), first@, first_to@, second@, second_to@);
            filled.push(text[i]);
            assert(rest.skip(1) =~= text@.skip(i + 1));
            assert(before + (seq![rest[0]] + after) =~= before.push(text@[i as int]) + after);
            i += 1;
        }
    }
    assert(text@.skip(text@.len() as int) =~= Seq::<char>::empty());
    assert(filled@ + Seq::<char>::empty() =~= filled@);
    filled
}

/// Whether two strings have the same text.
pub fn same_text(a: &str, b: &str) -> (same: bool)
    ensures
        same == (a@ == b@),
{
    a.to_owned() == b.to_owned()
}

/// Whether `list` holds a string with the text of `wanted`.
pub fn contains_text(list: &Vec<String>, wanted: &str) -> (found: bool)
    ensures
        found == texts(list@).contains(wanted@),
{
    let owned = wanted.to_owned();
    let mut i: usize = 0;
    while i < list.len()
        invariant
            i <= list.len(),
            owned@ == wanted@,
            forall|k: int| 0 <= k < i ==> texts(list@)[k] != wanted@,
        decreases list.len() - i,
    {
        if list[i] == owned {
            assert(texts(list@)[i as int] == wanted@);
            return true;
        }
        i += 1;
    }
    false
}

/// The length of the run of characters at the start of `text` that are
/// not white space.
pub open spec fn word_len(text: Seq<char>) -> nat
    decreases text.len(),
{
    if text.len() == 0 || is_space(text[0]) {
        0
    } else {
        1 + word_len(text.skip(1))
    }
}

/// The first word's length is within the text.
pub proof fn lemma_word_len_bound(text: Seq<char>)
    ensures
        word_len(text) <= text.len(),
        text.len() > 0 && !is_space(text[0]) ==> word_len(text) >= 1,
    decreases text.len(),
{
    if text.len() > 0 && !is_space(text[0]) {
        lemma_word_len_bound(text.skip(1));
    }
}

/// The words of `text`: its maximal runs of characters that are not
/// white space, in order.
pub open spec fn words(text: Seq<char>) -> Seq<Seq<char>>
    decreases text.len(),
{
    if text.len() == 0 {
        Seq::empty()
    } else if is_space(text[0]) {
        words(text.skip(1))
    } else {
        proof {
            lemma_word_len_bound(text);
        }
        seq![text.take(word_len(text) as int)] + words(text.skip(word_len(text) as int))
    }
}

/// The texts of a list of strings, in order.
pub open spec fn texts(strings: Seq<String>) -> Seq<Seq<char>> {
    strings.map_values(|s: String| s@)
}

/// Appending a string appends its text.
pub proof fn lemma_texts_push(before: Seq<String>, s: String)
    ensures
        texts(before.push(s)) == texts(before).push(s@),
{
    assert(texts(before.push(s)) =~= texts(before).push(s@));
}

/// Splits `text` into its words.
pub fn split_whitespace(text: &Vec<char>) -> (tokens: Vec<String>)
    ensures
        texts(tokens@) == words(text@),
{
    let mut tokens: Vec<String> = Vec::new();
    let mut i: usize = 0;
    assert(text@.skip(0) =~= text@);
    assert(texts(tokens@) + words(text@) =~= words(text@));
    while i < text.len()
        invariant
            i <= text.len(),
            words(text@) == texts(tokens@) + words(text@.skip(i as int)),
        decreases text.len() - i,
    {
        let ghost rest = text@.skip(i as int);
        if text[i].is_whitespace() {
            assert(rest.skip(1) =~= text@.skip(i + 1));
            i += 1;
        } else {
            let mut word = String::new();
            let mut j: usize = i;
            assert(rest.skip(0) =~= rest);
            while j < text.len() && !text[j].is_whitespace()
                invariant
                    i <= j <= text.len(),
                    rest == text@.skip(i as int),
                    word@ == rest.take(j - i),
                    word_len(rest) == (j - i) + word_len(rest.skip(j - i)),
                decreases text.len() - j,
            {
                word.push(text[j]);
                assert(rest.take(j + 1 - i) =~= rest.take(j - i).push(text@[j as int]));
                assert(rest.skip(j - i)[0] == text@[j as int]);
                assert(rest.skip(j - i).skip(1) =~= rest.skip(j + 1 - i));
                j += 1;
            }
            assert(word_len(rest.skip(j - i)) == 0) by {
                if j < text.len() {
                    assert(rest.skip(j - i)[0] == text@[j as int]);
                }
            }
            assert(rest.skip(j - i) =~= text@.skip(j as int));
            proof {
                lemma_texts_push(tokens@, word);
                assert(texts(tokens@) + (seq![word@] + words(rest.skip(j - i)))
                    =~= texts(tokens@).push(word@) + words(rest.skip(j - i)));
            }
            tokens.push(word);
            i = j;
        }
    }
    assert(text@.skip(text@.len() as int) =~= Seq::<char>::empty());
    assert(texts(tokens@) + Seq::<Seq<char>>::empty() =~= texts(tokens@));
    tokens
}

/// How many characters stand before the first line feed of `text`.
pub open spec fn line_len(text: Seq<char>) -> nat
    decreases text.len(),
{
    if text.len() == 0 || text[0] == '\n' {
        0
    } else {
        1 + line_len(text.skip(1))
    }
}

/// `line` without the carriage return at its end, if it has one.
pub open spec fn without_return(line: Seq<char>) -> Seq<char> {
    if line.len() > 0 && line.last() == '\r' {
        line.drop_last()
    } else {
        line
    }
}

/// The lines of `text`. A line ends with a line feed, or with a carriage
/// return and a line feed, which are not part of it; the last line may
/// go without an ending.
pub open spec fn lines(text: Seq<char>) -> Seq<Seq<char>>
    decreases text.len(),
{
    if text.len() == 0 {
        Seq::empty()
    } else if line_len(text) >= text.len() {
        seq![text]
    } else {
        seq![without_return(text.take(line_len(text) as int))] + lines(
            text.skip(line_len(text) as int + 1),
        )
    }
}

/// Splits `text` into its lines.
pub fn split_lines(text: &Vec<char>) -> (all: Vec<String>)
    ensures
        texts(all@) == lines(text@),
{
    let mut all: Vec<String> = Vec::new();
    let mut i: usize = 0;
    assert(text@.skip(0) =~= text@);
    assert(texts(all@) + lines(text@) =~= lines(text@));
    while i < text.len()
        invariant
            i <= text.len(),
            lines(text@) == texts(all@) + lines(text@.skip(i as int)),
        decreases text.len() - i,
    {
        let ghost rest = text@.skip(i as int);
        let mut line: Vec<char> = Vec::new();
        let mut j: usize = i;
        assert(rest.skip(0) =~= rest);
        while j < text.len() && text[j] != '\n'
            invariant
                i <= j <= text.len(),
                rest == text@.skip(i as int),
                line@ == rest.take(j - i),
                line_len(rest) == (j - i) + line_len(rest.skip(j - i)),
            decreases text.len() - j,
        {
            line.push(text[j]);
            assert(rest.take(j + 1 - i) =~= rest.take(j - i).push(text@[j as int]));
            assert(rest.skip(j - i)[0] == text@[j as int]);
            assert(rest.skip(j - i).skip(1) =~= rest.skip(j + 1 - i));
            j += 1;
        }
        assert(line_len(rest.skip(j - i)) == 0) by {
            if j < text.len() {
                assert(rest.skip(j - i)[0] == text@[j as int]);
            }
        }
        if j < text.len() {
            if line.len() > 0 && line[line.len() - 1] == '\r' {
                line.pop();
            }
            assert(line@ =~= without_return(rest.take(j - i)));
            assert(rest.skip(j - i + 1) =~= text@.skip(j + 1));
            j += 1;
        } else {
            assert(rest.take(j - i) =~= rest);
            assert(text@.skip(j as int) =~= Seq::<char>::empty());
        }
        let entry = string_of(&line);
        proof {
            lemma_texts_push(all@, entry);
            assert(texts(all@) + (seq![entry@] + lines(text@.skip(j as int))) =~= texts(all@).push(
                entry@,
            ) + lines(text@.skip(j as int)));
            assert(seq![rest] + Seq::<Seq<char>>::empty() =~= seq![rest]);
        }
        all.push(entry);
        i = j;
    }
    assert(text@.skip(text@.len() as int) =~= Seq::<char>::empty());
    assert(texts(all@) + Seq::<Seq<char>>::empty() =~= texts(all@));
    all
}

} // verus!
