//! Splitting a line of input into words at ASCII whitespace.

use vstd::prelude::*;

verus! {

/// Whether `c` is one of the five ASCII whitespace characters:
/// space, tab, line feed, form feed, carriage return.
pub open spec fn is_ascii_space(c: char) -> bool {
    c == ' ' || c == '\t' || c == '\n' || c == '\x0C' || c == '\r'
}

/// Whether `word` is non-empty and holds no whitespace.
pub open spec fn is_word(word: Seq<char>) -> bool {
    word.len() > 0 && forall|i: int| 0 <= i < word.len() ==> !is_ascii_space(#[trigger] word[i])
}

/// The words of `line`, first to last: its maximal runs of characters that
/// are not whitespace.
///
/// Read from the end of the line: a whitespace character adds nothing, a
/// character after a word character extends the last word, and any other
/// character starts a new word.
pub open spec fn words(line: Seq<char>) -> Seq<Seq<char>>
    decreases line.len(),
{
    if line.len() == 0 {
        Seq::empty()
    } else {
        let before = line.drop_last();
        let found = words(before);
        if is_ascii_space(line.last()) {
            found
        } else if before.len() > 0 && !is_ascii_space(before.last()) {
            found.drop_last().push(found.last().push(line.last()))
        } else {
            found.push(seq![line.last()])
        }
    }
}

/// `parts` in order, with one space between each two neighbours.
pub open spec fn join(parts: Seq<Seq<char>>) -> Seq<char>
    decreases parts.len(),
{
    if parts.len() == 0 {
        Seq::empty()
    } else if parts.len() == 1 {
        parts[0]
    } else {
        join(parts.drop_last()) + seq![' '] + parts.last()
    }
}

/// The texts of `parts`, in order.
pub open spec fn texts(parts: Seq<&str>) -> Seq<Seq<char>> {
    parts.map_values(|part: &str| part@)
}

/// Whether `c` is ASCII whitespace.
pub fn is_space(c: char) -> (b: bool)
    ensures
        b == is_ascii_space(c),
{
    c == ' ' || c == '\t' || c == '\n' || c == '\x0C' || c == '\r'
}

/// The characters of `text`, in order.
pub fn chars_of(text: &str) -> (chars: Vec<char>)
    ensures
        chars@ == text@,
{
    let mut chars: Vec<char> = Vec::new();
    for c in it: text.chars()
        invariant
            it.seq() == text@,
            chars@ == it.seq().take(it.index() as int),
    {
        chars.push(c);
    }
    chars
}

/// A line that ends inside a word has that word last, and it reaches back
/// to the last whitespace before it.
proof fn lemma_open_word(line: Seq<char>, start: int)
    requires
        0 <= start < line.len(),
        start == 0 || is_ascii_space(line[start - 1]),
        forall|i: int| start <= i < line.len() ==> !is_ascii_space(#[trigger] line[i]),
    ensures
        words(line) == words(line.take(start)).push(line.skip(start)),
    decreases line.len(),
{
    let before = line.drop_last();
    if start == line.len() - 1 {
        assert(line.skip(start) == seq![line.last()]);
    } else {
        lemma_open_word(before, start);
        assert(before.take(start) == line.take(start));
        assert(before.skip(start).push(line.last()) == line.skip(start));
    }
}

/// Every word of a line is non-empty and holds no whitespace.
pub proof fn lemma_words_are_words(line: Seq<char>)
    ensures
        forall|i: int| 0 <= i < words(line).len() ==> is_word(#[trigger] words(line)[i]),
    decreases line.len(),
{
    if line.len() > 0 {
        let before = line.drop_last();
        lemma_words_are_words(before);
        if !is_ascii_space(line.last()) && before.len() > 0 && !is_ascii_space(before.last()) {
            lemma_ends_in_word(before);
        }
    }
}

/// A line that ends in a word character has at least one word.
proof fn lemma_ends_in_word(line: Seq<char>)
    requires
        line.len() > 0,
        !is_ascii_space(line.last()),
    ensures
        words(line).len() > 0,
{
}

/// Joining one more part appends it, after a space unless it is the first.
pub proof fn lemma_join_push(parts: Seq<Seq<char>>, part: Seq<char>)
    ensures
        join(parts.push(part)) == (if parts.len() == 0 {
            part
        } else {
            join(parts) + seq![' '] + part
        }),
{
    assert(parts.push(part).drop_last() == parts);
}

/// A line that ends in whitespace has the words of what stands before.
proof fn lemma_closed_word(line: Seq<char>, space: char)
    requires
        is_ascii_space(space),
    ensures
        words(line.push(space)) == words(line),
{
    assert(line.push(space).drop_last() == line);
}

/// A word on its own is the one word of its line.
pub proof fn lemma_words_of_word(word: Seq<char>)
    requires
        is_word(word),
    ensures
        words(word) == seq![word],
{
    lemma_open_word(word, 0);
    assert(word.skip(0) == word);
}

/// A line splits at any of its whitespace characters: its words are the
/// words before that character, then the words after it.
pub proof fn lemma_words_split_at_space(before: Seq<char>, space: char, after: Seq<char>)
    requires
        is_ascii_space(space),
    ensures
        words(before.push(space) + after) == words(before) + words(after),
    decreases after.len(),
{
    let head = before.push(space);
    if after.len() == 0 {
        lemma_closed_word(before, space);
    } else {
        let rest = after.drop_last();
        let line = head + after;
        lemma_words_split_at_space(before, space, rest);
        assert(line.drop_last() == head + rest);
        if !is_ascii_space(after.last()) {
            if rest.len() > 0 && !is_ascii_space(rest.last()) {
                // The last character extends the last word of `rest`.
                lemma_ends_in_word(rest);
                let found = words(rest);
                assert((words(before) + found.drop_last()).push(found.last().push(after.last()))
                    == words(before) + found.drop_last().push(found.last().push(after.last())));
            } else {
                // The last character starts a word of its own.
                assert((head + rest).last() == if rest.len() > 0 {
                    rest.last()
                } else {
                    space
                });
                assert((words(before) + words(rest)).push(seq![after.last()]) == words(before)
                    + words(rest).push(seq![after.last()]));
            }
        }
    }
}

/// Splitting undoes joining: the words of joined words are those words.
pub proof fn lemma_words_of_join(parts: Seq<Seq<char>>)
    requires
        forall|i: int| 0 <= i < parts.len() ==> is_word(#[trigger] parts[i]),
    ensures
        words(join(parts)) == parts,
    decreases parts.len(),
{
    if parts.len() == 1 {
        lemma_words_of_word(parts[0]);
    } else if parts.len() > 1 {
        let before = parts.drop_last();
        lemma_words_of_join(before);
        lemma_words_of_word(parts.last());
        lemma_words_split_at_space(join(before), ' ', parts.last());
        assert(join(before) + seq![' '] == join(before).push(' '));
    }
}

/// Splits `line` at ASCII whitespace into its words, in order. Leading and
/// trailing whitespace gives no word, and neither does a run of whitespace
/// between two words.
pub fn split_words<'a>(line: &'a str) -> (parts: Vec<&'a str>)
    ensures
        texts(parts@) == words(line@),
{
    let chars = chars_of(line);
    let mut parts: Vec<&'a str> = Vec::new();
    let mut start: usize = 0;
    let mut i: usize = 0;
    while i < chars.len()
        invariant
            chars@ == line@,
            start <= i <= chars.len(),
            start == 0 || is_ascii_space(chars[start - 1]),
            forall|j: int| start <= j < i ==> !is_ascii_space(#[trigger] chars[j]),
            texts(parts@) == words(line@.take(start as int)),
        decreases chars.len() - i,
    {
        if is_space(chars[i]) {
            if start < i {
                let part = line.substring_char(start, i);
                proof {
                    lemma_open_word(line@.take(i as int), start as int);
                    assert(line@.take(i as int).take(start as int) == line@.take(start as int));
                    assert(line@.take(i as int).skip(start as int) == part@);
                }
                parts.push(part);
            }
            proof {
                assert(line@.take(i + 1).drop_last() == line@.take(i as int));
            }
            start = i + 1;
        }
        i += 1;
    }
    if start < i {
        let part = line.substring_char(start, i);
        proof {
            lemma_open_word(line@, start as int);
        }
        parts.push(part);
    } else {
        assert(line@.take(start as int) == line@);
    }
    parts
}

} // verus!
