//! What holds of every parsed query.

use vstd::prelude::*;
use crate::query::{
    addresses, common_words, field_of, field_values, is_plain, parse, token_key,
};
use crate::words::{
    is_ascii_space, is_word, join, lemma_words_are_words, lemma_words_of_join, words,
};

verus! {

/// A column that some token addresses is the first of its name.
pub proof fn lemma_addressed_is_first(names: Seq<Seq<char>>, tokens: Seq<Seq<char>>, column: int)
    requires
        field_values(names, tokens, column).len() > 0,
    ensures
        0 <= column < names.len(),
        names.index_of_first(names[column]) == Some(column),
{
    let addressing = tokens.filter(|token: Seq<char>| addresses(names, token, column));
    tokens.lemma_filter_pred(|token: Seq<char>| addresses(names, token, column), 0);
    let token = addressing[0];
    names.index_of_first_ensures(token_key(token));
}

/// A parsed query splits the columns between its common text and its
/// fields, whatever the names and the input are: the index of each column is
/// a common index or the index of a field, never both.
pub proof fn lemma_parse_covers_once(names: Seq<Seq<char>>, input: Seq<char>)
    requires
        names.len() <= usize::MAX,
    ensures
        parse(names, input).covers_once(names.len()),
{
    let query = parse(names, input);
    assert forall|column: usize|
        {
            &&& column < names.len() <==> #[trigger] query.common_indices.contains(column)
                || query.has_field_at(column)
            &&& !(query.common_indices.contains(column) && query.has_field_at(column))
        } by {
        if column < names.len() && field_values(names, words(input), column as int).len() > 0 {
            lemma_addressed_is_first(names, words(input), column as int);
            let name = names[column as int];
            assert(query.fields.contains_key(name) && query.fields[name].0 == column);
        }
        if query.has_field_at(column) {
            let name = choose|name: Seq<char>|
                query.fields.contains_key(name) && #[trigger] query.fields[name].0 == column;
            names.index_of_first_ensures(name);
        }
    }
}

/// Every index that a query holds is the index of a column, and every field
/// is keyed by the name of the column that its index gives.
pub proof fn lemma_query_names_columns(names: Seq<Seq<char>>, input: Seq<char>)
    requires
        names.len() <= usize::MAX,
    ensures
        forall|column: usize| #[trigger]
            parse(names, input).common_indices.contains(column) ==> column < names.len(),
        forall|name: Seq<char>| #[trigger]
            parse(names, input).fields.contains_key(name) ==> ({
                let column = parse(names, input).fields[name].0;
                &&& column < names.len()
                &&& names[column as int] == name
                &&& names.index_of_first(name) == Some(column as int)
            }),
{
    assert forall|name: Seq<char>| #[trigger]
        parse(names, input).fields.contains_key(name) implies {
        let column = parse(names, input).fields[name].0;
        &&& column < names.len()
        &&& names[column as int] == name
        &&& names.index_of_first(name) == Some(column as int)
    } by {
        names.index_of_first_ensures(name);
    }
}

/// Over distinct column names, the columns that take the common text and
/// the columns whose name keys a field are all the columns between them, and
/// no column is both.
pub proof fn lemma_columns_covered_once(names: Seq<Seq<char>>, input: Seq<char>)
    requires
        names.no_duplicates(),
    ensures
        ({
            let query = parse(names, input);
            let keyed = Set::new(
                |column: usize|
                    column < names.len() && query.fields.contains_key(names[column as int]),
            );
            &&& query.common_indices.union(keyed) == Set::new(|column: usize| column < names.len())
            &&& query.common_indices.disjoint(keyed)
        }),
{
    let query = parse(names, input);
    let keyed = Set::new(
        |column: usize| column < names.len() && query.fields.contains_key(names[column as int]),
    );
    assert forall|column: usize| column < names.len() implies (query.common_indices.contains(column)
        <==> !keyed.contains(column)) by {
        names.index_of_first_ensures(names[column as int]);
    }
}

/// A filter that every part passes keeps all parts.
proof fn lemma_filter_keeps_all(parts: Seq<Seq<char>>, keep: spec_fn(Seq<char>) -> bool)
    requires
        forall|i: int| 0 <= i < parts.len() ==> keep(#[trigger] parts[i]),
    ensures
        parts.filter(keep) == parts,
    decreases parts.len(),
{
    reveal(Seq::filter);
    if parts.len() > 0 {
        lemma_filter_keeps_all(parts.drop_last(), keep);
    }
}

/// The common words of a line are words of that line, and plain.
proof fn lemma_common_words_are_plain_words(names: Seq<Seq<char>>, input: Seq<char>)
    ensures
        forall|i: int|
            0 <= i < common_words(names, words(input)).len() ==> ({
                &&& is_word(#[trigger] common_words(names, words(input))[i])
                &&& is_plain(names, common_words(names, words(input))[i])
            }),
{
    let tokens = words(input);
    let plain = |token: Seq<char>| is_plain(names, token);
    lemma_words_are_words(input);
    assert forall|i: int| 0 <= i < tokens.filter(plain).len() implies {
        &&& is_word(#[trigger] tokens.filter(plain)[i])
        &&& is_plain(names, tokens.filter(plain)[i])
    } by {
        tokens.lemma_filter_pred(plain, i);
        tokens.lemma_filter_contains_rev(plain, tokens.filter(plain)[i]);
    }
}

/// Parsing normalises the common text: parsed again on its own, over no
/// columns or over the same columns, it comes back as it is, with no field
/// beside it. It neither starts nor ends in whitespace.
pub proof fn lemma_common_is_stable(names: Seq<Seq<char>>, input: Seq<char>)
    ensures
        ({
            let common = parse(names, input).common;
            &&& parse(Seq::empty(), common).common == common
            &&& parse(names, common).common == common
            &&& parse(Seq::empty(), common).fields.is_empty()
            &&& parse(names, common).fields.is_empty()
            &&& common.len() > 0 ==> !is_ascii_space(common.first()) && !is_ascii_space(
                common.last(),
            )
        }),
{
    let plain_words = common_words(names, words(input));
    let common = join(plain_words);
    let none = Seq::<Seq<char>>::empty();
    lemma_common_words_are_plain_words(names, input);
    lemma_words_of_join(plain_words);
    assert forall|i: int| 0 <= i < plain_words.len() implies is_plain(
        none,
        #[trigger] plain_words[i],
    ) by {
        none.index_of_first_ensures(token_key(plain_words[i]));
    }
    lemma_filter_keeps_all(plain_words, |token: Seq<char>| is_plain(none, token));
    lemma_filter_keeps_all(plain_words, |token: Seq<char>| is_plain(names, token));
    lemma_no_field_among_plain(none, plain_words);
    lemma_no_field_among_plain(names, plain_words);
    lemma_join_has_no_margin(plain_words);
}

/// A parsed query is empty, with no common text and no field, exactly where
/// the input holds no word.
pub proof fn lemma_empty_without_words(names: Seq<Seq<char>>, input: Seq<char>)
    ensures
        parse(names, input).common.len() == 0 && parse(names, input).fields.is_empty()
            <==> words(input).len() == 0,
{
    let tokens = words(input);
    let query = parse(names, input);
    let plain = |token: Seq<char>| is_plain(names, token);
    if tokens.len() == 0 {
        assert forall|column: int| (#[trigger] field_values(names, tokens, column)).len() == 0 by {
            tokens.lemma_filter_len(|token: Seq<char>| addresses(names, token, column));
        }
        tokens.lemma_filter_len(plain);
    } else {
        let first = tokens[0];
        if is_plain(names, first) {
            tokens.lemma_filter_contains(plain, 0);
            lemma_common_words_are_plain_words(names, input);
            lemma_join_has_no_margin(common_words(names, tokens));
        } else {
            let column = match field_of(names, first) {
                Some((column, _)) => column,
                None => 0,
            };
            tokens.lemma_filter_contains(|token: Seq<char>| addresses(names, token, column), 0);
            lemma_addressed_is_first(names, tokens, column);
            assert(query.fields.contains_key(names[column]));
        }
    }
}

/// Plain tokens bind no value to any column.
proof fn lemma_no_field_among_plain(names: Seq<Seq<char>>, tokens: Seq<Seq<char>>)
    requires
        forall|i: int| 0 <= i < tokens.len() ==> is_plain(names, #[trigger] tokens[i]),
    ensures
        forall|column: int| (#[trigger] field_values(names, tokens, column)).len() == 0,
{
    assert forall|column: int| (#[trigger] field_values(names, tokens, column)).len() == 0 by {
        let addressing = |token: Seq<char>| addresses(names, token, column);
        if tokens.filter(addressing).len() > 0 {
            tokens.lemma_filter_pred(addressing, 0);
            tokens.lemma_filter_contains_rev(addressing, tokens.filter(addressing)[0]);
        }
    }
}

/// Joined words neither start nor end in whitespace.
proof fn lemma_join_has_no_margin(parts: Seq<Seq<char>>)
    requires
        forall|i: int| 0 <= i < parts.len() ==> is_word(#[trigger] parts[i]),
    ensures
        parts.len() > 0 ==> join(parts).len() > 0 && !is_ascii_space(join(parts).first())
            && !is_ascii_space(join(parts).last()),
    decreases parts.len(),
{
    if parts.len() > 1 {
        lemma_join_has_no_margin(parts.drop_last());
    }
}

} // verus!
