//! The query that a picker's input line stands for.

use std::collections::HashSet;
use vstd::hash_map::StringHashMap;
use vstd::prelude::*;
use crate::fuzzy_match::FuzzyQuery;
use crate::laws::{lemma_addressed_is_first, lemma_parse_covers_once};
use crate::words::{
    chars_of, is_word, join, lemma_join_push, lemma_words_are_words, split_words, texts, words,
};

verus! {

/// The texts of `names`, in order.
pub open spec fn name_texts(names: Seq<String>) -> Seq<Seq<char>> {
    names.map_values(|name: String| name@)
}

/// The key and the value of `token`: what stands before its first colon and
/// what stands after it. `None` where `token` holds no colon.
pub open spec fn key_value(token: Seq<char>) -> Option<(Seq<char>, Seq<char>)> {
    match token.index_of_first(':') {
        Some(at) => Some((token.take(at), token.skip(at + 1))),
        None => None,
    }
}

/// The key of `token`: what stands before its first colon.
pub open spec fn token_key(token: Seq<char>) -> Seq<char> {
    match key_value(token) {
        Some((key, _)) => key,
        None => Seq::empty(),
    }
}

/// The column that `token` addresses and the value that it binds to it:
/// `token` reads `key:value`, `key` is not empty, and the column is the first
/// one named `key`. `None` for any other token, which is plain text.
pub open spec fn field_of(names: Seq<Seq<char>>, token: Seq<char>) -> Option<(int, Seq<char>)> {
    match key_value(token) {
        Some((key, value)) => if key.len() > 0 {
            match names.index_of_first(key) {
                Some(column) => Some((column, value)),
                None => None,
            }
        } else {
            None
        },
        None => None,
    }
}

/// Whether `token` is plain text: it addresses no column.
pub open spec fn is_plain(names: Seq<Seq<char>>, token: Seq<char>) -> bool {
    field_of(names, token) is None
}

/// Whether `token` addresses the column at index `column`.
pub open spec fn addresses(names: Seq<Seq<char>>, token: Seq<char>, column: int) -> bool {
    field_of(names, token) matches Some(bound) && bound.0 == column
}

/// The value that `token` binds to the column it addresses.
pub open spec fn bound_value(names: Seq<Seq<char>>, token: Seq<char>) -> Seq<char> {
    match field_of(names, token) {
        Some((_, value)) => value,
        None => Seq::empty(),
    }
}

/// The plain tokens among `tokens`, in order.
pub open spec fn common_words(names: Seq<Seq<char>>, tokens: Seq<Seq<char>>) -> Seq<Seq<char>> {
    tokens.filter(|token: Seq<char>| is_plain(names, token))
}

/// The values that `tokens` bind to the column at index `column`, in order.
pub open spec fn field_values(names: Seq<Seq<char>>, tokens: Seq<Seq<char>>, column: int) -> Seq<
    Seq<char>,
> {
    tokens.filter(|token: Seq<char>| addresses(names, token, column)).map_values(
        |token: Seq<char>| bound_value(names, token),
    )
}

/// The indices of the columns that none of `tokens` addresses.
pub open spec fn common_columns(names: Seq<Seq<char>>, tokens: Seq<Seq<char>>) -> Set<usize> {
    Set::new(
        |column: usize|
            column < names.len() && field_values(names, tokens, column as int).len() == 0,
    )
}

/// What a query says, without the matcher's requests.
pub struct QueryView {
    /// The text for the columns that no token addresses.
    pub common: Seq<char>,
    /// The indices of the columns that `common` applies to.
    pub common_indices: Set<usize>,
    /// For the name of each addressed column: its index and its text.
    pub fields: Map<Seq<char>, (usize, Seq<char>)>,
}

impl QueryView {
    /// Whether one of the fields has the index `column`.
    pub open spec fn has_field_at(self, column: usize) -> bool {
        exists|name: Seq<char>|
            self.fields.contains_key(name) && #[trigger] self.fields[name].0 == column
    }

    /// Whether the query splits `columns` columns between its common text
    /// and its fields: the index of each column is a common index or the
    /// index of a field, never both, and the query holds no other index.
    pub open spec fn covers_once(self, columns: nat) -> bool {
        forall|column: usize|
            {
                &&& column < columns <==> #[trigger] self.common_indices.contains(column)
                    || self.has_field_at(column)
                &&& !(self.common_indices.contains(column) && self.has_field_at(column))
            }
    }
}

/// The query that `input` stands for over the columns named `names`.
///
/// The plain words of `input` make up the common text. A column has a field
/// where at least one word addresses it, and the field's text is made up of
/// the values of those words. All other columns take the common text.
pub open spec fn parse(names: Seq<Seq<char>>, input: Seq<char>) -> QueryView {
    let tokens = words(input);
    QueryView {
        common: join(common_words(names, tokens)),
        common_indices: common_columns(names, tokens),
        fields: Map::new(
            |name: Seq<char>|
                names.index_of_first(name) matches Some(column) && field_values(
                    names,
                    tokens,
                    column,
                ).len() > 0,
            |name: Seq<char>|
                {
                    let column = names.index_of_first(name)->0;
                    (column as usize, join(field_values(names, tokens, column)))
                },
        ),
    }
}

/// Splits `token` at its first colon into what stands before and after it.
pub fn split_key<'a>(token: &'a str) -> (parts: Option<(&'a str, &'a str)>)
    ensures
        (match parts {
            Some((key, value)) => key_value(token@) == Some((key@, value@)),
            None => key_value(token@) is None,
        }),
{
    let chars = chars_of(token);
    let mut at: usize = 0;
    while at < chars.len()
        invariant
            chars@ == token@,
            at <= chars.len(),
            forall|j: int| 0 <= j < at ==> chars[j] != ':',
        decreases chars.len() - at,
    {
        if chars[at] == ':' {
            let key = token.substring_char(0, at);
            let value = token.substring_char(at + 1, chars.len());
            proof {
                token@.index_of_first_ensures(':');
            }
            return Some((key, value));
        }
        at += 1;
    }
    proof {
        token@.index_of_first_ensures(':');
    }
    None
}

/// The index of the first of `names` that reads `key`.
pub fn position(names: &[String], key: &str) -> (found: Option<usize>)
    ensures
        (match found {
            Some(column) => name_texts(names@).index_of_first(key@) == Some(column as int),
            None => name_texts(names@).index_of_first(key@) is None,
        }),
{
    let wanted = key.to_owned();
    let mut column: usize = 0;
    while column < names.len()
        invariant
            wanted@ == key@,
            column <= names.len(),
            forall|j: int| 0 <= j < column ==> name_texts(names@)[j] != key@,
        decreases names.len() - column,
    {
        if names[column] == wanted {
            proof {
                name_texts(names@).index_of_first_ensures(key@);
                assert(name_texts(names@)[column as int] == key@);
            }
            return Some(column);
        }
        column += 1;
    }
    proof {
        name_texts(names@).index_of_first_ensures(key@);
    }
    None
}

/// The column that `token` addresses, with the value that it binds to it.
pub fn field_target<'a>(field_names: &[String], token: &'a str) -> (target: Option<
    (usize, &'a str),
>)
    ensures
        (match target {
            Some((column, value)) => field_of(name_texts(field_names@), token@) == Some(
                (column as int, value@),
            ),
            None => field_of(name_texts(field_names@), token@) is None,
        }),
{
    match split_key(token) {
        Some((key, value)) => if key.is_empty() {
            None
        } else {
            match position(field_names, key) {
                Some(column) => Some((column, value)),
                None => None,
            }
        },
        None => None,
    }
}

/// A parsed picker query.
pub struct Query {
    /// The text that applies to every column without a field of its own,
    /// with the request to match it.
    pub common: (String, FuzzyQuery),
    /// The indices of the columns that the common text applies to.
    pub common_indices: HashSet<usize>,
    /// For the name of each column that the input addresses: the column's
    /// index, the text for that column and the request to match it.
    pub fields: StringHashMap<(usize, String, FuzzyQuery)>,
}

impl View for Query {
    type V = QueryView;

    open spec fn view(&self) -> QueryView {
        QueryView {
            common: self.common.0@,
            common_indices: self.common_indices@,
            fields: self.fields@.map_values(|field: (usize, String, FuzzyQuery)| (field.0, field.1@)),
        }
    }
}

impl Query {
    /// Whether each request asks for the text that it is stored with.
    pub open spec fn wf(&self) -> bool {
        &&& self.common.1@ == self.common.0@
        &&& forall|name: Seq<char>| #[trigger]
            self.fields@.contains_key(name) ==> self.fields@[name].2@ == self.fields@[name].1@
    }

    /// Parses `input` over the columns named `field_names`.
    ///
    /// The input is split into words at whitespace. A word that reads
    /// `key:value`, with a `key` that names a column, binds `value` to that
    /// column; several values for one column are joined by single spaces, in
    /// the order they stand in. Every other word, one with an unknown or an
    /// empty key too, goes to the common text as it stands, joined in the same
    /// way. The common text applies to the columns that no word addresses.
    pub fn new(field_names: &[String], input: &str) -> (query: Query)
        ensures
            query@ == parse(name_texts(field_names@), input@),
            query@.covers_once(field_names@.len()),
            query.wf(),
    {
        let ghost names = name_texts(field_names@);
        let tokens = split_words(input);
        let mut common = String::new();
        let mut common_indices = all_columns(field_names.len());
        let mut bound = no_values(field_names.len());
        proof {
            lemma_words_are_words(input@);
        }
        let mut done: usize = 0;
        while done < tokens.len()
            invariant
                names == name_texts(field_names@),
                texts(tokens@) == words(input@),
                forall|i: int|
                    0 <= i < texts(tokens@).len() ==> is_word(#[trigger] texts(tokens@)[i]),
                done <= tokens.len(),
                common@ == join(common_words(names, texts(tokens@).take(done as int))),
                common@.len() == 0 <==> common_words(
                    names,
                    texts(tokens@).take(done as int),
                ).len() == 0,
                holds_values(bound@, names, texts(tokens@).take(done as int)),
                common_indices@ == common_columns(names, texts(tokens@).take(done as int)),
            decreases tokens.len() - done,
        {
            let token = tokens[done];
            let ghost seen = texts(tokens@).take(done as int);
            proof {
                assert(texts(tokens@).take(done + 1) == seen.push(token@));
                assert(is_word(texts(tokens@)[done as int]));
                lemma_common_words_push(names, seen, token@);
                lemma_join_push(common_words(names, seen), token@);
                reveal_strlit(" ");
            }
            match field_target(field_names, token) {
                Some((column, value)) => {
                    proof {
                        names.index_of_first_ensures(token_key(token@));
                        lemma_join_push(field_values(names, seen, column as int), value@);
                    }
                    match &mut bound[column] {
                        Some(text) => {
                            // A further mention of the field: append to what it has.
                            text.append(" ");
                            text.append(value);
                        },
                        slot => {
                            // The first mention: the column leaves the common text.
                            *slot = Some(value.to_owned());
                            common_indices.remove(&column);
                        },
                    }
                },
                None => {
                    if !common.as_str().is_empty() {
                        common.append(" ");
                    }
                    common.append(token);
                },
            }
            assert forall|j: int| 0 <= j < bound.len() implies holds_value(
                #[trigger] bound[j],
                field_values(names, seen.push(token@), j),
            ) by {
                lemma_field_values_push(names, seen, token@, j);
                if bound[j] is Some {
                    assert(bound[j]->0@ == join(field_values(names, seen.push(token@), j)));
                }
            }
            assert forall|j: usize| #[trigger]
                common_indices@.contains(j) <==> common_columns(
                    names,
                    seen.push(token@),
                ).contains(j) by {
                lemma_field_values_push(names, seen, token@, j as int);
            }
            done += 1;
        }
        assert(texts(tokens@).take(done as int) == words(input@));
        let fields = collect_fields(field_names, &bound, Ghost(words(input@)));
        let request = FuzzyQuery::new(common.as_str());
        let query = Query { common: (common, request), common_indices, fields };
        proof {
            assert forall|name: Seq<char>| names.index_of_first(name) is Some implies 0
                <= names.index_of_first(name)->0 < names.len() by {
                names.index_of_first_ensures(name);
            }
            assert(query@.fields =~= parse(names, input@).fields);
            lemma_parse_covers_once(names, input@);
        }
        query
    }

    /// Whether the query asks for nothing: no common text and no field.
    pub fn is_empty(&self) -> (empty: bool)
        ensures
            empty == (self@.common.len() == 0 && self@.fields.is_empty()),
    {
        self.common.0.as_str().is_empty() && self.fields.is_empty()
    }

    /// The text that applies to the column named `field`: the text of its
    /// own field where it has one, else the common text.
    pub fn value(&self, field: &str) -> (text: &String)
        ensures
            text@ == (if self@.fields.contains_key(field@) {
                self@.fields[field@].1
            } else {
                self@.common
            }),
    {
        match self.fields.get(field) {
            Some(bound) => &bound.1,
            None => &self.common.0,
        }
    }
}

impl Default for Query {
    /// The query of an empty line over no columns.
    fn default() -> (query: Query)
        ensures
            query@.common.len() == 0,
            query@.common_indices.is_empty(),
            query@.fields.is_empty(),
            query.wf(),
    {
        let common = String::new();
        let request = FuzzyQuery::new(common.as_str());
        Query {
            common: (common, request),
            common_indices: HashSet::new(),
            fields: StringHashMap::new(),
        }
    }
}

/// Whether `slot` holds the text that `values` make up, and nothing where
/// there is no value.
spec fn holds_value(slot: Option<String>, values: Seq<Seq<char>>) -> bool {
    match slot {
        Some(text) => values.len() > 0 && text@ == join(values),
        None => values.len() == 0,
    }
}

/// Whether `bound` holds, column by column, the text that `tokens` bind to
/// the column, and nothing for a column that none of them addresses.
spec fn holds_values(bound: Seq<Option<String>>, names: Seq<Seq<char>>, tokens: Seq<Seq<char>>) -> bool {
    &&& bound.len() == names.len()
    &&& forall|column: int|
        0 <= column < bound.len() ==> holds_value(
            #[trigger] bound[column],
            field_values(names, tokens, column),
        )
}

/// The indices of `columns` columns: all of them below `columns`.
fn all_columns(columns: usize) -> (indices: HashSet<usize>)
    ensures
        indices@ == Set::new(|column: usize| column < columns),
{
    let mut indices: HashSet<usize> = HashSet::new();
    let mut column: usize = 0;
    while column < columns
        invariant
            column <= columns,
            indices@ == Set::new(|j: usize| j < column),
        decreases columns - column,
    {
        indices.insert(column);
        column += 1;
    }
    indices
}

/// No value yet for any of `columns` columns.
fn no_values(columns: usize) -> (bound: Vec<Option<String>>)
    ensures
        bound.len() == columns,
        forall|column: int| 0 <= column < columns ==> bound[column] is None,
{
    let mut bound: Vec<Option<String>> = Vec::new();
    while bound.len() < columns
        invariant
            bound.len() <= columns,
            forall|column: int| 0 <= column < bound.len() ==> bound[column] is None,
        decreases columns - bound.len(),
    {
        bound.push(None);
    }
    bound
}

/// The fields of a query: for each column that holds a value in `bound`, an
/// entry under the column's name.
fn collect_fields(
    field_names: &[String],
    bound: &Vec<Option<String>>,
    Ghost(tokens): Ghost<Seq<Seq<char>>>,
) -> (fields: StringHashMap<(usize, String, FuzzyQuery)>)
    requires
        holds_values(bound@, name_texts(field_names@), tokens),
    ensures
        forall|name: Seq<char>| #[trigger]
            fields@.contains_key(name) <==> (name_texts(field_names@).index_of_first(name) matches Some(
                column,
            ) && field_values(name_texts(field_names@), tokens, column).len() > 0),
        forall|name: Seq<char>| #[trigger]
            fields@.contains_key(name) ==> ({
                let column = name_texts(field_names@).index_of_first(name)->0;
                &&& fields@[name].0 == column
                &&& fields@[name].1@ == join(field_values(name_texts(field_names@), tokens, column))
                &&& fields@[name].2@ == fields@[name].1@
            }),
{
    let ghost names = name_texts(field_names@);
    let mut fields: StringHashMap<(usize, String, FuzzyQuery)> = StringHashMap::new();
    let mut column: usize = 0;
    while column < field_names.len()
        invariant
            names == name_texts(field_names@),
            column <= field_names.len(),
            holds_values(bound@, names, tokens),
            forall|name: Seq<char>| #[trigger]
                fields@.contains_key(name) <==> (names.index_of_first(name) matches Some(j) && 0
                    <= j < column && field_values(names, tokens, j).len() > 0),
            forall|name: Seq<char>| #[trigger]
                fields@.contains_key(name) ==> {
                    let j = names.index_of_first(name)->0;
                    &&& fields@[name].0 == j
                    &&& fields@[name].1@ == join(field_values(names, tokens, j))
                    &&& fields@[name].2@ == fields@[name].1@
                },
        decreases field_names.len() - column,
    {
        match &bound[column] {
            Some(text) => {
                proof {
                    lemma_addressed_is_first(names, tokens, column as int);
                    assert forall|name: Seq<char>| name != names[column as int] implies names.index_of_first(
                        name,
                    ) != Some(column as int) by {
                        names.index_of_first_ensures(name);
                    }
                }
                fields.insert(
                    field_names[column].clone(),
                    (column, text.clone(), FuzzyQuery::new(text.as_str())),
                );
            },
            None => {},
        }
        column += 1;
    }
    proof {
        assert forall|name: Seq<char>| names.index_of_first(name) is Some implies 0
            <= names.index_of_first(name)->0 < names.len() by {
            names.index_of_first_ensures(name);
        }
    }
    fields
}

/// Filtering keeps a last token or drops it, and leaves the rest as it was.
proof fn lemma_common_words_push(names: Seq<Seq<char>>, tokens: Seq<Seq<char>>, token: Seq<char>)
    ensures
        common_words(names, tokens.push(token)) == (if is_plain(names, token) {
            common_words(names, tokens).push(token)
        } else {
            common_words(names, tokens)
        }),
{
    reveal(Seq::filter);
    assert(tokens.push(token).drop_last() == tokens);
}

/// A last token adds its value to the column it addresses, and to no other.
proof fn lemma_field_values_push(
    names: Seq<Seq<char>>,
    tokens: Seq<Seq<char>>,
    token: Seq<char>,
    column: int,
)
    ensures
        field_values(names, tokens.push(token), column) == (if addresses(names, token, column) {
            field_values(names, tokens, column).push(bound_value(names, token))
        } else {
            field_values(names, tokens, column)
        }),
{
    reveal(Seq::filter);
    assert(tokens.push(token).drop_last() == tokens);
}

} // verus!
