//! What the rewriter reads from a parsed SQL statement, and the call that
//! parses.

use sqlparser::ast;
use sqlparser::dialect::GenericDialect;
use sqlparser::parser::Parser;
use vstd::prelude::*;
use crate::text::{from_chars, to_chars, views};

verus! {

/// One item of a `FROM` clause: the text of its relation, and the text of
/// the relation of each `JOIN` attached to it, in order.
#[derive(Clone, Debug, PartialEq, Eq)]
pub struct TableRef {
    pub relation: String,
    pub joins: Vec<String>,
}

/// The shape of a parsed statement, as far as rewriting depends on it.
#[derive(Clone, Debug, PartialEq, Eq)]
pub enum Statement {
    /// A query whose body is a plain `SELECT`, with the items of its `FROM`
    /// clause.
    Select(Vec<TableRef>),
    /// A query of another form: a set operation, `VALUES`, and so on.
    Query,
    /// Any statement that is no query.
    Other,
}

/// What `sqlparser` makes of an SQL text under its generic dialect: the
/// statements in order, each reduced to its [`Statement`] shape with every
/// relation rendered as text, or the parser's error message.
pub uninterp spec fn parsed_sql(sql: Seq<char>) -> Result<Vec<Statement>, String>;

/// Calls `sqlparser::parser::Parser::parse_sql` with `GenericDialect`, and
/// copies out of the syntax tree what [`Statement`] holds: which variant each
/// statement is, and the `Display` text of the relations of a `SELECT`'s
/// `FROM` items and of their joins. A parse error is handed on as its
/// `Display` text. The contract only names the outcome.
#[verifier::external_body]
pub(crate) fn parse_statements(sql: &str) -> (r: Result<Vec<Statement>, String>)
    ensures
        r == parsed_sql(sql@),
{
    let parsed = Parser::parse_sql(&GenericDialect {}, sql).map_err(|e| e.to_string())?;
    Ok(parsed.iter().map(|statement| match statement {
        ast::Statement::Query(query) => match query.body.as_select() {
            Some(select) => Statement::Select(select.from.iter().map(|item| TableRef {
                relation: item.relation.to_string(),
                joins: item.joins.iter().map(|join| join.relation.to_string()).collect(),
            }).collect()),
            None => Statement::Query,
        },
        _ => Statement::Other,
    }).collect())
}

/// The characters that end a table name in the text of a relation.
pub open spec fn is_space(c: char) -> bool {
    c == ' ' || c == '\t' || c == '\n' || c == '\r'
}

/// The first position at or after `from` where `text` has a space, or the
/// length of `text` if there is none.
pub open spec fn token_end(text: Seq<char>, from: int) -> int
    decreases text.len() - from,
{
    if from < 0 || from >= text.len() || is_space(text[from]) {
        from
    } else {
        token_end(text, from + 1)
    }
}

/// The first whitespace-delimited token of `text`: what stands before its
/// first space.
pub open spec fn first_token(text: Seq<char>) -> Seq<char> {
    text.take(token_end(text, 0))
}

/// The first whitespace-delimited token of `text`.
pub fn leading_token(text: &str) -> (r: String)
    ensures
        r@ == first_token(text@),
{
    let chars = to_chars(text);
    let mut end: usize = 0;
    while end < chars.len() && !(chars[end] == ' ' || chars[end] == '\t' || chars[end] == '\n'
        || chars[end] == '\r')
        invariant
            end <= chars.len(),
            token_end(chars@, 0) == token_end(chars@, end as int),
        decreases chars.len() - end,
    {
        end += 1;
    }
    from_chars(&chars, 0, end)
}

/// The first token of each of `texts`.
pub open spec fn first_tokens(texts: Seq<String>) -> Seq<Seq<char>> {
    texts.map_values(|s: String| first_token(s@))
}

/// The table names that one `FROM` item refers to: that of its relation,
/// then that of each join.
pub open spec fn item_names(item: TableRef) -> Seq<Seq<char>> {
    seq![first_token(item.relation@)] + first_tokens(item.joins@)
}

/// The table names that a `FROM` clause refers to, item by item.
pub open spec fn from_names(from: Seq<TableRef>) -> Seq<Seq<char>>
    decreases from.len(),
{
    if from.len() == 0 {
        Seq::empty()
    } else {
        from_names(from.drop_last()) + item_names(from.last())
    }
}

/// The table names that a statement refers to at its top level: those of the
/// `FROM` clause of a `SELECT`, and none for any other statement.
pub open spec fn table_names(statement: Statement) -> Seq<Seq<char>> {
    match statement {
        Statement::Select(from) => from_names(from@),
        _ => Seq::empty(),
    }
}

/// The table names that a `FROM` clause refers to: for each item the first
/// token of its relation, then the first token of each of its joins.
pub fn referenced_tables(from: &Vec<TableRef>) -> (names: Vec<String>)
    ensures
        views(names@) == from_names(from@),
{
    let mut names: Vec<String> = Vec::new();
    let mut i: usize = 0;
    while i < from.len()
        invariant
            i <= from.len(),
            views(names@) == from_names(from@.take(i as int)),
        decreases from.len() - i,
    {
        let item = &from[i];
        let ghost before = views(names@);
        let name = leading_token(item.relation.as_str());
        names.push(name);
        let mut j: usize = 0;
        while j < item.joins.len()
            invariant
                j <= item.joins.len(),
                views(names@) == before + seq![first_token(item.relation@)] + first_tokens(
                    item.joins@.take(j as int),
                ),
            decreases item.joins.len() - j,
        {
            let ghost joined = views(names@);
            let name = leading_token(item.joins[j].as_str());
            names.push(name);
            assert(views(names@) =~= joined.push(name@));
            assert(first_tokens(item.joins@.take(j + 1)) =~= first_tokens(
                item.joins@.take(j as int),
            ).push(name@));
            j += 1;
        }
        assert(from@.take(i + 1).drop_last() == from@.take(i as int));
        i += 1;
    }
    assert(from@.take(i as int) == from@);
    names
}

} // verus!
