//! The execution engine's core: the catalog, the rewriting of statements
//! against it, and the statements that prepare a connection.
//!
//! The connection itself belongs to the driver. This type says what to run
//! on it; it runs nothing.

use vstd::prelude::*;
use crate::catalog::{
    lemma_named_holds_each_match, lemma_named_holds_only_matches, lemma_named_of_unregistered,
    lemma_rank_grows, named, rank, Catalog, Mapping,
};
use crate::error::Error;
use crate::rewriter::{
    lemma_occurrence_is_substituted, lemma_other_identifier_is_kept,
    lemma_without_occurrence_unchanged, rewrite, rewrite_range, rewritten, scan_expr,
};
use crate::sql::{parse_statements, parsed_sql, referenced_tables, table_names, Statement};
use crate::text::{concat2, concat3, has_prefix, skip_chars};
use crate::words::{is_identifier, word_at};

verus! {

/// The credentials and settings for object storage, as the ambient
/// configuration gave them.
#[derive(Clone, Debug, PartialEq, Eq)]
pub struct AwsConfig {
    pub access_key_id: String,
    pub secret_access_key: String,
    pub region: String,
    /// An endpoint to use in place of the provider's own.
    pub endpoint_url: Option<String>,
}

/// One step in preparing a connection: statements to run as a batch, and
/// what to report if they fail.
#[derive(Clone, Debug, PartialEq, Eq)]
pub struct SetupStep {
    pub statements: String,
    pub failure: String,
}

impl SetupStep {
    /// The error to report where the step failed for the reason `cause`:
    /// an `Execution` error that says `<failure>: <cause>`.
    pub fn error(&self, cause: &str) -> (e: Error)
        ensures
            e matches Error::Execution(m) && m@ == self.failure@ + ": "@ + cause@,
    {
        Error::Execution(concat3(self.failure.as_str(), ": ", cause))
    }
}

/// `url` without a leading `http://` or `https://`.
pub open spec fn without_protocol(url: Seq<char>) -> Seq<char> {
    if "https://"@.is_prefix_of(url) {
        url.skip("https://"@.len() as int)
    } else if "http://"@.is_prefix_of(url) {
        url.skip("http://"@.len() as int)
    } else {
        url
    }
}

/// The line of the secret that names the endpoint; empty without one.
pub open spec fn endpoint_clause(endpoint_url: Option<Seq<char>>) -> Seq<char> {
    match endpoint_url {
        Some(url) => "Endpoint '"@ + without_protocol(url) + "',"@,
        None => Seq::empty(),
    }
}

/// The line of the secret that turns TLS on or off: on for an `https://`
/// endpoint, off for any other, and empty without an endpoint.
pub open spec fn ssl_clause(endpoint_url: Option<Seq<char>>) -> Seq<char> {
    match endpoint_url {
        Some(url) => if "https://"@.is_prefix_of(url) {
            "USE_SSL true"@
        } else {
            "USE_SSL false"@
        },
        None => Seq::empty(),
    }
}

/// The statement that creates the S3 secret for a connection.
pub open spec fn secret_query(
    access_key_id: Seq<char>,
    secret_access_key: Seq<char>,
    region: Seq<char>,
    endpoint_url: Option<Seq<char>>,
) -> Seq<char> {
    "\n        CREATE SECRET secret1 (\n            TYPE S3,\n            KEY_ID '"@
        + access_key_id + "',\n            SECRET '"@ + secret_access_key
        + "',\n            REGION '"@ + region + "',\n            "@ + endpoint_clause(
        endpoint_url,
    ) + "\n            URL_STYLE 'path',\n            "@ + ssl_clause(endpoint_url)
        + "\n        );\n        "@
}

/// The view of an optional string.
pub open spec fn endpoint_of(config: AwsConfig) -> Option<Seq<char>> {
    match config.endpoint_url {
        Some(url) => Some(url@),
        None => None,
    }
}

/// What rewriting makes of `sql` when `statement` is what it parsed to:
/// the text with the catalog's entries for the statement's table names
/// substituted, or the message of the error for a statement that is no plain
/// `SELECT`.
pub open spec fn rewrite_of(sql: Seq<char>, statement: Statement, catalog: Seq<Mapping>) -> Result<
    Seq<char>,
    Seq<char>,
> {
    match statement {
        Statement::Select(_) => Ok(rewritten(sql, named(catalog, table_names(statement)))),
        _ => Err("Expected a SELECT statement in the query."@),
    }
}

/// What rewriting makes of `sql` when parsing had the outcome `parsed`: the
/// parser's message where it failed, an error where it found no statement,
/// and else [`rewrite_of`] the first statement.
pub open spec fn rewrite_parsed(
    sql: Seq<char>,
    parsed: Result<Vec<Statement>, String>,
    catalog: Seq<Mapping>,
) -> Result<Seq<char>, Seq<char>> {
    match parsed {
        Ok(statements) => if statements@.len() == 0 {
            Err("Expected a statement in the query."@)
        } else {
            rewrite_of(sql, statements@[0], catalog)
        },
        Err(message) => Err(message@),
    }
}

/// Whether `r` is `expected` as a result of rewriting: the same text, or a
/// `Parse` error with the same message.
pub open spec fn is_rewrite(
    r: Result<String, Error>,
    expected: Result<Seq<char>, Seq<char>>,
) -> bool {
    match expected {
        Ok(text) => r matches Ok(s) && s@ == text,
        Err(message) => r matches Err(Error::Parse(m)) && m@ == message,
    }
}

/// A statement whose tables are not registered is left as it is.
///
/// Let `statement` be a plain `SELECT`, and let no entry of the catalog
/// have a name that the statement's `FROM` clause or joins refer to. Then
/// rewriting returns `sql` character for character.
pub proof fn lemma_unregistered_tables_change_nothing(
    sql: Seq<char>,
    statement: Statement,
    catalog: Seq<Mapping>,
)
    requires
        statement is Select,
        forall|i: int|
            0 <= i < catalog.len() ==> !table_names(statement).contains(
                #[trigger] catalog[i].name,
            ),
    ensures
        rewrite_of(sql, statement, catalog) == Ok::<Seq<char>, Seq<char>>(sql),
{
    lemma_named_of_unregistered(catalog, table_names(statement));
    lemma_without_occurrence_unchanged(sql, Seq::<Mapping>::empty());
}

/// Every whole-word occurrence of a registered table is replaced by the
/// scan of its location.
///
/// Let `statement` be a plain `SELECT` that refers, in its `FROM` clause or
/// a join, to the name of entry `i` of the catalog, and let that entry be
/// the latest with its name. Let every registered name that the statement
/// refers to be an identifier. Then wherever that name occurs in `sql` as a
/// whole word, the rewritten text is what is written before the occurrence,
/// then the scan expression of the entry's location, then what is written
/// behind the occurrence.
pub proof fn lemma_registered_table_is_substituted(
    sql: Seq<char>,
    statement: Statement,
    catalog: Seq<Mapping>,
    i: int,
    p: int,
)
    requires
        statement is Select,
        0 <= i < catalog.len(),
        table_names(statement).contains(catalog[i].name),
        forall|j: int| i < j < catalog.len() ==> (#[trigger] catalog[j]).name != catalog[i].name,
        forall|j: int|
            0 <= j < catalog.len() && table_names(statement).contains(catalog[j].name)
                ==> is_identifier(#[trigger] catalog[j].name),
        word_at(sql, catalog[i].name, p),
    ensures
        rewrite_of(sql, statement, catalog) == Ok::<Seq<char>, Seq<char>>(
            rewrite_range(sql, named(catalog, table_names(statement)), 0, p) + scan_expr(
                catalog[i].location,
            ) + rewrite_range(
                sql,
                named(catalog, table_names(statement)),
                p + catalog[i].name.len(),
                sql.len() as int,
            ),
        ),
{
    let names = table_names(statement);
    let found = named(catalog, names);
    let r = rank(catalog, names, i);
    lemma_named_holds_each_match(catalog, names, i);
    assert forall|k: int| 0 <= k < found.len() implies is_identifier(#[trigger] found[k].name) by {
        lemma_named_holds_only_matches(catalog, names, k);
    }
    assert forall|k: int| r < k < found.len() implies (#[trigger] found[k]).name
        != found[r].name by {
        lemma_named_holds_only_matches(catalog, names, k);
        let j = choose|j: int|
            0 <= j < catalog.len() && names.contains(catalog[j].name) && found[k] == catalog[j]
                && #[trigger] rank(catalog, names, j) == k;
        if j < i {
            lemma_rank_grows(catalog, names, j, i);
        }
    }
    lemma_occurrence_is_substituted(sql, found, r, p);
}

/// A table that is not registered is kept as written, whatever else the
/// statement refers to, and so is any other identifier.
///
/// Let `statement` be a plain `SELECT`, and let every registered name that
/// it refers to be an identifier. Let `other` be an identifier that is the
/// name of no entry of the catalog and occurs in `sql` at `p` as a whole
/// word. Then the rewritten text is what is written before `p`, then
/// `other` itself, then what is written behind it.
pub proof fn lemma_unregistered_name_is_kept(
    sql: Seq<char>,
    statement: Statement,
    catalog: Seq<Mapping>,
    other: Seq<char>,
    p: int,
)
    requires
        statement is Select,
        forall|j: int|
            0 <= j < catalog.len() && table_names(statement).contains(catalog[j].name)
                ==> is_identifier(#[trigger] catalog[j].name),
        is_identifier(other),
        forall|j: int| 0 <= j < catalog.len() ==> (#[trigger] catalog[j]).name != other,
        word_at(sql, other, p),
    ensures
        rewrite_of(sql, statement, catalog) == Ok::<Seq<char>, Seq<char>>(
            rewrite_range(sql, named(catalog, table_names(statement)), 0, p) + other
                + rewrite_range(
                sql,
                named(catalog, table_names(statement)),
                p + other.len(),
                sql.len() as int,
            ),
        ),
{
    let names = table_names(statement);
    let found = named(catalog, names);
    assert forall|k: int| 0 <= k < found.len() implies is_identifier(#[trigger] found[k].name)
        && found[k].name != other by {
        lemma_named_holds_only_matches(catalog, names, k);
    }
    lemma_other_identifier_is_kept(sql, found, other, p);
}

/// The core of the execution engine.
pub struct DuckDB {
    catalog: Catalog,
}

impl View for DuckDB {
    type V = Seq<Mapping>;

    /// The entries of the engine's catalog, in the order of registration.
    closed spec fn view(&self) -> Seq<Mapping> {
        self.catalog@
    }
}

impl DuckDB {
    /// An engine with an empty catalog.
    pub fn new() -> (engine: DuckDB)
        ensures
            engine@ == Seq::<Mapping>::empty(),
    {
        DuckDB { catalog: Catalog::new() }
    }

    /// `url` without a leading `http://` or `https://`.
    pub fn strip_protocol(url: &str) -> (r: String)
        ensures
            r@ == without_protocol(url@),
    {
        proof {
            reveal_strlit("https://");
            reveal_strlit("http://");
        }
        if has_prefix(url, "https://") {
            skip_chars(url, 8)
        } else if has_prefix(url, "http://") {
            skip_chars(url, 7)
        } else {
            String::from_str(url)
        }
    }

    /// The statement that creates the S3 secret from `config`.
    pub fn query_for_setup_aws_conn(config: &AwsConfig) -> (query: String)
        ensures
            query@ == secret_query(
                config.access_key_id@,
                config.secret_access_key@,
                config.region@,
                endpoint_of(*config),
            ),
    {
        let mut query = String::from_str(
            "\n        CREATE SECRET secret1 (\n            TYPE S3,\n            KEY_ID '",
        );
        query.append(config.access_key_id.as_str());
        query.append("',\n            SECRET '");
        query.append(config.secret_access_key.as_str());
        query.append("',\n            REGION '");
        query.append(config.region.as_str());
        query.append("',\n            ");
        match &config.endpoint_url {
            Some(endpoint) => {
                query.append("Endpoint '");
                query.append(Self::strip_protocol(endpoint.as_str()).as_str());
                query.append("',");
                query.append("\n            URL_STYLE 'path',\n            ");
                if has_prefix(endpoint.as_str(), "https://") {
                    query.append("USE_SSL true");
                } else {
                    query.append("USE_SSL false");
                }
            },
            None => {
                query.append("\n            URL_STYLE 'path',\n            ");
            },
        }
        query.append("\n        );\n        ");
        assert(query@ =~= secret_query(
            config.access_key_id@,
            config.secret_access_key@,
            config.region@,
            endpoint_of(*config),
        ));
        query
    }

    /// The steps that prepare a fresh connection, in the order in which
    /// they are to run: load the extensions, create the table that mirrors
    /// the catalog, create the S3 secret.
    pub fn setup_steps(config: &AwsConfig) -> (steps: Vec<SetupStep>)
        ensures
            steps@.len() == 3,
            steps@[0].statements@ == "INSTALL parquet; LOAD parquet; INSTALL delta; LOAD delta;"@,
            steps@[0].failure@ == "Failed to execute batch for libraries"@,
            steps@[1].statements@
                == "CREATE TABLE delta_mapping (delta_path TEXT, duck_table TEXT)"@,
            steps@[1].failure@ == "Failed to create table"@,
            steps@[2].statements@ == secret_query(
                config.access_key_id@,
                config.secret_access_key@,
                config.region@,
                endpoint_of(*config),
            ),
            steps@[2].failure@ == "Failed to setup AWS connection"@,
    {
        let mut steps: Vec<SetupStep> = Vec::new();
        steps.push(
            SetupStep {
                statements: String::from_str(
                    "INSTALL parquet; LOAD parquet; INSTALL delta; LOAD delta;",
                ),
                failure: String::from_str("Failed to execute batch for libraries"),
            },
        );
        steps.push(
            SetupStep {
                statements: String::from_str(
                    "CREATE TABLE delta_mapping (delta_path TEXT, duck_table TEXT)",
                ),
                failure: String::from_str("Failed to create table"),
            },
        );
        steps.push(
            SetupStep {
                statements: Self::query_for_setup_aws_conn(config),
                failure: String::from_str("Failed to setup AWS connection"),
            },
        );
        steps
    }

    /// Registers `duck_table` as the name of the table stored at
    /// `delta_path`. Later statements see the entry at once.
    pub fn delta_table_mapping(&mut self, delta_path: &str, duck_table: &str) -> (r: Result<
        (),
        Error,
    >)
        ensures
            r is Ok,
            final(self)@ == old(self)@.push(Mapping { name: duck_table@, location: delta_path@ }),
    {
        self.catalog.register(duck_table, delta_path)
    }

    /// Rewrites `sql`, given the statement it parsed to: looks up the table
    /// names of the statement's `FROM` clause and joins in the catalog and
    /// substitutes the entries found. Names without an entry stay as they
    /// are. A statement that is no plain `SELECT` is refused.
    pub fn rewrite_statement(&self, sql: &str, statement: &Statement) -> (r: Result<String, Error>)
        ensures
            is_rewrite(r, rewrite_of(sql@, *statement, self@)),
    {
        match statement {
            Statement::Select(from) => {
                let names = referenced_tables(from);
                let entries = self.catalog.lookup(&names);
                Ok(rewrite(sql, &entries))
            },
            _ => Err(Error::Parse(String::from_str("Expected a SELECT statement in the query."))),
        }
    }

    /// Parses `sql` and rewrites it against the catalog. Fails with a
    /// `Parse` error where the text does not parse, holds no statement, or
    /// its first statement is no plain `SELECT`.
    pub fn parse_sql(&self, sql: &str) -> (r: Result<String, Error>)
        ensures
            is_rewrite(r, rewrite_parsed(sql@, parsed_sql(sql@), self@)),
    {
        match parse_statements(sql) {
            Ok(statements) => {
                if statements.len() == 0 {
                    Err(Error::Parse(String::from_str("Expected a statement in the query.")))
                } else {
                    self.rewrite_statement(sql, &statements[0])
                }
            },
            Err(message) => Err(Error::Parse(message)),
        }
    }

    /// The statement to run for `query`: the query rewritten against the
    /// catalog. A failure to rewrite is reported as failure to parse.
    pub fn sql(&self, query: &str) -> (r: Result<String, Error>)
        ensures
            match rewrite_parsed(query@, parsed_sql(query@), self@) {
                Ok(text) => r matches Ok(s) && s@ == text,
                Err(message) => r matches Err(Error::Parse(m)) && m@ == "Failed to parse SQL: "@
                    + message,
            },
    {
        match self.parse_sql(query) {
            Ok(statement) => Ok(statement),
            Err(e) => Err(Error::Parse(concat2("Failed to parse SQL: ", e.message().as_str()))),
        }
    }
}

} // verus!
