//! The pipeline: one current batch set, and the operations that fill it,
//! transform it and persist it.
//!
//! The pipeline decides; a driver acts. `read_csv` and `execute_sql` say
//! which statement yields the next batch set, and the driver hands the
//! batches it got to `replace_batches`. `write_delta` and `merge_update` say
//! where and how the current batch set is to be written. The type of a batch
//! is the driver's choice.

use vstd::prelude::*;
use crate::catalog::{named, Mapping};
use crate::error::Error;
use crate::pipeline::engines::{
    lemma_registered_table_is_substituted, rewrite_of, rewrite_parsed, DuckDB,
};
use crate::pipeline::sinks::delta_sink::{
    is_unclassified, kind_of, routes_to, text_of, StorageAccess,
};
use crate::pipeline::sinks::{table_location, texts, Delta, MergeRequest};
use crate::pipeline::sources::{lemma_csv_suffix_has_csv_extension, read_query, SourcesType};
use crate::rewriter::{rewrite_range, scan_expr};
use crate::sql::{parsed_sql, table_names, Statement};
use crate::text::{has_suffix, views};
use crate::words::{is_identifier, word_at};

pub mod engines;
pub mod sinks;
pub mod sources;

verus! {

/// A pipeline: an engine with its catalog, and the current batch set, if
/// there is one.
pub struct Pipeline<B> {
    engine: DuckDB,
    record_batches: Option<Vec<B>>,
}

/// Whether `r` is the error of an operation that found no current batch
/// set.
pub open spec fn is_unset<T>(r: Result<T, Error>) -> bool {
    r matches Err(Error::State(m)) && m@ == "Record batches are not initialized"@
}

/// A table can be queried by its name from the moment it is persisted.
///
/// Let `after` be the catalog `before` with the entry that persisting the
/// table `tb_name` below `bucket_name` adds. Let `statement` be a plain
/// `SELECT` that refers to `tb_name`, and let every registered name that it
/// refers to be an identifier. Then wherever `tb_name` occurs in `sql` as a
/// whole word, the rewritten text has the scan of the table's location in its
/// place.
pub proof fn lemma_persisted_table_is_substituted(
    before: Seq<Mapping>,
    bucket_name: Seq<char>,
    tb_name: Seq<char>,
    sql: Seq<char>,
    statement: Statement,
    p: int,
)
    requires
        statement is Select,
        table_names(statement).contains(tb_name),
        is_identifier(tb_name),
        forall|j: int|
            0 <= j < before.len() && table_names(statement).contains(before[j].name)
                ==> is_identifier(#[trigger] before[j].name),
        word_at(sql, tb_name, p),
    ensures
        ({
            let after = before.push(
                Mapping { name: tb_name, location: table_location(bucket_name, tb_name) },
            );
            let found = named(after, table_names(statement));
            rewrite_of(sql, statement, after) == Ok::<Seq<char>, Seq<char>>(
                rewrite_range(sql, found, 0, p) + scan_expr(table_location(bucket_name, tb_name))
                    + rewrite_range(sql, found, p + tb_name.len(), sql.len() as int),
            )
        }),
{
    let after = before.push(
        Mapping { name: tb_name, location: table_location(bucket_name, tb_name) },
    );
    lemma_registered_table_is_substituted(sql, statement, after, before.len() as int, p);
}

impl<B> Pipeline<B> {
    /// The entries of the catalog, in the order of registration.
    pub closed spec fn catalog(&self) -> Seq<Mapping> {
        self.engine@
    }

    /// The current batch set, if there is one.
    pub closed spec fn current(&self) -> Option<Seq<B>> {
        match self.record_batches {
            Some(batches) => Some(batches@),
            None => None,
        }
    }

    /// A pipeline over `engine`, without a batch set.
    pub fn new(engine: DuckDB) -> (r: Result<Pipeline<B>, Error>)
        ensures
            r matches Ok(pipeline) && pipeline.catalog() == engine@ && pipeline.current() is None,
    {
        Ok(Pipeline { engine, record_batches: None })
    }

    /// The current batch set, if there is one.
    pub fn batches(&self) -> (r: Option<&Vec<B>>)
        ensures
            match r {
                Some(batches) => self.current() == Some(batches@),
                None => self.current() is None,
            },
    {
        self.record_batches.as_ref()
    }

    /// Makes `batches` the current batch set, in place of the one before.
    pub fn replace_batches(&mut self, batches: Vec<B>)
        ensures
            final(self).current() == Some(batches@),
            final(self).catalog() == old(self).catalog(),
    {
        self.record_batches = Some(batches);
    }

    /// The statement that reads the delimited text file at `path`, whose
    /// result is to become the current batch set. Fails with
    /// `UnsupportedFormat`, carrying the path, exactly where the path does
    /// not end in `.csv`.
    pub fn read_csv(&self, path: &str) -> (r: Result<String, Error>)
        ensures
            if ".csv"@.is_suffix_of(path@) {
                r matches Ok(sql) && sql@ == read_query(path@)
            } else {
                r matches Err(Error::UnsupportedFormat(m)) && m@ == path@
            },
    {
        if has_suffix(path, ".csv") {
            let data = SourcesType::Csv(path);
            proof {
                lemma_csv_suffix_has_csv_extension(path@);
            }
            data.read()
        } else {
            Err(Error::UnsupportedFormat(String::from_str(path)))
        }
    }

    /// Persists the current batch set as the table `tb_name` below
    /// `bucket_name`: registers the table's location under the name
    /// `tb_name`, and says how to reach the location. The entry is
    /// registered first and stays even where the operation then fails: with
    /// a `State` error where there is no current batch set, and else with a
    /// `StorageClassification` error where the location has no known
    /// scheme.
    pub fn write_delta(
        &mut self,
        bucket_name: &str,
        tb_name: &str,
        endpoint_url: Option<&str>,
    ) -> (r: Result<StorageAccess, Error>)
        ensures
            final(self).catalog() == old(self).catalog().push(
                Mapping { name: tb_name@, location: table_location(bucket_name@, tb_name@) },
            ),
            final(self).current() == old(self).current(),
            match old(self).current() {
                None => is_unset(r),
                Some(_) => match kind_of(table_location(bucket_name@, tb_name@)) {
                    Some(_) => r matches Ok(access) && routes_to(
                        access,
                        table_location(bucket_name@, tb_name@),
                        text_of(endpoint_url),
                    ),
                    None => is_unclassified(r),
                },
            },
    {
        let sink = Delta::new(bucket_name);
        let location = sink.full_path(tb_name);
        let _ = self.engine.delta_table_mapping(location.as_str(), tb_name);
        if self.record_batches.is_none() {
            return Err(Error::State(String::from_str("Record batches are not initialized")));
        }
        sink.write(tb_name, endpoint_url)
    }

    /// Merges the current batch set into the table `table_path` below
    /// `bucket_name`: says how to reach the table, and hands on the key
    /// column and the columns to update. Registers nothing. Fails with a
    /// `State` error where there is no current batch set, and else with a
    /// `StorageClassification` error where the location has no known
    /// scheme.
    pub fn merge_update(
        &self,
        bucket_name: &str,
        table_path: &str,
        key_column: &str,
        target_column: &[&str],
        endpoint_url: Option<&str>,
    ) -> (r: Result<MergeRequest, Error>)
        ensures
            match self.current() {
                None => is_unset(r),
                Some(_) => match kind_of(table_location(bucket_name@, table_path@)) {
                    Some(_) => {
                        &&& r matches Ok(request)
                        &&& routes_to(
                            request.access,
                            table_location(bucket_name@, table_path@),
                            text_of(endpoint_url),
                        )
                        &&& request.key_column@ == key_column@
                        &&& views(request.update_columns@) == texts(target_column@)
                    },
                    None => is_unclassified(r),
                },
            },
    {
        let sink = Delta::new(bucket_name);
        let full_path = sink.full_path(table_path);
        if self.record_batches.is_none() {
            return Err(Error::State(String::from_str("Record batches are not initialized")));
        }
        sink.merge_update(full_path.as_str(), key_column, target_column, endpoint_url)
    }

    /// The statement that transforms the data: `query` rewritten against
    /// the catalog. Its result is to become the current batch set. Fails
    /// with a `State` error where there is no current batch set, and else
    /// with a `Parse` error where the query cannot be rewritten.
    pub fn execute_sql(&self, query: &str) -> (r: Result<String, Error>)
        ensures
            match self.current() {
                None => is_unset(r),
                Some(_) => match rewrite_parsed(query@, parsed_sql(query@), self.catalog()) {
                    Ok(text) => r matches Ok(s) && s@ == text,
                    Err(message) => r matches Err(Error::Parse(m)) && m@
                        == "Failed to parse SQL: "@ + message,
                },
            },
    {
        if self.record_batches.is_none() {
            return Err(Error::State(String::from_str("Record batches are not initialized")));
        }
        self.engine.sql(query)
    }

    /// The batches to display: the current batch set. Fails with a `State`
    /// error where there is none.
    pub fn show(&self) -> (r: Result<&Vec<B>, Error>)
        ensures
            match self.current() {
                None => is_unset(r),
                Some(batches) => r matches Ok(shown) && shown@ == batches,
            },
    {
        match &self.record_batches {
            Some(batches) => Ok(batches),
            None => Err(Error::State(String::from_str("Record batches are not initialized"))),
        }
    }
}

} // verus!
