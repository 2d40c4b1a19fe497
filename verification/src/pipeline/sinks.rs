//! Sinks: where the current batch set is written.
//!
//! A sink decides where a table lies and how it is reached; the write itself
//! is the storage engine's.

use vstd::prelude::*;
use crate::error::Error;
use crate::text::{concat2, concat3, views};
use crate::pipeline::sinks::delta_sink::{
    is_unclassified, kind_of, route, routes_to, text_of, StorageAccess,
};

pub mod delta_sink;

verus! {

/// A sink that writes versioned tables below one root location.
#[derive(Clone, Debug, PartialEq, Eq)]
pub struct Delta {
    path: String,
}

impl View for Delta {
    type V = Seq<char>;

    /// The root location.
    closed spec fn view(&self) -> Seq<char> {
        self.path@
    }
}

/// The location of the table `name` below `root`: the two joined by `/`.
pub open spec fn table_location(root: Seq<char>, name: Seq<char>) -> Seq<char> {
    root + "/"@ + name
}

/// An upsert against a table: rows that agree with an existing row on
/// `key_column` replace its `update_columns`; the other rows are inserted.
#[derive(Clone, Debug, PartialEq, Eq)]
pub struct MergeRequest {
    /// How the table is reached.
    pub access: StorageAccess,
    /// The column on which incoming and existing rows are matched.
    pub key_column: String,
    /// The columns that a matching row takes from the incoming one.
    pub update_columns: Vec<String>,
}

/// The condition under which an incoming row matches an existing one:
/// `target.<key> = source.<key>`, where `target` stands for the table and
/// `source` for the incoming rows.
pub open spec fn merge_predicate(key_column: Seq<char>) -> Seq<char> {
    "target."@ + key_column + " = source."@ + key_column
}

/// The incoming value of `column`: `source.<column>`.
pub open spec fn source_value(column: Seq<char>) -> Seq<char> {
    "source."@ + column
}

impl MergeRequest {
    /// The condition under which an incoming row matches an existing one.
    pub fn predicate(&self) -> (r: String)
        ensures
            r@ == merge_predicate(self.key_column@),
    {
        let mut r = String::from_str("target.");
        r.append(self.key_column.as_str());
        r.append(" = source.");
        r.append(self.key_column.as_str());
        r
    }

    /// The expression that a matching row's `column` is set to.
    pub fn source_column(column: &str) -> (r: String)
        ensures
            r@ == source_value(column@),
    {
        concat2("source.", column)
    }
}

/// The texts of `names`.
pub open spec fn texts(names: Seq<&str>) -> Seq<Seq<char>> {
    names.map_values(|s: &str| s@)
}

/// The column names `columns` as owned strings.
pub fn copy_columns(columns: &[&str]) -> (copy: Vec<String>)
    ensures
        views(copy@) == texts(columns@),
{
    let mut copy: Vec<String> = Vec::new();
    let mut i: usize = 0;
    while i < columns.len()
        invariant
            i <= columns.len(),
            views(copy@) == texts(columns@.take(i as int)),
        decreases columns.len() - i,
    {
        let column = String::from_str(columns[i]);
        copy.push(column);
        assert(texts(columns@.take(i + 1)) =~= texts(columns@.take(i as int)).push(column@));
        i += 1;
    }
    copy
}

impl Delta {
    /// The sink for tables below `path`.
    pub fn new(path: &str) -> (sink: Delta)
        ensures
            sink@ == path@,
    {
        Delta { path: String::from_str(path) }
    }

    /// The location of the table `folder_path` below this sink's root.
    pub fn full_path(&self, folder_path: &str) -> (r: String)
        ensures
            r@ == table_location(self@, folder_path@),
    {
        concat3(self.path.as_str(), "/", folder_path)
    }

    /// How to write the table `folder_path` below this sink's root, where
    /// the ambient configuration sets the endpoint `endpoint_url`. Fails
    /// exactly where the table's location cannot be classified.
    pub fn write(&self, folder_path: &str, endpoint_url: Option<&str>) -> (r: Result<
        StorageAccess,
        Error,
    >)
        ensures
            match kind_of(table_location(self@, folder_path@)) {
                Some(_) => r matches Ok(access) && routes_to(
                    access,
                    table_location(self@, folder_path@),
                    text_of(endpoint_url),
                ),
                None => is_unclassified(r),
            },
    {
        let full_path = self.full_path(folder_path);
        route(full_path.as_str(), endpoint_url)
    }

    /// How to merge into the table at `table_path`, which is a full
    /// location: the route to it, with the key column and the columns to
    /// update as given. Fails exactly where `table_path` cannot be
    /// classified.
    pub fn merge_update(
        &self,
        table_path: &str,
        key_column: &str,
        target_column: &[&str],
        endpoint_url: Option<&str>,
    ) -> (r: Result<MergeRequest, Error>)
        ensures
            match kind_of(table_path@) {
                Some(_) => {
                    &&& r matches Ok(request)
                    &&& routes_to(request.access, table_path@, text_of(endpoint_url))
                    &&& request.key_column@ == key_column@
                    &&& views(request.update_columns@) == texts(target_column@)
                },
                None => is_unclassified(r),
            },
    {
        match route(table_path, endpoint_url) {
            Ok(access) => Ok(
                MergeRequest {
                    access,
                    key_column: String::from_str(key_column),
                    update_columns: copy_columns(target_column),
                },
            ),
            Err(e) => Err(e),
        }
    }
}

} // verus!
