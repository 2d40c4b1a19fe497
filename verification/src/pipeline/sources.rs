//! Sources: where a batch set is read from.
//!
//! A source names a file and declares its format. Only delimited text has a
//! reader; the others are named so that callers can say what they have, and
//! reading them fails.

use vstd::prelude::*;
use crate::error::Error;
use crate::text::{concat3, to_chars};

verus! {

/// A source file, by declared format.
#[derive(Clone, Copy, Debug, PartialEq, Eq)]
pub enum SourcesType<'a> {
    /// Delimited text.
    Csv(&'a str),
    /// JSON; no reader.
    Json(&'a str),
    /// Parquet; no reader.
    Parquet(&'a str),
    /// A versioned table; no reader.
    Delta(&'a str),
}

/// The position behind the last `.` among the first `upto` characters of
/// `path`, or 0 if there is none.
pub open spec fn extension_start(path: Seq<char>, upto: int) -> int
    decreases upto,
{
    if upto <= 0 || upto > path.len() {
        0
    } else if path[upto - 1] == '.' {
        upto
    } else {
        extension_start(path, upto - 1)
    }
}

/// The extension of `path`: what follows its last `.`, or all of it where
/// it has none.
pub open spec fn extension(path: Seq<char>) -> Seq<char> {
    path.skip(extension_start(path, path.len() as int))
}

/// Whether `ext` is `csv` in any mix of upper and lower case.
pub open spec fn is_csv(ext: Seq<char>) -> bool {
    &&& ext.len() == 3
    &&& (ext[0] == 'c' || ext[0] == 'C')
    &&& (ext[1] == 's' || ext[1] == 'S')
    &&& (ext[2] == 'v' || ext[2] == 'V')
}

/// The statement that reads the delimited text file at `path`.
pub open spec fn read_query(path: Seq<char>) -> Seq<char> {
    "select * from read_csv('"@ + path + "')"@
}

/// A path that ends in `.csv` has the extension `csv`.
pub proof fn lemma_csv_suffix_has_csv_extension(path: Seq<char>)
    requires
        ".csv"@.is_suffix_of(path),
    ensures
        is_csv(extension(path)),
{
    reveal_strlit(".csv");
    let n = path.len() as int;
    let tail = path.subrange(n - 4, n);
    assert(tail[0] == '.' && tail[1] == 'c' && tail[2] == 's' && tail[3] == 'v');
    assert(extension_start(path, n - 3) == n - 3);
    assert(extension_start(path, n - 2) == n - 3);
    assert(extension_start(path, n - 1) == n - 3);
}

/// Whether the extension of `path` is `csv`, in any case.
pub fn has_csv_extension(path: &str) -> (r: bool)
    ensures
        r == is_csv(extension(path@)),
{
    let chars = to_chars(path);
    let mut start: usize = chars.len();
    while start > 0 && chars[start - 1] != '.'
        invariant
            start <= chars.len(),
            extension_start(chars@, chars.len() as int) == extension_start(chars@, start as int),
        decreases start,
    {
        start -= 1;
    }
    if chars.len() - start != 3 {
        return false;
    }
    let c0 = chars[start];
    let c1 = chars[start + 1];
    let c2 = chars[start + 2];
    (c0 == 'c' || c0 == 'C') && (c1 == 's' || c1 == 'S') && (c2 == 'v' || c2 == 'V')
}

impl<'a> SourcesType<'a> {
    /// The path of the source file.
    pub open spec fn spec_path(&self) -> Seq<char> {
        match self {
            SourcesType::Csv(path) => path@,
            SourcesType::Json(path) => path@,
            SourcesType::Parquet(path) => path@,
            SourcesType::Delta(path) => path@,
        }
    }

    /// The path of the source file.
    pub fn path(&self) -> (r: &'a str)
        ensures
            r@ == self.spec_path(),
    {
        match self {
            SourcesType::Csv(path) => path,
            SourcesType::Json(path) => path,
            SourcesType::Parquet(path) => path,
            SourcesType::Delta(path) => path,
        }
    }

    /// The statement by which the SQL engine reads the delimited text file
    /// at `tb_path`: `select * from read_csv('<tb_path>')`.
    pub fn read_by_duckdb(tb_path: &str) -> (sql: String)
        ensures
            sql@ == read_query(tb_path@),
    {
        concat3("select * from read_csv('", tb_path, "')")
    }

    /// Whether this source can be read: it is declared as delimited text and
    /// its file has the extension `csv`.
    pub open spec fn readable(&self) -> bool {
        self is Csv && is_csv(extension(self.spec_path()))
    }

    /// The statement that reads this source. Fails with `UnsupportedFormat`,
    /// carrying the path, exactly where the source is not
    /// [`readable`](Self::readable).
    pub fn read(&self) -> (r: Result<String, Error>)
        ensures
            match r {
                Ok(sql) => self.readable() && sql@ == read_query(self.spec_path()),
                Err(e) => {
                    &&& !self.readable()
                    &&& e matches Error::UnsupportedFormat(m)
                    &&& m@ == self.spec_path()
                },
            },
    {
        match self {
            SourcesType::Csv(path) => {
                if has_csv_extension(path) {
                    Ok(Self::read_by_duckdb(path))
                } else {
                    Err(Error::UnsupportedFormat(String::from_str(path)))
                }
            },
            _ => Err(Error::UnsupportedFormat(String::from_str(self.path()))),
        }
    }
}

} // verus!
