use std::collections::HashMap;

use duckdelta::error::Error;
use duckdelta::pipeline::engines::DuckDB;
use duckdelta::pipeline::sinks::delta_sink::{aws_config, StorageAccess};
use duckdelta::pipeline::sinks::MergeRequest;
use duckdelta::pipeline::Pipeline;

type Row = Vec<String>;

const UNSET: &str = "Record batches are not initialized";

fn rows(data: &[[&str; 3]]) -> Vec<Row> {
    data.iter().map(|r| r.iter().map(|c| c.to_string()).collect()).collect()
}

fn people() -> Vec<Row> {
    rows(&[
        ["Alice", "30", "New York"],
        ["Bob", "25", "San Francisco"],
        ["Charlie", "35", "Chicago"],
    ])
}

/// A stand-in for the engines: files and tables are kept in memory, and a
/// statement is answered by the table or file that it scans.
struct Driver {
    files: HashMap<String, Vec<Row>>,
    tables: HashMap<String, Vec<Row>>,
}

impl Driver {
    fn new() -> Driver {
        Driver { files: HashMap::new(), tables: HashMap::new() }
    }

    fn key(access: &StorageAccess) -> String {
        match access {
            StorageAccess::Local { path } => format!("local:{}", path),
            StorageAccess::Remote { uri, .. } => format!("remote:{}", uri),
        }
    }

    fn write(&mut self, access: &StorageAccess, batches: &Vec<Row>) {
        self.tables.entry(Driver::key(access)).or_default().extend(batches.iter().cloned());
    }

    fn run(&self, sql: &str) -> Vec<Row> {
        if let Some(rest) = sql.strip_prefix("select * from read_csv('") {
            return self.files[rest.strip_suffix("')").unwrap()].clone();
        }
        let rest = sql.strip_prefix("SELECT * FROM delta_scan('").expect(sql);
        let location = rest.strip_suffix("')").unwrap();
        let key = match location.strip_prefix("file://") {
            Some(path) => format!("local:{}", path),
            None => format!("remote:{}", location),
        };
        self.tables[&key].clone()
    }
}

fn pipeline() -> Pipeline<Row> {
    Pipeline::new(DuckDB::new()).unwrap()
}

#[test]
fn a_new_pipeline_has_no_batches() {
    let pipeline = pipeline();
    assert!(pipeline.batches().is_none());
    match pipeline.show() {
        Err(Error::State(m)) => assert_eq!(m, UNSET),
        other => panic!("unexpected: {:?}", other),
    }
}

#[test]
fn read_csv_asks_for_files_that_end_in_csv() {
    let pipeline = pipeline();
    assert_eq!(
        pipeline.read_csv("/data/file1.csv").unwrap(),
        "select * from read_csv('/data/file1.csv')"
    );
    for path in ["/data/file1.CSV", "/data/file1.json", "csv", "", "/data/file1.csv "] {
        match pipeline.read_csv(path) {
            Err(Error::UnsupportedFormat(p)) => assert_eq!(p, path),
            other => panic!("unexpected: {:?}", other),
        }
    }
    assert!(pipeline.batches().is_none());
}

#[test]
fn replace_batches_replaces_wholesale() {
    let mut pipeline = pipeline();
    pipeline.replace_batches(people());
    assert_eq!(pipeline.batches(), Some(&people()));
    pipeline.replace_batches(rows(&[["Dora", "41", "Lima"]]));
    assert_eq!(pipeline.show().unwrap(), &rows(&[["Dora", "41", "Lima"]]));
    pipeline.replace_batches(vec![]);
    assert_eq!(pipeline.batches(), Some(&vec![]));
}

#[test]
fn operations_without_batches_fail() {
    let mut pipeline = pipeline();
    match pipeline.execute_sql("SELECT 1") {
        Err(Error::State(m)) => assert_eq!(m, UNSET),
        other => panic!("unexpected: {:?}", other),
    }
    match pipeline.merge_update("file:///lake", "tb1", "Name", &["Age"], None) {
        Err(Error::State(m)) => assert_eq!(m, UNSET),
        other => panic!("unexpected: {:?}", other),
    }
    match pipeline.write_delta("file:///lake", "tb1", None) {
        Err(Error::State(m)) => assert_eq!(m, UNSET),
        other => panic!("unexpected: {:?}", other),
    }
}

#[test]
fn write_delta_registers_before_it_checks() {
    // The entry is there although the write could not go ahead.
    let mut pipeline = pipeline();
    assert!(pipeline.write_delta("file:///lake", "tb1", None).is_err());
    pipeline.replace_batches(people());
    assert_eq!(
        pipeline.execute_sql("SELECT * FROM tb1").unwrap(),
        "SELECT * FROM delta_scan('file:///lake/tb1')"
    );
    assert!(matches!(
        pipeline.write_delta("ftp://lake", "tb9", None),
        Err(Error::StorageClassification(_))
    ));
    assert_eq!(
        pipeline.execute_sql("SELECT * FROM tb9").unwrap(),
        "SELECT * FROM delta_scan('ftp://lake/tb9')"
    );
}

#[test]
fn write_delta_says_where_to_write() {
    let mut pipeline = pipeline();
    pipeline.replace_batches(people());
    assert_eq!(
        pipeline.write_delta("file:///lake", "tb1", None).unwrap(),
        StorageAccess::Local { path: "/lake/tb1".to_string() }
    );
    assert_eq!(
        pipeline.write_delta("s3://datalake", "tb1", Some("http://localhost:9000")).unwrap(),
        StorageAccess::Remote {
            uri: "s3://datalake/tb1".to_string(),
            options: aws_config(Some("http://localhost:9000")),
        }
    );
    assert_eq!(pipeline.batches(), Some(&people()));
}

#[test]
fn merge_update_hands_on_key_and_columns() {
    let mut pipeline = pipeline();
    pipeline.replace_batches(people());
    assert_eq!(
        pipeline.merge_update("s3://datalake", "tb_delta_merge", "Name", &["Age", "City"], None).unwrap(),
        MergeRequest {
            access: StorageAccess::Remote {
                uri: "s3://datalake/tb_delta_merge".to_string(),
                options: aws_config(None),
            },
            key_column: "Name".to_string(),
            update_columns: vec!["Age".to_string(), "City".to_string()],
        }
    );
    // Merging registers nothing.
    assert_eq!(
        pipeline.execute_sql("SELECT * FROM tb_delta_merge").unwrap(),
        "SELECT * FROM tb_delta_merge"
    );
    assert!(matches!(
        pipeline.merge_update("lake", "t", "Name", &["Age"], None),
        Err(Error::StorageClassification(_))
    ));
}

#[test]
fn execute_sql_reports_what_does_not_parse() {
    let mut pipeline = pipeline();
    pipeline.replace_batches(people());
    match pipeline.execute_sql("DROP TABLE tb1") {
        Err(Error::Parse(m)) => {
            assert_eq!(m, "Failed to parse SQL: Expected a SELECT statement in the query.")
        }
        other => panic!("unexpected: {:?}", other),
    }
    assert_eq!(pipeline.batches(), Some(&people()));
}

#[test]
fn ingest_persist_transform_persist() -> Result<(), Error> {
    let mut driver = Driver::new();
    driver.files.insert("/data/file1.csv".to_string(), people());
    let mut pipeline = pipeline();

    let read = pipeline.read_csv("/data/file1.csv")?;
    pipeline.replace_batches(driver.run(&read));
    let tb1 = pipeline.write_delta("file:///lake", "tb1", None)?;
    driver.write(&tb1, pipeline.batches().unwrap());
    assert_eq!(driver.tables["local:/lake/tb1"], people());

    let transform = pipeline.execute_sql("SELECT * FROM tb1")?;
    assert_eq!(transform, "SELECT * FROM delta_scan('file:///lake/tb1')");
    pipeline.replace_batches(driver.run(&transform));
    let tb2 = pipeline.write_delta("file:///lake", "tb2", None)?;
    driver.write(&tb2, pipeline.batches().unwrap());

    assert_eq!(driver.tables["local:/lake/tb2"], people());
    assert_eq!(driver.tables["local:/lake/tb2"], driver.tables["local:/lake/tb1"]);
    Ok(())
}

#[test]
fn persisting_twice_under_one_name() -> Result<(), Error> {
    let mut driver = Driver::new();
    let mut pipeline = pipeline();
    pipeline.replace_batches(people());

    let first = pipeline.write_delta("file:///lake", "tb1", None)?;
    driver.write(&first, pipeline.batches().unwrap());
    let second = pipeline.write_delta("file:///lake", "tb1", None)?;
    driver.write(&second, pipeline.batches().unwrap());
    assert_eq!(first, second);

    let transform = pipeline.execute_sql("SELECT * FROM tb1")?;
    assert_eq!(transform, "SELECT * FROM delta_scan('file:///lake/tb1')");
    assert_eq!(driver.run(&transform).len(), 6);

    // The same name under another root: the later registration is taken.
    pipeline.write_delta("s3://datalake", "tb1", None)?;
    assert_eq!(
        pipeline.execute_sql("SELECT * FROM tb1")?,
        "SELECT * FROM delta_scan('s3://datalake/tb1')"
    );
    Ok(())
}
