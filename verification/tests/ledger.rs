use psidb::database::entry::action::Action;
use psidb::database::entry::data::Data;
use psidb::database::{Database, Stored};
use psidb::error::{DbError, ErrorKind};
use psidb::metadata::Metadata;
use psidb::utils::verify_file_path;
use psidb::version_control::{RepoProbe, ScriptProbe};

fn empty() -> Database {
    Database::new("/tmp/ledger/.psidb/db.ron", false).unwrap()
}

fn found(paths: &[&str]) -> Vec<Option<String>> {
    paths.iter().map(|p| Some(p.to_string())).collect()
}

fn file(path: &str) -> ScriptProbe {
    ScriptProbe { exists: true, is_file: true, absolute: path.to_string(), repository: None }
}

fn tracked_file(path: &str, hint_is_commit: bool, head: Option<&str>) -> ScriptProbe {
    ScriptProbe {
        exists: true,
        is_file: true,
        absolute: path.to_string(),
        repository: Some(RepoProbe { hint_is_commit, head: head.map(|h| h.to_string()) }),
    }
}

#[test]
fn new_ledger_is_empty() {
    let db = empty();
    assert_eq!(db.get_db_path(), "/tmp/ledger/.psidb/db.ron");
    assert_eq!(db.curr_id(), 0);
    assert!(db.data().is_empty());
    assert!(db.transforms().is_empty());
    assert!(db.connections().is_empty());
}

#[test]
fn new_ledger_over_an_existing_one_is_refused() {
    let r = Database::new("/tmp/ledger/.psidb/db.ron", true);
    assert_eq!(r.err(), Some(DbError::LedgerExists));
    assert_eq!(DbError::LedgerExists.kind(), ErrorKind::AlreadyExists);
}

#[test]
fn loading_without_a_file_is_not_found() {
    let r = Database::load(None);
    assert_eq!(r.err(), Some(DbError::LedgerMissing));
}

#[test]
fn written_ledger_loads_as_it_was() {
    let mut db = empty();
    db.add_data_at(&found(&["/a", "/b"]), Some("k=v"), "t0").unwrap();
    db.add_transform_at(&[file("/s.sh")], Some("--x"), None, None, "t1").unwrap();
    db.connect_at(Action::Link, Some(&[0]), None, Some(&[1]), None, None, "t2").unwrap();
    let stored = db.write();
    assert_eq!(stored.curr_id, 3);
    let again = Database::load(Some(stored)).unwrap();
    assert_eq!(again.get_db_path(), db.get_db_path());
    assert_eq!(again.curr_id(), 3);
    assert_eq!(again.data().len(), 1);
    assert_eq!(again.data()[0].id, 0);
    assert_eq!(again.data()[0].paths, vec!["/a".to_string(), "/b".to_string()]);
    assert_eq!(again.data()[0].md.get("k"), Some(&"v".to_string()));
    assert_eq!(again.data()[0].md.get("time"), Some(&"t0".to_string()));
    assert_eq!(again.transforms().len(), 1);
    assert_eq!(again.transforms()[0].id, 1);
    assert_eq!(again.transforms()[0].script_args, vec![Some("--x".to_string())]);
    assert_eq!(again.connections().len(), 1);
    assert_eq!(again.connections()[0].id, 2);
    assert_eq!(again.connections()[0].in_data_ids, vec![0]);
    assert_eq!(again.connections()[0].in_transform_ids, vec![1]);
}

#[test]
fn loaded_ledger_goes_on_counting() {
    let stored = Stored {
        db_path: "/x".to_string(),
        data_vec: vec![Data { id: 5, md: Metadata::new(), paths: vec!["/a".to_string()] }],
        transform_vec: vec![],
        connection_vec: vec![],
        curr_id: 6,
    };
    let mut db = Database::load(Some(stored)).unwrap();
    assert_eq!(db.add_data_at(&found(&["/b"]), None, "t"), Ok(6));
    assert_eq!(db.curr_id(), 7);
    assert!(db.has_data(5));
    assert!(db.has_data(6));
}

#[test]
fn add_dataset_twice_is_refused_with_the_first_id() {
    let mut db = empty();
    assert_eq!(db.add_data_at(&found(&["/tmp/a.txt"]), None, "t0"), Ok(0));
    assert_eq!(db.add_data_at(&found(&["/tmp/a.txt"]), None, "t1"), Err(DbError::DataExists(0)));
    assert_eq!(DbError::DataExists(0).kind(), ErrorKind::AlreadyExists);
    assert_eq!(db.data().len(), 1);
    assert_eq!(db.curr_id(), 1);
}

#[test]
fn add_dataset_with_the_same_paths_in_another_order_is_refused() {
    let mut db = empty();
    assert_eq!(db.add_data_at(&found(&["/x", "/y"]), Some("a=1"), "t0"), Ok(0));
    assert_eq!(
        db.add_data_at(&found(&["/y", "/x"]), Some("b=2"), "t1"),
        Err(DbError::DataExists(0))
    );
    assert_eq!(db.add_data_at(&found(&["/x"]), None, "t2"), Ok(1));
    assert_eq!(db.data().len(), 2);
}

#[test]
fn add_dataset_with_the_clock() {
    let mut db = empty();
    assert_eq!(db.add_data(&found(&["/x"]), Some("a=1")), Ok(0));
    let time = db.data()[0].md.get("time").unwrap().clone();
    assert!(time.ends_with('Z'));
    assert!(time.contains('T'));
    assert_eq!(time.len(), "2024-01-01T00:00:00.000000000Z".len());
    assert_eq!(db.add_data(&found(&["/y"]), Some("time=then")), Ok(1));
    assert_eq!(db.data()[1].md.get("time"), Some(&"then".to_string()));
}

#[test]
fn add_dataset_without_paths_is_refused() {
    let mut db = empty();
    assert_eq!(db.add_data_at(&[], None, "t"), Err(DbError::NoDataPaths));
    assert_eq!(db.curr_id(), 0);
}

#[test]
fn add_dataset_reports_the_first_missing_path() {
    let mut db = empty();
    let resolved = vec![Some("/a".to_string()), None, Some("/c".to_string()), None];
    assert_eq!(db.add_data_at(&resolved, None, "t"), Err(DbError::PathMissing(1)));
    assert_eq!(DbError::PathMissing(1).kind(), ErrorKind::NotFound);
    assert!(db.data().is_empty());
}

#[test]
fn time_is_stamped_unless_given() {
    let mut db = empty();
    db.add_data_at(&found(&["/a"]), Some("who=me"), "now").unwrap();
    db.add_data_at(&found(&["/b"]), Some("time=then;who=me"), "now").unwrap();
    assert_eq!(db.data()[0].md.get("time"), Some(&"now".to_string()));
    assert_eq!(db.data()[0].md.get("who"), Some(&"me".to_string()));
    assert_eq!(db.data()[1].md.get("time"), Some(&"then".to_string()));
}

#[test]
fn stored_dataset_gets_the_next_id_and_its_time() {
    let mut db = empty();
    assert_eq!(db.add_data_at(&found(&["/p"]), None, "t"), Ok(0));
    assert_eq!(db.data()[0].id, 0);
    assert!(db.data()[0].md.contains_key("time"));
    assert_eq!(db.add_data_at(&found(&["/q"]), Some("a=b"), "t"), Ok(1));
    assert_eq!(db.data()[1].id, 1);
    assert!(db.data()[1].md.contains_key("time"));
}

#[test]
fn transform_without_scripts_is_refused() {
    let mut db = empty();
    assert_eq!(db.add_transform_at(&[], None, None, None, "t"), Err(DbError::NoScriptPaths));
    assert_eq!(db.add_transform_at(&[], None, None, Some("k=v"), "t"), Err(DbError::NoScriptPaths));
    assert_eq!(DbError::NoScriptPaths.kind(), ErrorKind::InvalidArgument);
    assert_eq!(db.curr_id(), 0);
    assert!(db.transforms().is_empty());
}

#[test]
fn stored_transforms_have_one_value_for_each_script() {
    let mut db = empty();
    db.add_transform_at(&[file("/a.sh"), file("/b.sh")], Some("x;"), None, None, "t").unwrap();
    db.add_transform_at(&[file("/c.sh")], None, Some("h"), None, "t").unwrap();
    db.chain_at(&[0, 1, 0], None, "t").unwrap();
    for t in db.transforms() {
        assert_eq!(t.script_args.len(), t.script_paths.len());
        assert_eq!(t.script_git_hashes.len(), t.script_paths.len());
        assert!(t.md.contains_key("time"));
    }
    assert_eq!(db.find_transform(2).unwrap().script_paths.len(), 5);
    for c in db.connections() {
        assert!(c.md.contains_key("time"));
    }
}

#[test]
fn add_transform_reads_arguments_and_hashes() {
    let mut db = empty();
    let scripts = [
        tracked_file("/r/a.sh", true, Some("headhash")),
        tracked_file("/r/b.sh", false, Some("headhash")),
        file("/c.sh"),
    ];
    let id = db.add_transform_at(&scripts, Some("-a;;-c {psidb::id}"), Some("h1;h2;h3"), None, "t");
    assert_eq!(id, Ok(0));
    let t = &db.transforms()[0];
    assert_eq!(t.script_paths, vec!["/r/a.sh", "/r/b.sh", "/c.sh"]);
    assert_eq!(
        t.script_args,
        vec![Some("-a".to_string()), None, Some("-c {psidb::id}".to_string())]
    );
    assert_eq!(t.script_git_hashes, vec![Some("h1".to_string()), Some("headhash".to_string()), None]);
    assert_eq!(t.md.get("time"), Some(&"t".to_string()));
}

#[test]
fn add_transform_without_hints_pins_to_head() {
    let mut db = empty();
    let scripts = [tracked_file("/r/a.sh", false, Some("headhash")), tracked_file("/q/b.sh", false, None)];
    assert_eq!(db.add_transform_at(&scripts, None, None, None, "t"), Ok(0));
    let t = &db.transforms()[0];
    assert_eq!(t.script_args, vec![None, None]);
    assert_eq!(t.script_git_hashes, vec![Some("headhash".to_string()), None]);
}

#[test]
fn add_transform_with_wrong_number_of_arguments_is_refused() {
    let mut db = empty();
    let scripts = [file("/a.sh"), file("/b.sh")];
    assert_eq!(
        db.add_transform_at(&scripts, Some("x"), None, None, "t"),
        Err(DbError::LengthMismatch)
    );
    assert_eq!(
        db.add_transform_at(&scripts, None, Some("h;h;h"), None, "t"),
        Err(DbError::LengthMismatch)
    );
    assert_eq!(db.add_transform_at(&[], Some(""), None, None, "t"), Err(DbError::LengthMismatch));
    assert_eq!(db.add_transform_at(&[], None, Some(";"), None, "t"), Err(DbError::LengthMismatch));
    assert_eq!(DbError::LengthMismatch.kind(), ErrorKind::InvalidArgument);
    assert_eq!(db.curr_id(), 0);
}

#[test]
fn add_transform_reports_the_first_script_that_cannot_run() {
    let mut db = empty();
    let missing = ScriptProbe { exists: false, is_file: false, absolute: String::new(), repository: None };
    let dir = ScriptProbe { exists: true, is_file: false, absolute: "/d".to_string(), repository: None };
    assert_eq!(
        db.add_transform_at(&[file("/a.sh"), dir, missing], None, None, None, "t"),
        Err(DbError::ScriptNotAFile(1))
    );
    let missing = ScriptProbe { exists: false, is_file: false, absolute: String::new(), repository: None };
    assert_eq!(
        db.add_transform_at(&[missing, file("/a.sh")], None, None, None, "t"),
        Err(DbError::ScriptMissing(0))
    );
    assert_eq!(verify_file_path(true, true, 4), Ok(()));
    assert_eq!(verify_file_path(false, true, 4), Err(DbError::ScriptMissing(4)));
    assert_eq!(verify_file_path(true, false, 4), Err(DbError::ScriptNotAFile(4)));
}

#[test]
fn add_transform_twice_is_refused() {
    let mut db = empty();
    assert_eq!(db.add_transform_at(&[file("/a.sh")], Some("x"), None, None, "t"), Ok(0));
    assert_eq!(
        db.add_transform_at(&[file("/a.sh")], Some("x"), None, Some("k=v"), "u"),
        Err(DbError::TransformExists(0))
    );
    assert_eq!(db.add_transform_at(&[file("/a.sh")], Some("y"), None, None, "t"), Ok(1));
    assert_eq!(db.add_transform(&[file("/b.sh")], None, None, None), Ok(2));
    assert!(db.transforms()[2].md.contains_key("time"));
}

#[test]
fn connect_without_ids_is_refused() {
    let mut db = empty();
    assert_eq!(db.connect(Action::Link, None, None, None, None, None), Err(DbError::NoIds));
    assert_eq!(DbError::NoIds.kind(), ErrorKind::InvalidArgument);
    assert_eq!(
        db.connect_at(Action::Link, Some(&[]), Some(&[]), None, Some(&[]), None, "t"),
        Err(DbError::NoIds)
    );
    assert_eq!(db.curr_id(), 0);
}

#[test]
fn connect_with_unknown_ids_is_not_found() {
    let mut db = empty();
    db.add_data_at(&found(&["/a"]), None, "t").unwrap();
    db.add_transform_at(&[file("/s.sh")], None, None, None, "t").unwrap();
    assert_eq!(
        db.connect_at(Action::Apply, Some(&[0, 5, 6]), Some(&[7]), None, None, None, "t"),
        Err(DbError::InputDataMissing(5))
    );
    assert_eq!(
        db.connect_at(Action::Apply, Some(&[0]), Some(&[1]), Some(&[9]), None, None, "t"),
        Err(DbError::OutputDataMissing(1))
    );
    assert_eq!(
        db.connect_at(Action::Apply, Some(&[0]), Some(&[0]), Some(&[0]), Some(&[3]), None, "t"),
        Err(DbError::InputTransformMissing(0))
    );
    assert_eq!(
        db.connect_at(Action::Apply, None, None, Some(&[1]), Some(&[1, 0]), None, "t"),
        Err(DbError::OutputTransformMissing(0))
    );
    for e in [
        DbError::InputDataMissing(5),
        DbError::OutputDataMissing(1),
        DbError::InputTransformMissing(0),
        DbError::OutputTransformMissing(0),
    ] {
        assert_eq!(e.kind(), ErrorKind::NotFound);
    }
    assert!(db.connections().is_empty());
    assert_eq!(db.curr_id(), 2);
}

#[test]
fn connect_stores_what_it_is_given() {
    let mut db = empty();
    db.add_data_at(&found(&["/a"]), None, "t").unwrap();
    db.add_data_at(&found(&["/b"]), None, "t").unwrap();
    db.add_transform_at(&[file("/s.sh")], None, None, None, "t").unwrap();
    let id = db.connect_at(Action::Apply, Some(&[0]), Some(&[1]), Some(&[2]), None, Some("n=1"), "t9");
    assert_eq!(id, Ok(3));
    let c = &db.connections()[0];
    assert_eq!(c.id, 3);
    assert_eq!(c.action, Action::Apply);
    assert_eq!(c.in_data_ids, vec![0]);
    assert_eq!(c.out_data_ids, vec![1]);
    assert_eq!(c.in_transform_ids, vec![2]);
    assert!(c.out_transform_ids.is_empty());
    assert_eq!(c.md.get("n"), Some(&"1".to_string()));
    assert_eq!(c.md.get("time"), Some(&"t9".to_string()));
    for id in c.in_data_ids.iter().chain(c.out_data_ids.iter()) {
        assert!(db.has_data(*id));
    }
    for id in c.in_transform_ids.iter() {
        assert!(db.has_transform(*id));
    }
}

#[test]
fn connect_twice_is_refused() {
    let mut db = empty();
    db.add_data_at(&found(&["/a"]), None, "t").unwrap();
    db.add_data_at(&found(&["/b"]), None, "t").unwrap();
    assert_eq!(db.connect_at(Action::Link, Some(&[0]), Some(&[1]), None, None, None, "t"), Ok(2));
    assert_eq!(
        db.connect_at(Action::Link, Some(&[0]), Some(&[1]), None, None, Some("x=y"), "u"),
        Err(DbError::ConnectionExists(2))
    );
    assert_eq!(db.connect_at(Action::Chain, Some(&[0]), Some(&[1]), None, None, None, "t"), Ok(3));
    assert_eq!(db.connect_at(Action::Link, Some(&[1]), Some(&[0]), None, None, None, "t"), Ok(4));
}

#[test]
fn ids_count_up_over_all_kinds() {
    let mut db = empty();
    let mut ids = Vec::new();
    ids.push(db.add_data_at(&found(&["/a"]), None, "t").unwrap());
    ids.push(db.add_transform_at(&[file("/s.sh")], None, None, None, "t").unwrap());
    ids.push(db.add_data_at(&found(&["/b"]), None, "t").unwrap());
    assert!(db.add_data_at(&found(&["/b"]), None, "t").is_err());
    ids.push(db.connect_at(Action::Link, Some(&[0]), Some(&[2]), None, None, None, "t").unwrap());
    assert!(db.connect_at(Action::Link, Some(&[0]), Some(&[99]), None, None, None, "t").is_err());
    ids.push(db.add_transform_at(&[file("/t.sh")], None, None, None, "t").unwrap());
    let (t, c) = db.chain_at(&[1, 4], None, "t").unwrap();
    ids.push(t);
    ids.push(c);
    let (d, c) = db.link_at(&[0, 2], None, "t").unwrap();
    ids.push(d);
    ids.push(c);
    assert_eq!(ids, vec![0, 1, 2, 3, 4, 5, 6, 7, 8]);
    assert_eq!(db.curr_id(), 9);
}

#[test]
fn chain_joins_scripts_and_lays_metadata_over() {
    let mut db = empty();
    db.add_transform_at(&[file("/a.sh")], Some("-a"), None, Some("k=1;only1=x;time=t1"), "n").unwrap();
    db.add_transform_at(
        &[tracked_file("/b.sh", false, Some("hh")), file("/c.sh")],
        Some(";-c"),
        None,
        Some("k=2;only2=y;time=t2"),
        "n",
    )
    .unwrap();
    let (t, c) = db.chain_at(&[0, 1], Some("k=3;mine=z"), "now").unwrap();
    assert_eq!((t, c), (2, 3));
    let made = db.find_transform(2).unwrap();
    assert_eq!(made.script_paths, vec!["/a.sh", "/b.sh", "/c.sh"]);
    assert_eq!(made.script_args, vec![Some("-a".to_string()), None, Some("-c".to_string())]);
    assert_eq!(made.script_git_hashes, vec![None, Some("hh".to_string()), None]);
    assert_eq!(made.md.get("k"), Some(&"3".to_string()));
    assert_eq!(made.md.get("only1"), Some(&"x".to_string()));
    assert_eq!(made.md.get("only2"), Some(&"y".to_string()));
    assert_eq!(made.md.get("mine"), Some(&"z".to_string()));
    assert_eq!(made.md.get("time"), Some(&"now".to_string()));
    let edge = &db.connections()[0];
    assert_eq!(edge.id, 3);
    assert_eq!(edge.action, Action::Chain);
    assert_eq!(edge.in_transform_ids, vec![0, 1]);
    assert_eq!(edge.out_transform_ids, vec![2]);
    assert!(edge.in_data_ids.is_empty());
    assert!(edge.out_data_ids.is_empty());
}

#[test]
fn chain_keeps_the_later_value_and_a_given_time() {
    let mut db = empty();
    db.add_transform_at(&[file("/a.sh")], None, None, Some("k=1;time=t1"), "n").unwrap();
    db.add_transform_at(&[file("/b.sh")], None, None, Some("k=2;time=t2"), "n").unwrap();
    db.chain_at(&[0, 1], None, "now").unwrap();
    assert_eq!(db.find_transform(2).unwrap().md.get("k"), Some(&"2".to_string()));
    assert_eq!(db.find_transform(2).unwrap().md.get("time"), Some(&"now".to_string()));
    db.chain_at(&[1, 0], Some("time=mine"), "now").unwrap();
    assert_eq!(db.find_transform(4).unwrap().md.get("k"), Some(&"1".to_string()));
    assert_eq!(db.find_transform(4).unwrap().md.get("time"), Some(&"mine".to_string()));
}

#[test]
fn chain_failures() {
    let mut db = empty();
    db.add_transform_at(&[file("/a.sh")], None, None, None, "n").unwrap();
    assert_eq!(db.chain_at(&[0, 7], None, "t"), Err(DbError::TransformMissing(7)));
    assert_eq!(db.chain_at(&[], None, "t"), Err(DbError::NoScriptPaths));
    assert_eq!(db.chain_at(&[0], None, "t"), Err(DbError::TransformExists(0)));
    assert_eq!(db.curr_id(), 1);
    assert_eq!(db.chain(&[0, 0], None), Ok((1, 2)));
}

#[test]
fn link_joins_paths_and_lays_metadata_over() {
    let mut db = empty();
    db.add_data_at(&found(&["/a", "/b"]), Some("k=1;only1=x"), "n").unwrap();
    db.add_data_at(&found(&["/c"]), Some("k=2"), "n").unwrap();
    let (d, c) = db.link_at(&[0, 1], Some("mine=z"), "now").unwrap();
    assert_eq!((d, c), (2, 3));
    let made = db.find_data(2).unwrap();
    assert_eq!(made.paths, vec!["/a", "/b", "/c"]);
    assert_eq!(made.md.get("k"), Some(&"2".to_string()));
    assert_eq!(made.md.get("only1"), Some(&"x".to_string()));
    assert_eq!(made.md.get("mine"), Some(&"z".to_string()));
    assert_eq!(made.md.get("time"), Some(&"now".to_string()));
    let edge = &db.connections()[0];
    assert_eq!(edge.action, Action::Link);
    assert_eq!(edge.in_data_ids, vec![0, 1]);
    assert_eq!(edge.out_data_ids, vec![2]);
    assert!(edge.in_transform_ids.is_empty());
    assert!(edge.out_transform_ids.is_empty());
}

#[test]
fn link_failures() {
    let mut db = empty();
    db.add_data_at(&found(&["/a"]), None, "n").unwrap();
    assert_eq!(db.link_at(&[3, 0], None, "t"), Err(DbError::DataMissing(3)));
    assert_eq!(db.link_at(&[], None, "t"), Err(DbError::NoDataPaths));
    assert_eq!(db.link_at(&[0], None, "t"), Err(DbError::DataExists(0)));
    assert_eq!(db.curr_id(), 1);
    assert_eq!(db.link(&[0, 0], None), Ok((1, 2)));
    assert_eq!(db.find_data(1).unwrap().paths, vec!["/a", "/a"]);
}

#[test]
fn apply_stores_the_dataset_and_the_connection() {
    let mut db = empty();
    db.add_data_at(&found(&["/in"]), None, "n").unwrap();
    db.add_transform_at(&[file("/t.sh")], None, None, None, "n").unwrap();
    let produced = Data { id: 0, md: Metadata::new(), paths: vec!["/tmp/out.txt".to_string()] };
    let r = db.apply_at(1, &[0], Some("k=v"), produced, "now");
    assert_eq!(r, Ok((2, 3)));
    let made = db.find_data(2).unwrap();
    assert_eq!(made.paths, vec!["/tmp/out.txt"]);
    assert_eq!(made.md.get("k"), Some(&"v".to_string()));
    assert_eq!(made.md.get("time"), Some(&"now".to_string()));
    let edge = &db.connections()[0];
    assert_eq!(edge.action, Action::Apply);
    assert_eq!(edge.in_data_ids, vec![0]);
    assert_eq!(edge.out_data_ids, vec![2]);
    assert_eq!(edge.in_transform_ids, vec![1]);
    assert!(edge.out_transform_ids.is_empty());
}

#[test]
fn apply_failures() {
    let mut db = empty();
    db.add_data_at(&found(&["/in"]), None, "n").unwrap();
    db.add_transform_at(&[file("/t.sh")], None, None, None, "n").unwrap();
    let out = |p: &str| Data { id: 0, md: Metadata::new(), paths: vec![p.to_string()] };
    assert_eq!(db.apply_at(0, &[0], None, out("/o"), "t"), Err(DbError::TransformMissing(0)));
    assert_eq!(db.apply_at(1, &[0, 1], None, out("/o"), "t"), Err(DbError::DataMissing(1)));
    assert_eq!(db.apply_at(1, &[0], None, out("/in"), "t"), Err(DbError::DataExists(0)));
    let nothing = Data { id: 0, md: Metadata::new(), paths: vec![] };
    assert_eq!(db.apply_at(1, &[0], None, nothing, "t"), Err(DbError::NoDataPaths));
    assert_eq!(db.curr_id(), 2);
    assert_eq!(db.apply(1, &[0], None, out("/o")), Ok((2, 3)));
}

#[test]
fn lookups() {
    let mut db = empty();
    db.add_data_at(&found(&["/in"]), None, "n").unwrap();
    db.add_transform_at(&[file("/t.sh")], None, None, None, "n").unwrap();
    assert!(db.has_data(0));
    assert!(!db.has_data(1));
    assert!(db.has_transform(1));
    assert!(!db.has_transform(0));
    assert_eq!(db.find_data(0).map(|d| d.id), Some(0));
    assert!(db.find_data(1).is_none());
    assert_eq!(db.find_transform(1).map(|t| t.id), Some(1));
    assert!(db.find_transform(0).is_none());
}

#[test]
fn init_gives_the_empty_ledger_to_write() {
    let stored = Database::init("/tmp/x/.psidb/db.ron", false).unwrap();
    assert_eq!(stored.db_path, "/tmp/x/.psidb/db.ron");
    assert_eq!(stored.curr_id, 0);
    assert!(stored.data_vec.is_empty());
    assert!(stored.transform_vec.is_empty());
    assert!(stored.connection_vec.is_empty());
    assert_eq!(Database::init("/tmp/x/.psidb/db.ron", true).err(), Some(DbError::LedgerExists));
}

#[test]
fn stamped_time_has_the_shape_of_a_timestamp() {
    let mut db = empty();
    db.add_data(&found(&["/x"]), None).unwrap();
    let time: Vec<char> = db.data()[0].md.get("time").unwrap().chars().collect();
    assert_eq!(time.len(), 30);
    assert_eq!(
        (time[4], time[7], time[10], time[13], time[16], time[19], time[29]),
        ('-', '-', 'T', ':', ':', '.', 'Z')
    );
    for (i, c) in time.iter().enumerate() {
        if ![4, 7, 10, 13, 16, 19, 29].contains(&i) {
            assert!(c.is_ascii_digit());
        }
    }
}
