use psidb::database::entry::action::Action;
use psidb::database::entry::connection::Connection;
use psidb::database::entry::data::Data;
use psidb::database::entry::transform::Transform;
use psidb::database::entry::{entry_in, id_in, Entry};
use psidb::error::{DbError, ErrorKind};
use psidb::metadata::Metadata;
use psidb::version_control::{resolve_hash, RepoProbe};

fn strings(v: &[&str]) -> Vec<String> {
    v.iter().map(|s| s.to_string()).collect()
}

fn data(id: u64, paths: &[&str]) -> Data {
    Data { id, md: Metadata::new(), paths: strings(paths) }
}

fn transform(id: u64, paths: &[&str], args: &[Option<&str>], hashes: &[Option<&str>]) -> Transform {
    Transform {
        id,
        md: Metadata::new(),
        script_paths: strings(paths),
        script_args: args.iter().map(|a| a.map(|s| s.to_string())).collect(),
        script_git_hashes: hashes.iter().map(|a| a.map(|s| s.to_string())).collect(),
    }
}

fn connection(id: u64, action: Action, a: &[u64], b: &[u64], c: &[u64], d: &[u64]) -> Connection {
    Connection {
        id,
        md: Metadata::new(),
        action,
        in_data_ids: a.to_vec(),
        out_data_ids: b.to_vec(),
        in_transform_ids: c.to_vec(),
        out_transform_ids: d.to_vec(),
    }
}

#[test]
fn datasets_are_equal_by_their_set_of_paths() {
    assert!(data(0, &["x", "y"]) == data(1, &["y", "x"]));
    assert!(data(0, &["x", "y"]) != data(0, &["x"]));
    assert!(data(0, &["x"]) != data(0, &["x", "y"]));
    assert!(data(0, &["x", "y"]) != data(0, &["x", "z"]));
}

#[test]
fn dataset_equality_is_symmetric_with_repeated_paths() {
    let a = data(0, &["a", "a"]);
    let b = data(1, &["a", "b"]);
    assert_eq!(a == b, b == a);
    assert!(a != b);
    assert!(data(0, &["a", "a", "b"]) == data(0, &["b", "b", "a"]));
}

#[test]
fn dataset_equality_ignores_id_and_metadata() {
    let mut md = Metadata::new();
    md.insert("k".to_string(), "v".to_string());
    let a = Data { id: 3, md, paths: strings(&["p"]) };
    assert!(a == data(9, &["p"]));
}

#[test]
fn transforms_are_equal_by_scripts_arguments_and_hashes_in_order() {
    let t = transform(0, &["a", "b"], &[None, Some("x")], &[Some("h"), None]);
    assert!(t == transform(5, &["a", "b"], &[None, Some("x")], &[Some("h"), None]));
    assert!(t != transform(0, &["b", "a"], &[None, Some("x")], &[Some("h"), None]));
    assert!(t != transform(0, &["a", "b"], &[Some("x"), None], &[Some("h"), None]));
    assert!(t != transform(0, &["a", "b"], &[None, Some("x")], &[None, None]));
    assert!(t != transform(0, &["a"], &[None], &[Some("h")]));
}

#[test]
fn connections_are_equal_by_action_and_ids_in_order() {
    let c = connection(0, Action::Apply, &[1, 2], &[3], &[4], &[]);
    assert!(c == connection(9, Action::Apply, &[1, 2], &[3], &[4], &[]));
    assert!(c != connection(0, Action::Link, &[1, 2], &[3], &[4], &[]));
    assert!(c != connection(0, Action::Apply, &[2, 1], &[3], &[4], &[]));
    assert!(c != connection(0, Action::Apply, &[1, 2], &[], &[4], &[]));
    assert!(c != connection(0, Action::Apply, &[1, 2], &[3], &[], &[4]));
}

#[test]
fn entry_in_reports_the_first_equal_entry() {
    let stored = vec![data(4, &["a"]), data(7, &["b", "c"]), data(9, &["c", "b"])];
    assert_eq!(entry_in(&data(0, &["c", "b"]), &stored), (true, 7));
    assert_eq!(entry_in(&data(0, &["a"]), &stored), (true, 4));
    assert_eq!(entry_in(&data(0, &["z"]), &stored), (false, 0));
    assert_eq!(entry_in(&data(0, &["z"]), &[]), (false, 0));
}

#[test]
fn id_in_looks_up_by_id() {
    let stored = vec![data(4, &["a"]), data(7, &["b"])];
    assert!(id_in(4, &stored));
    assert!(id_in(7, &stored));
    assert!(!id_in(5, &stored));
    assert!(!id_in::<Data>(0, &[]));
    assert_eq!(stored[1].get_id(), 7);
}

#[test]
fn clones_keep_everything() {
    let mut md = Metadata::new();
    md.insert("k".to_string(), "v".to_string());
    let t = Transform {
        id: 3,
        md,
        script_paths: strings(&["s"]),
        script_args: vec![Some("a".to_string())],
        script_git_hashes: vec![None],
    };
    let u = t.clone();
    assert_eq!(u.id, 3);
    assert_eq!(u.md.get("k"), Some(&"v".to_string()));
    assert_eq!(u.script_paths, strings(&["s"]));
    assert_eq!(u.script_args, vec![Some("a".to_string())]);
    assert_eq!(u.script_git_hashes, vec![None]);
}

#[test]
fn action_names() {
    assert_eq!(Action::Apply.name(), "apply");
    assert_eq!(Action::Chain.name(), "chain");
    assert_eq!(Action::Link.name(), "link");
    assert_eq!(Action::from_name("apply"), Some(Action::Apply));
    assert_eq!(Action::from_name("chain"), Some(Action::Chain));
    assert_eq!(Action::from_name("link"), Some(Action::Link));
    assert_eq!(Action::from_name("Apply"), None);
    assert_eq!(Action::from_label("Apply"), Some(Action::Apply));
    assert_eq!(Action::from_label("Chain"), Some(Action::Chain));
    assert_eq!(Action::from_label("Link"), Some(Action::Link));
    assert_eq!(Action::from_label("link"), None);
}

#[test]
fn metadata_insert_get_and_extend() {
    let mut a = Metadata::new();
    a.insert("x".to_string(), "1".to_string());
    a.insert("y".to_string(), "2".to_string());
    a.insert("x".to_string(), "3".to_string());
    assert_eq!(a.get("x"), Some(&"3".to_string()));
    assert!(a.contains_key("y"));
    assert!(!a.contains_key("z"));
    assert_eq!(a.entries().len(), 2);
    let mut b = Metadata::new();
    b.insert("y".to_string(), "9".to_string());
    b.insert("z".to_string(), "8".to_string());
    a.extend(&b);
    assert_eq!(a.get("x"), Some(&"3".to_string()));
    assert_eq!(a.get("y"), Some(&"9".to_string()));
    assert_eq!(a.get("z"), Some(&"8".to_string()));
    let c = Metadata::from_entries(vec![
        ("k".to_string(), "1".to_string()),
        ("k".to_string(), "2".to_string()),
    ]);
    assert_eq!(c.get("k"), Some(&"2".to_string()));
}

#[test]
fn pinned_commit_of_a_script() {
    let hint = Some("abc".to_string());
    assert_eq!(resolve_hash(&hint, &None), None);
    assert_eq!(resolve_hash(&None, &None), None);
    let good = Some(RepoProbe { hint_is_commit: true, head: Some("head".to_string()) });
    assert_eq!(resolve_hash(&hint, &good), Some("abc".to_string()));
    assert_eq!(resolve_hash(&None, &good), Some("head".to_string()));
    let bad = Some(RepoProbe { hint_is_commit: false, head: Some("head".to_string()) });
    assert_eq!(resolve_hash(&hint, &bad), Some("head".to_string()));
    let unborn = Some(RepoProbe { hint_is_commit: false, head: None });
    assert_eq!(resolve_hash(&hint, &unborn), None);
}

#[test]
fn every_error_has_its_kind() {
    assert_eq!(DbError::LedgerExists.kind(), ErrorKind::AlreadyExists);
    assert_eq!(DbError::LedgerMissing.kind(), ErrorKind::NotFound);
    assert_eq!(DbError::NoDataPaths.kind(), ErrorKind::InvalidArgument);
    assert_eq!(DbError::NoScriptPaths.kind(), ErrorKind::InvalidArgument);
    assert_eq!(DbError::LengthMismatch.kind(), ErrorKind::InvalidArgument);
    assert_eq!(DbError::NoIds.kind(), ErrorKind::InvalidArgument);
    assert_eq!(DbError::PathMissing(0).kind(), ErrorKind::NotFound);
    assert_eq!(DbError::ScriptMissing(0).kind(), ErrorKind::NotFound);
    assert_eq!(DbError::ScriptNotAFile(0).kind(), ErrorKind::NotFound);
    assert_eq!(DbError::DataExists(0).kind(), ErrorKind::AlreadyExists);
    assert_eq!(DbError::TransformExists(0).kind(), ErrorKind::AlreadyExists);
    assert_eq!(DbError::ConnectionExists(0).kind(), ErrorKind::AlreadyExists);
    assert_eq!(DbError::DataMissing(0).kind(), ErrorKind::NotFound);
    assert_eq!(DbError::TransformMissing(0).kind(), ErrorKind::NotFound);
    assert_eq!(DbError::InputDataMissing(0).kind(), ErrorKind::NotFound);
    assert_eq!(DbError::OutputDataMissing(0).kind(), ErrorKind::NotFound);
    assert_eq!(DbError::InputTransformMissing(0).kind(), ErrorKind::NotFound);
    assert_eq!(DbError::OutputTransformMissing(0).kind(), ErrorKind::NotFound);
    assert_eq!(DbError::LaunchFailed(0).kind(), ErrorKind::ExecutionFailure);
    assert_eq!(DbError::ScriptFailed(0).kind(), ErrorKind::ExecutionFailure);
    assert_eq!(DbError::OutputNotText(0).kind(), ErrorKind::ExecutionFailure);
    assert_eq!(DbError::BadPattern.kind(), ErrorKind::ExecutionFailure);
    assert_eq!(DbError::BadCommitId(0).kind(), ErrorKind::VersionControlFailure);
    assert_eq!(DbError::CheckoutFailed(0).kind(), ErrorKind::VersionControlFailure);
    assert_eq!(DbError::RestoreFailed(0).kind(), ErrorKind::VersionControlFailure);
    assert_eq!(DbError::UnexpectedReply.kind(), ErrorKind::InvalidArgument);
}
