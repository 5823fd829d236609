use psidb::database::entry::data::Data;
use psidb::database::entry::transform::Transform;
use psidb::database::Database;
use psidb::error::DbError;
use psidb::execution::{Output, Reply, Request};
use psidb::metadata::Metadata;
use psidb::utils::{
    output_paths, parse_args, parse_args_at, safe_git_checkout_commit,
    safe_git_checkout_commit_restore, texts_of_groups,
};
use psidb::version_control::{
    CheckoutLog, CheckoutStep, RestoreLog, RestoreStep, ScriptProbe,
};

fn ran(stdout: &str) -> Reply {
    Reply::Ran(Some(Output { success: true, stdout: stdout.as_bytes().to_vec() }))
}

fn ok_file() -> Reply {
    Reply::Probed { exists: true, is_file: true }
}

fn transform(paths: &[&str], args: &[Option<&str>], hashes: &[Option<&str>]) -> Transform {
    Transform {
        id: 0,
        md: Metadata::new(),
        script_paths: paths.iter().map(|s| s.to_string()).collect(),
        script_args: args.iter().map(|a| a.map(|s| s.to_string())).collect(),
        script_git_hashes: hashes.iter().map(|a| a.map(|s| s.to_string())).collect(),
    }
}

fn data(paths: &[&str]) -> Data {
    Data { id: 0, md: Metadata::new(), paths: paths.iter().map(|s| s.to_string()).collect() }
}

fn show(r: &Request) -> String {
    format!("{:?}", r)
}

#[test]
fn placeholders_are_filled_in() {
    assert_eq!(
        parse_args_at("--out {psidb::id}.txt --day {psidb::date} --at {psidb::time}", 7, "2024-05-06", "07:08:09+00:00"),
        Ok("--out 7.txt --day 2024-05-06 --at 07:08:09+00:00".to_string())
    );
    assert_eq!(
        parse_args_at("{psidb::id}{psidb::id} {psidb::date}", 12, "D", "T"),
        Ok("1212 D".to_string())
    );
    assert_eq!(parse_args_at("", 1, "D", "T"), Ok("".to_string()));
    assert_eq!(parse_args_at("{psidb::ID} {psidb:id}", 1, "D", "T"), Ok("{psidb::ID} {psidb:id}".to_string()));
}

#[test]
fn placeholders_are_filled_in_with_the_clock() {
    let text = parse_args("{psidb::id}|{psidb::date}|{psidb::time}", 42).unwrap();
    let parts: Vec<&str> = text.split('|').collect();
    assert_eq!(parts.len(), 3);
    assert_eq!(parts[0], "42");
    assert_eq!(parts[1].len(), "2024-01-01".len());
    assert_eq!(parts[2].len(), "00:00:00+00:00".len());
    assert!(parts[2].ends_with("+00:00"));
}

#[test]
fn output_paths_are_read_in_order() {
    assert_eq!(
        output_paths(b"hello\npsidb::out_path /tmp/out.txt\nbye\npsidb::out_path /b c\n", 0),
        Ok(vec!["/tmp/out.txt".to_string(), "/b c".to_string()])
    );
    assert_eq!(output_paths(b"nothing here\n", 0), Ok(vec![]));
    assert_eq!(output_paths(b"", 0), Ok(vec![]));
    assert_eq!(output_paths(b"psidb::out_path ", 0), Ok(vec!["".to_string()]));
    assert_eq!(output_paths(b"x psidb::out_path /a psidb::out_path /b", 0), Ok(vec!["/a psidb::out_path /b".to_string()]));
    assert_eq!(output_paths("psidb::out_path /é\n".as_bytes(), 0), Ok(vec!["/é".to_string()]));
}

#[test]
fn groups_that_are_not_text_are_refused() {
    assert_eq!(texts_of_groups(&vec![Some(b"a".to_vec()), Some(vec![0xff])], 3), Err(DbError::OutputNotText(3)));
    assert_eq!(texts_of_groups(&vec![None], 2), Err(DbError::OutputNotText(2)));
    assert_eq!(
        texts_of_groups(&vec![Some(b"a".to_vec()), Some("é".as_bytes().to_vec())], 0),
        Ok(vec!["a".to_string(), "é".to_string()])
    );
    assert_eq!(texts_of_groups(&vec![], 0), Ok(vec![]));
}

#[test]
fn checkout_steps() {
    let mut log = CheckoutLog::fresh();
    assert_eq!(safe_git_checkout_commit(&log), CheckoutStep::ReadHead);
    log.head_read = Some(false);
    assert_eq!(safe_git_checkout_commit(&log), CheckoutStep::Failed);
    log.head_read = Some(true);
    assert_eq!(safe_git_checkout_commit(&log), CheckoutStep::Stash);
    log.stashed = Some(false);
    assert_eq!(safe_git_checkout_commit(&log), CheckoutStep::Detach);
    log.detached = Some(false);
    assert_eq!(safe_git_checkout_commit(&log), CheckoutStep::Failed);
    log.stashed = Some(true);
    assert_eq!(safe_git_checkout_commit(&log), CheckoutStep::Unstash);
    log.unstashed = Some(false);
    assert_eq!(safe_git_checkout_commit(&log), CheckoutStep::Failed);
    log.unstashed = None;
    log.detached = Some(true);
    assert_eq!(safe_git_checkout_commit(&log), CheckoutStep::Ready);
}

#[test]
fn restore_steps() {
    let mut log = RestoreLog::fresh();
    assert_eq!(safe_git_checkout_commit_restore(true, &log), RestoreStep::RestoreHead);
    assert_eq!(safe_git_checkout_commit_restore(false, &log), RestoreStep::RestoreHead);
    log.restored = Some(false);
    assert_eq!(safe_git_checkout_commit_restore(true, &log), RestoreStep::Failed);
    log.restored = Some(true);
    assert_eq!(safe_git_checkout_commit_restore(false, &log), RestoreStep::Ready);
    assert_eq!(safe_git_checkout_commit_restore(true, &log), RestoreStep::Unstash);
    log.unstashed = Some(true);
    assert_eq!(safe_git_checkout_commit_restore(true, &log), RestoreStep::Ready);
    log.unstashed = Some(false);
    assert_eq!(safe_git_checkout_commit_restore(true, &log), RestoreStep::Failed);
}

#[test]
fn run_without_scripts_gives_the_input_paths() {
    let t = transform(&[], &[], &[]);
    let d = data(&["/in1", "/in2"]);
    let e = data(&["/other"]);
    let (run, req) = t.apply(&[&d, &e], 5);
    assert!(run.is_done());
    match req {
        Request::Finished(made) => {
            assert_eq!(made.id, 5);
            assert_eq!(made.paths, vec!["/in1", "/in2"]);
            assert!(made.md.entries().is_empty());
        }
        other => panic!("{}", show(&other)),
    }
}

#[test]
fn run_of_two_unpinned_scripts() {
    let t = transform(&["/a.sh", "/b.sh"], &[Some("--id {psidb::id}"), None], &[None, None]);
    let d = data(&["/in"]);
    let (run, req) = t.apply(&[&d], 9);
    assert!(!run.is_done());
    assert!(matches!(&req, Request::Probe { script } if script == "/a.sh"));
    let (run, req) = run.advance(ok_file(), "D", "T");
    match &req {
        Request::Run { script, args } => {
            assert_eq!(script, "/a.sh");
            assert_eq!(args, &vec!["/in".to_string(), "--id 9".to_string()]);
        }
        other => panic!("{}", show(other)),
    }
    let (run, req) = run.advance(ran("psidb::out_path /m1\npsidb::out_path /m2\n"), "D", "T");
    assert!(matches!(&req, Request::Probe { script } if script == "/b.sh"));
    let (run, req) = run.advance(ok_file(), "D", "T");
    match &req {
        Request::Run { script, args } => {
            assert_eq!(script, "/b.sh");
            assert_eq!(args, &vec!["/m1".to_string(), "/m2".to_string(), "".to_string()]);
        }
        other => panic!("{}", show(other)),
    }
    let (run, req) = run.advance(ran("no marker"), "D", "T");
    assert!(run.is_done());
    match req {
        Request::Finished(made) => {
            assert_eq!(made.id, 9);
            assert!(made.paths.is_empty());
        }
        other => panic!("{}", show(&other)),
    }
}

#[test]
fn run_with_no_input_starts_from_no_paths() {
    let t = transform(&["/a.sh"], &[Some("x")], &[None]);
    let (run, _) = t.apply(&[], 1);
    let (_, req) = run.step(ok_file());
    match &req {
        Request::Run { args, .. } => assert_eq!(args, &vec!["x".to_string()]),
        other => panic!("{}", show(other)),
    }
}

#[test]
fn run_of_a_pinned_script_checks_out_and_restores() {
    let t = transform(&["/r/a.sh"], &[None], &[Some("c0ffee")]);
    let (run, req) = t.apply(&[], 1);
    match &req {
        Request::Locate { script, commit } => {
            assert_eq!(script, "/r/a.sh");
            assert_eq!(commit, "c0ffee");
        }
        other => panic!("{}", show(other)),
    }
    let (run, req) = run.advance(Reply::Located { in_repository: true, commit_ok: true }, "D", "T");
    assert!(matches!(req, Request::ReadHead));
    let (run, req) = run.advance(Reply::Head(Some("refs/heads/main".to_string())), "D", "T");
    assert!(matches!(req, Request::Stash));
    let (run, req) = run.advance(Reply::Status(true), "D", "T");
    assert!(matches!(&req, Request::Detach { commit } if commit == "c0ffee"));
    let (run, req) = run.advance(Reply::Status(true), "D", "T");
    assert!(matches!(&req, Request::Probe { script } if script == "/r/a.sh"));
    let (run, req) = run.advance(ok_file(), "D", "T");
    assert!(matches!(&req, Request::Run { .. }));
    let (run, req) = run.advance(ran("psidb::out_path /o\n"), "D", "T");
    assert!(matches!(&req, Request::RestoreHead { reference } if reference == "refs/heads/main"));
    assert!(!run.is_done());
    let (run, req) = run.advance(Reply::Status(true), "D", "T");
    assert!(matches!(req, Request::Unstash));
    let (run, req) = run.advance(Reply::Status(true), "D", "T");
    assert!(run.is_done());
    match req {
        Request::Finished(made) => assert_eq!(made.paths, vec!["/o"]),
        other => panic!("{}", show(&other)),
    }
}

#[test]
fn run_without_stash_does_not_pop() {
    let t = transform(&["/r/a.sh"], &[None], &[Some("c0ffee")]);
    let (run, _) = t.apply(&[], 1);
    let (run, _) = run.advance(Reply::Located { in_repository: true, commit_ok: true }, "D", "T");
    let (run, _) = run.advance(Reply::Head(Some("refs/heads/main".to_string())), "D", "T");
    let (run, req) = run.advance(Reply::Status(false), "D", "T");
    assert!(matches!(req, Request::Detach { .. }));
    let (run, _) = run.advance(Reply::Status(true), "D", "T");
    let (run, _) = run.advance(ok_file(), "D", "T");
    let (run, req) = run.advance(ran(""), "D", "T");
    assert!(matches!(req, Request::RestoreHead { .. }));
    let (run, req) = run.advance(Reply::Status(true), "D", "T");
    assert!(run.is_done());
    assert!(matches!(req, Request::Finished(_)));
}

#[test]
fn pinned_script_outside_a_repository_runs_unpinned() {
    let t = transform(&["/a.sh"], &[None], &[Some("c0ffee")]);
    let (run, _) = t.apply(&[], 1);
    let (run, req) = run.advance(Reply::Located { in_repository: false, commit_ok: false }, "D", "T");
    assert!(matches!(req, Request::Probe { .. }));
    let (run, _) = run.advance(ok_file(), "D", "T");
    let (run, req) = run.advance(ran(""), "D", "T");
    assert!(run.is_done());
    assert!(matches!(req, Request::Finished(_)));
}

#[test]
fn bad_commit_id_ends_the_run() {
    let t = transform(&["/a.sh"], &[None], &[Some("zzz")]);
    let (run, _) = t.apply(&[], 1);
    let (run, req) = run.advance(Reply::Located { in_repository: true, commit_ok: false }, "D", "T");
    assert!(run.is_done());
    assert!(matches!(req, Request::Failed(DbError::BadCommitId(0))));
}

#[test]
fn head_that_cannot_be_read_ends_the_run() {
    let t = transform(&["/a.sh"], &[None], &[Some("c0ffee")]);
    let (run, _) = t.apply(&[], 1);
    let (run, _) = run.advance(Reply::Located { in_repository: true, commit_ok: true }, "D", "T");
    let (run, req) = run.advance(Reply::Head(None), "D", "T");
    assert!(run.is_done());
    assert!(matches!(req, Request::Failed(DbError::CheckoutFailed(0))));
}

#[test]
fn failed_detach_pops_the_stash_and_ends_the_run() {
    let t = transform(&["/a.sh"], &[None], &[Some("c0ffee")]);
    let (run, _) = t.apply(&[], 1);
    let (run, _) = run.advance(Reply::Located { in_repository: true, commit_ok: true }, "D", "T");
    let (run, _) = run.advance(Reply::Head(Some("refs/heads/main".to_string())), "D", "T");
    let (run, _) = run.advance(Reply::Status(true), "D", "T");
    let (run, req) = run.advance(Reply::Status(false), "D", "T");
    assert!(matches!(req, Request::Unstash));
    assert!(!run.is_done());
    let (run, req) = run.advance(Reply::Status(true), "D", "T");
    assert!(run.is_done());
    assert!(matches!(req, Request::Failed(DbError::CheckoutFailed(0))));
}

#[test]
fn failed_detach_without_stash_ends_the_run_at_once() {
    let t = transform(&["/a.sh"], &[None], &[Some("c0ffee")]);
    let (run, _) = t.apply(&[], 1);
    let (run, _) = run.advance(Reply::Located { in_repository: true, commit_ok: true }, "D", "T");
    let (run, _) = run.advance(Reply::Head(Some("refs/heads/main".to_string())), "D", "T");
    let (run, _) = run.advance(Reply::Status(false), "D", "T");
    let (run, req) = run.advance(Reply::Status(false), "D", "T");
    assert!(run.is_done());
    assert!(matches!(req, Request::Failed(DbError::CheckoutFailed(0))));
}

fn checked_out(t: &Transform) -> psidb::execution::Execution {
    let (run, _) = t.apply(&[], 1);
    let (run, _) = run.advance(Reply::Located { in_repository: true, commit_ok: true }, "D", "T");
    let (run, _) = run.advance(Reply::Head(Some("refs/heads/main".to_string())), "D", "T");
    let (run, _) = run.advance(Reply::Status(true), "D", "T");
    let (run, req) = run.advance(Reply::Status(true), "D", "T");
    assert!(matches!(req, Request::Probe { .. }));
    run
}

#[test]
fn failing_script_is_reported_after_the_restoration() {
    let t = transform(&["/a.sh", "/b.sh"], &[None, None], &[Some("c0ffee"), None]);
    let run = checked_out(&t);
    let (run, _) = run.advance(ok_file(), "D", "T");
    let failed = Reply::Ran(Some(Output { success: false, stdout: b"psidb::out_path /o".to_vec() }));
    let (run, req) = run.advance(failed, "D", "T");
    assert!(matches!(req, Request::RestoreHead { .. }));
    let (run, req) = run.advance(Reply::Status(true), "D", "T");
    assert!(matches!(req, Request::Unstash));
    let (run, req) = run.advance(Reply::Status(true), "D", "T");
    assert!(run.is_done());
    assert!(matches!(req, Request::Failed(DbError::ScriptFailed(0))));
}

#[test]
fn script_that_cannot_be_started_is_reported_after_the_restoration() {
    let t = transform(&["/a.sh"], &[None], &[Some("c0ffee")]);
    let run = checked_out(&t);
    let (run, _) = run.advance(ok_file(), "D", "T");
    let (run, req) = run.advance(Reply::Ran(None), "D", "T");
    assert!(matches!(req, Request::RestoreHead { .. }));
    let (run, _) = run.advance(Reply::Status(true), "D", "T");
    let (run, req) = run.advance(Reply::Status(true), "D", "T");
    assert!(run.is_done());
    assert!(matches!(req, Request::Failed(DbError::LaunchFailed(0))));
}

#[test]
fn script_that_vanished_is_reported_after_the_restoration() {
    let t = transform(&["/a.sh"], &[None], &[Some("c0ffee")]);
    let run = checked_out(&t);
    let (run, req) = run.advance(Reply::Probed { exists: false, is_file: false }, "D", "T");
    assert!(matches!(req, Request::RestoreHead { .. }));
    let (run, _) = run.advance(Reply::Status(true), "D", "T");
    let (run, req) = run.advance(Reply::Status(true), "D", "T");
    assert!(run.is_done());
    assert!(matches!(req, Request::Failed(DbError::ScriptMissing(0))));
}

#[test]
fn restoration_that_fails_is_reported() {
    let t = transform(&["/a.sh"], &[None], &[Some("c0ffee")]);
    let run = checked_out(&t);
    let (run, _) = run.advance(ok_file(), "D", "T");
    let (run, _) = run.advance(ran(""), "D", "T");
    let (run, req) = run.advance(Reply::Status(false), "D", "T");
    assert!(run.is_done());
    assert!(matches!(req, Request::Failed(DbError::RestoreFailed(0))));

    let run = checked_out(&t);
    let (run, _) = run.advance(ok_file(), "D", "T");
    let (run, _) = run.advance(ran(""), "D", "T");
    let (run, _) = run.advance(Reply::Status(true), "D", "T");
    let (run, req) = run.advance(Reply::Status(false), "D", "T");
    assert!(run.is_done());
    assert!(matches!(req, Request::Failed(DbError::RestoreFailed(0))));
}

#[test]
fn failures_of_unpinned_scripts_end_the_run_at_once() {
    let t = transform(&["/a.sh", "/b.sh"], &[None, None], &[None, None]);
    let (run, _) = t.apply(&[], 1);
    let (run, req) = run.advance(Reply::Probed { exists: true, is_file: false }, "D", "T");
    assert!(run.is_done());
    assert!(matches!(req, Request::Failed(DbError::ScriptNotAFile(0))));

    let (run, _) = t.apply(&[], 1);
    let (run, _) = run.advance(ok_file(), "D", "T");
    let (run, _) = run.advance(ran(""), "D", "T");
    let (run, _) = run.advance(ok_file(), "D", "T");
    let (run, req) = run.advance(Reply::Ran(Some(Output { success: false, stdout: vec![] })), "D", "T");
    assert!(run.is_done());
    assert!(matches!(req, Request::Failed(DbError::ScriptFailed(1))));
}

#[test]
fn reply_out_of_turn_ends_the_run() {
    let t = transform(&["/a.sh"], &[None], &[None]);
    let (run, _) = t.apply(&[], 1);
    let (run, req) = run.advance(Reply::Status(true), "D", "T");
    assert!(run.is_done());
    assert!(matches!(req, Request::Failed(DbError::UnexpectedReply)));
    let (run, req) = run.advance(ok_file(), "D", "T");
    assert!(run.is_done());
    assert!(matches!(req, Request::Failed(DbError::UnexpectedReply)));

    let t = transform(&["/a.sh"], &[None], &[Some("c0ffee")]);
    let run = checked_out(&t);
    let (run, req) = run.advance(Reply::Status(true), "D", "T");
    assert!(matches!(req, Request::RestoreHead { .. }));
    let (run, _) = run.advance(Reply::Status(true), "D", "T");
    let (_, req) = run.advance(Reply::Status(true), "D", "T");
    assert!(matches!(req, Request::Failed(DbError::UnexpectedReply)));
}

#[test]
fn lists_of_unequal_length_are_cut_to_the_shortest() {
    let t = transform(&["/a.sh", "/b.sh"], &[None], &[None, None, None]);
    let (run, _) = t.apply(&[], 1);
    let (run, _) = run.advance(ok_file(), "D", "T");
    let (run, req) = run.advance(ran("psidb::out_path /o"), "D", "T");
    assert!(run.is_done());
    assert!(matches!(req, Request::Finished(_)));
}

#[test]
fn apply_a_stored_transform_to_a_stored_dataset() {
    let mut db = Database::new("/l/db.ron", false).unwrap();
    assert_eq!(db.add_data_at(&[Some("/data/in.txt".to_string())], None, "t0"), Ok(0));
    let script = ScriptProbe { exists: true, is_file: true, absolute: "/w/t.sh".to_string(), repository: None };
    assert_eq!(db.add_transform_at(&[script], None, None, None, "t1"), Ok(1));
    let (run, req) = db.prepare_apply(1, &[0]).ok().unwrap();
    assert!(matches!(&req, Request::Probe { script } if script == "/w/t.sh"));
    let (run, req) = run.step(ok_file());
    match &req {
        Request::Run { script, args } => {
            assert_eq!(script, "/w/t.sh");
            assert_eq!(args, &vec!["/data/in.txt".to_string(), "".to_string()]);
        }
        other => panic!("{}", show(other)),
    }
    let (run, req) = run.step(ran("psidb::out_path /tmp/out.txt\n"));
    assert!(run.is_done());
    let produced = match req {
        Request::Finished(made) => made,
        other => panic!("{}", show(&other)),
    };
    assert_eq!(produced.id, 2);
    assert_eq!(produced.paths, vec!["/tmp/out.txt"]);
    assert_eq!(db.apply_at(1, &[0], None, produced, "t2"), Ok((2, 3)));
    assert_eq!(db.find_data(2).unwrap().paths, vec!["/tmp/out.txt"]);
    let edge = &db.connections()[0];
    assert_eq!(edge.id, 3);
    assert_eq!(edge.in_data_ids, vec![0]);
    assert_eq!(edge.out_data_ids, vec![2]);
    assert_eq!(edge.in_transform_ids, vec![1]);
}

#[test]
fn apply_the_first_transform_to_no_dataset() {
    let mut db = Database::new("/l/db.ron", false).unwrap();
    let script = ScriptProbe { exists: true, is_file: true, absolute: "/w/t.sh".to_string(), repository: None };
    assert_eq!(db.add_transform_at(&[script], None, None, None, "t1"), Ok(0));
    assert_eq!(db.prepare_apply(0, &[0]).err(), Some(DbError::DataMissing(0)));
    assert_eq!(db.prepare_apply(1, &[]).err(), Some(DbError::TransformMissing(1)));
    let (run, _) = db.prepare_apply(0, &[]).ok().unwrap();
    let (run, _) = run.step(ok_file());
    let (_, req) = run.step(ran("psidb::out_path /tmp/out.txt\n"));
    let produced = match req {
        Request::Finished(made) => made,
        other => panic!("{}", show(&other)),
    };
    assert_eq!(produced.paths, vec!["/tmp/out.txt"]);
    assert_eq!(db.apply_at(0, &[], None, produced, "t2"), Ok((1, 2)));
    let edge = &db.connections()[0];
    assert!(edge.in_data_ids.is_empty());
    assert_eq!(edge.out_data_ids, vec![1]);
    assert_eq!(edge.in_transform_ids, vec![0]);
}

#[test]
fn pattern_that_the_engine_refuses() {
    assert_eq!(psidb::utils::fill_token("(", "text", "x"), Err(DbError::BadPattern));
    assert_eq!(psidb::utils::marked_texts("(", b"text", 0), Err(DbError::BadPattern));
    assert_eq!(psidb::utils::fill_token("a+", "baaad aa", "-"), Ok("b-d -".to_string()));
    assert_eq!(
        psidb::utils::marked_texts("k=(\\d+)", b"k=1 k=22\nk=x k=333", 0),
        Ok(vec!["1".to_string(), "22".to_string(), "333".to_string()])
    );
}

#[test]
fn group_that_takes_no_part_in_a_match_is_refused() {
    assert_eq!(psidb::utils::marked_texts("a|(b)", b"a", 4), Err(DbError::OutputNotText(4)));
    assert_eq!(psidb::utils::marked_texts("a|(b)", b"b", 4), Ok(vec!["b".to_string()]));
    assert_eq!(psidb::utils::marked_texts("a", b"a", 4), Err(DbError::OutputNotText(4)));
}

#[test]
fn bytes_that_are_not_text_end_a_path() {
    assert_eq!(output_paths(b"psidb::out_path /a\xff/b\n", 0), Ok(vec!["/a".to_string()]));
    assert_eq!(
        psidb::utils::marked_texts("(?-u)k=(.*)", b"k=\xff", 1),
        Err(DbError::OutputNotText(1))
    );
}
