use gir::digits::{parse_decimal, parse_i64, render_decimal};
use gir::errors::GirError;
use gir::file_path::{
    build_dir_plan, build_file_outcome, build_path, description_file_content, head_file_content,
    init_repo_plan, loose_object_segments, DirPlan, InitPlan,
};
use gir::hexcode::hex_encode;
use gir::repository::GitRepository;

#[test]
fn build_path_joins_segments_under_the_metadata_root() {
    let repo = GitRepository::new("wt".to_string(), true, false, None).unwrap();
    let segments = vec!["objects".to_string(), "ce".to_string(), "0136".to_string()];
    assert_eq!(build_path(&repo, &segments), "wt/.git/objects/ce/0136");
    let empty: Vec<String> = Vec::new();
    assert_eq!(build_path(&repo, &empty), "wt/.git");
}

#[test]
fn loose_segments_fan_out() {
    let sha = "ce013625030ba8dba906f756967f9e9ca394464a";
    let segs = loose_object_segments(sha).unwrap();
    assert_eq!(segs.len(), 3);
    assert_eq!(segs[0], "objects");
    assert_eq!(segs[1], "ce");
    assert_eq!(segs[2], "013625030ba8dba906f756967f9e9ca394464a");
}

#[test]
fn loose_segments_reject_bad_identifiers() {
    assert!(loose_object_segments("").is_none());
    assert!(loose_object_segments("ce01").is_none());
    let too_long = "ce013625030ba8dba906f756967f9e9ca394464a0";
    assert!(loose_object_segments(too_long).is_none());
    let non_ascii = "cé013625030ba8dba906f756967f9e9ca394464";
    assert!(loose_object_segments(non_ascii).is_none());
}

#[test]
fn dir_plan_decisions() {
    assert_eq!(build_dir_plan(true, true, false), DirPlan::UseExisting);
    assert_eq!(build_dir_plan(true, true, true), DirPlan::UseExisting);
    assert_eq!(build_dir_plan(true, false, true), DirPlan::FailNotADirectory);
    assert_eq!(build_dir_plan(false, false, true), DirPlan::CreateAll);
    assert_eq!(build_dir_plan(false, false, false), DirPlan::Absent);
}

#[test]
fn init_plan_decisions() {
    assert!(matches!(
        init_repo_plan(true, false, false, 0),
        Err(GirError::NotADirectory)
    ));
    assert!(matches!(
        init_repo_plan(true, true, true, 2),
        Err(GirError::DirectoryNotEmpty)
    ));
    assert_eq!(init_repo_plan(true, true, true, 0), Ok(InitPlan::UseExisting));
    assert_eq!(init_repo_plan(true, true, false, 0), Ok(InitPlan::UseExisting));
    assert_eq!(init_repo_plan(false, false, false, 0), Ok(InitPlan::CreateWorktree));
}

#[test]
fn bootstrap_file_contents() {
    assert_eq!(head_file_content(), "ref: refs/heads/master\n");
    assert_eq!(
        description_file_content(),
        "Unnamed repository; edit this file 'description' to name the repository.\n"
    );
}

#[test]
fn decimal_rendering() {
    assert_eq!(render_decimal(0), b"0".to_vec());
    assert_eq!(render_decimal(6), b"6".to_vec());
    assert_eq!(render_decimal(105), b"105".to_vec());
    assert_eq!(render_decimal(u64::MAX), b"18446744073709551615".to_vec());
}

#[test]
fn decimal_parsing() {
    assert_eq!(parse_decimal(&b"0".to_vec()), Some(0));
    assert_eq!(parse_decimal(&b"007".to_vec()), Some(7));
    assert_eq!(parse_decimal(&b"105".to_vec()), Some(105));
    assert_eq!(parse_decimal(&b"".to_vec()), None);
    assert_eq!(parse_decimal(&b"1x".to_vec()), None);
    assert_eq!(parse_decimal(&b"99999999999999999999999999".to_vec()), None);
}

#[test]
fn signed_parsing() {
    assert_eq!(parse_i64("0"), Some(0));
    assert_eq!(parse_i64("-0"), Some(0));
    assert_eq!(parse_i64("42"), Some(42));
    assert_eq!(parse_i64("-42"), Some(-42));
    assert_eq!(parse_i64("9223372036854775807"), Some(i64::MAX));
    assert_eq!(parse_i64("9223372036854775808"), None);
    assert_eq!(parse_i64("-9223372036854775808"), Some(i64::MIN));
    assert_eq!(parse_i64("-9223372036854775809"), None);
    assert_eq!(parse_i64("+0"), Some(0));
    assert_eq!(parse_i64("+42"), Some(42));
    assert_eq!(parse_i64("+9223372036854775808"), None);
    assert_eq!(parse_i64(""), None);
    assert_eq!(parse_i64("-"), None);
    assert_eq!(parse_i64("+"), None);
    assert_eq!(parse_i64("1.5"), None);
    assert_eq!(parse_i64(" 1"), None);
}

#[test]
fn build_file_outcomes_swallow_parent_failures() {
    let full = "wt/.git/config".to_string();
    assert_eq!(
        build_file_outcome(Ok(Some("wt/.git".to_string())), full.clone()),
        Some(full.clone())
    );
    assert_eq!(build_file_outcome(Ok(None), full.clone()), None);
    assert_eq!(build_file_outcome(Err(GirError::NotADirectory), full), None);
}

#[test]
fn hex_encoding() {
    assert_eq!(hex_encode(&vec![0x00, 0xff, 0x1a]), b"00ff1a".to_vec());
    assert_eq!(hex_encode(&Vec::new()), Vec::<u8>::new());
}
