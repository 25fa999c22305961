use utzip::cli::{determine_command, parse_split_size_arg, check_split_args, Command, SplitArgProblem, ZipArgs};
use utzip::datetime::{passes_date_filters, CalendarDate};
use utzip::error::ZipError;
use utzip::plan::{build_plan, decide_action, Action, ArchiveCandidate, FsCandidate, Mode, Stamp};
use utzip::selection::{apply_filters, match_pattern, should_log_inclusion};
use utzip::session::{commit_next, temp_code, temp_file_name, CommitEvent, CommitStep, DisplaySettings, LogConfig, SizeProvider};
use utzip::zipfile::ZipFile;
use utzip::zip::CentralDirectoryHeader;

#[test]
fn glob_patterns() {
    assert!(match_pattern("doc/a.md", "doc/*", false));
    assert!(!match_pattern("src/c.rs", "doc/*", false));
    assert!(match_pattern("a1.txt", "a?.txt", false));
    assert!(!match_pattern("a12.txt", "a?.txt", false));
    assert!(match_pattern("doc/*", "doc/*", true));
    assert!(!match_pattern("doc/a.md", "doc/*", true));
    assert!(!match_pattern("x", "(", false));
    assert!(match_pattern("(", "(", false));
    assert!(!match_pattern("axtxt", "a.txt", false));
    assert!(match_pattern("a.txt", "a.txt", false));
    assert!(!match_pattern("A.TXT", "*.txt", false));
    assert!(match_pattern("doc/sub/a.md", "doc/*", false));
    assert!(match_pattern("a+b[1]", "a+b[1]", false));
    assert!(match_pattern("line\nbreak", "line*", false));
}

#[test]
fn delete_with_pattern() {
    let mut args = ZipArgs::default();
    args.command = Command::Delete;
    args.filter.exclude = vec!["doc/*".to_string()];
    assert!(apply_filters("doc/a.md", &args, true));
    assert!(apply_filters("doc/b.md", &args, true));
    assert!(!apply_filters("src/c.rs", &args, true));
}

#[test]
fn include_exclude_for_added_files() {
    let mut args = ZipArgs::default();
    args.filter.includes = vec!["*.rs".to_string()];
    args.filter.exclude = vec!["*test*".to_string()];
    assert!(apply_filters("src/lib.rs", &args, false));
    assert!(!apply_filters("src/test.rs", &args, false));
    assert!(!apply_filters("README.md", &args, false));
    args.other.no_wildcards_boundary = true;
    assert!(!apply_filters("src/lib.rs", &args, false));
    assert!(apply_filters("lib.rs", &args, false));
    args.basic_options.verbose = true;
    assert!(should_log_inclusion(&args));
}

#[test]
fn freshen_semantics() {
    let fs = vec![
        FsCandidate { name: "x.txt".to_string(), stamp: Stamp { mtime: 200, size: 5 } },
        FsCandidate { name: "y.txt".to_string(), stamp: Stamp { mtime: 200, size: 5 } },
    ];
    let entries = vec![ArchiveCandidate { name: "x.txt".to_string(), stamp: Stamp { mtime: 100, size: 5 }, matches: true }];
    let plan = build_plan(Mode::Freshen, &fs, &entries).unwrap();
    assert_eq!(plan.len(), 2);
    assert_eq!(plan[0].name, "x.txt");
    assert_eq!(plan[0].action, Action::ReCompress);
    assert_eq!(plan[0].fs_index, Some(0));
    assert_eq!(plan[1].name, "y.txt");
    assert_eq!(plan[1].action, Action::Skip);
    let update = build_plan(Mode::Update, &fs, &entries).unwrap();
    assert_eq!(update[1].action, Action::Add);
}

#[test]
fn duplicate_paths_are_fatal() {
    let fs = vec![
        FsCandidate { name: "a".to_string(), stamp: Stamp { mtime: 1, size: 1 } },
        FsCandidate { name: "a".to_string(), stamp: Stamp { mtime: 2, size: 1 } },
    ];
    assert!(matches!(build_plan(Mode::Add, &fs, &vec![]), Err(ZipError::DuplicateFileName(_))));
}

#[test]
fn decision_table_rows() {
    let old = Some(Stamp { mtime: 10, size: 3 });
    let newer = Some(Stamp { mtime: 20, size: 3 });
    let same = Some(Stamp { mtime: 10, size: 3 });
    assert_eq!(decide_action(Mode::Add, newer, None, false), Action::Add);
    assert_eq!(decide_action(Mode::Add, newer, old, false), Action::ReCompress);
    assert_eq!(decide_action(Mode::Add, same, old, false), Action::CopyRaw);
    assert_eq!(decide_action(Mode::Update, same, old, false), Action::CopyRaw);
    assert_eq!(decide_action(Mode::Freshen, newer, None, false), Action::Skip);
    assert_eq!(decide_action(Mode::FileSync, None, old, false), Action::Delete);
    assert_eq!(decide_action(Mode::FileSync, Some(Stamp { mtime: 10, size: 4 }), old, false), Action::ReCompress);
    assert_eq!(decide_action(Mode::Delete, None, old, true), Action::Delete);
    assert_eq!(decide_action(Mode::Delete, None, old, false), Action::CopyRaw);
    assert_eq!(decide_action(Mode::Copy, None, old, false), Action::Skip);
    assert_eq!(decide_action(Mode::Copy, None, old, true), Action::CopyRaw);
    assert_eq!(decide_action(Mode::Dif, same, old, false), Action::Skip);
    assert_eq!(decide_action(Mode::Dif, newer, old, false), Action::ReCompress);
    assert_eq!(decide_action(Mode::Dif, None, old, false), Action::Skip);
}

#[test]
fn date_filters() {
    let d = |y, m, dd| CalendarDate { year: y, month: m, day: dd };
    assert!(passes_date_filters(Some(d(2024, 5, 1)), Some(d(2024, 5, 1)), None));
    assert!(!passes_date_filters(Some(d(2024, 4, 30)), Some(d(2024, 5, 1)), None));
    assert!(!passes_date_filters(Some(d(2024, 5, 1)), None, Some(d(2024, 5, 1))));
    assert!(passes_date_filters(Some(d(2024, 5, 1)), Some(d(2024, 1, 1)), Some(d(2024, 6, 1))));
    assert!(!passes_date_filters(None, None, None));
}

#[test]
fn split_size_arguments() {
    assert_eq!(parse_split_size_arg("64k", 65536), Ok(65536));
    assert_eq!(parse_split_size_arg("2", 65536), Ok(2 * 1024 * 1024));
    assert_eq!(parse_split_size_arg("1G", 65536), Ok(1 << 30));
    assert_eq!(parse_split_size_arg("3t", 0), Ok(3 << 40));
    assert!(parse_split_size_arg("63k", 65536).is_err());
    assert!(parse_split_size_arg("abc", 0).is_err());
    assert!(parse_split_size_arg("10x", 0).is_err());
    assert!(parse_split_size_arg("k", 0).is_err());
    assert!(parse_split_size_arg("99999999999999999999k", 0).is_err());
}

#[test]
fn command_selection() {
    let mut args = ZipArgs::default();
    assert_eq!(determine_command(&args), Command::Add);
    args.basic_mode_options.freshen = true;
    assert_eq!(determine_command(&args), Command::Update);
    args.basic_mode_options.delete = true;
    assert_eq!(determine_command(&args), Command::Delete);
    let mut t = ZipArgs::default();
    t.test.test = true;
    assert_eq!(determine_command(&t), Command::Test);
    t.files = vec!["a".to_string()];
    assert_eq!(determine_command(&t), Command::Add);
    let mut s = ZipArgs::default();
    s.split.split_size = Some(65536);
    assert_eq!(check_split_args(&s, false), Err(SplitArgProblem::MissingZipFile));
    s.zipfile = Some("out.zip".to_string());
    assert_eq!(check_split_args(&s, true), Err(SplitArgProblem::MissingOutput));
    assert_eq!(check_split_args(&s, false), Ok(()));
}

#[test]
fn staging_name_and_commit_steps() {
    assert_eq!(temp_file_name(0xABC123), b"ziABC123".to_vec());
    assert_eq!(temp_file_name(0x00000F), b"zi00000F".to_vec());
    assert_eq!(temp_code(0x123, 0x1000), 0x123 ^ 0x1000);
    assert_eq!(commit_next(CommitStep::Rename, CommitEvent::Succeeded), CommitStep::Done);
    assert_eq!(commit_next(CommitStep::Rename, CommitEvent::CrossDevice), CommitStep::CopyToSibling);
    assert_eq!(commit_next(CommitStep::CopyToSibling, CommitEvent::Succeeded), CommitStep::RenameSibling);
    assert_eq!(commit_next(CommitStep::CopyToSibling, CommitEvent::Failed), CommitStep::RemoveSibling);
    assert_eq!(commit_next(CommitStep::RenameSibling, CommitEvent::Succeeded), CommitStep::RemoveStaging);
    assert_eq!(commit_next(CommitStep::RenameSibling, CommitEvent::Failed), CommitStep::RemoveSibling);
    assert_eq!(commit_next(CommitStep::RemoveSibling, CommitEvent::Succeeded), CommitStep::Failed);
    assert_eq!(commit_next(CommitStep::RemoveStaging, CommitEvent::Failed), CommitStep::DoneStagingLeft);
    assert_eq!(commit_next(CommitStep::Rename, CommitEvent::Failed), CommitStep::Failed);
}

#[test]
fn run_settings() {
    let c = LogConfig { quiet: false, verbose: true };
    assert!(c.shows_messages() && c.shows_verbose());
    let q = LogConfig { quiet: true, verbose: true };
    assert!(!q.shows_messages() && !q.shows_verbose());
    assert_eq!(7u32.get_size(), 7);
    assert_eq!(9u64.get_size(), 9);
    let mut d = utzip::cli::DisplayOptions::default();
    d.display_dots_size = Some(32768);
    let s = DisplaySettings::from_options(&d, false);
    assert!(s.display_dots);
    assert_eq!(s.dot_size, 32768);
}

#[test]
fn zip_file_views() {
    let mut h = CentralDirectoryHeader::new();
    h.filename = b"dir/".to_vec();
    h.flags = 1;
    h.mod_time = (9 << 11) | (30 << 5);
    h.mod_date = (44 << 9) | (5 << 5) | 2;
    let mut f = ZipFile::new(h, 0, 0);
    assert!(f.is_dir());
    assert!(f.encrypted());
    assert_eq!(f.name(), "dir/");
    f.set_comments("note");
    assert_eq!(f.comments(), "note");
    let t = f.last_modified_parts();
    assert_eq!((t.year, t.month, t.day, t.hour, t.minute), (2024, 5, 2, 9, 30));
    assert_eq!(f.options().compression_level, 0);
}

#[test]
fn end_line_layout() {
    let p = utzip::session::end_line_parts(false, true, true, false);
    assert!(p.printed && p.uncompressed && p.in_out && p.method_ratio);
    let d = utzip::session::end_line_parts(false, true, false, true);
    assert!(d.printed && !d.in_out && !d.method_ratio && !d.uncompressed);
    assert!(!utzip::session::end_line_parts(true, true, true, false).printed);
}
