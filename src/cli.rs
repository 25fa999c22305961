//! Command line options of the archiver and its companion tools, as plain
//! values, and the decisions taken on them once parsed.
use crate::datetime::CalendarDate;
use vstd::prelude::*;
use vstd::string::StrSliceExecFns;

verus! {

#[derive(Debug, Clone, Default)]
pub struct BasicModeOptions {
    pub update: bool,
    pub freshen: bool,
    pub filesync: bool,
    pub delete: bool,
    pub copy: bool,
}

#[derive(Debug, Clone, Default)]
pub struct BasicOptions {
    pub recurse: bool,
    pub move_files: bool,
    pub junk_paths: bool,
    pub quiet: bool,
    pub verbose: bool,
    pub add_comments: bool,
    pub add_archive_comment: bool,
    pub read_names_from_stdin: bool,
    pub latest_time: bool,
}

#[derive(Debug, Clone, Default)]
pub struct DisplayOptions {
    pub display_bytes: bool,
    pub display_count: bool,
    pub display_dots: bool,
    pub display_dots_global: bool,
    pub display_dots_size: Option<u64>,
    pub display_uncompressed: bool,
    pub display_volume: bool,
}

#[derive(Debug, Clone, Default)]
pub struct LoggingOptions {
    pub logfile: Option<String>,
    pub logfile_append: bool,
    pub logfile_info: bool,
}

#[derive(Debug, Clone, Default)]
pub struct SplitOptions {
    pub split_size: Option<u64>,
    pub split_pause: bool,
    pub split_beep: bool,
    pub split_verbose: bool,
}

#[derive(Debug, Clone, Default)]
pub struct ShowOptions {
    pub list: bool,
    pub show_unicode: bool,
    pub show_unicode_only: bool,
}

#[derive(Debug, Clone, Default)]
pub struct CompressionOptions {
    pub store_only: bool,
    pub compress_faster: bool,
    pub compress_better: bool,
    pub level_2: bool,
    pub level_3: bool,
    pub level_4: bool,
    pub level_5: bool,
    pub level_6: bool,
    pub level_7: bool,
    pub level_8: bool,
    pub compression_method: Option<String>,
}

#[derive(Debug, Clone, Default)]
pub struct EncryptionOptions {
    pub encrypt: bool,
    pub password: Option<String>,
}

#[derive(Debug, Clone, Default)]
pub struct FilterOptions {
    pub includes: Vec<String>,
    pub exclude: Vec<String>,
}

#[derive(Debug, Clone, Default)]
pub struct DataFilterOptions {
    pub after_date: Option<CalendarDate>,
    pub before_date: Option<CalendarDate>,
}

#[derive(Debug, Clone, Default)]
pub struct TestOptions {
    pub test: bool,
    pub test_cmd: Option<String>,
}

#[derive(Debug, Clone, Default)]
pub struct ExtractorOptions {
    pub adjust_sfx: bool,
    pub junk_sfx: bool,
}

#[derive(Debug, Clone, Default)]
pub struct FixOptions {
    pub fix_normal: bool,
    pub fix_full: bool,
}

#[derive(Debug, Clone, Default)]
pub struct TranslationOptions {
    pub convert_lf_to_crlf: bool,
    pub convert_crlf_to_lf: bool,
}

#[derive(Debug, Clone, Default)]
pub struct OtherOptions {
    pub extended_help: bool,
    pub out: Option<String>,
    pub recurse_patterns: bool,
    pub no_dir_entries: bool,
    pub no_extra: bool,
    pub store_symlinks: bool,
    pub dont_compress_suffixes: Option<String>,
    pub temp_path: Option<String>,
    pub dif: bool,
    pub encode: Option<String>,
    pub show_command: bool,
    pub show_debug: bool,
    pub show_options: bool,
    pub no_wildcards: bool,
    pub no_wildcards_boundary: bool,
    pub license: bool,
}

/// The operation that a run performs.
#[derive(Debug, Clone, Copy, PartialEq, Eq, Structural, Default)]
pub enum Command {
    #[default]
    Add,
    Delete,
    Update,
    Copy,
    List,
    Test,
    Fix,
    Adjust,
}

/// The archiver's options.
#[derive(Debug, Clone, Default)]
pub struct ZipArgs {
    pub zipfile: Option<String>,
    pub files: Vec<String>,
    pub basic_mode_options: BasicModeOptions,
    pub basic_options: BasicOptions,
    pub compression: CompressionOptions,
    pub encryption: EncryptionOptions,
    pub filter: FilterOptions,
    pub translation: TranslationOptions,
    pub data_filter: DataFilterOptions,
    pub display: DisplayOptions,
    pub logging: LoggingOptions,
    pub test: TestOptions,
    pub split: SplitOptions,
    pub show: ShowOptions,
    pub extractor: ExtractorOptions,
    pub fix: FixOptions,
    pub other: OtherOptions,
    pub command: Command,
}

/// The comment editor's options.
#[derive(Debug, Clone, Default)]
pub struct ZipNoteArgs {
    pub zipfile: Option<String>,
    pub write: bool,
    pub temp_path: Option<String>,
    pub quiet: bool,
    pub version: bool,
    pub license: bool,
}

/// The encryption toggle tool's options.
#[derive(Debug, Clone, Default)]
pub struct ZipCloakArgs {
    pub zipfile: Option<String>,
    pub decrypt: bool,
    pub temp_path: Option<String>,
    pub out: Option<String>,
    pub quiet: bool,
    pub version: bool,
    pub license: bool,
}

/// The archive splitter's options.
#[derive(Debug, Clone, Default)]
pub struct ZipSplitArgs {
    pub zipfile: Option<String>,
    pub test: bool,
    pub index: bool,
    pub max_size: u32,
    pub room: u32,
    pub temp_path: Option<String>,
    pub quiet: bool,
    pub pause: bool,
    pub sequential: bool,
    pub version: bool,
    pub license: bool,
}

/// The operation that the options select, in order of precedence: delete,
/// list, update (also for freshen and filesync), copy, test (an add first
/// when files are named), fix, adjust, else add.
pub open spec fn command_spec(args: &ZipArgs) -> Command {
    if args.basic_mode_options.delete {
        Command::Delete
    } else if args.show.list || args.show.show_unicode || args.show.show_unicode_only {
        Command::List
    } else if args.basic_mode_options.update || args.basic_mode_options.filesync
        || args.basic_mode_options.freshen {
        Command::Update
    } else if args.basic_mode_options.copy {
        Command::Copy
    } else if args.test.test || args.test.test_cmd.is_some() {
        if args.files@.len() > 0 {
            Command::Add
        } else {
            Command::Test
        }
    } else if args.fix.fix_normal || args.fix.fix_full {
        Command::Fix
    } else if args.extractor.adjust_sfx || args.extractor.junk_sfx {
        Command::Adjust
    } else {
        Command::Add
    }
}

pub fn determine_command(args: &ZipArgs) -> (r: Command)
    ensures
        r == command_spec(args),
{
    if args.basic_mode_options.delete {
        Command::Delete
    } else if args.show.list || args.show.show_unicode || args.show.show_unicode_only {
        Command::List
    } else if args.basic_mode_options.update || args.basic_mode_options.filesync
        || args.basic_mode_options.freshen {
        Command::Update
    } else if args.basic_mode_options.copy {
        Command::Copy
    } else if args.test.test || args.test.test_cmd.is_some() {
        if args.files.len() > 0 {
            Command::Add
        } else {
            Command::Test
        }
    } else if args.fix.fix_normal || args.fix.fix_full {
        Command::Fix
    } else if args.extractor.adjust_sfx || args.extractor.junk_sfx {
        Command::Adjust
    } else {
        Command::Add
    }
}

/// Why a split request cannot go ahead: no archive name, or an existing
/// archive without an output path.
#[derive(Debug, Clone, Copy, PartialEq, Eq, Structural)]
pub enum SplitArgProblem {
    MissingZipFile,
    MissingOutput,
}

/// Checks the requirements of `-s`: an archive name, and an output path when
/// that archive exists already.
pub fn check_split_args(args: &ZipArgs, zipfile_exists: bool) -> (r: Result<(), SplitArgProblem>)
    ensures
        args.split.split_size.is_none() ==> r is Ok,
        args.split.split_size.is_some() ==> r == (if args.zipfile.is_none() {
            Err(SplitArgProblem::MissingZipFile)
        } else if zipfile_exists && args.other.out.is_none() {
            Err(SplitArgProblem::MissingOutput)
        } else {
            Ok(())
        }),
{
    if args.split.split_size.is_some() {
        if args.zipfile.is_none() {
            return Err(SplitArgProblem::MissingZipFile);
        }
        if zipfile_exists && args.other.out.is_none() {
            return Err(SplitArgProblem::MissingOutput);
        }
    }
    Ok(())
}

/// The value of a run of ASCII digits.
pub open spec fn digits_value(s: Seq<char>) -> nat
    decreases s.len(),
{
    if s.len() == 0 {
        0
    } else {
        digits_value(s.drop_last()) * 10 + (s.last() as nat - '0' as nat) as nat
    }
}

pub open spec fn is_digit(c: char) -> bool {
    '0' <= c <= '9'
}

/// The multiplier of a size unit letter (any case); none means megabytes.
pub open spec fn unit_multiplier(c: char) -> Option<nat> {
    if c == 'k' || c == 'K' {
        Some(1024)
    } else if c == 'm' || c == 'M' {
        Some(1024 * 1024)
    } else if c == 'g' || c == 'G' {
        Some(1024 * 1024 * 1024)
    } else if c == 't' || c == 'T' {
        Some(1024 * 1024 * 1024 * 1024)
    } else {
        None
    }
}

pub open spec fn has_unit(s: Seq<char>) -> bool {
    s.len() > 0 && unit_multiplier(s.last()).is_some()
}

pub open spec fn size_digits(s: Seq<char>) -> Seq<char> {
    if has_unit(s) {
        s.drop_last()
    } else {
        s
    }
}

pub open spec fn size_mult(s: Seq<char>) -> nat {
    if has_unit(s) {
        unit_multiplier(s.last()).unwrap()
    } else {
        1024 * 1024
    }
}

/// The digits and multiplier of a size argument: digits, then at most one
/// unit letter.
pub open spec fn size_parts(s: Seq<char>) -> Option<(Seq<char>, nat)> {
    let digits = size_digits(s);
    let mult = size_mult(s);
    if digits.len() > 0 && forall|i: int| 0 <= i < digits.len() ==> is_digit(#[trigger] digits[i]) {
        Some((digits, mult))
    } else {
        None
    }
}

/// The byte count that a size argument names, when it is well formed and
/// fits in 64 bits.
pub open spec fn split_size_spec(s: Seq<char>) -> Option<nat> {
    match size_parts(s) {
        Some((d, m)) => if digits_value(d) <= u64::MAX && digits_value(d) * m <= u64::MAX {
            Some(digits_value(d) * m)
        } else {
            None
        },
        None => None,
    }
}

fn unit_of(c: char) -> (r: Option<u64>)
    ensures
        r matches Some(v) ==> unit_multiplier(c) == Some(v as nat),
        r is None ==> unit_multiplier(c) is None,
{
    if c == 'k' || c == 'K' {
        Some(1024)
    } else if c == 'm' || c == 'M' {
        Some(1024 * 1024)
    } else if c == 'g' || c == 'G' {
        Some(1024 * 1024 * 1024)
    } else if c == 't' || c == 'T' {
        Some(1024 * 1024 * 1024 * 1024)
    } else {
        None
    }
}

/// Parses a split size such as `100k`, `64m` or `2G`: decimal digits and an
/// optional unit k, m, g or t in either case (megabytes when none is given),
/// at least `min_size` bytes.
pub fn parse_split_size_arg(s: &str, min_size: u64) -> (r: Result<u64, String>)
    ensures
        r is Ok <==> (split_size_spec(s@) matches Some(v) && v >= min_size),
        r matches Ok(v) ==> split_size_spec(s@) == Some(v as nat),
{
    let n = s.unicode_len();
    if n == 0 {
        return Err("Invalid size format, must be like 100m, 100k etc.".to_string());
    }
    let last = s.get_char(n - 1);
    let (end, mult): (usize, u64) = match unit_of(last) {
        Some(m) => (n - 1, m),
        None => (n, 1024 * 1024),
    };
    let ghost parts = size_parts(s@);
    let ghost digits = s@.subrange(0, end as int);
    proof {
        if unit_multiplier(last).is_some() {
            assert(digits =~= s@.drop_last());
        } else {
            assert(digits =~= s@);
        }
    }
    if end == 0 {
        return Err("Invalid size format, must be like 100m, 100k etc.".to_string());
    }
    let mut value: u64 = 0;
    let mut overflow = false;
    let mut i: usize = 0;
    while i < end
        invariant
            0 <= i <= end,
            end <= n,
            n == s@.len(),
            digits == s@.subrange(0, end as int),
            digits == size_digits(s@),
            mult as nat == size_mult(s@),
            forall|j: int| 0 <= j < i ==> is_digit(#[trigger] s@[j]),
            !overflow ==> value as nat == digits_value(s@.subrange(0, i as int)),
            overflow ==> digits_value(s@.subrange(0, i as int)) > u64::MAX,
        decreases end - i,
    {
        let c = s.get_char(i);
        if !('0' <= c && c <= '9') {
            assert(!is_digit(digits[i as int]));
            return Err("Invalid size format, must be like 100m, 100k etc.".to_string());
        }
        let dv = (c as u32 - '0' as u32) as u64;
        let ghost pre = s@.subrange(0, i as int);
        assert(s@.subrange(0, i + 1).drop_last() =~= pre);
        assert(digits_value(s@.subrange(0, i + 1)) == digits_value(pre) * 10 + dv);
        if !overflow {
            if value > (u64::MAX - dv) / 10 {
                overflow = true;
                assert(value * 10 + dv > u64::MAX) by (nonlinear_arith)
                    requires value > (u64::MAX - dv) / 10, dv <= 9;
            } else {
                assert(value * 10 + dv <= u64::MAX) by (nonlinear_arith)
                    requires value <= (u64::MAX - dv) / 10, dv <= 9;
                value = value * 10 + dv;
            }
        } else {
            assert(digits_value(pre) * 10 + dv > u64::MAX) by (nonlinear_arith)
                requires digits_value(pre) > u64::MAX;
        }
        i = i + 1;
    }
    assert(s@.subrange(0, end as int) =~= digits);
    if overflow {
        return Err("Invalid size format, number too large".to_string());
    }
    if value > u64::MAX / mult {
        assert(value * mult > u64::MAX) by (nonlinear_arith)
            requires value > u64::MAX / mult, mult > 0;
        return Err("Invalid size format, number too large".to_string());
    }
    assert(value * mult <= u64::MAX) by (nonlinear_arith)
        requires value <= u64::MAX / mult, mult > 0;
    let size = value * mult;
    if size < min_size {
        return Err("Split size is below the minimum".to_string());
    }
    Ok(size)
}

} // verus!
