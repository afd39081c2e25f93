use cat_rust::config::parse_args;
use cat_rust::config::Config;
use cat_rust::config::ConfigError;
use cat_rust::output::file_output;
use cat_rust::output::line_output;
use cat_rust::output::render_numbered;
use cat_rust::output::run_outputs;
use cat_rust::text::decimal;
use cat_rust::text::line_is_blank;
use cat_rust::text::str_eq;

fn strings(words: &[&str]) -> Vec<String> {
    words.iter().map(|w| w.to_string()).collect()
}

fn plain_config(files: &[&str]) -> Config {
    Config { files: strings(files), number_lines: false, number_nonblank_lines: false }
}

fn numbering_config(files: &[&str]) -> Config {
    Config { files: strings(files), number_lines: true, number_nonblank_lines: false }
}

fn nonblank_config(files: &[&str]) -> Config {
    Config { files: strings(files), number_lines: false, number_nonblank_lines: true }
}

#[test]
fn parse_no_arguments_defaults_to_stdin() {
    let c = parse_args(&strings(&[])).unwrap();
    assert_eq!(c.files, strings(&["-"]));
    assert!(!c.number_lines);
    assert!(!c.number_nonblank_lines);
}

#[test]
fn parse_only_flags_defaults_to_stdin() {
    let c = parse_args(&strings(&["-n"])).unwrap();
    assert_eq!(c.files, strings(&["-"]));
    assert!(c.number_lines);
    assert!(!c.number_nonblank_lines);
}

#[test]
fn parse_long_number_flag() {
    let c = parse_args(&strings(&["--number", "notes.txt"])).unwrap();
    assert_eq!(c.files, strings(&["notes.txt"]));
    assert!(c.number_lines);
    assert!(!c.number_nonblank_lines);
}

#[test]
fn parse_nonblank_flags() {
    let c = parse_args(&strings(&["-b", "notes.txt"])).unwrap();
    assert!(!c.number_lines);
    assert!(c.number_nonblank_lines);
    let c = parse_args(&strings(&["--number-nonblank"])).unwrap();
    assert!(c.number_nonblank_lines);
}

#[test]
fn parse_keeps_file_order_and_sentinel() {
    let c = parse_args(&strings(&["b.txt", "-", "a.txt"])).unwrap();
    assert_eq!(c.files, strings(&["b.txt", "-", "a.txt"]));
}

#[test]
fn parse_flags_after_files() {
    let c = parse_args(&strings(&["a.txt", "-n", "b.txt"])).unwrap();
    assert_eq!(c.files, strings(&["a.txt", "b.txt"]));
    assert!(c.number_lines);
}

#[test]
fn parse_both_number_flags_is_an_error() {
    let r = parse_args(&strings(&["-n", "-b"]));
    assert_eq!(r.unwrap_err(), ConfigError::ConflictingNumberFlags);
    let r = parse_args(&strings(&["-b", "--number", "a.txt"]));
    assert_eq!(r.unwrap_err(), ConfigError::ConflictingNumberFlags);
}

#[test]
fn parse_unknown_flag_is_an_error() {
    let r = parse_args(&strings(&["-x"]));
    assert_eq!(r.unwrap_err(), ConfigError::UnknownFlag("-x".to_string()));
    let r = parse_args(&strings(&["a.txt", "--number-all"]));
    assert_eq!(r.unwrap_err(), ConfigError::UnknownFlag("--number-all".to_string()));
}

#[test]
fn decimal_numerals() {
    assert_eq!(decimal(0), "0");
    assert_eq!(decimal(7), "7");
    assert_eq!(decimal(10), "10");
    assert_eq!(decimal(42), "42");
    assert_eq!(decimal(100), "100");
    assert_eq!(decimal(u64::MAX), "18446744073709551615");
}

#[test]
fn numbered_line_format() {
    assert_eq!(render_numbered(1, &"a".to_string()), "     1\ta");
    assert_eq!(render_numbered(12, &"hello".to_string()), "    12\thello");
    assert_eq!(render_numbered(3, &"".to_string()), "     3\t");
}

#[test]
fn numeral_is_right_aligned_in_a_width_six_field() {
    assert_eq!(render_numbered(9, &"x".to_string()), "     9\tx");
    assert_eq!(render_numbered(10, &"x".to_string()), "    10\tx");
    assert_eq!(render_numbered(100, &"x".to_string()), "   100\tx");
    assert_eq!(render_numbered(99999, &"x".to_string()), " 99999\tx");
    assert_eq!(render_numbered(123456, &"x".to_string()), "123456\tx");
    assert_eq!(render_numbered(1234567, &"x".to_string()), "1234567\tx");
}

#[test]
fn blank_lines() {
    assert!(line_is_blank(&"".to_string()));
    assert!(line_is_blank(&" \t ".to_string()));
    assert!(line_is_blank(&"\u{00A0}\u{2003}".to_string()));
    assert!(!line_is_blank(&" a ".to_string()));
    assert!(!line_is_blank(&"-".to_string()));
}

#[test]
fn string_equality() {
    assert!(str_eq("", ""));
    assert!(str_eq("-n", "-n"));
    assert!(!str_eq("-n", "-b"));
    assert!(!str_eq("-n", "-no"));
}

#[test]
fn no_flag_echoes_lines_unchanged() {
    let lines = strings(&["a", "", "b"]);
    let out = file_output(&plain_config(&["-"]), &lines);
    assert_eq!(out, lines);
}

#[test]
fn number_flag_numbers_every_line() {
    let lines = strings(&["a", "", "b"]);
    let out = file_output(&numbering_config(&["-"]), &lines);
    assert_eq!(out, strings(&["     1\ta", "     2\t", "     3\tb"]));
}

#[test]
fn nonblank_flag_numbers_only_nonblank_lines() {
    let lines = strings(&["a", "", "b"]);
    let out = file_output(&nonblank_config(&["-"]), &lines);
    assert_eq!(out, strings(&["     1\ta", "", "     2\tb"]));
}

#[test]
fn nonblank_flag_skips_whitespace_lines_without_numbering() {
    let lines = strings(&[" \t", "x", "  ", "y"]);
    let out = file_output(&nonblank_config(&["-"]), &lines);
    assert_eq!(out, strings(&["", "     1\tx", "", "     2\ty"]));
}

#[test]
fn empty_input_yields_empty_output() {
    let out = file_output(&numbering_config(&["-"]), &strings(&[]));
    assert_eq!(out, strings(&[]));
}

#[test]
fn wide_counters_stay_right_aligned() {
    let lines: Vec<String> = (0..12).map(|_| "z".to_string()).collect();
    let out = file_output(&numbering_config(&["-"]), &lines);
    assert_eq!(out[8], "     9\tz");
    assert_eq!(out[9], "    10\tz");
    assert_eq!(out[11], "    12\tz");
}

#[test]
fn line_by_line_output_matches_whole_file_output() {
    let lines = strings(&["a", "", "b"]);
    let config = nonblank_config(&["-"]);
    let whole = file_output(&config, &lines);
    let mut streamed: Vec<String> = Vec::new();
    let mut counter: u64 = 1;
    for line in &lines {
        let (out, next) = line_output(&config, line, counter);
        streamed.push(out);
        counter = next;
    }
    assert_eq!(streamed, whole);
    assert_eq!(counter, 3);
}

#[test]
fn failed_open_is_skipped_and_the_rest_still_printed() {
    let sources = vec![
        Some(strings(&["first"])),
        None,
        Some(strings(&["second", "third"])),
    ];
    let out = run_outputs(&plain_config(&["a.txt", "missing.txt", "b.txt"]), &sources);
    assert_eq!(out, strings(&["first", "second", "third"]));
}

#[test]
fn counter_restarts_for_each_input() {
    let sources = vec![Some(strings(&["a", "b"])), Some(strings(&["c"]))];
    let out = run_outputs(&numbering_config(&["x", "y"]), &sources);
    assert_eq!(out, strings(&["     1\ta", "     2\tb", "     1\tc"]));
}

#[test]
fn nonblank_counter_restarts_for_each_input() {
    let sources = vec![Some(strings(&["a", ""])), Some(strings(&["", "c"]))];
    let out = run_outputs(&nonblank_config(&["x", "y"]), &sources);
    assert_eq!(out, strings(&["     1\ta", "", "", "     1\tc"]));
}
