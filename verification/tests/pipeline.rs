use corpus_clean::line::LineOutcome;
use corpus_clean::patterns::PatternConfig;
use corpus_clean::patterns::PatternSet;
use corpus_clean::patterns::SubstitutionConfig;
use corpus_clean::pipeline::clean_content;
use corpus_clean::pipeline::clean_lines;
use corpus_clean::pipeline::CleanedFile;
use corpus_clean::pipeline::PipelineError;
use corpus_clean::pipeline::PipelineStats;
use corpus_clean::text::decode_lines;
use corpus_clean::text::render_lines;
use corpus_clean::text::LineDecodeError;

fn patterns(remove: &[&str], replace: &[(&str, &str)]) -> PatternSet {
    let config = PatternConfig {
        remove: remove.iter().map(|p| p.to_string()).collect(),
        replace: replace
            .iter()
            .map(|(regex, replacement)| SubstitutionConfig {
                regex: regex.to_string(),
                replacement: replacement.to_string(),
            })
            .collect(),
    };
    PatternSet::compile(&config).unwrap()
}

fn strings(lines: &[&str]) -> Vec<String> {
    lines.iter().map(|l| l.to_string()).collect()
}

fn counted(total: usize, skipped: usize) -> PipelineStats {
    let mut stats = PipelineStats::new();
    for i in 0..total {
        stats.count(i < skipped);
    }
    stats
}

#[test]
fn end_to_end_scenario() {
    let set = patterns(&["^#"], &[("foo", "bar")]);
    let cleaned = clean_lines(&set, &strings(&["# comment", "foo baz", "hello foo world"]));
    assert_eq!(cleaned.lines(), &strings(&["bar baz", "hello bar world"]));
    let stats = cleaned.stats();
    assert_eq!(stats.total(), 3);
    assert_eq!(stats.skipped(), 1);
    assert_eq!(stats.retained(), 2);
}

#[test]
fn end_to_end_from_bytes() {
    let set = patterns(&["^#"], &[("foo", "bar")]);
    let cleaned = clean_content(&set, b"# comment\nfoo baz\nhello foo world\n").unwrap();
    assert_eq!(cleaned.render(), "bar baz\nhello bar world\n");
    assert_eq!(cleaned.stats().total(), 3);
    assert_eq!(cleaned.stats().skipped(), 1);
    assert_eq!(cleaned.stats().retained(), 2);
}

#[test]
fn kept_lines_stay_in_input_order() {
    let set = patterns(&["drop"], &[]);
    let input = strings(&["one", "drop a", "two", "three", "drop b", "four"]);
    let cleaned = clean_lines(&set, &input);
    assert_eq!(cleaned.lines(), &strings(&["one", "two", "three", "four"]));
}

#[test]
fn statistics_count_read_and_skipped_lines() {
    let set = patterns(&["x"], &[]);
    let cleaned = clean_lines(&set, &strings(&["ax", "b", "xc", "d", "e"]));
    let stats = cleaned.stats();
    assert_eq!(stats.total(), 5);
    assert_eq!(stats.skipped(), 2);
    assert_eq!(stats.retained(), 3);
    assert_eq!(stats.retention(), Some(6000));
    assert_eq!(cleaned.lines().len(), 3);
}

#[test]
fn statistics_of_an_empty_file() {
    let set = patterns(&["x"], &[("a", "b")]);
    let cleaned = clean_content(&set, b"").unwrap();
    let stats = cleaned.stats();
    assert_eq!(stats.total(), 0);
    assert_eq!(stats.skipped(), 0);
    assert_eq!(stats.retained(), 0);
    assert_eq!(stats.retention(), None);
    assert_eq!(cleaned.render(), "");
}

#[test]
fn retention_is_rounded_to_the_nearest_hundredth_of_a_percent() {
    assert_eq!(counted(3, 1).retention(), Some(6667));
    assert_eq!(counted(3, 2).retention(), Some(3333));
    assert_eq!(counted(8, 7).retention(), Some(1250));
    assert_eq!(counted(7, 0).retention(), Some(10000));
    assert_eq!(counted(7, 7).retention(), Some(0));
    assert_eq!(counted(0, 0).retention(), None);
}

#[test]
fn all_lines_removed() {
    let set = patterns(&["."], &[]);
    let cleaned = clean_content(&set, b"a\nb\n").unwrap();
    assert_eq!(cleaned.render(), "");
    assert_eq!(cleaned.stats().skipped(), 2);
    assert_eq!(cleaned.stats().retained(), 0);
    assert_eq!(cleaned.stats().retention(), Some(0));
}

#[test]
fn record_appends_kept_lines_and_counts_all() {
    let file = CleanedFile::new();
    let file = file.record(LineOutcome::Dropped);
    let file = file.record(LineOutcome::Kept("kept".to_string()));
    let file = file.record(LineOutcome::Dropped);
    assert_eq!(file.lines(), &strings(&["kept"]));
    assert_eq!(file.stats().total(), 3);
    assert_eq!(file.stats().skipped(), 2);
    assert_eq!(file.stats().retained(), 1);
}

#[test]
fn lines_end_at_line_feeds() {
    assert_eq!(decode_lines(b"a\nb\nc\n"), Ok(strings(&["a", "b", "c"])));
}

#[test]
fn the_last_line_needs_no_line_feed() {
    assert_eq!(decode_lines(b"a\nb"), Ok(strings(&["a", "b"])));
}

#[test]
fn carriage_returns_before_line_feeds_are_dropped() {
    assert_eq!(decode_lines(b"a\r\nb\r\n"), Ok(strings(&["a", "b"])));
    assert_eq!(decode_lines(b"a\r\r\nb"), Ok(strings(&["a\r", "b"])));
}

#[test]
fn a_carriage_return_elsewhere_stays() {
    assert_eq!(decode_lines(b"a\rb\nc\r"), Ok(strings(&["a\rb", "c\r"])));
}

#[test]
fn empty_lines_are_lines() {
    assert_eq!(decode_lines(b"\n\na\n\n"), Ok(strings(&["", "", "a", ""])));
    assert_eq!(decode_lines(b"\n"), Ok(strings(&[""])));
    assert_eq!(decode_lines(b"\r\n"), Ok(strings(&[""])));
}

#[test]
fn empty_content_has_no_lines() {
    assert_eq!(decode_lines(b""), Ok(Vec::new()));
}

#[test]
fn lines_are_decoded_as_utf8() {
    let content = "h\u{e9}llo\nw\u{f6}rld \u{4e16}\u{754c}\n";
    assert_eq!(decode_lines(content.as_bytes()), Ok(strings(&["h\u{e9}llo", "w\u{f6}rld \u{4e16}\u{754c}"])));
}

#[test]
fn an_undecodable_line_is_reported_by_number() {
    assert_eq!(decode_lines(b"ok\nalso ok\nbad \xff here\nfine\n"), Err(LineDecodeError { line: 3 }));
    assert_eq!(decode_lines(b"\xc3\n"), Err(LineDecodeError { line: 1 }));
    assert_eq!(decode_lines(b"a\nb\n\xe2\x82"), Err(LineDecodeError { line: 3 }));
}

#[test]
fn the_first_undecodable_line_is_reported() {
    assert_eq!(decode_lines(b"a\n\xff\n\xfe\n"), Err(LineDecodeError { line: 2 }));
}

#[test]
fn an_undecodable_line_fails_the_whole_file() {
    let set = patterns(&["^#"], &[("foo", "bar")]);
    let res = clean_content(&set, b"foo\n# \xff\nfoo\n");
    assert_eq!(res.unwrap_err(), PipelineError::LineDecode { line: 2 });
}

#[test]
fn output_lines_end_in_one_line_feed() {
    assert_eq!(render_lines(&strings(&["a", "", "b c"])), "a\n\nb c\n");
    assert_eq!(render_lines(&Vec::new()), "");
}

#[test]
fn line_endings_of_the_input_do_not_reach_the_output() {
    let set = patterns(&[], &[]);
    let cleaned = clean_content(&set, b"a\r\nb\nc").unwrap();
    assert_eq!(cleaned.render(), "a\nb\nc\n");
}
