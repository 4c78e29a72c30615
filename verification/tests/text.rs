use drive_download::report::{closing_notices, downloaded_line, downloading_line, processing_line};
use drive_download::stats::DownloadStats;
use drive_download::steps::Notice;
use drive_download::text::{decimal_text, width_of};

#[test]
fn numbers_are_decimal() {
    for value in [0u64, 7, 9, 10, 42, 100, 1234567890, u64::MAX] {
        assert_eq!(decimal_text(value), value.to_string());
    }
}

#[test]
fn widths_are_those_of_utf8() {
    for ch in ['a', '/', '\u{7f}', '\u{80}', '\u{7ff}', '\u{800}', '\u{ffff}', '\u{10000}', '\u{10ffff}'] {
        assert_eq!(width_of(ch), ch.len_utf8());
    }
}

fn lines(notices: Vec<Notice>) -> Vec<String> {
    notices
        .into_iter()
        .map(|notice| match notice {
            Notice::Info(line) => format!("out {}", line),
            Notice::Warning(line) => format!("err {}", line),
        })
        .collect()
}

#[test]
fn lines_about_the_whole() {
    assert_eq!(downloading_line("a.txt"), "Downloading a.txt");
    assert_eq!(downloaded_line("a.txt"), "Successfully downloaded a.txt");
    assert_eq!(processing_line(12), "\nProcessing 12 shortcut(s)...");
    let mut stats = DownloadStats::default();
    assert_eq!(
        lines(closing_notices(&stats, "0 B")),
        ["out Downloaded 0 files in 0 directories with a total size of 0 B"]
    );
    stats.count_folder();
    stats.count_file(5);
    stats.count_file(6);
    stats.warn("one".to_string());
    stats.warn("two".to_string());
    assert_eq!(stats.total_file_size, 11);
    assert_eq!(
        lines(closing_notices(&stats, "11 B")),
        [
            "out Downloaded 2 files in 1 directories with a total size of 11 B",
            "err \n2 warning(s):",
            "err   - one",
            "err   - two",
        ]
    );
}
