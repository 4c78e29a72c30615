//! What the user is told of a download as a whole.

use crate::stats::{DownloadStats, StatsView};
use crate::steps::{Notice, NoticeView};
use crate::text;
use vstd::prelude::*;

verus! {

/// The line before the contents of a file are saved.
pub open spec fn downloading(name: Seq<char>) -> Seq<char> {
    "Downloading "@ + name
}

/// Makes the line before the contents of a file are saved.
pub fn downloading_line(name: &str) -> (line: String)
    ensures
        line@ == downloading(name@),
{
    text::concat2("Downloading ", name)
}

/// The line once they are saved.
pub open spec fn downloaded(name: Seq<char>) -> Seq<char> {
    "Successfully downloaded "@ + name
}

/// Makes the line once the contents of a file are saved.
pub fn downloaded_line(name: &str) -> (line: String)
    ensures
        line@ == downloaded(name@),
{
    text::concat2("Successfully downloaded ", name)
}

/// The line before `count` shortcuts are dealt with.
pub open spec fn processing(count: nat) -> Seq<char> {
    "\nProcessing "@ + text::decimal(count) + " shortcut(s)..."@
}

/// Makes the line before `count` shortcuts are dealt with.
pub fn processing_line(count: usize) -> (line: String)
    ensures
        line@ == processing(count as nat),
{
    text::concat3("\nProcessing ", &text::decimal_text(count as u64), " shortcut(s)...")
}

/// The line that sums up a directory download. `size` is how the number of bytes is written.
pub open spec fn summary(stats: StatsView, size: Seq<char>) -> Seq<char> {
    "Downloaded "@ + text::decimal(stats.file_count as nat) + " files in "@ + text::decimal(
        stats.folder_count as nat,
    ) + " directories with a total size of "@ + size
}

/// Makes the line that sums up a directory download.
pub fn summary_line(stats: &DownloadStats, size: &str) -> (line: String)
    ensures
        line@ == summary(stats@, size@),
{
    let counts = text::concat4(
        "Downloaded ",
        &text::decimal_text(stats.file_count),
        " files in ",
        &text::decimal_text(stats.folder_count),
    );
    text::concat3(&counts, " directories with a total size of ", size)
}

/// The line before `count` warnings.
pub open spec fn warnings_heading(count: nat) -> Seq<char> {
    "\n"@ + text::decimal(count) + " warning(s):"@
}

/// The line for a warning.
pub open spec fn warning_item(warning: Seq<char>) -> Seq<char> {
    "  - "@ + warning
}

/// The lines on standard error that repeat the warnings; none where there are none.
pub open spec fn warning_lines(warnings: Seq<Seq<char>>) -> Seq<NoticeView> {
    if warnings.len() == 0 {
        Seq::empty()
    } else {
        seq![NoticeView::Warning(warnings_heading(warnings.len()))] + warnings.map_values(
            |warning: Seq<char>| NoticeView::Warning(warning_item(warning)),
        )
    }
}

/// All that is shown at the end of a directory download.
pub open spec fn closing(stats: StatsView, size: Seq<char>) -> Seq<NoticeView> {
    seq![NoticeView::Info(summary(stats, size))] + warning_lines(stats.warnings)
}

/// Makes the lines that are shown at the end of a directory download.
pub fn closing_notices(stats: &DownloadStats, size: &str) -> (notices: Vec<Notice>)
    ensures
        notices@.map_values(|notice: Notice| notice@) == closing(stats@, size@),
{
    let mut notices: Vec<Notice> = Vec::new();
    notices.push(Notice::Info(summary_line(stats, size)));
    let count: usize = stats.warnings.len();
    if count == 0 {
        assert(notices@.map_values(|notice: Notice| notice@) =~= closing(stats@, size@));
        return notices;
    }
    notices.push(
        Notice::Warning(text::concat3("\n", &text::decimal_text(count as u64), " warning(s):")),
    );
    let mut i: usize = 0;
    while i < count
        invariant
            i <= count,
            count == stats.warnings@.len(),
            count == stats@.warnings.len(),
            count > 0,
            notices@.map_values(|notice: Notice| notice@) == closing(stats@, size@).take(i + 2),
        decreases count - i,
    {
        let ghost before = notices@.map_values(|notice: Notice| notice@);
        notices.push(Notice::Warning(text::concat2("  - ", &stats.warnings[i])));
        assert(notices@.map_values(|notice: Notice| notice@) =~= before.push(
            closing(stats@, size@)[i + 2],
        ));
        i = i + 1;
        assert(closing(stats@, size@).take(i + 2) =~= before.push(
            closing(stats@, size@)[i + 1],
        ));
    }
    assert(closing(stats@, size@).take(i + 2) =~= closing(stats@, size@));
    notices
}

/// The lines about one file, and about the shortcuts, tell which file, and how many.
pub proof fn law_lines_tell_what_they_are_about(name: Seq<char>, count: nat)
    ensures
        downloading(name) == "Downloading "@ + name,
        downloaded(name) == "Successfully downloaded "@ + name,
        processing(count) == "\nProcessing "@ + text::decimal(count) + " shortcut(s)..."@,
{
}

/// The end of a directory download is a line with the number of files, the number of directories
/// and the size, in that order. Where there are warnings their number follows, and then each of
/// them, in the order in which they came, on standard error.
pub proof fn law_end_tells_all(stats: StatsView, size: Seq<char>)
    ensures
        ({
            let lines = closing(stats, size);
            let count = stats.warnings.len() as int;
            &&& lines.len() == if count == 0 {
                1
            } else {
                count + 2
            }
            &&& lines[0] == NoticeView::Info(
                "Downloaded "@ + text::decimal(stats.file_count as nat) + " files in "@
                    + text::decimal(stats.folder_count as nat)
                    + " directories with a total size of "@ + size,
            )
            &&& count > 0 ==> lines[1] == NoticeView::Warning(
                "\n"@ + text::decimal(count as nat) + " warning(s):"@,
            )
            &&& forall|i: int|
                0 <= i < count ==> lines[i + 2] == NoticeView::Warning(
                    "  - "@ + #[trigger] stats.warnings[i],
                )
        }),
{
}

} // verus!
