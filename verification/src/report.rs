use vstd::prelude::*;
use vstd::string::StringExecFns;

use crate::record::{views, DependencyRecord, RecordView};
use crate::text::same_text;

verus! {

/// The encodings a report can be written in.
#[derive(Clone, Copy, Debug, PartialEq, Eq, Structural)]
pub enum Format {
    Json,
    Csv,
    Markdown,
}

/// A format selector that names no supported encoding.
#[derive(Debug)]
pub struct UnsupportedFormat {
    pub selector: String,
}

/// The encoding that a selector names: `json`, `csv`, and `md` or `markdown`.
pub open spec fn format_of(selector: Seq<char>) -> Option<Format> {
    if selector == "json"@ {
        Some(Format::Json)
    } else if selector == "csv"@ {
        Some(Format::Csv)
    } else if selector == "md"@ || selector == "markdown"@ {
        Some(Format::Markdown)
    } else {
        None
    }
}

/// What the user is told about a selector that names no encoding.
pub open spec fn unsupported_message(selector: Seq<char>) -> Seq<char> {
    "\u{274c} Unsupported format: '"@ + selector + "'. Use 'json', 'csv', or 'markdown'."@
}

/// Reads a format selector. Any selector but the four supported ones is
/// handed back in the error.
pub fn parse_format(selector: &str) -> (parsed: Result<Format, UnsupportedFormat>)
    ensures
        match parsed {
            Ok(format) => format_of(selector@) == Some(format),
            Err(e) => format_of(selector@) is None && e.selector@ == selector@,
        },
{
    if same_text(selector, "json") {
        Ok(Format::Json)
    } else if same_text(selector, "csv") {
        Ok(Format::Csv)
    } else if same_text(selector, "md") || same_text(selector, "markdown") {
        Ok(Format::Markdown)
    } else {
        Err(UnsupportedFormat { selector: selector.to_owned() })
    }
}

impl UnsupportedFormat {
    /// The message for the user.
    pub fn message(&self) -> (text: String)
        ensures
            text@ == unsupported_message(self.selector@),
    {
        let mut text = "\u{274c} Unsupported format: '".to_owned();
        text.append(self.selector.as_str());
        text.append("'. Use 'json', 'csv', or 'markdown'.");
        text
    }
}

/// The character of a decimal digit.
pub open spec fn digit_char(d: nat) -> char {
    if d == 0 {
        '0'
    } else if d == 1 {
        '1'
    } else if d == 2 {
        '2'
    } else if d == 3 {
        '3'
    } else if d == 4 {
        '4'
    } else if d == 5 {
        '5'
    } else if d == 6 {
        '6'
    } else if d == 7 {
        '7'
    } else if d == 8 {
        '8'
    } else {
        '9'
    }
}

/// A number written in decimal, without leading zeros.
pub open spec fn decimal(n: nat) -> Seq<char>
    decreases n,
{
    if n < 10 {
        seq![digit_char(n)]
    } else {
        decimal(n / 10).push(digit_char(n % 10))
    }
}

/// The line that closes every report.
pub open spec fn summary_text(count: nat) -> Seq<char> {
    "found "@ + decimal(count) + " deps !"@
}

/// One line for each record, in order.
pub open spec fn lines_of(records: Seq<RecordView>, line: spec_fn(RecordView) -> Seq<char>) -> Seq<
    char,
>
    decreases records.len(),
{
    if records.len() == 0 {
        Seq::empty()
    } else {
        lines_of(records.drop_last(), line) + line(records.last())
    }
}

/// The line of a record in a comma-separated report. Nothing is quoted.
pub open spec fn csv_line(r: RecordView) -> Seq<char> {
    r.project + ","@ + r.section + ","@ + r.name + ","@ + r.version + "\n"@
}

/// A comma-separated report: the header, then one line for each record.
pub open spec fn csv_text(records: Seq<RecordView>) -> Seq<char> {
    "project,section,name,version\n"@ + lines_of(records, |r: RecordView| csv_line(r))
}

/// The line of a record in a table report, each text between backticks.
pub open spec fn markdown_line(r: RecordView) -> Seq<char> {
    "| `"@ + r.project + "` | `"@ + r.section + "` | `"@ + r.name + "` | `"@ + r.version
        + "` |\n"@
}

/// A table report: the header and its rule, then one line for each record.
pub open spec fn markdown_text(records: Seq<RecordView>) -> Seq<char> {
    "| Project | Section | Dependency | Version |\n|---------|---------|------------|---------|\n"@
        + lines_of(records, |r: RecordView| markdown_line(r))
}

/// The text of one decimal digit.
fn digit_text(d: usize) -> (text: &'static str)
    requires
        d < 10,
    ensures
        text@ == seq![digit_char(d as nat)],
{
    proof {
        reveal_strlit("0");
        reveal_strlit("1");
        reveal_strlit("2");
        reveal_strlit("3");
        reveal_strlit("4");
        reveal_strlit("5");
        reveal_strlit("6");
        reveal_strlit("7");
        reveal_strlit("8");
        reveal_strlit("9");
    }
    let text = if d == 0 {
        "0"
    } else if d == 1 {
        "1"
    } else if d == 2 {
        "2"
    } else if d == 3 {
        "3"
    } else if d == 4 {
        "4"
    } else if d == 5 {
        "5"
    } else if d == 6 {
        "6"
    } else if d == 7 {
        "7"
    } else if d == 8 {
        "8"
    } else {
        "9"
    };
    assert(text@ =~= seq![digit_char(d as nat)]);
    text
}

/// Writes a number in decimal.
pub fn decimal_text(n: usize) -> (text: String)
    ensures
        text@ == decimal(n as nat),
    decreases n,
{
    if n < 10 {
        digit_text(n).to_owned()
    } else {
        let mut text = decimal_text(n / 10);
        let last = digit_text(n % 10);
        text.append(last);
        assert(text@ =~= decimal((n / 10) as nat).push(digit_char((n % 10) as nat)));
        text
    }
}

/// The line that closes every report: `found <count> deps !`.
pub fn summary_line(count: usize) -> (line: String)
    ensures
        line@ == summary_text(count as nat),
{
    let mut line = "found ".to_owned();
    let number = decimal_text(count);
    line.append(number.as_str());
    line.append(" deps !");
    line
}

/// Writes the records as comma-separated lines under a header line. Every
/// line ends with a line feed.
pub fn csv_report(records: &Vec<DependencyRecord>) -> (text: String)
    ensures
        text@ == csv_text(views(records@)),
{
    let mut text = "project,section,name,version\n".to_owned();
    let ghost line = |r: RecordView| csv_line(r);
    let mut i: usize = 0;
    assert(views(records@).take(0) =~= Seq::empty());
    while i < records.len()
        invariant
            i <= records@.len(),
            line == (|r: RecordView| csv_line(r)),
            text@ == "project,section,name,version\n"@ + lines_of(
                views(records@).take(i as int),
                line,
            ),
        decreases records@.len() - i,
    {
        let r = &records[i];
        let ghost done = views(records@).take(i as int);
        let ghost next = views(records@).take(i + 1);
        assert(next.drop_last() =~= done);
        assert(next.last() == r@);
        text.append(r.project.as_str());
        text.append(",");
        text.append(r.section.as_str());
        text.append(",");
        text.append(r.name.as_str());
        text.append(",");
        text.append(r.version.as_str());
        text.append("\n");
        assert(text@ =~= "project,section,name,version\n"@ + lines_of(next, line));
        i += 1;
    }
    assert(views(records@).take(i as int) =~= views(records@));
    text
}

/// Writes the records as the rows of a table under a header and its rule.
/// Every line ends with a line feed.
pub fn markdown_report(records: &Vec<DependencyRecord>) -> (text: String)
    ensures
        text@ == markdown_text(views(records@)),
{
    let mut text =
        "| Project | Section | Dependency | Version |\n|---------|---------|------------|---------|\n".to_owned();
    let ghost head = text@;
    let ghost line = |r: RecordView| markdown_line(r);
    let mut i: usize = 0;
    assert(views(records@).take(0) =~= Seq::empty());
    while i < records.len()
        invariant
            i <= records@.len(),
            line == (|r: RecordView| markdown_line(r)),
            text@ == head + lines_of(views(records@).take(i as int), line),
        decreases records@.len() - i,
    {
        let r = &records[i];
        let ghost done = views(records@).take(i as int);
        let ghost next = views(records@).take(i + 1);
        assert(next.drop_last() =~= done);
        assert(next.last() == r@);
        text.append("| `");
        text.append(r.project.as_str());
        text.append("` | `");
        text.append(r.section.as_str());
        text.append("` | `");
        text.append(r.name.as_str());
        text.append("` | `");
        text.append(r.version.as_str());
        text.append("` |\n");
        assert(text@ =~= head + lines_of(next, line));
        i += 1;
    }
    assert(views(records@).take(i as int) =~= views(records@));
    text
}

} // verus!
