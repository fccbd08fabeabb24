//! The status report: the table that the download tool prints, turned into one line of text
//! for each row.

use vstd::prelude::*;
use crate::text::{
    has_prefix, join_from, joined, lemma_words_trimmed, lines, same_text, split_lines,
    split_whitespace, starts_with, texts, to_chars, to_text, trim, trimmed, words,
};

verus! {

/// A row of the table has this many columns at least; the last one is the name.
pub const COLUMNS: usize = 9;

/// What the report shows of one row of the table.
#[derive(Debug)]
pub struct StatusRow {
    /// How much is done, as the table has it, with its percent sign.
    pub percent: String,
    pub status: String,
    /// The name, with one blank between its words.
    pub name: String,
}

/// A row as texts.
pub struct RowModel {
    pub percent: Seq<char>,
    pub status: Seq<char>,
    pub name: Seq<char>,
}

impl View for StatusRow {
    type V = RowModel;

    open spec fn view(&self) -> RowModel {
        RowModel { percent: self.percent@, status: self.status@, name: self.name@ }
    }
}

/// The row that a line of the table holds. A line of fewer than `COLUMNS` words holds none,
/// nor does the line of sums. The second word is the percentage, the eighth the status, and
/// the words from the ninth on are the name.
pub open spec fn row_of(line: Seq<char>) -> Option<RowModel> {
    let w = words(line);
    if w.len() < COLUMNS || has_prefix(trimmed(line), "Sum:"@) {
        None
    } else {
        Some(RowModel { percent: w[1], status: w[7], name: joined(w.skip(8), seq![' ']) })
    }
}

/// The mark before a row: one for what is complete, one for what is still under way.
pub open spec fn icon(percent: Seq<char>) -> Seq<char> {
    if percent == "100%"@ {
        "✅"@
    } else {
        "⬇️"@
    }
}

/// The line of the report for a row.
pub open spec fn row_text(row: RowModel) -> Seq<char> {
    icon(row.percent) + " **"@ + row.percent + "** - "@ + row.name + " ("@ + row.status + ")\n"@
}

/// What a line of the table adds to the report.
pub open spec fn line_text(line: Seq<char>) -> Seq<char> {
    match row_of(line) {
        Some(row) => row_text(row),
        None => Seq::empty(),
    }
}

/// What the lines `ls` add to the report, in order.
pub open spec fn rows_text(ls: Seq<Seq<char>>) -> Seq<char>
    decreases ls.len(),
{
    if ls.len() == 0 {
        Seq::empty()
    } else {
        rows_text(ls.drop_last()) + line_text(ls.last())
    }
}

/// The report for the table `output`: its first line is the header and adds nothing, whatever
/// it holds; each line after it adds the line of its row, if it holds one.
pub open spec fn report_text(output: Seq<char>) -> Seq<char> {
    let ls = lines(output);
    if ls.len() == 0 {
        Seq::empty()
    } else {
        rows_text(ls.skip(1))
    }
}

/// Reads one line of the table.
pub fn parse_row(line: &Vec<char>) -> (r: Option<StatusRow>)
    ensures
        match r {
            Some(row) => row_of(line@) == Some(row@),
            None => row_of(line@) is None,
        },
{
    let t = trim(line);
    proof {
        lemma_words_trimmed(line@);
    }
    if starts_with(&t, &to_chars("Sum:")) || t.len() == 0 {
        return None;
    }
    let parts = split_whitespace(&t);
    if parts.len() < COLUMNS {
        return None;
    }
    let name = join_from(&parts, 8, ' ');
    Some(
        StatusRow {
            percent: to_text(&parts[1]),
            status: to_text(&parts[7]),
            name: to_text(&name),
        },
    )
}

/// Writes the line of the report for `row`.
pub fn format_row(row: &StatusRow) -> (r: String)
    ensures
        r@ == row_text(row@),
{
    let mut r = if same_text(row.percent.as_str(), "100%") {
        String::from_str("✅")
    } else {
        String::from_str("⬇️")
    };
    r.append(" **");
    r.append(row.percent.as_str());
    r.append("** - ");
    r.append(row.name.as_str());
    r.append(" (");
    r.append(row.status.as_str());
    r.append(")\n");
    r
}

/// Turns the table that the download tool prints into the status report. An empty report
/// means that the table has no row.
pub fn parse_transmission_output(output: &str) -> (r: String)
    ensures
        r@ == report_text(output@),
{
    let v = to_chars(output);
    let ls = split_lines(&v);
    let mut r = String::new();
    if ls.len() == 0 {
        return r;
    }
    let ghost rest = lines(output@).skip(1);
    let mut i: usize = 1;
    assert(rest.take(0) == Seq::<Seq<char>>::empty());
    while i < ls.len()
        invariant
            1 <= i <= ls.len(),
            texts(ls@) == lines(output@),
            rest == lines(output@).skip(1),
            r@ == rows_text(rest.take(i - 1)),
        decreases ls.len() - i,
    {
        assert(rest.take(i as int).drop_last() == rest.take(i - 1));
        assert(rest.take(i as int).last() == ls[i as int]@);
        match parse_row(&ls[i]) {
            Some(row) => {
                let line = format_row(&row);
                r.append(line.as_str());
            },
            None => {},
        }
        i += 1;
    }
    assert(rest.take(rest.len() as int) == rest);
    r
}

/// Reading the same table twice gives the same report, character for character.
pub proof fn lemma_report_repeats(first: Seq<char>, second: Seq<char>)
    requires
        first == second,
    ensures
        report_text(first) == report_text(second),
{
}

/// A line of exactly eight words holds no row. A line of exactly nine words, other than the
/// line of sums, holds a row, and the ninth word alone is its name.
pub proof fn lemma_row_boundary(line: Seq<char>)
    ensures
        words(line).len() == 8 ==> row_of(line) is None && line_text(line) == Seq::<char>::empty(),
        words(line).len() == 9 && !has_prefix(trimmed(line), "Sum:"@) ==> row_of(line) == Some(
            RowModel { percent: words(line)[1], status: words(line)[7], name: words(line)[8] },
        ),
{
    if words(line).len() == 9 {
        assert(words(line).skip(8).len() == 1);
        assert(words(line).skip(8)[0] == words(line)[8]);
    }
}

} // verus!
