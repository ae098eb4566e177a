//! Rows of comma-separated values.
use vstd::prelude::*;
use vstd::string::*;

verus! {

/// Whether a value can stand in a row only between quotation marks.
pub open spec fn needs_quotes(value: Seq<char>) -> bool {
    value.contains(',') || value.contains('"') || value.contains('\n')
}

/// A value with each quotation mark written twice.
pub open spec fn double_quotes(value: Seq<char>) -> Seq<char>
    decreases value.len(),
{
    if value.len() == 0 {
        value
    } else if value[0] == '"' {
        seq!['"', '"'] + double_quotes(value.skip(1))
    } else {
        seq![value[0]] + double_quotes(value.skip(1))
    }
}

/// A value as it stands in a row.
pub open spec fn cell(value: Seq<char>) -> Seq<char> {
    if needs_quotes(value) {
        seq!['"'] + double_quotes(value) + seq!['"']
    } else {
        value
    }
}

/// Values as a row, with commas between them.
pub open spec fn row(values: Seq<Seq<char>>) -> Seq<char>
    decreases values.len(),
{
    if values.len() == 0 {
        seq![]
    } else if values.len() == 1 {
        cell(values[0])
    } else {
        row(values.drop_last()) + seq![','] + cell(values.last())
    }
}

proof fn lemma_contains_step(s: Seq<char>, i: int, c: char)
    requires
        0 <= i < s.len(),
    ensures
        s.take(i + 1).contains(c) == (s.take(i).contains(c) || s[i] == c),
{
    assert(s.take(i + 1) == s.take(i).push(s[i]));
    if s.take(i).contains(c) {
        let k = s.take(i).index_of(c);
        assert(s.take(i + 1)[k] == c);
    }
    if s[i] == c {
        assert(s.take(i + 1)[i] == c);
    }
    if s.take(i + 1).contains(c) {
        let k = s.take(i + 1).index_of(c);
        if k < i {
            assert(s.take(i)[k] == c);
        }
    }
}

/// Writes a value as it stands in a row: between quotation marks, with those inside it doubled,
/// if it holds a comma, a quotation mark or a line feed, and unchanged if not.
pub fn csv_cell(v: &str) -> (text: String)
    ensures
        text@ == cell(v@),
        !v@.contains(',') && !v@.contains('"') && !v@.contains('\n') ==> text@ == v@,
        v@.contains(',') || v@.contains('"') || v@.contains('\n') ==> text@ == seq!['"']
            + v@.map_values(
            |c: char|
                if c == '"' {
                    seq!['"', '"']
                } else {
                    seq![c]
                },
        ).flatten() + seq!['"'],
{
    proof {
        law_cell_as_written(v@);
    }
    let mut quoted = false;
    let mut doubled = String::new();
    proof {
        assert(v@.skip(0) == v@);
        assert(v@.take(0) == Seq::<char>::empty());
    }
    for c in iter: v.chars()
        invariant
            iter.seq() == v@,
            quoted == needs_quotes(v@.take(iter.index())),
            double_quotes(v@) == doubled@ + double_quotes(v@.skip(iter.index())),
    {
        let ghost i: int = iter.index();
        proof {
            lemma_contains_step(v@, i, ',');
            lemma_contains_step(v@, i, '"');
            lemma_contains_step(v@, i, '\n');
            assert(v@.skip(i).skip(1) == v@.skip(i + 1));
        }
        if c == ',' || c == '"' || c == '\n' {
            quoted = true;
        }
        if c == '"' {
            doubled.push('"');
        }
        doubled.push(c);
    }
    proof {
        assert(v@.take(v@.len() as int) == v@);
        assert(doubled@ + double_quotes(v@.skip(v@.len() as int)) == doubled@);
    }
    if quoted {
        let mut text = String::new();
        text.push('"');
        text.append(doubled.as_str());
        text.push('"');
        text
    } else {
        v.to_string()
    }
}

/// The characters of each string.
pub open spec fn views(strings: Seq<String>) -> Seq<Seq<char>> {
    strings.map_values(|s: String| s@)
}

/// Writes values as a row, with commas between them.
pub fn csv_row(values: &Vec<String>) -> (text: String)
    ensures
        text@ == row(views(values@)),
        values@.len() >= 1 ==> read_row(text@) == values@.map_values(|s: String| s@),
{
    proof {
        if values@.len() >= 1 {
            law_row_reads_back(views(values@));
        }
    }
    let mut text = String::new();
    let mut i: usize = 0;
    while i < values.len()
        invariant
            i <= values@.len(),
            text@ == row(views(values@).take(i as int)),
        decreases values@.len() - i,
    {
        if i > 0 {
            text.push(',');
        }
        text.append(csv_cell(values[i].as_str()).as_str());
        proof {
            let next = views(values@).take(i + 1);
            assert(next.drop_last() == views(values@).take(i as int));
            assert(next.last() == values@[i as int]@);
        }
        i = i + 1;
    }
    assert(views(values@).take(i as int) == views(values@));
    text
}

/// The text between the quotation marks of a cell, with each doubled one read as one.
pub open spec fn single_quotes(text: Seq<char>) -> Seq<char>
    decreases text.len(),
{
    if text.len() == 0 {
        text
    } else if text.len() >= 2 && text[0] == '"' && text[1] == '"' {
        seq!['"'] + single_quotes(text.skip(2))
    } else {
        seq![text[0]] + single_quotes(text.skip(1))
    }
}

/// The value that a cell stands for.
pub open spec fn read_cell(text: Seq<char>) -> Seq<char> {
    if text.len() >= 2 && text[0] == '"' {
        single_quotes(text.subrange(1, text.len() - 1))
    } else {
        text
    }
}

/// Where the cell ends that position `i` lies in: at the next comma outside quotation marks, or
/// at the end of the row.
pub open spec fn cell_end(text: Seq<char>, i: int, quoted: bool) -> int
    decreases text.len() - i,
{
    if i >= text.len() {
        text.len() as int
    } else if text[i] == '"' {
        cell_end(text, i + 1, !quoted)
    } else if text[i] == ',' && !quoted {
        i
    } else {
        cell_end(text, i + 1, quoted)
    }
}

/// The values that a row stands for.
pub open spec fn read_row(text: Seq<char>) -> Seq<Seq<char>>
    decreases text.len(),
{
    let end = cell_end(text, 0, false);
    if end < 0 || end >= text.len() {
        seq![read_cell(text)]
    } else {
        seq![read_cell(text.take(end))] + read_row(text.skip(end + 1))
    }
}

proof fn lemma_quotes_read_back(value: Seq<char>)
    ensures
        single_quotes(double_quotes(value)) == value,
    decreases value.len(),
{
    if value.len() > 0 {
        let rest = double_quotes(value.skip(1));
        lemma_quotes_read_back(value.skip(1));
        if value[0] == '"' {
            assert(double_quotes(value).skip(2) == rest);
        } else {
            assert(double_quotes(value).skip(1) == rest);
        }
        assert(seq![value[0]] + value.skip(1) == value);
    }
}

/// What is read from the cell of a value is the value.
pub proof fn law_cell_reads_back(value: Seq<char>)
    ensures
        read_cell(cell(value)) == value,
{
    lemma_quotes_read_back(value);
    if needs_quotes(value) {
        let text = cell(value);
        assert(text.subrange(1, text.len() - 1) == double_quotes(value));
    } else if value.len() > 0 {
        assert(value.contains(value[0]));
    }
}

/// Between the quotation marks of a cell no comma ends it.
proof fn lemma_end_of_quoted(text: Seq<char>, i: int, value: Seq<char>)
    requires
        0 <= i,
        i + double_quotes(value).len() <= text.len(),
        text.subrange(i, i + double_quotes(value).len()) == double_quotes(value),
    ensures
        cell_end(text, i, true) == cell_end(text, i + double_quotes(value).len(), true),
    decreases value.len(),
{
    let doubled = double_quotes(value);
    if value.len() > 0 {
        let rest = double_quotes(value.skip(1));
        assert(text[i] == doubled[0]);
        if value[0] == '"' {
            assert(text[i + 1] == doubled[1]);
            reveal_with_fuel(cell_end, 3);
            assert(text.subrange(i + 2, i + 2 + rest.len()) == rest) by {
                assert(doubled.skip(2) == rest);
                assert forall|k: int| 0 <= k < rest.len() implies text.subrange(
                    i + 2,
                    i + 2 + rest.len(),
                )[k] == rest[k] by {
                    assert(doubled[k + 2] == text.subrange(i, i + doubled.len())[k + 2]);
                }
            }
            lemma_end_of_quoted(text, i + 2, value.skip(1));
        } else {
            assert(text.subrange(i + 1, i + 1 + rest.len()) == rest) by {
                assert forall|k: int| 0 <= k < rest.len() implies text.subrange(
                    i + 1,
                    i + 1 + rest.len(),
                )[k] == rest[k] by {
                    assert(doubled[k + 1] == text.subrange(i, i + doubled.len())[k + 1]);
                }
            }
            lemma_end_of_quoted(text, i + 1, value.skip(1));
        }
    }
}

/// A stretch without commas and quotation marks holds no end of a cell.
proof fn lemma_end_of_plain(text: Seq<char>, i: int, j: int)
    requires
        0 <= i <= j <= text.len(),
        forall|k: int| i <= k < j ==> text[k] != ',' && text[k] != '"',
    ensures
        cell_end(text, i, false) == cell_end(text, j, false),
    decreases j - i,
{
    if i < j {
        lemma_end_of_plain(text, i + 1, j);
    }
}

/// The cell at the start of a row ends where it was written to end.
proof fn lemma_end_of_cell(value: Seq<char>, rest: Seq<char>)
    requires
        rest.len() == 0 || rest[0] == ',',
    ensures
        cell_end(cell(value) + rest, 0, false) == cell(value).len(),
{
    let text = cell(value) + rest;
    let n = cell(value).len();
    if needs_quotes(value) {
        let doubled = double_quotes(value);
        assert(text[0] == '"');
        assert(text.subrange(1, 1 + doubled.len() as int) == doubled);
        lemma_end_of_quoted(text, 1, value);
        assert(text[n - 1] == '"');
        assert(n - 1 == 1 + doubled.len());
        assert(cell_end(text, 0, false) == cell_end(text, 1, true));
        assert(cell_end(text, n - 1, true) == cell_end(text, n as int, false));
    } else {
        assert forall|k: int| 0 <= k < n implies text[k] != ',' && text[k] != '"' by {
            assert(value.contains(value[k]));
        }
        lemma_end_of_plain(text, 0, n as int);
    }
}

proof fn lemma_row_from_front(values: Seq<Seq<char>>)
    requires
        values.len() >= 2,
    ensures
        row(values) == cell(values[0]) + seq![','] + row(values.skip(1)),
    decreases values.len(),
{
    if values.len() == 2 {
        assert(row(values.drop_last()) == cell(values[0]));
        assert(row(values.skip(1)) == cell(values[1]));
    } else {
        lemma_row_from_front(values.drop_last());
        assert(values.drop_last().skip(1) == values.skip(1).drop_last());
        assert(values.skip(1).last() == values.last());
    }
}

/// What is read from the row of one or more values is the values.
pub proof fn law_row_reads_back(values: Seq<Seq<char>>)
    requires
        values.len() >= 1,
    ensures
        read_row(row(values)) == values,
    decreases values.len(),
{
    law_cell_reads_back(values[0]);
    let first = cell(values[0]);
    if values.len() == 1 {
        lemma_end_of_cell(values[0], seq![]);
        assert(first + Seq::<char>::empty() == first);
        assert(seq![values[0]] == values);
    } else {
        let rest = row(values.skip(1));
        lemma_row_from_front(values);
        lemma_end_of_cell(values[0], seq![','] + rest);
        let text = row(values);
        assert(text == first + (seq![','] + rest));
        assert(text.take(first.len() as int) == first);
        assert(text.skip(first.len() as int + 1) == rest);
        law_row_reads_back(values.skip(1));
        assert(seq![values[0]] + values.skip(1) == values);
    }
}

/// A value without commas, quotation marks and line feeds is its own cell. Any other stands
/// between quotation marks, with each of its own written twice and all else unchanged.
pub proof fn law_cell_as_written(value: Seq<char>)
    ensures
        !value.contains(',') && !value.contains('"') && !value.contains('\n') ==> cell(value)
            == value,
        value.contains(',') || value.contains('"') || value.contains('\n') ==> cell(value)
            == seq!['"'] + value.map_values(
            |c: char|
                if c == '"' {
                    seq!['"', '"']
                } else {
                    seq![c]
                },
        ).flatten() + seq!['"'],
{
    lemma_doubled_one_by_one(value);
}

proof fn lemma_doubled_one_by_one(value: Seq<char>)
    ensures
        double_quotes(value) == value.map_values(
            |c: char|
                if c == '"' {
                    seq!['"', '"']
                } else {
                    seq![c]
                },
        ).flatten(),
    decreases value.len(),
{
    let pieces = value.map_values(
        |c: char|
            if c == '"' {
                seq!['"', '"']
            } else {
                seq![c]
            },
    );
    if value.len() > 0 {
        lemma_doubled_one_by_one(value.skip(1));
        assert(pieces.drop_first() == value.skip(1).map_values(
            |c: char|
                if c == '"' {
                    seq!['"', '"']
                } else {
                    seq![c]
                },
        ));
    }
}

/// The row of no values is empty, that of one value is its cell, and each value more adds a comma and its cell.
pub proof fn law_row_grows(values: Seq<Seq<char>>, value: Seq<char>)
    ensures
        row(Seq::empty()) == Seq::<char>::empty(),
        row(seq![value]) == cell(value),
        values.len() >= 1 ==> row(values.push(value)) == row(values) + seq![','] + cell(value),
{
    assert(values.push(value).drop_last() == values);
}

/// The first value is read up to its comma, and the others from behind it; a value that stands
/// alone is read whole.
pub proof fn law_row_is_read_cell_by_cell(value: Seq<char>, rest: Seq<char>)
    ensures
        read_row(cell(value)) == seq![value],
        read_row(cell(value) + seq![','] + rest) == seq![value] + read_row(rest),
{
    let first = cell(value);
    law_cell_reads_back(value);
    lemma_end_of_cell(value, seq![]);
    assert(first + Seq::<char>::empty() == first);
    lemma_end_of_cell(value, seq![','] + rest);
    let text = first + seq![','] + rest;
    assert(text == first + (seq![','] + rest));
    assert(text.take(first.len() as int) == first);
    assert(text.skip(first.len() as int + 1) == rest);
}

}
