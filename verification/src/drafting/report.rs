//! What a run of drafts is reported as.
use vstd::prelude::*;
use vstd::string::*;
use vstd::utf8::*;

use crate::drafting::csv::{
    cell, csv_row, law_row_grows, law_row_reads_back, read_row, row, views,
};
use crate::drafting::prompt::{count_sections, headings};
use crate::outside::sort_numbers;
use crate::text::{decimal, decimal_text, digits_value, law_decimal_reads_back};

verus! {

/// The line that a file of rows starts with.
pub const CSV_HEADER: &'static str =
    "nanoid,date,timestamp,timestamp_completion,backend,model,agreement,ok,ttft_ms,total_ms,chars,sections,error\n";

/// What is recorded of one draft.
#[derive(Debug)]
pub struct DraftRow {
    pub id: String,
    pub started: String,
    pub completed: String,
    pub backend: String,
    pub model: String,
    pub agreement: String,
    pub ok: bool,
    pub ttft_ms: u128,
    pub total_ms: u128,
    pub chars: usize,
    pub sections: usize,
    pub error: String,
}

/// The date of a timestamp: the characters of its first ten bytes.
pub open spec fn date_of(timestamp: Seq<char>) -> Seq<char> {
    decode_utf8(encode_utf8(timestamp).subrange(0, 10))
}

/// Whether the first ten bytes of a timestamp are whole characters.
pub open spec fn has_date(timestamp: Seq<char>) -> bool {
    is_char_boundary(encode_utf8(timestamp), 10)
}

/// `true` or `false`.
pub open spec fn bool_text(b: bool) -> Seq<char> {
    if b {
        "true"@
    } else {
        "false"@
    }
}

impl DraftRow {
    /// The values of the row, in the order of [`CSV_HEADER`].
    pub open spec fn values(&self) -> Seq<Seq<char>> {
        seq![
            self.id@,
            date_of(self.started@),
            self.started@,
            self.completed@,
            self.backend@,
            self.model@,
            self.agreement@,
            bool_text(self.ok),
            decimal(self.ttft_ms as nat),
            decimal(self.total_ms as nat),
            decimal(self.chars as nat),
            decimal(self.sections as nat),
            self.error@,
        ]
    }

    /// The row as a line of comma-separated values, without the line feed.
    pub fn to_csv(&self) -> (text: String)
        requires
            is_char_boundary(encode_utf8(self.started@), 10),
        ensures
            text@ == row(self.values()),
            read_row(text@) == self.values(),
            read_row(text@).len() == 13,
            read_row(text@)[0] == self.id@,
            encode_utf8(read_row(text@)[1]) == encode_utf8(self.started@).subrange(0, 10),
            read_row(text@)[2] == self.started@,
            read_row(text@)[3] == self.completed@,
            read_row(text@)[4] == self.backend@,
            read_row(text@)[5] == self.model@,
            read_row(text@)[6] == self.agreement@,
            self.ok ==> read_row(text@)[7] == "true"@,
            !self.ok ==> read_row(text@)[7] == "false"@,
            read_row(text@)[8] == decimal(self.ttft_ms as nat),
            read_row(text@)[9] == decimal(self.total_ms as nat),
            read_row(text@)[10] == decimal(self.chars as nat),
            read_row(text@)[11] == decimal(self.sections as nat),
            read_row(text@)[12] == self.error@,
    {
        let (date, _) = self.started.as_str().split_at(10);
        proof {
            encode_utf8_decode_utf8(date@);
        }
        let mut values: Vec<String> = Vec::new();
        values.push(self.id.clone());
        values.push(date.to_string());
        values.push(self.started.clone());
        values.push(self.completed.clone());
        values.push(self.backend.clone());
        values.push(self.model.clone());
        values.push(self.agreement.clone());
        values.push(
            if self.ok {
                "true".to_string()
            } else {
                "false".to_string()
            },
        );
        values.push(decimal_text(self.ttft_ms));
        values.push(decimal_text(self.total_ms));
        values.push(decimal_text(self.chars as u128));
        values.push(decimal_text(self.sections as u128));
        values.push(self.error.clone());
        proof {
            assert(views(values@) == self.values());
            law_row_reads_back(self.values());
            law_row_has_the_columns_of_the_header(*self);
        }
        csv_row(&values)
    }
}

/// The columns of a file of rows, by name.
proof fn lemma_header()
    ensures
        CSV_HEADER@ == "nanoid"@ + ","@ + "date"@ + ","@ + "timestamp"@ + ","@
            + "timestamp_completion"@ + ","@ + "backend"@ + ","@ + "model"@ + ","@ + "agreement"@
            + ","@ + "ok"@ + ","@ + "ttft_ms"@ + ","@ + "total_ms"@ + ","@ + "chars"@ + ","@
            + "sections"@ + ","@ + "error"@ + "\n"@,
{
    reveal_strlit(
        "nanoid,date,timestamp,timestamp_completion,backend,model,agreement,ok,ttft_ms,total_ms,chars,sections,error\n",
    );
    reveal_strlit("nanoid");
    reveal_strlit("date");
    reveal_strlit("timestamp");
    reveal_strlit("timestamp_completion");
    reveal_strlit("backend");
    reveal_strlit("model");
    reveal_strlit("agreement");
    reveal_strlit("ok");
    reveal_strlit("ttft_ms");
    reveal_strlit("total_ms");
    reveal_strlit("chars");
    reveal_strlit("sections");
    reveal_strlit("error");
    reveal_strlit(",");
    reveal_strlit("\n");
}

/// The names of the columns need no quotation marks.
proof fn lemma_names_are_plain()
    ensures
        cell("nanoid"@) == "nanoid"@,
        cell("date"@) == "date"@,
        cell("timestamp"@) == "timestamp"@,
        cell("timestamp_completion"@) == "timestamp_completion"@,
        cell("backend"@) == "backend"@,
        cell("model"@) == "model"@,
        cell("agreement"@) == "agreement"@,
        cell("ok"@) == "ok"@,
        cell("ttft_ms"@) == "ttft_ms"@,
        cell("total_ms"@) == "total_ms"@,
        cell("chars"@) == "chars"@,
        cell("sections"@) == "sections"@,
        cell("error"@) == "error"@,
{
    reveal_strlit("nanoid");
    reveal_strlit("date");
    reveal_strlit("timestamp");
    reveal_strlit("timestamp_completion");
    reveal_strlit("backend");
    reveal_strlit("model");
    reveal_strlit("agreement");
    reveal_strlit("ok");
    reveal_strlit("ttft_ms");
    reveal_strlit("total_ms");
    reveal_strlit("chars");
    reveal_strlit("sections");
    reveal_strlit("error");
}

/// Values that need no quotation marks make a row by commas alone.
proof fn lemma_row_step(values: Seq<Seq<char>>, text: Seq<char>, name: Seq<char>)
    requires
        values.len() >= 1,
        row(values) == text,
        cell(name) == name,
    ensures
        row(values.push(name)) == text + ","@ + name,
{
    reveal_strlit(",");
    law_row_grows(values, name);
    assert(","@ == seq![',']);
}

/// The header is itself a row, of the names of the columns in their order, and a line feed.
pub proof fn law_header_names_the_columns()
    ensures
        ({
            let line = CSV_HEADER@.drop_last();
            &&& CSV_HEADER@.last() == '\n'
            &&& read_row(line) == seq![
                "nanoid"@,
                "date"@,
                "timestamp"@,
                "timestamp_completion"@,
                "backend"@,
                "model"@,
                "agreement"@,
                "ok"@,
                "ttft_ms"@,
                "total_ms"@,
                "chars"@,
                "sections"@,
                "error"@,
            ]
        }),
{
    lemma_header();
    lemma_names_are_plain();
    reveal_strlit("\n");
    let v0 = seq!["nanoid"@];
    let t0 = "nanoid"@;
    law_row_grows(v0, "nanoid"@);
    lemma_row_step(v0, t0, "date"@);
    let v1 = v0.push("date"@);
    let t1 = t0 + ","@ + "date"@;
    lemma_row_step(v1, t1, "timestamp"@);
    let v2 = v1.push("timestamp"@);
    let t2 = t1 + ","@ + "timestamp"@;
    lemma_row_step(v2, t2, "timestamp_completion"@);
    let v3 = v2.push("timestamp_completion"@);
    let t3 = t2 + ","@ + "timestamp_completion"@;
    lemma_row_step(v3, t3, "backend"@);
    let v4 = v3.push("backend"@);
    let t4 = t3 + ","@ + "backend"@;
    lemma_row_step(v4, t4, "model"@);
    let v5 = v4.push("model"@);
    let t5 = t4 + ","@ + "model"@;
    lemma_row_step(v5, t5, "agreement"@);
    let v6 = v5.push("agreement"@);
    let t6 = t5 + ","@ + "agreement"@;
    lemma_row_step(v6, t6, "ok"@);
    let v7 = v6.push("ok"@);
    let t7 = t6 + ","@ + "ok"@;
    lemma_row_step(v7, t7, "ttft_ms"@);
    let v8 = v7.push("ttft_ms"@);
    let t8 = t7 + ","@ + "ttft_ms"@;
    lemma_row_step(v8, t8, "total_ms"@);
    let v9 = v8.push("total_ms"@);
    let t9 = t8 + ","@ + "total_ms"@;
    lemma_row_step(v9, t9, "chars"@);
    let v10 = v9.push("chars"@);
    let t10 = t9 + ","@ + "chars"@;
    lemma_row_step(v10, t10, "sections"@);
    let v11 = v10.push("sections"@);
    let t11 = t10 + ","@ + "sections"@;
    lemma_row_step(v11, t11, "error"@);
    let v12 = v11.push("error"@);
    let t12 = t11 + ","@ + "error"@;
    law_row_reads_back(v12);
    assert(CSV_HEADER@ == t12 + "\n"@);
    assert(CSV_HEADER@.drop_last() == t12);
}

/// What is read back from a row, ok or not, is under each name of the header the field of that
/// name.
pub proof fn law_row_has_the_columns_of_the_header(draft: DraftRow)
    requires
        has_date(draft.started@),
    ensures
        ({
            let cells = read_row(row(draft.values()));
            &&& cells.len() == 13
            &&& cells[0] == draft.id@
            &&& encode_utf8(cells[1]) == encode_utf8(draft.started@).subrange(0, 10)
            &&& cells[2] == draft.started@
            &&& cells[3] == draft.completed@
            &&& cells[4] == draft.backend@
            &&& cells[5] == draft.model@
            &&& cells[6] == draft.agreement@
            &&& draft.ok ==> cells[7] == "true"@
            &&& !draft.ok ==> cells[7] == "false"@
            &&& digits_value(cells[8]) == draft.ttft_ms
            &&& digits_value(cells[9]) == draft.total_ms
            &&& digits_value(cells[10]) == draft.chars
            &&& digits_value(cells[11]) == draft.sections
            &&& cells[12] == draft.error@
        }),
{
    law_row_reads_back(draft.values());
    law_decimal_reads_back(draft.ttft_ms as nat);
    law_decimal_reads_back(draft.total_ms as nat);
    law_decimal_reads_back(draft.chars as nat);
    law_decimal_reads_back(draft.sections as nat);
    encode_utf8_valid_utf8(draft.started@);
    valid_utf8_split(encode_utf8(draft.started@), 10);
    decode_utf8_encode_utf8(encode_utf8(draft.started@).subrange(0, 10));
}

/// How one draft went.
#[derive(Debug)]
pub struct DraftResult {
    pub slug: String,
    pub total_ms: u128,
    pub chars: usize,
    pub sections: usize,
    pub ok: bool,
}

impl DraftResult {
    /// A draft that came after `total_ms` milliseconds.
    pub fn completed(slug: String, total_ms: u128, text: &str) -> (result: DraftResult)
        ensures
            result.slug == slug,
            result.total_ms == total_ms,
            result.chars == text@.len(),
            result.sections == headings(text@, text@.len() as int),
            result.ok,
    {
        DraftResult {
            slug,
            total_ms,
            chars: text.unicode_len(),
            sections: count_sections(text),
            ok: true,
        }
    }

    /// A draft that failed after `total_ms` milliseconds.
    pub fn failed(slug: String, total_ms: u128) -> (result: DraftResult)
        ensures
            result.slug == slug,
            result.total_ms == total_ms,
            result.chars == 0,
            result.sections == 0,
            !result.ok,
    {
        DraftResult { slug, total_ms, chars: 0, sections: 0, ok: false }
    }
}

/// The drafts that came.
pub open spec fn successes(results: Seq<DraftResult>) -> Seq<DraftResult> {
    results.filter(|result: DraftResult| result.ok)
}

/// The figures of the drafts that came, each in the order of the drafts.
#[derive(Debug)]
pub struct Figures {
    pub totals: Vec<u128>,
    pub chars: Vec<u128>,
    pub sections: Vec<u128>,
}

/// Collects the figures of the drafts that came.
pub fn figures(results: &Vec<DraftResult>) -> (figures: Figures)
    ensures
        figures.totals@ == successes(results@).map_values(|r: DraftResult| r.total_ms),
        figures.chars@ == successes(results@).map_values(|r: DraftResult| r.chars as u128),
        figures.sections@ == successes(results@).map_values(|r: DraftResult| r.sections as u128),
        figures.totals@ == results@.filter(|result: DraftResult| result.ok).map_values(
            |r: DraftResult| r.total_ms,
        ),
        figures.chars@ == results@.filter(|result: DraftResult| result.ok).map_values(
            |r: DraftResult| r.chars as u128,
        ),
        figures.sections@ == results@.filter(|result: DraftResult| result.ok).map_values(
            |r: DraftResult| r.sections as u128,
        ),
{
    let mut totals: Vec<u128> = Vec::new();
    let mut chars: Vec<u128> = Vec::new();
    let mut sections: Vec<u128> = Vec::new();
    let mut i: usize = 0;
    proof {
        reveal(Seq::filter);
    }
    while i < results.len()
        invariant
            i <= results@.len(),
            totals@ == successes(results@.take(i as int)).map_values(|r: DraftResult| r.total_ms),
            chars@ == successes(results@.take(i as int)).map_values(
                |r: DraftResult| r.chars as u128,
            ),
            sections@ == successes(results@.take(i as int)).map_values(
                |r: DraftResult| r.sections as u128,
            ),
        decreases results@.len() - i,
    {
        proof {
            reveal(Seq::filter);
            assert(results@.take(i + 1).drop_last() == results@.take(i as int));
        }
        if results[i].ok {
            totals.push(results[i].total_ms);
            chars.push(results[i].chars as u128);
            sections.push(results[i].sections as u128);
        }
        i = i + 1;
    }
    assert(results@.take(i as int) == results@);
    Figures { totals, chars, sections }
}

/// A draft counts among those that came if and only if it is `ok`, whatever else is recorded of
/// it; those that came before it stay.
pub proof fn law_draft_came_iff_ok(results: Seq<DraftResult>, result: DraftResult)
    ensures
        successes(Seq::empty()) == Seq::<DraftResult>::empty(),
        result.ok ==> successes(results.push(result)) == successes(results).push(result),
        !result.ok ==> successes(results.push(result)) == successes(results),
{
    reveal(Seq::filter);
    assert(results.push(result).drop_last() == results);
}

/// Draft `i` has its entry among those that came, behind the entries of the drafts before it, if
/// and only if it is `ok`.
pub proof fn law_each_draft_that_came_has_its_entry(results: Seq<DraftResult>, i: int)
    requires
        0 <= i < results.len(),
    ensures
        ({
            let before = successes(results.take(i)).len();
            &&& results[i].ok ==> before < successes(results).len() && successes(
                results,
            )[before as int] == results[i]
            &&& successes(results.take(i + 1)).len() == before + if results[i].ok {
                1nat
            } else {
                0
            }
        }),
    decreases results.len(),
{
    law_draft_came_iff_ok(results.take(i), results[i]);
    assert(results.take(i + 1) == results.take(i).push(results[i]));
    if i + 1 < results.len() {
        let shorter = results.drop_last();
        law_each_draft_that_came_has_its_entry(shorter, i);
        law_draft_came_iff_ok(shorter, results.last());
        assert(shorter.push(results.last()) == results);
        assert(shorter.take(i) == results.take(i));
    } else {
        assert(results.take(i + 1) == results);
    }
}

/// All drafts came if and only if each is `ok`; those that did not come are the others.
pub proof fn law_run_fails_iff_a_draft_failed(results: Seq<DraftResult>)
    ensures
        successes(results).len() == results.len() <==> forall|i: int|
            0 <= i < results.len() ==> (#[trigger] results[i]).ok,
        successes(results).len() + results.filter(|result: DraftResult| !result.ok).len()
            == results.len(),
    decreases results.len(),
{
    reveal(Seq::filter);
    if results.len() > 0 {
        let shorter = results.drop_last();
        law_run_fails_iff_a_draft_failed(shorter);
        law_draft_came_iff_ok(shorter, results.last());
        assert(shorter.push(results.last()) == results);
        if successes(results).len() == results.len() {
            assert forall|i: int| 0 <= i < results.len() implies (#[trigger] results[i]).ok by {
                if i < shorter.len() {
                    assert(shorter[i].ok);
                }
            }
        }
        if forall|i: int| 0 <= i < results.len() ==> (#[trigger] results[i]).ok {
            assert forall|i: int| 0 <= i < shorter.len() implies (#[trigger] shorter[i]).ok by {
                assert(results[i].ok);
            }
            assert(results[results.len() - 1].ok);
        }
    }
}

/// Why a run counts as failed: in `None`, it does not.
pub fn failure(results: &Vec<DraftResult>) -> (text: Option<String>)
    ensures
        ({
            let failed = results@.len() - successes(results@).len();
            match text {
                None => failed == 0,
                Some(t) => failed > 0 && t@ == decimal(failed as nat) + "/"@ + decimal(
                    results@.len(),
                ) + " failed"@,
            }
        }),
        text is None <==> forall|i: int| 0 <= i < results@.len() ==> (#[trigger] results@[i]).ok,
        text is Some ==> text->0@ == decimal(
            results@.filter(|result: DraftResult| !result.ok).len(),
        ) + "/"@ + decimal(results@.len()) + " failed"@,
{
    proof {
        law_run_fails_iff_a_draft_failed(results@);
        results@.lemma_filter_len(|result: DraftResult| result.ok);
    }
    let came: usize = figures(results).totals.len();
    if came == results.len() {
        None
    } else {
        let mut text = decimal_text((results.len() - came) as u128);
        text.append("/");
        text.append(decimal_text(results.len() as u128).as_str());
        text.append(" failed");
        Some(text)
    }
}

/// Numbers in ascending order.
pub open spec fn ascending(numbers: Seq<u128>) -> Seq<u128> {
    numbers.sort_by(|a: u128, b: u128| a <= b)
}

/// The sum of numbers.
pub open spec fn sum(numbers: Seq<u128>) -> int
    decreases numbers.len(),
{
    if numbers.len() == 0 {
        0
    } else {
        sum(numbers.drop_last()) + numbers.last()
    }
}

/// Puts numbers into ascending order and picks the one at a rank, from 0; of no numbers it is 0.
pub fn percentile(xs: &mut Vec<u128>, rank: usize) -> (x: u128)
    requires
        old(xs)@.len() > 0 ==> rank < old(xs)@.len(),
    ensures
        final(xs)@ == ascending(old(xs)@),
        x == if old(xs)@.len() == 0 {
            0u128
        } else {
            ascending(old(xs)@)[rank as int]
        },
        final(xs)@.to_multiset() == old(xs)@.to_multiset(),
        forall|i: int, j: int| 0 <= i <= j < final(xs)@.len() ==> final(xs)@[i] <= final(xs)@[j],
        old(xs)@.len() > 0 ==> x == final(xs)@[rank as int],
{
    let ghost before = xs@;
    sort_numbers(xs);
    proof {
        lemma_ascending(before, xs@);
    }
    if xs.len() == 0 {
        return 0;
    }
    xs[rank]
}

/// Numbers in order, with each as often as it was there, are the numbers in ascending order.
proof fn lemma_ascending(before: Seq<u128>, sorted: Seq<u128>)
    requires
        sorted.to_multiset() == before.to_multiset(),
        forall|i: int, j: int| 0 <= i <= j < sorted.len() ==> sorted[i] <= sorted[j],
    ensures
        sorted == ascending(before),
        sorted.len() == before.len(),
{
    let leq = |a: u128, b: u128| a <= b;
    before.lemma_sort_by_ensures(leq);
    vstd::seq_lib::lemma_sorted_unique(sorted, before.sort_by(leq), leq);
    vstd::seq_lib::to_multiset_len(sorted);
    vstd::seq_lib::to_multiset_len(before);
}

/// A column of figures in short.
#[derive(Debug)]
pub struct Rollup {
    pub min: u128,
    /// The number at rank `n / 2` of `n`: of an even count, the upper of the two in the middle.
    pub median: u128,
    /// The mean, rounded down.
    pub avg: u128,
    pub max: u128,
    pub sum: u128,
}

/// Sums up a column of figures; of no figures there is nothing to say.
pub fn rollup(values: &Vec<u128>) -> (rollup: Option<Rollup>)
    requires
        sum(values@) <= u128::MAX,
    ensures
        rollup is None <==> values@.len() == 0,
        match rollup {
            None => true,
            Some(r) => {
                let sorted = ascending(values@);
                let n = values@.len() as int;
                &&& r.min == sorted[0]
                &&& r.median == sorted[n / 2]
                &&& r.max == sorted[n - 1]
                &&& r.sum == sum(values@)
                &&& r.avg == sum(values@) / n
                &&& values@.contains(r.min) && values@.contains(r.max) && values@.contains(r.median)
                &&& forall|i: int| 0 <= i < n ==> r.min <= #[trigger] values@[i] <= r.max
                &&& r.avg * n <= r.sum < (r.avg + 1) * n
            },
        },
{
    let n: usize = values.len();
    if n == 0 {
        return None;
    }
    let mut total: u128 = 0;
    let mut sorted: Vec<u128> = Vec::new();
    let mut i: usize = 0;
    while i < n
        invariant
            i <= n,
            n == values@.len(),
            sorted@ == values@.take(i as int),
            total == sum(values@.take(i as int)),
            sum(values@) <= u128::MAX,
        decreases n - i,
    {
        proof {
            assert(values@.take(i + 1).drop_last() == values@.take(i as int));
            lemma_sum_of_prefix(values@, i + 1);
        }
        total = total + values[i];
        sorted.push(values[i]);
        i = i + 1;
    }
    assert(values@.take(n as int) == values@);
    let median = percentile(&mut sorted, n / 2);
    proof {
        law_ascending(values@);
        lemma_extremes(values@, n as int / 2);
        vstd::arithmetic::div_mod::lemma_fundamental_div_mod(total as int, n as int);
        assert((total as int / n as int) * n + n == (total as int / n as int + 1) * n)
            by (nonlinear_arith);
        assert(n * (total as int / n as int) == (total as int / n as int) * n)
            by (nonlinear_arith);
    }
    Some(
        Rollup {
            min: sorted[0],
            median,
            avg: total / n as u128,
            max: sorted[n - 1],
            sum: total,
        },
    )
}

proof fn lemma_sum_of_prefix(numbers: Seq<u128>, i: int)
    requires
        0 <= i <= numbers.len(),
    ensures
        0 <= sum(numbers.take(i)) <= sum(numbers),
    decreases numbers.len(),
{
    if i == numbers.len() {
        assert(numbers.take(i) == numbers);
        if i > 0 {
            lemma_sum_of_prefix(numbers.drop_last(), i - 1);
            assert(numbers.drop_last().take(i - 1) == numbers.drop_last());
        }
    } else {
        lemma_sum_of_prefix(numbers.drop_last(), i);
        assert(numbers.drop_last().take(i) == numbers.take(i));
    }
}

/// Numbers in ascending order are the same numbers, each as often as it was there, and none is
/// less than one before it.
pub proof fn law_ascending(numbers: Seq<u128>)
    ensures
        ascending(numbers).len() == numbers.len(),
        ascending(numbers).to_multiset() == numbers.to_multiset(),
        forall|i: int, j: int|
            0 <= i <= j < numbers.len() ==> ascending(numbers)[i] <= ascending(numbers)[j],
{
    let leq = |a: u128, b: u128| a <= b;
    numbers.lemma_sort_by_ensures(leq);
    vstd::seq_lib::to_multiset_len(ascending(numbers));
    vstd::seq_lib::to_multiset_len(numbers);
    assert forall|i: int, j: int| 0 <= i <= j < numbers.len() implies ascending(numbers)[i]
        <= ascending(numbers)[j] by {
        if i < j {
            assert(leq(ascending(numbers)[i], ascending(numbers)[j]));
        }
    }
}

/// The first and the last of numbers in ascending order are the least and the greatest, and any
/// of them is one of the numbers.
proof fn lemma_extremes(numbers: Seq<u128>, k: int)
    requires
        0 <= k < numbers.len(),
    ensures
        numbers.contains(ascending(numbers)[0]),
        numbers.contains(ascending(numbers)[numbers.len() - 1]),
        numbers.contains(ascending(numbers)[k]),
        forall|i: int|
            0 <= i < numbers.len() ==> ascending(numbers)[0] <= #[trigger] numbers[i]
                <= ascending(numbers)[numbers.len() - 1],
{
    broadcast use vstd::seq_lib::group_to_multiset_ensures;

    law_ascending(numbers);
    let sorted = ascending(numbers);
    assert forall|j: int| 0 <= j < sorted.len() implies numbers.contains(#[trigger] sorted[j]) by {
        assert(sorted.contains(sorted[j]));
        assert(sorted.to_multiset().count(sorted[j]) > 0);
    }
    assert forall|i: int| 0 <= i < numbers.len() implies sorted[0] <= #[trigger] numbers[i]
        <= sorted[numbers.len() - 1] by {
        assert(numbers.contains(numbers[i]));
        assert(numbers.to_multiset().count(numbers[i]) > 0);
        let j = sorted.index_of(numbers[i]);
        assert(sorted.contains(numbers[i]));
        assert(sorted[j] == numbers[i]);
    }
}

/// The sum of no numbers is 0, and each number more adds itself.
pub proof fn law_sum_grows(numbers: Seq<u128>, number: u128)
    ensures
        sum(Seq::empty()) == 0,
        sum(numbers.push(number)) == sum(numbers) + number,
{
    assert(numbers.push(number).drop_last() == numbers);
}

}
