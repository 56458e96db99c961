use crate::timeseries::MetaData;
use std::fmt::Write;
use vstd::prelude::*;
use vstd::string::StringExecFns;

verus! {

/// The pattern of every time in the output: year, month, day and hour.
pub const GP_DATE_FORMAT: &'static str = "%Y-%m-%d-%H";

/// The text that chrono makes of the time `time` seconds after the Unix
/// epoch with the pattern `pattern`. `None` for a time outside chrono's range
/// and for a pattern that it refuses.
pub uninterp spec fn formatted_time(time: int, pattern: Seq<char>) -> Option<Seq<char>>;

/// The text of `text` in upper case, as std makes it.
pub uninterp spec fn uppercase(text: Seq<char>) -> Seq<char>;

/// The character of a digit.
pub open spec fn digit_char(d: nat) -> char {
    if d == 0 {
        '0'
    } else if d == 1 {
        '1'
    } else if d == 2 {
        '2'
    } else if d == 3 {
        '3'
    } else if d == 4 {
        '4'
    } else if d == 5 {
        '5'
    } else if d == 6 {
        '6'
    } else if d == 7 {
        '7'
    } else if d == 8 {
        '8'
    } else {
        '9'
    }
}

/// The decimal digits of a natural number, without leading zeros.
pub open spec fn digits(n: nat) -> Seq<char>
    decreases n,
{
    if n < 10 {
        seq![digit_char(n)]
    } else {
        digits(n / 10).push(digit_char(n % 10))
    }
}

/// The decimal text of an integer, with a minus sign where it is negative.
pub open spec fn decimal(n: int) -> Seq<char> {
    if n < 0 {
        seq!['-'] + digits((-n) as nat)
    } else {
        digits(n as nat)
    }
}

/// A natural number has at least one digit, and each digit is one of the ten
/// digit characters.
proof fn lemma_digits_shape(n: nat)
    ensures
        digits(n).len() >= 1,
        digits(n).len() == 1 <==> n < 10,
        forall|i: int| 0 <= i < digits(n).len() ==> (#[trigger] digits(n)[i]) != '-',
    decreases n,
{
    if n >= 10 {
        lemma_digits_shape(n / 10);
    }
}

/// Two natural numbers with the same digits are the same number.
proof fn lemma_digits_injective(a: nat, b: nat)
    requires
        digits(a) == digits(b),
    ensures
        a == b,
    decreases a,
{
    lemma_digits_shape(a);
    lemma_digits_shape(b);
    if a >= 10 {
        let front_a = digits(a / 10);
        let front_b = digits(b / 10);
        assert(front_a.push(digit_char(a % 10)).drop_last() =~= front_a);
        assert(front_b.push(digit_char(b % 10)).drop_last() =~= front_b);
        assert(front_a.push(digit_char(a % 10)).last() == digit_char(a % 10));
        assert(front_b.push(digit_char(b % 10)).last() == digit_char(b % 10));
        lemma_digits_injective(a / 10, b / 10);
    } else {
        assert(digits(a)[0] == digit_char(a));
        assert(digits(b)[0] == digit_char(b));
    }
}

/// The decimal text of an integer can be read back: two integers with the
/// same text are the same integer.
pub proof fn lemma_decimal_injective(a: int, b: int)
    requires
        decimal(a) == decimal(b),
    ensures
        a == b,
{
    if a < 0 {
        lemma_digits_shape((-a) as nat);
    } else {
        lemma_digits_shape(a as nat);
    }
    if b < 0 {
        lemma_digits_shape((-b) as nat);
    } else {
        lemma_digits_shape(b as nat);
    }
    if a < 0 && b < 0 {
        let da = digits((-a) as nat);
        let db = digits((-b) as nat);
        assert((seq!['-'] + da).skip(1) =~= da);
        assert((seq!['-'] + db).skip(1) =~= db);
        lemma_digits_injective((-a) as nat, (-b) as nat);
    } else if a >= 0 && b >= 0 {
        lemma_digits_injective(a as nat, b as nat);
    } else if a < 0 {
        assert((seq!['-'] + digits((-a) as nat))[0] == '-');
        assert(digits(b as nat)[0] != '-');
    } else {
        assert((seq!['-'] + digits((-b) as nat))[0] == '-');
        assert(digits(a as nat)[0] != '-');
    }
}

/// Makes the time with `DateTime::from_timestamp` and formats it with
/// `NaiveDateTime::format`; the result is what `formatted_time` names. Where
/// chrono has no such time, or the formatting reports an error, there is no
/// text.
#[verifier::external_body]
fn format_time(time: i64, pattern: &str) -> (stamp: Option<String>)
    ensures
        match stamp {
            Some(text) => formatted_time(time as int, pattern@) == Some(text@),
            None => formatted_time(time as int, pattern@) is None,
        },
{
    let moment = chrono::DateTime::from_timestamp(time, 0)?;
    let mut text = String::new();
    write!(text, "{}", moment.naive_utc().format(pattern)).ok()?;
    Some(text)
}

/// Calls `i64::to_string`, which writes an integer in decimal.
#[verifier::external_body]
fn decimal_text(n: i64) -> (text: String)
    ensures
        text@ == decimal(n as int),
{
    n.to_string()
}

/// Calls `str::to_uppercase`; the result is what `uppercase` names.
#[verifier::external_body]
fn upper(text: &str) -> (shout: String)
    ensures
        shout@ == uppercase(text@),
{
    text.to_uppercase()
}

/// The text of a time in the output.
pub open spec fn stamp(time: i64) -> Option<Seq<char>> {
    formatted_time(time as int, GP_DATE_FORMAT@)
}

/// The text of a time in the output, if chrono has that time.
pub fn time_stamp(time: i64) -> (text: Option<String>)
    ensures
        match text {
            Some(t) => stamp(time) == Some(t@),
            None => stamp(time) is None,
        },
{
    format_time(time, GP_DATE_FORMAT)
}

/// One line of the data of a plot: the times of an element, and its
/// quantities as they are to be shown.
pub struct DataRow {
    /// Seconds since the Unix epoch.
    pub valid_time: i64,
    /// Hours since the start of the model run.
    pub lead_time: i32,
    pub blow_up_dt: String,
    pub blow_up_height: String,
    pub hdw: String,
}

/// The comment lines that begin every block of data.
pub open spec fn header_text(
    description: Seq<char>,
    model: Seq<char>,
    start: Seq<char>,
    now: Seq<char>,
    end: Seq<char>,
) -> Seq<char> {
    "# Site: "@ + description + "\n# Model: "@ + model + "\n# Start: "@ + start + "\n# Now: "@
        + now + "\n# End: "@ + end + "\n\n"@
}

/// The comment lines for `meta`, if its three times can be shown.
pub open spec fn meta_header(description: Seq<char>, meta: MetaData) -> Option<Seq<char>> {
    match (stamp(meta.start), stamp(meta.now), stamp(meta.end)) {
        (Some(start), Some(now), Some(end)) => Some(
            header_text(description, meta.model@, start, now, end),
        ),
        _ => None,
    }
}

/// A header for a block of data, in gnuplot comment form: the site as
/// `description` says it, the model, and the three times of the meta data.
/// `None` where one of the times cannot be shown.
pub fn meta_data_header(description: &str, meta: &MetaData) -> (text: Option<String>)
    ensures
        match text {
            Some(t) => meta_header(description@, *meta) == Some(t@),
            None => meta_header(description@, *meta) is None,
        },
{
    let start = match time_stamp(meta.start) {
        Some(start) => start,
        None => { return None; },
    };
    let now = match time_stamp(meta.now) {
        Some(now) => now,
        None => { return None; },
    };
    let end = match time_stamp(meta.end) {
        Some(end) => end,
        None => { return None; },
    };
    let mut text = String::from_str("# Site: ");
    text.append(description);
    text.append("\n# Model: ");
    text.append(meta.model.as_str());
    text.append("\n# Start: ");
    text.append(start.as_str());
    text.append("\n# Now: ");
    text.append(now.as_str());
    text.append("\n# End: ");
    text.append(end.as_str());
    text.append("\n\n");
    Some(text)
}

/// The names of the columns of the data of a plot.
pub open spec fn column_names() -> Seq<char> {
    "valid_time lead_time blow_up_dt blow_up_height hdw\n"@
}

/// The line of one element: its valid time, its lead time in hours, and its
/// three quantities, with one space between them.
pub open spec fn row_text(row: DataRow) -> Option<Seq<char>> {
    match stamp(row.valid_time) {
        Some(valid) => Some(
            valid + " "@ + decimal(row.lead_time as int) + " "@ + row.blow_up_dt@ + " "@
                + row.blow_up_height@ + " "@ + row.hdw@ + "\n"@,
        ),
        None => None,
    }
}

/// The lines of the elements, in their order, if every valid time can be
/// shown.
pub open spec fn rows_text(rows: Seq<DataRow>) -> Option<Seq<char>>
    decreases rows.len(),
{
    if rows.len() == 0 {
        Some(Seq::empty())
    } else {
        match (rows_text(rows.drop_last()), row_text(rows.last())) {
            (Some(before), Some(line)) => Some(before + line),
            _ => None,
        }
    }
}

/// Where the beginning of the rows cannot be shown, the rows cannot.
proof fn lemma_rows_text_none(rows: Seq<DataRow>, upto: int)
    requires
        0 <= upto <= rows.len(),
        rows_text(rows.take(upto)) is None,
    ensures
        rows_text(rows) is None,
    decreases rows.len() - upto,
{
    if upto < rows.len() {
        assert(rows.take(upto + 1).drop_last() =~= rows.take(upto));
        lemma_rows_text_none(rows, upto + 1);
    } else {
        assert(rows.take(upto) =~= rows);
    }
}

/// The line of one element.
pub fn data_row(row: &DataRow) -> (text: Option<String>)
    ensures
        match text {
            Some(t) => row_text(*row) == Some(t@),
            None => row_text(*row) is None,
        },
{
    let mut text = match time_stamp(row.valid_time) {
        Some(valid) => valid,
        None => { return None; },
    };
    let lead = decimal_text(row.lead_time as i64);
    text.append(" ");
    text.append(lead.as_str());
    text.append(" ");
    text.append(row.blow_up_dt.as_str());
    text.append(" ");
    text.append(row.blow_up_height.as_str());
    text.append(" ");
    text.append(row.hdw.as_str());
    text.append("\n");
    Some(text)
}

/// The lines of the elements, in their order.
pub fn data_rows(rows: &Vec<DataRow>) -> (text: Option<String>)
    ensures
        match text {
            Some(t) => rows_text(rows@) == Some(t@),
            None => rows_text(rows@) is None,
        },
{
    let mut text = String::new();
    let mut i: usize = 0;
    assert(rows@.take(0) =~= Seq::<DataRow>::empty());
    while i < rows.len()
        invariant
            i <= rows.len(),
            rows_text(rows@.take(i as int)) == Some(text@),
        decreases rows.len() - i,
    {
        proof {
            assert(rows@.take(i + 1).drop_last() =~= rows@.take(i as int));
            assert(rows@.take(i + 1).last() == rows@[i as int]);
        }
        match data_row(&rows[i]) {
            Some(line) => {
                text.append(line.as_str());
            },
            None => {
                proof {
                    lemma_rows_text_none(rows@, i + 1);
                }
                return None;
            },
        }
        i += 1;
    }
    proof {
        assert(rows@.take(i as int) =~= rows@);
    }
    Some(text)
}

/// The data of a merged series: the header, the names of the columns, and
/// one line for each element.
pub open spec fn merged_text(description: Seq<char>, meta: MetaData, rows: Seq<DataRow>) -> Option<
    Seq<char>,
> {
    match (meta_header(description, meta), rows_text(rows)) {
        (Some(header), Some(lines)) => Some(header + column_names() + lines),
        _ => None,
    }
}

/// Write the merged time series data in a gnuplot readable format. `None`
/// where one of the times cannot be shown.
pub fn write_merged_data(description: &str, meta: &MetaData, rows: &Vec<DataRow>) -> (text: Option<
    String,
>)
    ensures
        match text {
            Some(t) => merged_text(description@, *meta, rows@) == Some(t@),
            None => merged_text(description@, *meta, rows@) is None,
        },
{
    let mut text = match meta_data_header(description, meta) {
        Some(header) => header,
        None => { return None; },
    };
    let lines = match data_rows(rows) {
        Some(lines) => lines,
        None => { return None; },
    };
    text.append("valid_time lead_time blow_up_dt blow_up_height hdw\n");
    text.append(lines.as_str());
    Some(text)
}

/// The block of one model run: a comment with its start time, one line for
/// each element, and an empty line.
pub open spec fn run_text(init_time: i64, rows: Seq<DataRow>) -> Option<Seq<char>> {
    match (stamp(init_time), rows_text(rows)) {
        (Some(init), Some(lines)) => Some("# init_time: "@ + init + "\n"@ + lines + "\n"@),
        _ => None,
    }
}

/// The blocks of the model runs, in their order.
pub open spec fn runs_text(runs: Seq<(i64, Vec<DataRow>)>) -> Option<Seq<char>>
    decreases runs.len(),
{
    if runs.len() == 0 {
        Some(Seq::empty())
    } else {
        match (runs_text(runs.drop_last()), run_text(runs.last().0, runs.last().1@)) {
            (Some(before), Some(block)) => Some(before + block),
            _ => None,
        }
    }
}

/// Where the beginning of the runs cannot be shown, the runs cannot.
proof fn lemma_runs_text_none(runs: Seq<(i64, Vec<DataRow>)>, upto: int)
    requires
        0 <= upto <= runs.len(),
        runs_text(runs.take(upto)) is None,
    ensures
        runs_text(runs) is None,
    decreases runs.len() - upto,
{
    if upto < runs.len() {
        assert(runs.take(upto + 1).drop_last() =~= runs.take(upto));
        lemma_runs_text_none(runs, upto + 1);
    } else {
        assert(runs.take(upto) =~= runs);
    }
}

/// The block of one model run.
fn run_block(init_time: i64, rows: &Vec<DataRow>) -> (text: Option<String>)
    ensures
        match text {
            Some(t) => run_text(init_time, rows@) == Some(t@),
            None => run_text(init_time, rows@) is None,
        },
{
    let init = match time_stamp(init_time) {
        Some(init) => init,
        None => { return None; },
    };
    let lines = match data_rows(rows) {
        Some(lines) => lines,
        None => { return None; },
    };
    let mut text = String::from_str("# init_time: ");
    text.append(init.as_str());
    text.append("\n");
    text.append(lines.as_str());
    text.append("\n");
    Some(text)
}

/// The data of an ensemble: the header, the names of the columns, and one
/// block for each model run.
pub open spec fn ensemble_text(
    description: Seq<char>,
    meta: MetaData,
    runs: Seq<(i64, Vec<DataRow>)>,
) -> Option<Seq<char>> {
    match (meta_header(description, meta), runs_text(runs)) {
        (Some(header), Some(blocks)) => Some(header + column_names() + blocks),
        _ => None,
    }
}

/// Write the ensemble data in a gnuplot readable format. `None` where one of
/// the times cannot be shown.
pub fn write_ensemble_data(
    description: &str,
    meta: &MetaData,
    runs: &Vec<(i64, Vec<DataRow>)>,
) -> (text: Option<String>)
    ensures
        match text {
            Some(t) => ensemble_text(description@, *meta, runs@) == Some(t@),
            None => ensemble_text(description@, *meta, runs@) is None,
        },
{
    let mut text = match meta_data_header(description, meta) {
        Some(header) => header,
        None => { return None; },
    };
    text.append("valid_time lead_time blow_up_dt blow_up_height hdw\n");
    let mut blocks = String::new();
    let mut i: usize = 0;
    assert(runs@.take(0) =~= Seq::<(i64, Vec<DataRow>)>::empty());
    while i < runs.len()
        invariant
            i <= runs.len(),
            runs_text(runs@.take(i as int)) == Some(blocks@),
        decreases runs.len() - i,
    {
        proof {
            assert(runs@.take(i + 1).drop_last() =~= runs@.take(i as int));
            assert(runs@.take(i + 1).last() == runs@[i as int]);
        }
        match run_block(runs[i].0, &runs[i].1) {
            Some(block) => {
                blocks.append(block.as_str());
            },
            None => {
                proof {
                    lemma_runs_text_none(runs@, i + 1);
                }
                return None;
            },
        }
        i += 1;
    }
    proof {
        assert(runs@.take(i as int) =~= runs@);
    }
    text.append(blocks.as_str());
    Some(text)
}

/// The names of the columns of the climate data.
pub open spec fn climo_columns() -> Seq<char> {
    "valid_time min 10th 20th 30th 40th median 60th 70th 80th 90th max\n"@
}

/// The values of one line of climate data, each after a space.
pub open spec fn values_text(values: Seq<String>) -> Seq<char>
    decreases values.len(),
{
    if values.len() == 0 {
        Seq::empty()
    } else {
        values_text(values.drop_last()) + " "@ + values.last()@
    }
}

/// The line of the climate data of one hour: the hour and its values.
pub open spec fn decile_row_text(time: i64, values: Seq<String>) -> Option<Seq<char>> {
    match stamp(time) {
        Some(hour) => Some(hour + values_text(values) + "\n"@),
        None => None,
    }
}

/// The lines of the climate data, in their order.
pub open spec fn decile_rows_text(rows: Seq<(i64, Vec<String>)>) -> Option<Seq<char>>
    decreases rows.len(),
{
    if rows.len() == 0 {
        Some(Seq::empty())
    } else {
        match (
            decile_rows_text(rows.drop_last()),
            decile_row_text(rows.last().0, rows.last().1@),
        ) {
            (Some(before), Some(line)) => Some(before + line),
            _ => None,
        }
    }
}

/// The line that stands for the climate data where there is none: the start
/// of the window and eleven times `NaN`.
pub open spec fn missing_climo_text(start: i64) -> Option<Seq<char>> {
    match stamp(start) {
        Some(hour) => Some(hour + " NaN NaN NaN NaN NaN NaN NaN NaN NaN NaN NaN\n"@),
        None => None,
    }
}

/// The block of climate data: the header, the names of the columns, and the
/// lines of the hours, or the line that stands for them.
pub open spec fn climo_text(
    description: Seq<char>,
    meta: MetaData,
    deciles: Option<Vec<(i64, Vec<String>)>>,
) -> Option<Seq<char>> {
    let lines = match deciles {
        Some(rows) => decile_rows_text(rows@),
        None => missing_climo_text(meta.start),
    };
    match (meta_header(description, meta), lines) {
        (Some(header), Some(lines)) => Some(header + climo_columns() + lines),
        _ => None,
    }
}

/// Where the beginning of the climate data cannot be shown, the data cannot.
proof fn lemma_decile_rows_text_none(rows: Seq<(i64, Vec<String>)>, upto: int)
    requires
        0 <= upto <= rows.len(),
        decile_rows_text(rows.take(upto)) is None,
    ensures
        decile_rows_text(rows) is None,
    decreases rows.len() - upto,
{
    if upto < rows.len() {
        assert(rows.take(upto + 1).drop_last() =~= rows.take(upto));
        lemma_decile_rows_text_none(rows, upto + 1);
    } else {
        assert(rows.take(upto) =~= rows);
    }
}

/// The line of the climate data of one hour.
fn decile_row(time: i64, values: &Vec<String>) -> (text: Option<String>)
    ensures
        match text {
            Some(t) => decile_row_text(time, values@) == Some(t@),
            None => decile_row_text(time, values@) is None,
        },
{
    let mut text = match time_stamp(time) {
        Some(hour) => hour,
        None => { return None; },
    };
    let ghost hour = text@;
    let mut i: usize = 0;
    assert(values@.take(0) =~= Seq::<String>::empty());
    while i < values.len()
        invariant
            i <= values.len(),
            text@ == hour + values_text(values@.take(i as int)),
        decreases values.len() - i,
    {
        proof {
            assert(values@.take(i + 1).drop_last() =~= values@.take(i as int));
            assert(values@.take(i + 1).last() == values@[i as int]);
            let shown = values_text(values@.take(i as int));
            assert(hour + shown + " "@ + values@[i as int]@ =~= hour + (shown + " "@
                + values@[i as int]@));
        }
        text.append(" ");
        text.append(values[i].as_str());
        i += 1;
    }
    proof {
        assert(values@.take(i as int) =~= values@);
    }
    text.append("\n");
    Some(text)
}

/// Write out the climate data of a plot: the values of each hour as they are
/// to be shown, or, where there are none, one line that says so. `None`
/// where one of the times cannot be shown.
pub fn write_climo(description: &str, meta: &MetaData, deciles: &Option<Vec<(i64, Vec<String>)>>) -> (text:
    Option<String>)
    ensures
        match text {
            Some(t) => climo_text(description@, *meta, *deciles) == Some(t@),
            None => climo_text(description@, *meta, *deciles) is None,
        },
{
    let mut text = match meta_data_header(description, meta) {
        Some(header) => header,
        None => { return None; },
    };
    text.append("valid_time min 10th 20th 30th 40th median 60th 70th 80th 90th max\n");
    match deciles {
        Some(rows) => {
            let mut lines = String::new();
            let mut i: usize = 0;
            assert(rows@.take(0) =~= Seq::<(i64, Vec<String>)>::empty());
            while i < rows.len()
                invariant
                    i <= rows.len(),
                    *deciles == Some(*rows),
                    decile_rows_text(rows@.take(i as int)) == Some(lines@),
                decreases rows.len() - i,
            {
                proof {
                    assert(rows@.take(i + 1).drop_last() =~= rows@.take(i as int));
                    assert(rows@.take(i + 1).last() == rows@[i as int]);
                }
                match decile_row(rows[i].0, &rows[i].1) {
                    Some(line) => {
                        lines.append(line.as_str());
                    },
                    None => {
                        proof {
                            lemma_decile_rows_text_none(rows@, i + 1);
                        }
                        return None;
                    },
                }
                i += 1;
            }
            proof {
                assert(rows@.take(i as int) =~= rows@);
            }
            text.append(lines.as_str());
            Some(text)
        },
        None => {
            let hour = match time_stamp(meta.start) {
                Some(hour) => hour,
                None => { return None; },
            };
            text.append(hour.as_str());
            text.append(" NaN NaN NaN NaN NaN NaN NaN NaN NaN NaN NaN\n");
            proof {
                let header = meta_header(description@, *meta).unwrap();
                assert(header + climo_columns() + hour@
                    + " NaN NaN NaN NaN NaN NaN NaN NaN NaN NaN NaN\n"@ =~= header
                    + climo_columns() + (hour@
                    + " NaN NaN NaN NaN NaN NaN NaN NaN NaN NaN NaN\n"@));
            }
            Some(text)
        },
    }
}

/// The whole hours from `now` to `end` of the meta data, rounded towards
/// zero.
pub open spec fn hours_ahead(meta: MetaData) -> int {
    let seconds = meta.end - meta.now;
    if seconds >= 0 {
        seconds / 3600
    } else {
        -((-seconds) / 3600)
    }
}

/// The whole hours from `now` to `end` of the meta data, rounded towards
/// zero.
pub fn num_hours(meta: &MetaData) -> (hours: i64)
    ensures
        hours == hours_ahead(*meta),
{
    let seconds: i128 = meta.end as i128 - meta.now as i128;
    if seconds >= 0 {
        (seconds / 3600) as i64
    } else {
        (-((-seconds) / 3600)) as i64
    }
}

/// The two plots of a site and model.
#[derive(Clone, Copy, Debug, PartialEq, Eq, Structural)]
pub enum Plot {
    /// Every model run by itself.
    Ensemble,
    /// The runs merged into one series.
    Merged,
}

/// What the name of the output of a plot ends in.
pub open spec fn plot_suffix(plot: Plot) -> Seq<char> {
    match plot {
        Plot::Ensemble => "_ens.png"@,
        Plot::Merged => ""@,
    }
}

/// The lines that set the variables of a plot: the hours that it looks
/// ahead, its three times, its title and the name of its output.
pub open spec fn settings_text(site_name: Seq<char>, station_num: u32, meta: MetaData, plot: Plot) -> Option<
    Seq<char>,
> {
    match (stamp(meta.now), stamp(meta.start), stamp(meta.end)) {
        (Some(now), Some(start), Some(end)) => Some(
            "num_hours="@ + decimal(hours_ahead(meta)) + "\nnow_time=\""@ + now
                + "\"\nstart_time=\""@ + start + "\"\nend_time=\""@ + end
                + "\"\nmain_title=\"Fire Weather Parameters - "@ + site_name + " - "@
                + uppercase(meta.model@) + "\"\noutput_name=\""@ + decimal(station_num as int)
                + "_"@ + uppercase(meta.model@) + plot_suffix(plot) + "\"\n"@,
        ),
        _ => None,
    }
}

/// The lines that set the variables of a plot for the plotting script. `None`
/// where one of the times cannot be shown.
pub fn plot_settings(site_name: &str, station_num: u32, meta: &MetaData, plot: Plot) -> (text: Option<
    String,
>)
    ensures
        match text {
            Some(t) => settings_text(site_name@, station_num, *meta, plot) == Some(t@),
            None => settings_text(site_name@, station_num, *meta, plot) is None,
        },
{
    let now = match time_stamp(meta.now) {
        Some(now) => now,
        None => { return None; },
    };
    let start = match time_stamp(meta.start) {
        Some(start) => start,
        None => { return None; },
    };
    let end = match time_stamp(meta.end) {
        Some(end) => end,
        None => { return None; },
    };
    let hours = decimal_text(num_hours(meta));
    let station = decimal_text(station_num as i64);
    let model = upper(meta.model.as_str());
    let mut text = String::from_str("num_hours=");
    text.append(hours.as_str());
    text.append("\nnow_time=\"");
    text.append(now.as_str());
    text.append("\"\nstart_time=\"");
    text.append(start.as_str());
    text.append("\"\nend_time=\"");
    text.append(end.as_str());
    text.append("\"\nmain_title=\"Fire Weather Parameters - ");
    text.append(site_name);
    text.append(" - ");
    text.append(model.as_str());
    text.append("\"\noutput_name=\"");
    text.append(station.as_str());
    text.append("_");
    text.append(model.as_str());
    match plot {
        Plot::Ensemble => {
            text.append("_ens.png");
        },
        Plot::Merged => {
            text.append("");
        },
    }
    text.append("\"\n");
    Some(text)
}

/// The three files of data of a site and model.
#[derive(Clone, Copy, Debug, PartialEq, Eq, Structural)]
pub enum DataFile {
    /// Every model run by itself.
    Ensemble,
    /// The runs merged into one series.
    Merged,
    /// The climate data.
    Climo,
}

/// The short word for each file of data.
pub open spec fn file_kind(file: DataFile) -> Seq<char> {
    match file {
        DataFile::Ensemble => "ens"@,
        DataFile::Merged => "mrg"@,
        DataFile::Climo => "cli"@,
    }
}

/// The name of a file of data: in the folder `prefix`, the number of the
/// station, the model in upper case, and the short word for the file.
pub open spec fn file_name_text(prefix: Seq<char>, station_num: u32, model: Seq<char>, file: DataFile) -> Seq<
    char,
> {
    prefix + "/"@ + decimal(station_num as int) + "_"@ + uppercase(model) + "_"@ + file_kind(file)
        + ".dat"@
}

/// The name of the file to save data in.
pub fn data_file_name(prefix: &str, station_num: u32, model: &str, file: DataFile) -> (name: String)
    ensures
        name@ == file_name_text(prefix@, station_num, model@, file),
{
    let station = decimal_text(station_num as i64);
    let shout = upper(model);
    let mut name = String::from_str(prefix);
    name.append("/");
    name.append(station.as_str());
    name.append("_");
    name.append(shout.as_str());
    name.append("_");
    match file {
        DataFile::Ensemble => {
            name.append("ens");
        },
        DataFile::Merged => {
            name.append("mrg");
        },
        DataFile::Climo => {
            name.append("cli");
        },
    }
    name.append(".dat");
    name
}

/// A block of data for the plotting script, under the name `data`.
pub open spec fn data_block(data: Seq<char>) -> Seq<char> {
    "$data << EOD\n"@ + data + "EOD\n"@
}

/// A block of climate data for the plotting script, under the name
/// `hdw_climo`.
pub open spec fn climo_block(data: Seq<char>) -> Seq<char> {
    "$hdw_climo << EOD\n"@ + data + "EOD\n"@
}

/// All that the plotting script is fed for the plot of an ensemble: the
/// variables, the data, and the commands that draw.
pub open spec fn ensemble_commands_text(
    site_name: Seq<char>,
    description: Seq<char>,
    station_num: u32,
    meta: MetaData,
    runs: Seq<(i64, Vec<DataRow>)>,
    draw: Seq<char>,
) -> Option<Seq<char>> {
    match (
        settings_text(site_name, station_num, meta, Plot::Ensemble),
        ensemble_text(description, meta, runs),
    ) {
        (Some(settings), Some(data)) => Some(settings + data_block(data) + draw),
        _ => None,
    }
}

/// What to feed the plotting script for the plot of an ensemble. The title
/// has `site_name` and the data has `description`; `draw` holds the commands
/// that draw the plot. `None` where one of the times cannot be shown.
pub fn ensemble_plot_commands(
    site_name: &str,
    description: &str,
    station_num: u32,
    meta: &MetaData,
    runs: &Vec<(i64, Vec<DataRow>)>,
    draw: &str,
) -> (text: Option<String>)
    ensures
        match text {
            Some(t) => ensemble_commands_text(
                site_name@,
                description@,
                station_num,
                *meta,
                runs@,
                draw@,
            ) == Some(t@),
            None => ensemble_commands_text(
                site_name@,
                description@,
                station_num,
                *meta,
                runs@,
                draw@,
            ) is None,
        },
{
    let mut text = match plot_settings(site_name, station_num, meta, Plot::Ensemble) {
        Some(settings) => settings,
        None => { return None; },
    };
    let data = match write_ensemble_data(description, meta, runs) {
        Some(data) => data,
        None => { return None; },
    };
    let ghost settings = text@;
    text.append("$data << EOD\n");
    text.append(data.as_str());
    text.append("EOD\n");
    text.append(draw);
    proof {
        assert(text@ =~= settings + data_block(data@) + draw@);
    }
    Some(text)
}

/// All that the plotting script is fed for the plot of a merged series: the
/// variables, the data, the climate data, and the commands that draw.
pub open spec fn merged_commands_text(
    description: Seq<char>,
    station_num: u32,
    meta: MetaData,
    rows: Seq<DataRow>,
    deciles: Option<Vec<(i64, Vec<String>)>>,
    draw: Seq<char>,
) -> Option<Seq<char>> {
    match (
        settings_text(description, station_num, meta, Plot::Merged),
        merged_text(description, meta, rows),
        climo_text(description, meta, deciles),
    ) {
        (Some(settings), Some(data), Some(climo)) => Some(
            settings + data_block(data) + climo_block(climo) + draw,
        ),
        _ => None,
    }
}

/// What to feed the plotting script for the plot of a merged series, with
/// the climate data where there is any. `draw` holds the commands that draw
/// the plot. `None` where one of the times cannot be shown.
pub fn merged_plot_commands(
    description: &str,
    station_num: u32,
    meta: &MetaData,
    rows: &Vec<DataRow>,
    deciles: &Option<Vec<(i64, Vec<String>)>>,
    draw: &str,
) -> (text: Option<String>)
    ensures
        match text {
            Some(t) => merged_commands_text(description@, station_num, *meta, rows@, *deciles, draw@)
                == Some(t@),
            None => merged_commands_text(description@, station_num, *meta, rows@, *deciles, draw@)
                is None,
        },
{
    let mut text = match plot_settings(description, station_num, meta, Plot::Merged) {
        Some(settings) => settings,
        None => { return None; },
    };
    let data = match write_merged_data(description, meta, rows) {
        Some(data) => data,
        None => { return None; },
    };
    let climo = match write_climo(description, meta, deciles) {
        Some(climo) => climo,
        None => { return None; },
    };
    let ghost settings = text@;
    text.append("$data << EOD\n");
    text.append(data.as_str());
    text.append("EOD\n");
    text.append("$hdw_climo << EOD\n");
    text.append(climo.as_str());
    text.append("EOD\n");
    text.append(draw);
    proof {
        assert(text@ =~= settings + data_block(data@) + climo_block(climo@) + draw@);
    }
    Some(text)
}

} // verus!
