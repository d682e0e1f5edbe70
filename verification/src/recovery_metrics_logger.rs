//! The metrics sink: one line of comma-separated numbers for every report
//! of recovery metrics, under a fixed header line.
//!
//! The sink is a byte buffer that the logger owns. Whoever owns the file
//! takes the buffered bytes with [`RecoveryMetricsLogger::flush`] and writes
//! them out.

use vstd::prelude::*;
use vstd::string::StringSliceAdditionalSpecFns;

verus! {

/// The header line, with its line feed.
pub const HEADER_ROW: &'static str =
    "time,conn_id,min_rtt,smoothed_rtt,latest_rtt,rtt_variance,max_ack_delay,pto_count,congestion_window,bytes_in_flight\n";

/// The byte that separates the fields of a row.
pub const COMMA: u8 = 44;

/// The byte that ends a row.
pub const LINE_FEED: u8 = 10;

/// One report of recovery metrics. Durations are in nanoseconds.
#[derive(Clone, Copy, Debug, PartialEq, Eq)]
pub struct RecoverySample {
    /// Wall-clock time of the report, in nanoseconds since the Unix epoch.
    pub timestamp_nanos: u64,
    pub connection_id: u64,
    pub min_rtt: u128,
    pub smoothed_rtt: u128,
    pub latest_rtt: u128,
    pub rtt_variance: u128,
    pub max_ack_delay: u128,
    pub pto_count: u32,
    pub congestion_window: u32,
    pub bytes_in_flight: u32,
}

/// The per-connection token that the transport hands back with every report.
/// It carries nothing.
#[derive(Clone, Copy, Debug, PartialEq, Eq, Structural)]
pub struct IPAConnectionContext {}

/// The decimal digits of a number as ASCII bytes, most significant first,
/// without leading zeros.
pub open spec fn decimal(value: nat) -> Seq<u8>
    decreases value,
{
    if value < 10 {
        seq![(48 + value) as u8]
    } else {
        decimal(value / 10).push((48 + value % 10) as u8)
    }
}

/// The header line as bytes.
pub open spec fn header_row() -> Seq<u8> {
    HEADER_ROW.spec_bytes()
}

/// Fields joined by commas.
pub open spec fn joined(fields: Seq<Seq<u8>>) -> Seq<u8>
    decreases fields.len(),
{
    if fields.len() == 0 {
        Seq::<u8>::empty()
    } else if fields.len() == 1 {
        fields[0]
    } else {
        joined(fields.drop_last()) + seq![COMMA] + fields.last()
    }
}

/// The line that holds the given fields: the fields joined by commas, and a
/// line feed.
pub open spec fn row_of(fields: Seq<Seq<u8>>) -> Seq<u8> {
    joined(fields) + seq![LINE_FEED]
}

/// The ten numbers of a sample in the order of the header's columns.
pub open spec fn sample_values(sample: RecoverySample) -> Seq<nat> {
    seq![
        sample.timestamp_nanos as nat,
        sample.connection_id as nat,
        sample.min_rtt as nat,
        sample.smoothed_rtt as nat,
        sample.latest_rtt as nat,
        sample.rtt_variance as nat,
        sample.max_ack_delay as nat,
        sample.pto_count as nat,
        sample.congestion_window as nat,
        sample.bytes_in_flight as nat,
    ]
}

/// The line that reports a sample: the decimal digits of its ten numbers in
/// the order of the header's columns.
pub open spec fn data_row(sample: RecoverySample) -> Seq<u8> {
    row_of(sample_values(sample).map_values(|value: nat| decimal(value)))
}

/// Appends the decimal digits of `value`.
pub fn push_decimal(out: &mut Vec<u8>, value: u128)
    ensures
        final(out)@ == old(out)@ + decimal(value as nat),
    decreases value,
{
    if value >= 10 {
        push_decimal(out, value / 10);
    }
    let digit: u8 = (value % 10) as u8;
    out.push(48 + digit);
}

/// Joining one field more appends a comma and that field.
pub proof fn lemma_joined_next(fields: Seq<Seq<u8>>, count: int)
    requires
        1 <= count < fields.len(),
    ensures
        joined(fields.take(count + 1)) == joined(fields.take(count)) + seq![COMMA] + fields[count],
{
    assert(fields.take(count + 1).drop_last() =~= fields.take(count));
}

/// Appends a comma and the decimal digits of `value`, which is field number
/// `count` of the line that `out` holds behind `before`.
fn push_next_field(
    out: &mut Vec<u8>,
    value: u128,
    Ghost(before): Ghost<Seq<u8>>,
    Ghost(fields): Ghost<Seq<Seq<u8>>>,
    Ghost(count): Ghost<int>,
)
    requires
        1 <= count < fields.len(),
        fields[count] == decimal(value as nat),
        old(out)@ == before + joined(fields.take(count)),
    ensures
        final(out)@ == before + joined(fields.take(count + 1)),
{
    out.push(COMMA);
    push_decimal(out, value);
    proof {
        lemma_joined_next(fields, count);
        assert(out@ =~= before + joined(fields.take(count + 1)));
    }
}

/// Writes recovery metrics to a byte sink as comma-separated lines.
pub struct RecoveryMetricsLogger {
    logfile_writer: Vec<u8>,
}

impl View for RecoveryMetricsLogger {
    type V = Seq<u8>;

    /// The bytes in the sink.
    closed spec fn view(&self) -> Seq<u8> {
        self.logfile_writer@
    }
}

impl RecoveryMetricsLogger {
    /// Takes the sink and writes the header line to it.
    pub fn new(logfile_writer: Vec<u8>) -> (logger: RecoveryMetricsLogger)
        ensures
            logger@ == logfile_writer@ + header_row(),
    {
        let mut logfile_writer = logfile_writer;
        let ghost before = logfile_writer@;
        logfile_writer.extend_from_slice(HEADER_ROW.as_bytes());
        assert(logfile_writer@ =~= before + header_row());
        RecoveryMetricsLogger { logfile_writer }
    }

    /// Makes the token for a new connection. The sink is not touched.
    pub fn create_connection_context(&mut self) -> (context: IPAConnectionContext)
        ensures
            final(self)@ == old(self)@,
    {
        IPAConnectionContext {  }
    }

    /// Appends the line for one report.
    pub fn on_recovery_metrics(
        &mut self,
        context: &mut IPAConnectionContext,
        sample: &RecoverySample,
    )
        ensures
            final(self)@ == old(self)@ + data_row(*sample),
            *final(context) == *old(context),
    {
        let ghost before = self.logfile_writer@;
        let ghost fields = sample_values(*sample).map_values(|value: nat| decimal(value));
        let out = &mut self.logfile_writer;
        push_decimal(out, sample.timestamp_nanos as u128);
        proof {
            assert(fields.take(1).len() == 1);
            assert(joined(fields.take(1)) == fields[0]);
        }
        push_next_field(out, sample.connection_id as u128, Ghost(before), Ghost(fields), Ghost(1));
        push_next_field(out, sample.min_rtt, Ghost(before), Ghost(fields), Ghost(2));
        push_next_field(out, sample.smoothed_rtt, Ghost(before), Ghost(fields), Ghost(3));
        push_next_field(out, sample.latest_rtt, Ghost(before), Ghost(fields), Ghost(4));
        push_next_field(out, sample.rtt_variance, Ghost(before), Ghost(fields), Ghost(5));
        push_next_field(out, sample.max_ack_delay, Ghost(before), Ghost(fields), Ghost(6));
        push_next_field(out, sample.pto_count as u128, Ghost(before), Ghost(fields), Ghost(7));
        push_next_field(out, sample.congestion_window as u128, Ghost(before), Ghost(fields), Ghost(8));
        push_next_field(out, sample.bytes_in_flight as u128, Ghost(before), Ghost(fields), Ghost(9));
        out.push(LINE_FEED);
        proof {
            assert(fields.take(10) =~= fields);
            assert(self.logfile_writer@ =~= before + data_row(*sample));
        }
    }

    /// Hands over every byte in the sink and leaves the sink empty.
    pub fn flush(&mut self) -> (written: Vec<u8>)
        ensures
            written@ == old(self)@,
            final(self)@ == Seq::<u8>::empty(),
    {
        let mut written: Vec<u8> = Vec::new();
        core::mem::swap(&mut written, &mut self.logfile_writer);
        written
    }
}

/// Everything a logger has written to an empty sink after the given reports:
/// the header line, then one line for each report, in order.
pub open spec fn log_of(samples: Seq<RecoverySample>) -> Seq<u8>
    decreases samples.len(),
{
    if samples.len() == 0 {
        header_row()
    } else {
        log_of(samples.drop_last()) + data_row(samples.last())
    }
}

/// The bytes of a text that holds ASCII characters only.
pub open spec fn ascii(text: Seq<char>) -> Seq<u8> {
    Seq::new(text.len(), |i: int| text[i] as u8)
}

/// The names of the columns, in order.
pub open spec fn column_names() -> Seq<Seq<u8>> {
    seq![
        ascii("time"@),
        ascii("conn_id"@),
        ascii("min_rtt"@),
        ascii("smoothed_rtt"@),
        ascii("latest_rtt"@),
        ascii("rtt_variance"@),
        ascii("max_ack_delay"@),
        ascii("pto_count"@),
        ascii("congestion_window"@),
        ascii("bytes_in_flight"@),
    ]
}

/// Number of times a byte occurs.
pub open spec fn occurrences(bytes: Seq<u8>, byte: u8) -> nat
    decreases bytes.len(),
{
    if bytes.len() == 0 {
        0
    } else {
        occurrences(bytes.drop_last(), byte) + if bytes.last() == byte {
            1nat
        } else {
            0nat
        }
    }
}

/// The fields of a line without its line feed: the runs of bytes between
/// its commas.
pub open spec fn fields_of(line: Seq<u8>) -> Seq<Seq<u8>>
    decreases line.len(),
{
    if line.len() == 0 {
        seq![Seq::<u8>::empty()]
    } else {
        let before = fields_of(line.drop_last());
        if line.last() == COMMA {
            before.push(Seq::<u8>::empty())
        } else {
            before.update(before.len() - 1, before.last().push(line.last()))
        }
    }
}

/// Whether no byte of a field is a comma or a line feed.
pub open spec fn is_plain(field: Seq<u8>) -> bool {
    forall|i: int| 0 <= i < field.len() ==> #[trigger] field[i] != COMMA && field[i] != LINE_FEED
}

/// The decimal digits of a number are digits: at least one, and no byte
/// among them that is not between `0` and `9`.
pub proof fn lemma_decimal_is_digits(value: nat)
    ensures
        decimal(value).len() >= 1,
        forall|i: int| 0 <= i < decimal(value).len() ==> 48 <= #[trigger] decimal(value)[i] <= 57,
        is_plain(decimal(value)),
    decreases value,
{
    if value >= 10 {
        lemma_decimal_is_digits(value / 10);
    }
}

/// A single byte holds itself once and no other byte.
pub proof fn lemma_occurrences_in_one(only: u8, byte: u8)
    ensures
        occurrences(seq![only], byte) == (if only == byte {
            1nat
        } else {
            0nat
        }),
{
    assert(seq![only].drop_last() =~= Seq::<u8>::empty());
    assert(occurrences(Seq::<u8>::empty(), byte) == 0);
}

/// Occurrences add up over concatenation.
pub proof fn lemma_occurrences_concat(front: Seq<u8>, back: Seq<u8>, byte: u8)
    ensures
        occurrences(front + back, byte) == occurrences(front, byte) + occurrences(back, byte),
    decreases back.len(),
{
    if back.len() == 0 {
        assert(front + back =~= front);
    } else {
        lemma_occurrences_concat(front, back.drop_last(), byte);
        assert((front + back).drop_last() =~= front + back.drop_last());
    }
}

/// A plain field holds neither comma nor line feed.
pub proof fn lemma_plain_has_no_separator(field: Seq<u8>)
    requires
        is_plain(field),
    ensures
        occurrences(field, COMMA) == 0,
        occurrences(field, LINE_FEED) == 0,
    decreases field.len(),
{
    if field.len() > 0 {
        assert(field[field.len() - 1] != COMMA);
        lemma_plain_has_no_separator(field.drop_last());
    }
}

/// Appending plain bytes to a line extends its last field.
pub proof fn lemma_fields_of_extended(line: Seq<u8>, more: Seq<u8>)
    requires
        is_plain(more),
    ensures
        fields_of(line).len() >= 1,
        fields_of(line + more) == fields_of(line).update(
            fields_of(line).len() - 1,
            fields_of(line).last() + more,
        ),
    decreases more.len(),
{
    lemma_fields_of_nonempty(line);
    let fields = fields_of(line);
    if more.len() == 0 {
        assert(line + more =~= line);
        assert(fields.last() + more =~= fields.last());
        assert(fields.update(fields.len() - 1, fields.last()) =~= fields);
    } else {
        let shorter = more.drop_last();
        lemma_fields_of_extended(line, shorter);
        assert((line + more).drop_last() =~= line + shorter);
        assert(more[more.len() - 1] != COMMA);
        assert((fields.last() + shorter).push(more.last()) =~= fields.last() + more);
        assert(fields.update(fields.len() - 1, fields.last() + shorter).update(
            fields.len() - 1,
            fields.last() + more,
        ) =~= fields.update(fields.len() - 1, fields.last() + more));
    }
}

/// Every line has at least one field.
pub proof fn lemma_fields_of_nonempty(line: Seq<u8>)
    ensures
        fields_of(line).len() >= 1,
    decreases line.len(),
{
    if line.len() > 0 {
        lemma_fields_of_nonempty(line.drop_last());
    }
}

/// Appending a comma and a plain field to a line appends that field to the
/// line's fields.
pub proof fn lemma_fields_of_appended(line: Seq<u8>, field: Seq<u8>)
    requires
        is_plain(field),
    ensures
        fields_of(line + seq![COMMA] + field) == fields_of(line).push(field),
{
    let opened = line + seq![COMMA];
    assert(opened.drop_last() =~= line);
    assert(fields_of(opened) == fields_of(line).push(Seq::<u8>::empty()));
    lemma_fields_of_extended(opened, field);
    assert(Seq::<u8>::empty() + field =~= field);
    assert(fields_of(line).push(Seq::<u8>::empty()).update(fields_of(line).len() as int, field)
        =~= fields_of(line).push(field));
}

/// A plain field on its own is the one field of its line.
pub proof fn lemma_fields_of_single(field: Seq<u8>)
    requires
        is_plain(field),
    ensures
        fields_of(field) == seq![field],
{
    lemma_fields_of_extended(Seq::<u8>::empty(), field);
    assert(Seq::<u8>::empty() + field =~= field);
    assert(seq![Seq::<u8>::empty()].update(0, field) =~= seq![field]);
}

/// Appending a comma and a plain field to a line adds one comma and no line
/// feed.
pub proof fn lemma_separators_of_appended(line: Seq<u8>, field: Seq<u8>)
    requires
        is_plain(field),
    ensures
        occurrences(line + seq![COMMA] + field, COMMA) == occurrences(line, COMMA) + 1,
        occurrences(line + seq![COMMA] + field, LINE_FEED) == occurrences(line, LINE_FEED),
{
    let comma = seq![COMMA];
    lemma_occurrences_concat(line + comma, field, COMMA);
    lemma_occurrences_concat(line + comma, field, LINE_FEED);
    lemma_occurrences_concat(line, comma, COMMA);
    lemma_occurrences_concat(line, comma, LINE_FEED);
    lemma_plain_has_no_separator(field);
    lemma_occurrences_in_one(COMMA, COMMA);
    lemma_occurrences_in_one(COMMA, LINE_FEED);
}

/// Plain fields that are joined by commas can be told apart again: the
/// joined bytes have exactly those fields, one comma between any two of
/// them, and no line feed.
pub proof fn lemma_joined_shape(fields: Seq<Seq<u8>>)
    requires
        fields.len() >= 1,
        forall|i: int| 0 <= i < fields.len() ==> is_plain(#[trigger] fields[i]),
    ensures
        fields_of(joined(fields)) == fields,
        occurrences(joined(fields), COMMA) == fields.len() - 1,
        occurrences(joined(fields), LINE_FEED) == 0,
    decreases fields.len(),
{
    if fields.len() == 1 {
        lemma_fields_of_single(fields[0]);
        lemma_plain_has_no_separator(fields[0]);
        assert(seq![fields[0]] =~= fields);
    } else {
        let front = fields.drop_last();
        assert forall|i: int| 0 <= i < front.len() implies is_plain(#[trigger] front[i]) by {
            assert(front[i] == fields[i]);
        }
        lemma_joined_shape(front);
        lemma_fields_of_appended(joined(front), fields.last());
        lemma_separators_of_appended(joined(front), fields.last());
        assert(front.push(fields.last()) =~= fields);
    }
}

/// A line of plain fields holds exactly those fields, in order, with one
/// comma fewer than fields, and its one line feed is its last byte.
pub proof fn lemma_row_shape(fields: Seq<Seq<u8>>)
    requires
        fields.len() >= 1,
        forall|i: int| 0 <= i < fields.len() ==> is_plain(#[trigger] fields[i]),
    ensures
        row_of(fields).len() >= 1,
        row_of(fields).last() == LINE_FEED,
        occurrences(row_of(fields), LINE_FEED) == 1,
        occurrences(row_of(fields), COMMA) == fields.len() - 1,
        fields_of(row_of(fields).drop_last()) == fields,
{
    lemma_joined_shape(fields);
    assert(row_of(fields).drop_last() =~= joined(fields));
    lemma_occurrences_concat(joined(fields), seq![LINE_FEED], COMMA);
    lemma_occurrences_concat(joined(fields), seq![LINE_FEED], LINE_FEED);
    lemma_occurrences_in_one(LINE_FEED, LINE_FEED);
    lemma_occurrences_in_one(LINE_FEED, COMMA);
}

/// A data line is made of exactly ten fields: the decimal digits of the
/// sample's numbers, in the order of the header's columns. It holds nine
/// commas, and its one line feed is its last byte.
pub proof fn lemma_data_row_shape(sample: RecoverySample)
    ensures
        data_row(sample).len() >= 1,
        data_row(sample).last() == LINE_FEED,
        occurrences(data_row(sample), LINE_FEED) == 1,
        occurrences(data_row(sample), COMMA) == 9,
        fields_of(data_row(sample).drop_last()).len() == 10,
        forall|column: int|
            0 <= column < 10 ==> #[trigger] fields_of(data_row(sample).drop_last())[column]
                == decimal(sample_values(sample)[column]),
{
    let fields = sample_values(sample).map_values(|value: nat| decimal(value));
    assert forall|i: int| 0 <= i < fields.len() implies is_plain(#[trigger] fields[i]) by {
        lemma_decimal_is_digits(sample_values(sample)[i]);
    }
    lemma_row_shape(fields);
}

/// The bytes of a text, a comma and a name are the bytes of the text, the
/// comma byte and the bytes of the name.
pub proof fn lemma_ascii_of_appended(text: Seq<char>, name: Seq<char>)
    ensures
        ascii(text + seq![','] + name) == ascii(text) + seq![COMMA] + ascii(name),
{
    assert(ascii(text + seq![','] + name) =~= ascii(text) + seq![COMMA] + ascii(name));
}

/// No column name holds a comma or a line feed.
proof fn lemma_column_names_are_plain()
    ensures
        column_names().len() == 10,
        forall|i: int| 0 <= i < column_names().len() ==> is_plain(#[trigger] column_names()[i]),
{
    assert(is_plain(column_names()[0])) by {
        reveal_strlit("time");
    }
    assert(is_plain(column_names()[1])) by {
        reveal_strlit("conn_id");
    }
    assert(is_plain(column_names()[2])) by {
        reveal_strlit("min_rtt");
    }
    assert(is_plain(column_names()[3])) by {
        reveal_strlit("smoothed_rtt");
    }
    assert(is_plain(column_names()[4])) by {
        reveal_strlit("latest_rtt");
    }
    assert(is_plain(column_names()[5])) by {
        reveal_strlit("rtt_variance");
    }
    assert(is_plain(column_names()[6])) by {
        reveal_strlit("max_ack_delay");
    }
    assert(is_plain(column_names()[7])) by {
        reveal_strlit("pto_count");
    }
    assert(is_plain(column_names()[8])) by {
        reveal_strlit("congestion_window");
    }
    assert(is_plain(column_names()[9])) by {
        reveal_strlit("bytes_in_flight");
    }
}

/// The first column name on its own is the header's first field.
proof fn lemma_header_through_time()
    ensures
        joined(column_names().take(1)) == ascii("time"@),
{
    assert(column_names().take(1).len() == 1);
    assert(column_names().take(1)[0] == ascii("time"@));
}

/// The header up to the column `conn_id` is the first two column names,
/// joined by commas.
proof fn lemma_header_through_conn_id()
    ensures
        joined(column_names().take(2)) == ascii(
            "time,conn_id"@,
        ),
{
    lemma_header_through_time();
    assert("time,conn_id"@
        == "time"@
        + seq![','] + "conn_id"@) by {
        reveal_strlit("time");
        reveal_strlit("conn_id");
        reveal_strlit("time,conn_id");
        assert("time,conn_id"@
            =~= "time"@
            + seq![','] + "conn_id"@);
    }
    lemma_ascii_of_appended(
        "time"@,
        "conn_id"@,
    );
    lemma_joined_next(column_names(), 1);
    assert(column_names()[1] == ascii("conn_id"@));
}

/// The header up to the column `min_rtt` is the first three column names,
/// joined by commas.
proof fn lemma_header_through_min_rtt()
    ensures
        joined(column_names().take(3)) == ascii(
            "time,conn_id,min_rtt"@,
        ),
{
    lemma_header_through_conn_id();
    assert("time,conn_id,min_rtt"@
        == "time,conn_id"@
        + seq![','] + "min_rtt"@) by {
        reveal_strlit("time,conn_id");
        reveal_strlit("min_rtt");
        reveal_strlit("time,conn_id,min_rtt");
        assert("time,conn_id,min_rtt"@
            =~= "time,conn_id"@
            + seq![','] + "min_rtt"@);
    }
    lemma_ascii_of_appended(
        "time,conn_id"@,
        "min_rtt"@,
    );
    lemma_joined_next(column_names(), 2);
    assert(column_names()[2] == ascii("min_rtt"@));
}

/// The header up to the column `smoothed_rtt` is the first four column names,
/// joined by commas.
proof fn lemma_header_through_smoothed_rtt()
    ensures
        joined(column_names().take(4)) == ascii(
            "time,conn_id,min_rtt,smoothed_rtt"@,
        ),
{
    lemma_header_through_min_rtt();
    assert("time,conn_id,min_rtt,smoothed_rtt"@
        == "time,conn_id,min_rtt"@
        + seq![','] + "smoothed_rtt"@) by {
        reveal_strlit("time,conn_id,min_rtt");
        reveal_strlit("smoothed_rtt");
        reveal_strlit("time,conn_id,min_rtt,smoothed_rtt");
        assert("time,conn_id,min_rtt,smoothed_rtt"@
            =~= "time,conn_id,min_rtt"@
            + seq![','] + "smoothed_rtt"@);
    }
    lemma_ascii_of_appended(
        "time,conn_id,min_rtt"@,
        "smoothed_rtt"@,
    );
    lemma_joined_next(column_names(), 3);
    assert(column_names()[3] == ascii("smoothed_rtt"@));
}

/// The header up to the column `latest_rtt` is the first five column names,
/// joined by commas.
proof fn lemma_header_through_latest_rtt()
    ensures
        joined(column_names().take(5)) == ascii(
            "time,conn_id,min_rtt,smoothed_rtt,latest_rtt"@,
        ),
{
    lemma_header_through_smoothed_rtt();
    assert("time,conn_id,min_rtt,smoothed_rtt,latest_rtt"@
        == "time,conn_id,min_rtt,smoothed_rtt"@
        + seq![','] + "latest_rtt"@) by {
        reveal_strlit("time,conn_id,min_rtt,smoothed_rtt");
        reveal_strlit("latest_rtt");
        reveal_strlit("time,conn_id,min_rtt,smoothed_rtt,latest_rtt");
        assert("time,conn_id,min_rtt,smoothed_rtt,latest_rtt"@
            =~= "time,conn_id,min_rtt,smoothed_rtt"@
            + seq![','] + "latest_rtt"@);
    }
    lemma_ascii_of_appended(
        "time,conn_id,min_rtt,smoothed_rtt"@,
        "latest_rtt"@,
    );
    lemma_joined_next(column_names(), 4);
    assert(column_names()[4] == ascii("latest_rtt"@));
}

/// The header up to the column `rtt_variance` is the first six column names,
/// joined by commas.
proof fn lemma_header_through_rtt_variance()
    ensures
        joined(column_names().take(6)) == ascii(
            "time,conn_id,min_rtt,smoothed_rtt,latest_rtt,rtt_variance"@,
        ),
{
    lemma_header_through_latest_rtt();
    assert("time,conn_id,min_rtt,smoothed_rtt,latest_rtt,rtt_variance"@
        == "time,conn_id,min_rtt,smoothed_rtt,latest_rtt"@
        + seq![','] + "rtt_variance"@) by {
        reveal_strlit("time,conn_id,min_rtt,smoothed_rtt,latest_rtt");
        reveal_strlit("rtt_variance");
        reveal_strlit("time,conn_id,min_rtt,smoothed_rtt,latest_rtt,rtt_variance");
        assert("time,conn_id,min_rtt,smoothed_rtt,latest_rtt,rtt_variance"@
            =~= "time,conn_id,min_rtt,smoothed_rtt,latest_rtt"@
            + seq![','] + "rtt_variance"@);
    }
    lemma_ascii_of_appended(
        "time,conn_id,min_rtt,smoothed_rtt,latest_rtt"@,
        "rtt_variance"@,
    );
    lemma_joined_next(column_names(), 5);
    assert(column_names()[5] == ascii("rtt_variance"@));
}

/// The header up to the column `max_ack_delay` is the first seven column names,
/// joined by commas.
proof fn lemma_header_through_max_ack_delay()
    ensures
        joined(column_names().take(7)) == ascii(
            "time,conn_id,min_rtt,smoothed_rtt,latest_rtt,rtt_variance,max_ack_delay"@,
        ),
{
    lemma_header_through_rtt_variance();
    assert("time,conn_id,min_rtt,smoothed_rtt,latest_rtt,rtt_variance,max_ack_delay"@
        == "time,conn_id,min_rtt,smoothed_rtt,latest_rtt,rtt_variance"@
        + seq![','] + "max_ack_delay"@) by {
        reveal_strlit("time,conn_id,min_rtt,smoothed_rtt,latest_rtt,rtt_variance");
        reveal_strlit("max_ack_delay");
        reveal_strlit("time,conn_id,min_rtt,smoothed_rtt,latest_rtt,rtt_variance,max_ack_delay");
        assert("time,conn_id,min_rtt,smoothed_rtt,latest_rtt,rtt_variance,max_ack_delay"@
            =~= "time,conn_id,min_rtt,smoothed_rtt,latest_rtt,rtt_variance"@
            + seq![','] + "max_ack_delay"@);
    }
    lemma_ascii_of_appended(
        "time,conn_id,min_rtt,smoothed_rtt,latest_rtt,rtt_variance"@,
        "max_ack_delay"@,
    );
    lemma_joined_next(column_names(), 6);
    assert(column_names()[6] == ascii("max_ack_delay"@));
}

/// The header up to the column `pto_count` is the first eight column names,
/// joined by commas.
proof fn lemma_header_through_pto_count()
    ensures
        joined(column_names().take(8)) == ascii(
            "time,conn_id,min_rtt,smoothed_rtt,latest_rtt,rtt_variance,max_ack_delay,pto_count"@,
        ),
{
    lemma_header_through_max_ack_delay();
    assert("time,conn_id,min_rtt,smoothed_rtt,latest_rtt,rtt_variance,max_ack_delay,pto_count"@
        == "time,conn_id,min_rtt,smoothed_rtt,latest_rtt,rtt_variance,max_ack_delay"@
        + seq![','] + "pto_count"@) by {
        reveal_strlit("time,conn_id,min_rtt,smoothed_rtt,latest_rtt,rtt_variance,max_ack_delay");
        reveal_strlit("pto_count");
        reveal_strlit(
            "time,conn_id,min_rtt,smoothed_rtt,latest_rtt,rtt_variance,max_ack_delay,pto_count",
        );
        assert("time,conn_id,min_rtt,smoothed_rtt,latest_rtt,rtt_variance,max_ack_delay,pto_count"@
            =~= "time,conn_id,min_rtt,smoothed_rtt,latest_rtt,rtt_variance,max_ack_delay"@
            + seq![','] + "pto_count"@);
    }
    lemma_ascii_of_appended(
        "time,conn_id,min_rtt,smoothed_rtt,latest_rtt,rtt_variance,max_ack_delay"@,
        "pto_count"@,
    );
    lemma_joined_next(column_names(), 7);
    assert(column_names()[7] == ascii("pto_count"@));
}

/// The header up to the column `congestion_window` is the first nine column names,
/// joined by commas.
proof fn lemma_header_through_congestion_window()
    ensures
        joined(column_names().take(9)) == ascii(
            "time,conn_id,min_rtt,smoothed_rtt,latest_rtt,rtt_variance,max_ack_delay,pto_count,congestion_window"@,
        ),
{
    lemma_header_through_pto_count();
    assert("time,conn_id,min_rtt,smoothed_rtt,latest_rtt,rtt_variance,max_ack_delay,pto_count,congestion_window"@
        == "time,conn_id,min_rtt,smoothed_rtt,latest_rtt,rtt_variance,max_ack_delay,pto_count"@
        + seq![','] + "congestion_window"@) by {
        reveal_strlit(
            "time,conn_id,min_rtt,smoothed_rtt,latest_rtt,rtt_variance,max_ack_delay,pto_count",
        );
        reveal_strlit("congestion_window");
        reveal_strlit(
            "time,conn_id,min_rtt,smoothed_rtt,latest_rtt,rtt_variance,max_ack_delay,pto_count,congestion_window",
        );
        assert("time,conn_id,min_rtt,smoothed_rtt,latest_rtt,rtt_variance,max_ack_delay,pto_count,congestion_window"@
            =~= "time,conn_id,min_rtt,smoothed_rtt,latest_rtt,rtt_variance,max_ack_delay,pto_count"@
            + seq![','] + "congestion_window"@);
    }
    lemma_ascii_of_appended(
        "time,conn_id,min_rtt,smoothed_rtt,latest_rtt,rtt_variance,max_ack_delay,pto_count"@,
        "congestion_window"@,
    );
    lemma_joined_next(column_names(), 8);
    assert(column_names()[8] == ascii("congestion_window"@));
}

/// The header up to the column `bytes_in_flight` is the first ten column names,
/// joined by commas.
proof fn lemma_header_through_bytes_in_flight()
    ensures
        joined(column_names().take(10)) == ascii(
            "time,conn_id,min_rtt,smoothed_rtt,latest_rtt,rtt_variance,max_ack_delay,pto_count,congestion_window,bytes_in_flight"@,
        ),
{
    lemma_header_through_congestion_window();
    assert("time,conn_id,min_rtt,smoothed_rtt,latest_rtt,rtt_variance,max_ack_delay,pto_count,congestion_window,bytes_in_flight"@
        == "time,conn_id,min_rtt,smoothed_rtt,latest_rtt,rtt_variance,max_ack_delay,pto_count,congestion_window"@
        + seq![','] + "bytes_in_flight"@) by {
        reveal_strlit(
            "time,conn_id,min_rtt,smoothed_rtt,latest_rtt,rtt_variance,max_ack_delay,pto_count,congestion_window",
        );
        reveal_strlit("bytes_in_flight");
        reveal_strlit(
            "time,conn_id,min_rtt,smoothed_rtt,latest_rtt,rtt_variance,max_ack_delay,pto_count,congestion_window,bytes_in_flight",
        );
        assert("time,conn_id,min_rtt,smoothed_rtt,latest_rtt,rtt_variance,max_ack_delay,pto_count,congestion_window,bytes_in_flight"@
            =~= "time,conn_id,min_rtt,smoothed_rtt,latest_rtt,rtt_variance,max_ack_delay,pto_count,congestion_window"@
            + seq![','] + "bytes_in_flight"@);
    }
    lemma_ascii_of_appended(
        "time,conn_id,min_rtt,smoothed_rtt,latest_rtt,rtt_variance,max_ack_delay,pto_count,congestion_window"@,
        "bytes_in_flight"@,
    );
    lemma_joined_next(column_names(), 9);
    assert(column_names()[9] == ascii("bytes_in_flight"@));
}

/// The header line is its ten column names joined by commas, and a line feed.
proof fn lemma_header_row_is_row_of_names()
    ensures
        header_row() == row_of(column_names()),
{
    lemma_header_through_bytes_in_flight();
    assert(column_names().take(10) =~= column_names());
    assert(HEADER_ROW@
        == "time,conn_id,min_rtt,smoothed_rtt,latest_rtt,rtt_variance,max_ack_delay,pto_count,congestion_window,bytes_in_flight"@
        + seq!['\n']) by {
        reveal_strlit(
            "time,conn_id,min_rtt,smoothed_rtt,latest_rtt,rtt_variance,max_ack_delay,pto_count,congestion_window,bytes_in_flight",
        );
        reveal_strlit(
            "time,conn_id,min_rtt,smoothed_rtt,latest_rtt,rtt_variance,max_ack_delay,pto_count,congestion_window,bytes_in_flight\n",
        );
        assert(HEADER_ROW@
            =~= "time,conn_id,min_rtt,smoothed_rtt,latest_rtt,rtt_variance,max_ack_delay,pto_count,congestion_window,bytes_in_flight"@
            + seq!['\n']);
    }
    assert(vstd::string::is_ascii(HEADER_ROW)) by {
        reveal_strlit(
            "time,conn_id,min_rtt,smoothed_rtt,latest_rtt,rtt_variance,max_ack_delay,pto_count,congestion_window,bytes_in_flight\n",
        );
    }
    vstd::string::is_ascii_spec_bytes(HEADER_ROW);
    assert(header_row() =~= ascii(HEADER_ROW@));
    assert(ascii(
        "time,conn_id,min_rtt,smoothed_rtt,latest_rtt,rtt_variance,max_ack_delay,pto_count,congestion_window,bytes_in_flight"@
        + seq!['\n'],
    ) =~= ascii(
        "time,conn_id,min_rtt,smoothed_rtt,latest_rtt,rtt_variance,max_ack_delay,pto_count,congestion_window,bytes_in_flight"@,
    ) + seq![LINE_FEED]);
}

/// The header line is made of exactly ten fields, the names of the columns.
/// It holds nine commas, and its one line feed is its last byte.
pub proof fn lemma_header_row_shape()
    ensures
        header_row() == row_of(column_names()),
        column_names().len() == 10,
        header_row().last() == LINE_FEED,
        occurrences(header_row(), LINE_FEED) == 1,
        occurrences(header_row(), COMMA) == 9,
        fields_of(header_row().drop_last()) == column_names(),
{
    lemma_header_row_is_row_of_names();
    lemma_column_names_are_plain();
    lemma_row_shape(column_names());
}

/// The log of any number of reports is the header line followed by exactly
/// one line for each report: it holds one line feed more than there were
/// reports, and ends with one.
pub proof fn lemma_log_shape(samples: Seq<RecoverySample>)
    ensures
        occurrences(log_of(samples), LINE_FEED) == 1 + samples.len(),
        log_of(samples).len() >= 1,
        log_of(samples).last() == LINE_FEED,
    decreases samples.len(),
{
    if samples.len() == 0 {
        lemma_header_row_shape();
    } else {
        lemma_log_shape(samples.drop_last());
        lemma_data_row_shape(samples.last());
        lemma_occurrences_concat(
            log_of(samples.drop_last()),
            data_row(samples.last()),
            LINE_FEED,
        );
    }
}

/// Reporting one more sample appends its line to the log.
pub proof fn lemma_log_grows_by_one_row(samples: Seq<RecoverySample>, sample: RecoverySample)
    ensures
        log_of(samples.push(sample)) == log_of(samples) + data_row(sample),
{
    assert(samples.push(sample).drop_last() =~= samples);
}

} // verus!
