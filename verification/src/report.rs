//! The latency report: one line of text per round, as comma-separated values.

use crate::test_execution::LatencySample;
use vstd::prelude::*;
use vstd::string::StringSliceAdditionalSpecFns;
use vstd::utf8::{is_ascii_chars, is_ascii_chars_encode_utf8};

verus! {

/// A `csv::Writer` with the default configuration that writes into a `Vec` of bytes.
#[verifier::external_body]
pub struct CsvText {
    writer: csv::Writer<Vec<u8>>,
}

/// Everything written through a writer so far, whether it still buffers it or not.
pub uninterp spec fn csv_written(text: CsvText) -> Seq<u8>;

/// The number of fields of the first record written, which every later record must have too.
pub uninterp spec fn csv_width(text: CsvText) -> Option<nat>;

/// The byte that separates two fields.
pub const COMMA: u8 = 44;

/// The byte that ends a record.
pub const NEWLINE: u8 = 10;

/// A field that is written as it stands: it holds no comma, quote, carriage return or line
/// feed.
pub open spec fn plain(field: Seq<u8>) -> bool {
    forall|i: int|
        0 <= i < field.len() ==> {
            let b = #[trigger] field[i];
            b != 44 && b != 34 && b != 13 && b != 10
        }
}

/// A record of two plain fields as a line of text.
pub open spec fn line(first: Seq<u8>, second: Seq<u8>) -> Seq<u8> {
    first.push(COMMA) + second.push(NEWLINE)
}

/// `csv::Writer::from_writer` on an empty `Vec`: a writer with the default configuration that
/// has written nothing and is not yet held to a number of fields.
#[verifier::external_body]
pub(crate) fn csv_open() -> (text: CsvText)
    ensures
        csv_written(text) == Seq::<u8>::empty(),
        csv_width(text) is None,
{
    CsvText { writer: csv::Writer::from_writer(Vec::new()) }
}

/// Whether a writer takes a record of two fields: it does at the start, and after records of
/// two fields.
pub open spec fn takes_pairs(text: CsvText) -> bool {
    csv_width(text) is None || csv_width(text) == Some(2nat)
}

/// `csv::Writer::write_record` with two fields, on a writer that takes such records: the
/// record is accepted and the writer still takes such records. Where both fields are plain, the
/// first field, a comma, the second field and a line feed are added to what is written.
#[verifier::external_body]
pub(crate) fn csv_put(text: &mut CsvText, first: &[u8], second: &[u8]) -> (accepted: bool)
    ensures
        takes_pairs(*old(text)) ==> accepted && csv_width(*final(text)) == Some(2nat),
        takes_pairs(*old(text)) && plain(first@) && plain(second@) ==> csv_written(*final(text))
            == csv_written(*old(text)) + line(first@, second@),
{
    text.writer.write_record([first, second]).is_ok()
}

/// `csv::Writer::into_inner`: the `Vec` written to, holding everything written. Writing to a
/// `Vec` does not fail.
#[verifier::external_body]
pub(crate) fn csv_close(text: CsvText) -> (bytes: Option<Vec<u8>>)
    ensures
        bytes is Some,
        bytes->Some_0@ == csv_written(text),
{
    text.writer.into_inner().ok()
}

/// The decimal digits of `n`, most significant first, as ASCII.
pub open spec fn decimal(n: nat) -> Seq<u8>
    decreases n,
{
    if n < 10 {
        seq![(48 + n) as u8]
    } else {
        decimal(n / 10).push((48 + n % 10) as u8)
    }
}

/// Decimal digits are plain.
pub proof fn lemma_decimal_plain(n: nat)
    ensures
        plain(decimal(n)),
        decimal(n).len() >= 1,
    decreases n,
{
    if n >= 10 {
        lemma_decimal_plain(n / 10);
    }
}

/// Appends the decimal digits of `n` to `out`.
pub fn push_decimal(n: u128, out: &mut Vec<u8>)
    ensures
        final(out)@ == old(out)@ + decimal(n as nat),
    decreases n,
{
    if n >= 10 {
        push_decimal(n / 10, out);
    }
    out.push(48 + (n % 10) as u8);
}

/// The bytes of a text of ASCII characters.
pub open spec fn ascii(text: Seq<char>) -> Seq<u8> {
    Seq::new(text.len(), |i: int| text[i] as u8)
}

/// The first line of a report.
pub open spec fn header() -> Seq<u8> {
    line(ascii("index"@), ascii("elapsed time"@))
}

/// The line of one sample: its round and its nanoseconds, in decimal.
pub open spec fn row(sample: LatencySample) -> Seq<u8> {
    line(decimal(sample.index as nat), decimal(sample.elapsed_ns as nat))
}

/// The lines of `samples`, in their order.
pub open spec fn rows(samples: Seq<LatencySample>) -> Seq<u8>
    decreases samples.len(),
{
    if samples.len() == 0 {
        Seq::empty()
    } else {
        rows(samples.drop_last()) + row(samples.last())
    }
}

/// A report: the header, then one line per sample.
pub open spec fn report_text(samples: Seq<LatencySample>) -> Seq<u8> {
    header() + rows(samples)
}

/// The bytes of an ASCII string are its characters.
proof fn lemma_ascii_bytes(text: &str)
    requires
        is_ascii_chars(text@),
    ensures
        text.spec_bytes() == ascii(text@),
{
    is_ascii_chars_encode_utf8(text@);
}

/// Writes the report of `samples`: the header `index,elapsed time`, then for each sample its
/// round and its nanoseconds.
pub fn reporting_csv(samples: &[LatencySample]) -> (csv: Vec<u8>)
    ensures
        csv@ == report_text(samples@),
{
    let mut text = csv_open();
    let first = "index";
    let second = "elapsed time";
    proof {
        reveal_strlit("index");
        reveal_strlit("elapsed time");
        lemma_ascii_bytes(first);
        lemma_ascii_bytes(second);
    }
    let accepted = csv_put(&mut text, first.as_bytes(), second.as_bytes());
    assert(accepted);
    let mut i: usize = 0;
    while i < samples.len()
        invariant
            i <= samples@.len(),
            csv_width(text) == Some(2nat),
            csv_written(text) == header() + rows(samples@.take(i as int)),
        decreases samples@.len() - i,
    {
        let sample = samples[i];
        let mut round: Vec<u8> = Vec::new();
        push_decimal(sample.index as u128, &mut round);
        let mut nanos: Vec<u8> = Vec::new();
        push_decimal(sample.elapsed_ns, &mut nanos);
        proof {
            lemma_decimal_plain(sample.index as nat);
            lemma_decimal_plain(sample.elapsed_ns as nat);
        }
        let accepted = csv_put(&mut text, round.as_slice(), nanos.as_slice());
        assert(accepted);
        assert(samples@.take(i + 1).drop_last() =~= samples@.take(i as int));
        i += 1;
    }
    assert(samples@.take(i as int) =~= samples@);
    csv_close(text).unwrap()
}

} // verus!
