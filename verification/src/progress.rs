//! What `rsync --progress` prints, and the progress that is read out of it.

use crate::text::{
    decode_lossy, drop_trailing, lossy_text, parse_u64, remove_all, split_whitespace,
    trim_end_matches, u64_value, without, words,
};
use vstd::prelude::*;

verus! {

/// The byte count and the percentage that a line of output begins with, as in
/// `1,234,567  42%  1.23MB/s  0:01:23`.
pub open spec fn progress_counts(line: Seq<char>) -> Option<(u64, u64)> {
    let parts = words(line);
    if parts.len() >= 2 {
        match (u64_value(without(parts[0], ',')), u64_value(drop_trailing(parts[1], '%'))) {
            (Some(bytes), Some(percent)) => Some((bytes, percent)),
            _ => None,
        }
    } else {
        None
    }
}

/// The bytes in all, where `bytes` are `percent` of them, rounded down, if a `u64` can hold them.
pub open spec fn scaled_total(bytes: u64, percent: u64) -> Option<u64>
    recommends
        percent > 0,
{
    let total = bytes * 100 / percent as int;
    if total <= u64::MAX {
        Some(total as u64)
    } else {
        None
    }
}

/// The progress that a line reports: the bytes transferred so far and the bytes in all. A line whose
/// bytes in all are beyond a `u64` reports none.
pub open spec fn rsync_progress(line: Seq<char>) -> Option<(u64, u64)> {
    match progress_counts(line) {
        Some((bytes, percent)) => if percent > 0 {
            match scaled_total(bytes, percent) {
                Some(total) => Some((bytes, total)),
                None => None,
            }
        } else if bytes > 0 {
            Some((0, bytes))
        } else {
            None
        },
        None => None,
    }
}

/// Reads the counts at the beginning of a line.
fn read_counts(line: &str) -> (counts: Option<(u64, u64)>)
    ensures
        counts == progress_counts(line@),
{
    let parts = split_whitespace(line);
    assert(parts.deep_view().len() == parts.len());
    if parts.len() < 2 {
        return None;
    }
    let bytes_text = remove_all(parts[0].as_str(), ',');
    let percent_text = trim_end_matches(parts[1].as_str(), '%');
    match (parse_u64(bytes_text.as_str()), parse_u64(percent_text.as_str())) {
        (Some(bytes), Some(percent)) => Some((bytes, percent)),
        _ => None,
    }
}

/// Computes the bytes in all from a count and a percentage.
fn scale_total(bytes: u64, percent: u64) -> (total: Option<u64>)
    requires
        percent > 0,
    ensures
        total == scaled_total(bytes, percent),
{
    let total: u128 = bytes as u128 * 100 / percent as u128;
    if total <= u64::MAX as u128 {
        Some(total as u64)
    } else {
        None
    }
}

/// Parses a line of `rsync --progress` output into the bytes transferred and the bytes in all.
pub fn parse_rsync_progress(line: &str) -> (progress: Option<(u64, u64)>)
    ensures
        progress == rsync_progress(line@),
{
    match read_counts(line) {
        Some((bytes, percent)) => {
            if percent > 0 {
                match scale_total(bytes, percent) {
                    Some(total) => Some((bytes, total)),
                    None => None,
                }
            } else if bytes > 0 {
                Some((0, bytes))
            } else {
                None
            }
        },
        None => None,
    }
}

/// Whether a byte ends a line: rsync redraws its progress with carriage returns.
pub open spec fn ends_line(byte: u8) -> bool {
    byte == 0x0d || byte == 0x0a
}

/// What is reported when a line is complete.
pub open spec fn line_report(line: Seq<u8>) -> Option<(u64, u64)> {
    if line.len() > 0 {
        rsync_progress(lossy_text(line))
    } else {
        None
    }
}

/// The unfinished line after one more byte of output.
pub open spec fn line_after(line: Seq<u8>, byte: u8) -> Seq<u8> {
    if ends_line(byte) {
        Seq::empty()
    } else {
        line.push(byte)
    }
}

/// What one more byte of output reports.
pub open spec fn byte_report(line: Seq<u8>, byte: u8) -> Option<(u64, u64)> {
    if ends_line(byte) {
        line_report(line)
    } else {
        None
    }
}

/// Reads the report of a complete line.
pub(crate) fn report_line(line: &Vec<u8>) -> (report: Option<(u64, u64)>)
    ensures
        report == line_report(line@),
{
    if line.len() == 0 {
        None
    } else {
        let text = decode_lossy(line.as_slice());
        parse_rsync_progress(text.as_str())
    }
}

/// Takes one more byte of output into the unfinished line, and reads the report of the line that
/// it completes.
pub(crate) fn take_byte(line: &mut Vec<u8>, byte: u8) -> (report: Option<(u64, u64)>)
    ensures
        final(line)@ == line_after(old(line)@, byte),
        report == byte_report(old(line)@, byte),
{
    if byte == 0x0d || byte == 0x0a {
        let report = report_line(line);
        line.clear();
        report
    } else {
        line.push(byte);
        None
    }
}

/// A line with a percentage reports the transferred count and the count scaled up by the percentage,
/// rounded down. So at most a hundred per cent never shows more bytes transferred than there are in
/// all. Nothing is reported only where the scaled count is beyond a `u64`, which it never is at a
/// hundred per cent or more.
pub proof fn law_total_is_the_scaled_count(line: Seq<char>, bytes: u64, percent: u64)
    requires
        progress_counts(line) == Some((bytes, percent)),
        percent > 0,
    ensures
        match rsync_progress(line) {
            Some((sent, total)) => {
                &&& sent == bytes
                &&& total * percent <= bytes * 100 < (total + 1) * percent
                &&& percent <= 100 ==> sent <= total
                &&& percent == 100 ==> sent == total
            },
            None => percent < 100 && bytes * 100 / percent as int > u64::MAX,
        },
{
    let q = bytes * 100 / percent as int;
    assert(q * percent <= bytes * 100 < (q + 1) * percent && 0 <= q <= bytes * 100)
        by (nonlinear_arith)
        requires
            q == (bytes * 100) / (percent as int),
            percent > 0,
    ;
    assert(percent <= 100 ==> bytes <= q) by (nonlinear_arith)
        requires
            bytes * 100 < (q + 1) * percent,
            percent > 0,
            q >= 0,
    ;
    assert(percent >= 100 ==> q <= bytes) by (nonlinear_arith)
        requires
            q * percent <= bytes * 100,
            percent > 0,
            q >= 0,
    ;
}

/// The lines of some output: the maximal runs of bytes that end no line. The last one may be
/// unfinished.
pub open spec fn output_lines(output: Seq<u8>) -> Seq<Seq<u8>>
    decreases output.len(),
{
    if output.len() == 0 {
        Seq::empty()
    } else if ends_line(output.last()) {
        output_lines(output.drop_last())
    } else if output.len() == 1 || ends_line(output[output.len() - 2]) {
        output_lines(output.drop_last()).push(seq![output.last()])
    } else {
        let before = output_lines(output.drop_last());
        before.drop_last().push(before.last().push(output.last()))
    }
}

/// What is reported of a sequence of lines, in order.
pub open spec fn reports_of(lines: Seq<Seq<u8>>) -> Seq<(u64, u64)>
    decreases lines.len(),
{
    if lines.len() == 0 {
        Seq::empty()
    } else {
        match rsync_progress(lossy_text(lines.last())) {
            Some(report) => reports_of(lines.drop_last()).push(report),
            None => reports_of(lines.drop_last()),
        }
    }
}

/// The unfinished line after some output, read byte by byte.
pub open spec fn pending_line(output: Seq<u8>) -> Seq<u8>
    decreases output.len(),
{
    if output.len() == 0 {
        Seq::empty()
    } else {
        line_after(pending_line(output.drop_last()), output.last())
    }
}

/// What has been reported of some output, read byte by byte.
pub open spec fn reported(output: Seq<u8>) -> Seq<(u64, u64)>
    decreases output.len(),
{
    if output.len() == 0 {
        Seq::empty()
    } else {
        let before = reported(output.drop_last());
        match byte_report(pending_line(output.drop_last()), output.last()) {
            Some(report) => before.push(report),
            None => before,
        }
    }
}

/// Reading output byte by byte, and then the line left unfinished at its end, reports exactly the
/// lines that show progress, in order: no line is lost, split or reported twice.
pub proof fn law_bytes_report_every_line(output: Seq<u8>)
    ensures
        reports_of(output_lines(output)) == (match line_report(pending_line(output)) {
            Some(report) => reported(output).push(report),
            None => reported(output),
        }),
    decreases output.len(),
{
    lemma_pending_line(output);
    if output.len() > 0 {
        let before = output.drop_last();
        law_bytes_report_every_line(before);
        lemma_pending_line(before);
        if !ends_line(output.last()) {
            let lines = output_lines(output);
            if pending_line(before).len() == 0 {
                assert(seq![output.last()] == pending_line(output));
                assert(lines.drop_last() == output_lines(before));
            } else {
                let done = reports_of(output_lines(before).drop_last());
                assert(done == reported(before)) by {
                    if let Some(report) = line_report(pending_line(before)) {
                        assert(done.push(report).drop_last() == done);
                        assert(reported(before).push(report).drop_last() == reported(before));
                    }
                }
                assert(lines.drop_last() == output_lines(before).drop_last());
            }
        }
    }
}

/// The unfinished line is the last line of output that does not end in a line end.
proof fn lemma_pending_line(output: Seq<u8>)
    ensures
        pending_line(output).len() > 0 <==> (output.len() > 0 && !ends_line(output.last())),
        pending_line(output).len() > 0 ==> output_lines(output).len() > 0 && output_lines(
            output,
        ).last() == pending_line(output),
    decreases output.len(),
{
    if output.len() > 0 {
        lemma_pending_line(output.drop_last());
        if !ends_line(output.last()) && (output.len() == 1 || ends_line(
            output[output.len() - 2],
        )) {
            assert(seq![output.last()] == pending_line(output));
        }
    }
}

} // verus!
