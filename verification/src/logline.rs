//! The lines of the log file.
//!
//! Every sample is one line: its instant as RFC 3339 text, a comma and a
//! space, its latency in decimal digits, and a line feed. Nothing is escaped:
//! the latency holds no comma, so the last comma of a line is the separator.

use crate::decimal::{
    decimal_text, decimal_u32, is_decimal, is_digit, lemma_decimal_round_trip, parse_decimal,
    push_decimal,
};
use crate::entry::{PingEntry, Sample};
use crate::timestamp::{parsed_instant, rfc3339_text, Timestamp};
use vstd::prelude::*;
use vstd::string::*;

verus! {

/// The line that carries the instant written as `time` and the latency
/// `ping`.
pub open spec fn line_text(time: Seq<char>, ping: u32) -> Seq<char> {
    time + seq![',', ' '] + decimal_text(ping as nat) + seq!['\n']
}

/// The line of `sample` in the log file.
pub open spec fn log_line_text(sample: Sample) -> Seq<char> {
    line_text(rfc3339_text(sample.time.secs, sample.time.nanos), sample.ping)
}

/// The position of the last comma of `text`, or -1 where it holds none.
pub open spec fn last_comma(text: Seq<char>) -> int
    decreases text.len(),
{
    if text.len() == 0 {
        -1
    } else if text.last() == ',' {
        text.len() - 1
    } else {
        last_comma(text.drop_last())
    }
}

/// A line without the line feed at its end, if it has one.
pub open spec fn line_body(line: Seq<char>) -> Seq<char> {
    if line.len() > 0 && line.last() == '\n' {
        line.drop_last()
    } else {
        line
    }
}

/// The two fields of a line: the text before its last comma, and the number
/// written after the space that follows that comma. `None` where the line
/// has no comma, where no space follows the last one, or where what follows
/// is not a `u32` in decimal digits.
pub open spec fn split_line(line: Seq<char>) -> Option<(Seq<char>, u32)> {
    let body = line_body(line);
    let comma = last_comma(body);
    if 0 <= comma && comma + 1 < body.len() && body[comma + 1] == ' ' {
        match decimal_u32(body.skip(comma + 2)) {
            Some(ping) => Some((body.take(comma), ping)),
            None => None,
        }
    } else {
        None
    }
}

/// The sample that a line of the log file carries: its two fields must be
/// there, and the first must be RFC 3339 text of an instant that an entry
/// can hold.
pub open spec fn parsed_line(line: Seq<char>) -> Option<Sample> {
    match split_line(line) {
        Some((text, ping)) => match parsed_instant(text) {
            Some(time) => Some(Sample { ping, time }),
            None => None,
        },
        None => None,
    }
}

/// The last comma of a text that ends in a comma followed by text without
/// commas is that comma.
proof fn lemma_last_comma(before: Seq<char>, after: Seq<char>)
    requires
        forall|i: int| 0 <= i < after.len() ==> after[i] != ',',
    ensures
        last_comma(before + seq![','] + after) == before.len(),
    decreases after.len(),
{
    let text = before + seq![','] + after;
    if after.len() == 0 {
        assert(text.last() == ',');
    } else {
        assert(text.last() == after.last());
        assert(text.drop_last() =~= before + seq![','] + after.drop_last());
        lemma_last_comma(before, after.drop_last());
    }
}

/// A line splits into the fields it was made of, whatever the text of its
/// first field is.
pub proof fn lemma_split_line_text(time: Seq<char>, ping: u32)
    ensures
        split_line(line_text(time, ping)) == Some((time, ping)),
{
    let digits = decimal_text(ping as nat);
    let line = line_text(time, ping);
    let body = time + seq![',', ' '] + digits;
    lemma_decimal_round_trip(ping as nat);
    assert(line.last() == '\n');
    assert(line_body(line) =~= body);
    let after = seq![' '] + digits;
    assert(body =~= time + seq![','] + after);
    assert forall|i: int| 0 <= i < after.len() implies after[i] != ',' by {
        if i > 0 {
            assert(is_digit(digits[i - 1]));
        }
    }
    lemma_last_comma(time, after);
    assert(body.skip(time.len() as int + 2) =~= digits);
    assert(body.take(time.len() as int) =~= time);
}

/// A line of the log file carries its sample back, provided the text of its
/// instant reads back as that instant.
pub proof fn lemma_log_line_round_trip(sample: Sample)
    requires
        parsed_instant(rfc3339_text(sample.time.secs, sample.time.nanos)) == Some(sample.time),
    ensures
        parsed_line(log_line_text(sample)) == Some(sample),
{
    lemma_split_line_text(rfc3339_text(sample.time.secs, sample.time.nanos), sample.ping);
}

/// The line of `entry` in the log file. Read back as a line, it gives the
/// sample of `entry` again, provided the year of its instant has four
/// digits.
pub fn format_line(entry: &PingEntry) -> (line: String)
    ensures
        line@ == log_line_text(entry@),
        entry@.time.four_digit_year() ==> parsed_line(line@) == Some(entry@),
{
    let mut line = entry.time().to_rfc3339();
    line.append(", ");
    push_decimal(&mut line, entry.ping());
    line.append("\n");
    proof {
        reveal_strlit(", ");
        reveal_strlit("\n");
        assert(", "@ =~= seq![',', ' ']);
        assert("\n"@ =~= seq!['\n']);
        assert(line@ =~= log_line_text(entry@));
        if entry@.time.four_digit_year() {
            lemma_log_line_round_trip(entry@);
        }
    }
    line
}

/// Reads one line of the log file, with or without the line feed at its
/// end, as the entry it carries.
pub fn parse_line(line: &str) -> (entry: Option<PingEntry>)
    ensures
        match parsed_line(line@) {
            Some(sample) => entry is Some && entry->0@ == sample,
            None => entry is None,
        },
{
    let len = line.unicode_len();
    let end = if len > 0 && line.get_char(len - 1) == '\n' {
        len - 1
    } else {
        len
    };
    let ghost body = line_body(line@);
    assert(body =~= line@.take(end as int));
    let mut after: usize = end;
    let mut found = false;
    assert(body.take(end as int) =~= body);
    while after > 0 && !found
        invariant
            after <= end <= len == line@.len(),
            body == line@.take(end as int),
            !found ==> last_comma(body) == last_comma(body.take(after as int)),
            found ==> after > 0 && last_comma(body) == after - 1,
        decreases after + if found { 0int } else { 1int },
    {
        proof {
            assert(body.take(after as int).drop_last() =~= body.take(after - 1));
        }
        if line.get_char(after - 1) == ',' {
            found = true;
        } else {
            after = after - 1;
        }
    }
    if !found {
        assert(body.take(0) =~= Seq::<char>::empty());
        return None;
    }
    if after >= end || line.get_char(after) != ' ' {
        return None;
    }
    let time = line.substring_char(0, after - 1);
    let digits = line.substring_char(after + 1, end);
    proof {
        assert(time@ =~= body.take(after - 1));
        assert(digits@ =~= body.skip(after + 1));
    }
    let ping = match parse_decimal(digits) {
        Some(ping) => ping,
        None => {
            return None;
        },
    };
    match Timestamp::parse_rfc3339(time) {
        Some(time) => Some(PingEntry::new(ping, time)),
        None => None,
    }
}

} // verus!
