//! Samples as JSON text: one object for a published sample, one array of
//! such objects for an exported snapshot.
//!
//! An object has the members `ping`, the latency as a number, and `time`,
//! the instant as a string of RFC 3339 text, in that order and without white
//! space.

use crate::buffer::samples;
use crate::decimal::{decimal_text, push_decimal};
use crate::entry::{PingEntry, Sample};
use crate::timestamp::rfc3339_text;
use vstd::prelude::*;
use vstd::string::*;

verus! {

/// The JSON string literal that serde_json writes for `text`: the text in
/// double quotes, with the characters escaped that JSON wants escaped.
pub uninterp spec fn json_string_text(text: Seq<char>) -> Seq<char>;

/// Writes text as a JSON string literal.
///
/// Calls serde_json's `to_string` on a `str`, which cannot fail for a string.
/// The contract names the result and claims nothing else of it.
#[verifier::external_body]
fn json_string(text: &str) -> (json: String)
    ensures
        json@ == json_string_text(text@),
{
    serde_json::to_string(text).unwrap()
}

/// The JSON object of one sample.
pub open spec fn entry_json_text(sample: Sample) -> Seq<char> {
    "{\"ping\":"@ + decimal_text(sample.ping as nat) + ",\"time\":"@ + json_string_text(
        rfc3339_text(sample.time.secs, sample.time.nanos),
    ) + "}"@
}

/// The JSON objects of `items`, in order, with a comma between each two.
pub open spec fn items_json_text(items: Seq<Sample>) -> Seq<char>
    decreases items.len(),
{
    if items.len() == 0 {
        Seq::empty()
    } else if items.len() == 1 {
        entry_json_text(items[0])
    } else {
        items_json_text(items.drop_last()) + ","@ + entry_json_text(items.last())
    }
}

/// The JSON array of `items`, in order.
pub open spec fn array_json_text(items: Seq<Sample>) -> Seq<char> {
    "["@ + items_json_text(items) + "]"@
}

/// Appends the JSON object of `entry` to `out`.
pub fn push_entry_json(out: &mut String, entry: &PingEntry)
    ensures
        final(out)@ == old(out)@ + entry_json_text(entry@),
{
    let time = entry.time().to_rfc3339();
    let quoted = json_string(time.as_str());
    out.append("{\"ping\":");
    push_decimal(out, entry.ping());
    out.append(",\"time\":");
    out.append(quoted.as_str());
    out.append("}");
    assert(out@ =~= old(out)@ + entry_json_text(entry@));
}

/// The JSON object of `entry`, as it is published.
pub fn entry_json(entry: &PingEntry) -> (json: String)
    ensures
        json@ == entry_json_text(entry@),
{
    let mut json = String::new();
    push_entry_json(&mut json, entry);
    assert(json@ =~= entry_json_text(entry@));
    json
}

/// The JSON array of `entries`, in their order.
pub fn array_json(entries: &Vec<PingEntry>) -> (json: String)
    ensures
        json@ == array_json_text(samples(entries@)),
{
    let ghost items = samples(entries@);
    let mut json = String::from_str("[");
    let mut i: usize = 0;
    while i < entries.len()
        invariant
            i <= entries.len(),
            items == samples(entries@),
            json@ == "["@ + items_json_text(items.take(i as int)),
        decreases entries.len() - i,
    {
        if i > 0 {
            json.append(",");
        }
        push_entry_json(&mut json, &entries[i]);
        proof {
            let done = items.take(i + 1);
            assert(done.drop_last() =~= items.take(i as int));
            assert(done.last() == entries@[i as int]@);
            if i == 0 {
                assert(items.take(0) =~= Seq::<Sample>::empty());
            }
            assert(json@ =~= "["@ + items_json_text(done));
        }
        i = i + 1;
    }
    json.append("]");
    proof {
        assert(items.take(i as int) =~= items);
        assert(items.take(0) =~= Seq::<Sample>::empty());
    }
    json
}

} // verus!
