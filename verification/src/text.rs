//! Building and scanning a structured-text payload.
//!
//! The payload is a list of small records, written by concatenation into a
//! buffer that is cleared and reused; the scan counts one delimiter.

use vstd::prelude::*;

verus! {

/// Number of times the text workload builds and scans its payload.
pub const TEXT_ROUNDS: u32 = 100;

/// Number of records in the text workload's payload.
pub const TEXT_RECORDS: u32 = 1000;

/// Room that the text workload asks for before its first round.
pub const TEXT_CAPACITY: usize = 50000;

/// The character for a digit below ten.
pub open spec fn digit_char(digit: nat) -> char
    recommends
        digit < 10,
{
    seq!['0', '1', '2', '3', '4', '5', '6', '7', '8', '9'][digit as int]
}

/// Decimal notation of `n`, without sign or leading zeros.
pub open spec fn decimal(n: nat) -> Seq<char>
    decreases n,
{
    if n < 10 {
        seq![digit_char(n)]
    } else {
        decimal(n / 10).push(digit_char(n % 10))
    }
}

/// The record with number `i`: a name and a value, both made of `i`.
pub open spec fn record(i: nat) -> Seq<char> {
    "{\"name\":\"Item"@ + decimal(i) + "\",\"value\":"@ + decimal(i) + "}"@
}

/// The first `count` records, separated by commas.
pub open spec fn record_list(count: nat) -> Seq<char>
    decreases count,
{
    if count == 0 {
        Seq::empty()
    } else if count == 1 {
        record(0)
    } else {
        record_list((count - 1) as nat) + seq![','] + record((count - 1) as nat)
    }
}

/// The payload of `count` records.
pub open spec fn payload(count: nat) -> Seq<char> {
    "{\"items\":["@ + record_list(count) + "]}"@
}

/// Number of places at which `wanted` stands in `text`.
pub open spec fn count_char(text: Seq<char>, wanted: char) -> nat
    decreases text.len(),
{
    if text.len() == 0 {
        0
    } else {
        count_char(text.drop_last(), wanted) + if text.last() == wanted {
            1nat
        } else {
            0nat
        }
    }
}

/// A text has at most as many characters as its UTF-8 encoding has bytes.
proof fn lemma_chars_within_bytes(chars: Seq<char>)
    ensures
        chars.len() <= vstd::utf8::encode_utf8(chars).len(),
    decreases chars.len(),
{
    if chars.len() > 0 {
        lemma_chars_within_bytes(chars.drop_first());
    }
}

/// Counting distributes over concatenation.
pub proof fn lemma_count_concat(left: Seq<char>, right: Seq<char>, wanted: char)
    ensures
        count_char(left + right, wanted) == count_char(left, wanted) + count_char(right, wanted),
    decreases right.len(),
{
    if right.len() == 0 {
        assert(left + right =~= left);
    } else {
        assert((left + right).drop_last() =~= left + right.drop_last());
        lemma_count_concat(left, right.drop_last(), wanted);
    }
}

/// Decimal notation holds digits only, so no other character occurs in it.
pub proof fn lemma_decimal_holds_digits(n: nat, wanted: char)
    requires
        !('0' <= wanted <= '9'),
    ensures
        count_char(decimal(n), wanted) == 0,
    decreases n,
{
    assert forall|digit: nat| digit < 10 implies '0' <= #[trigger] digit_char(digit) <= '9' by {
        let digits: Seq<char> = seq!['0', '1', '2', '3', '4', '5', '6', '7', '8', '9'];
        assert(forall|i: int| 0 <= i < 10 ==> '0' <= #[trigger] digits[i] <= '9');
    }
    if n < 10 {
        assert(decimal(n).drop_last() =~= Seq::<char>::empty());
        assert(count_char(Seq::<char>::empty(), wanted) == 0);
        assert(decimal(n).last() == digit_char(n));
    } else {
        lemma_decimal_holds_digits(n / 10, wanted);
        assert(decimal(n).drop_last() =~= decimal(n / 10));
        assert(decimal(n).last() == digit_char(n % 10));
    }
}

/// A text in which `wanted` stands nowhere counts none.
pub proof fn lemma_count_absent(text: Seq<char>, wanted: char)
    requires
        forall|i: int| 0 <= i < text.len() ==> text[i] != wanted,
    ensures
        count_char(text, wanted) == 0,
    decreases text.len(),
{
    if text.len() > 0 {
        lemma_count_absent(text.drop_last(), wanted);
    }
}

/// A text in which `wanted` stands at one place only counts one.
pub proof fn lemma_count_single(text: Seq<char>, wanted: char, at: int)
    requires
        0 <= at < text.len(),
        text[at] == wanted,
        forall|i: int| 0 <= i < text.len() && i != at ==> text[i] != wanted,
    ensures
        count_char(text, wanted) == 1,
{
    let head: Seq<char> = text.take(at);
    let tail: Seq<char> = text.skip(at + 1);
    assert(text =~= head + seq![wanted] + tail);
    lemma_count_absent(head, wanted);
    lemma_count_absent(tail, wanted);
    assert(count_char(seq![wanted], wanted) == 1) by {
        assert(seq![wanted].drop_last() =~= Seq::<char>::empty());
        assert(count_char(Seq::<char>::empty(), wanted) == 0);
    }
    lemma_count_concat(head, seq![wanted], wanted);
    lemma_count_concat(head + seq![wanted], tail, wanted);
}

/// A record holds two colons.
pub proof fn lemma_record_colons(i: nat)
    ensures
        count_char(record(i), ':') == 2,
{
    let name: Seq<char> = "{\"name\":\"Item"@;
    let value: Seq<char> = "\",\"value\":"@;
    let close: Seq<char> = "}"@;
    assert(count_char(name, ':') == 1) by {
        reveal_strlit("{\"name\":\"Item");
        lemma_count_single(name, ':', 7);
    }
    assert(count_char(value, ':') == 1) by {
        reveal_strlit("\",\"value\":");
        lemma_count_single(value, ':', 9);
    }
    assert(count_char(close, ':') == 0) by {
        reveal_strlit("}");
        lemma_count_absent(close, ':');
    }
    lemma_decimal_holds_digits(i, ':');
    lemma_count_concat(name, decimal(i), ':');
    lemma_count_concat(name + decimal(i), value, ':');
    lemma_count_concat(name + decimal(i) + value, decimal(i), ':');
    lemma_count_concat(name + decimal(i) + value + decimal(i), close, ':');
}

/// A list of `count` records holds two colons for each.
pub proof fn lemma_record_list_colons(count: nat)
    ensures
        count_char(record_list(count), ':') == 2 * count,
    decreases count,
{
    if count == 0 {
    } else if count == 1 {
        lemma_record_colons(0);
    } else {
        let before: nat = (count - 1) as nat;
        lemma_record_list_colons(before);
        lemma_record_colons(before);
        lemma_count_absent(seq![','], ':');
        lemma_count_concat(record_list(before), seq![','], ':');
        lemma_count_concat(record_list(before) + seq![','], record(before), ':');
    }
}

/// The scan's result is known before it runs: the payload of `count`
/// records holds `2 * count + 1` colons, one for the list and two for each
/// record.
pub proof fn lemma_payload_colons(count: nat)
    ensures
        count_char(payload(count), ':') == 2 * count + 1,
{
    let open: Seq<char> = "{\"items\":["@;
    let close: Seq<char> = "]}"@;
    assert(count_char(open, ':') == 1) by {
        reveal_strlit("{\"items\":[");
        lemma_count_single(open, ':', 8);
    }
    assert(count_char(close, ':') == 0) by {
        reveal_strlit("]}");
        lemma_count_absent(close, ':');
    }
    lemma_record_list_colons(count);
    lemma_count_concat(open, record_list(count), ':');
    lemma_count_concat(open + record_list(count), close, ':');
}

/// `String::with_capacity` of std: the new string is empty. The capacity is
/// a count of bytes, which std requires to fit in `isize`.
pub assume_specification[ String::with_capacity ](capacity: usize) -> (text: String)
    requires
        capacity <= isize::MAX,
    ensures
        text@ == Seq::<char>::empty(),
;

/// `String::clear` of std: the string is empty afterwards.
pub assume_specification[ String::clear ](text: &mut String)
    ensures
        final(text)@ == Seq::<char>::empty(),
;

/// `String::push` of std: the character is appended.
pub assume_specification[ String::push ](text: &mut String, ch: char)
    ensures
        final(text)@ == old(text)@.push(ch),
;

/// `String::push_str` of std: the slice is appended.
pub assume_specification[ String::push_str ](text: &mut String, string: &str)
    ensures
        final(text)@ == old(text)@ + string@,
;

/// `to_string` of std on a `u32`: its decimal notation.
#[verifier::external_body]
fn decimal_string(n: u32) -> (text: String)
    ensures
        text@ == decimal(n as nat),
{
    n.to_string()
}

/// Clears `buf` and writes the payload of `records` records into it.
pub fn build_payload(buf: &mut String, records: u32)
    ensures
        final(buf)@ == payload(records as nat),
{
    buf.clear();
    buf.push_str("{\"items\":[");
    for i in 0..records
        invariant
            buf@ == "{\"items\":["@ + record_list(i as nat),
    {
        let ghost before = buf@;
        if i > 0 {
            buf.push(',');
        }
        buf.push_str("{\"name\":\"Item");
        let name: String = decimal_string(i);
        buf.push_str(name.as_str());
        buf.push_str("\",\"value\":");
        let value: String = decimal_string(i);
        buf.push_str(value.as_str());
        buf.push('}');
        proof {
            reveal_strlit("}");
            assert("}"@ =~= seq!['}']);
            let separator: Seq<char> = if i > 0 {
                seq![',']
            } else {
                Seq::empty()
            };
            assert(buf@ =~= before + separator + record(i as nat));
            assert(record_list((i + 1) as nat) =~= record_list(i as nat) + separator + record(
                i as nat,
            ));
            assert(buf@ =~= "{\"items\":["@ + record_list((i + 1) as nat));
        }
    }
    buf.push_str("]}");
}

/// Counts the places at which `wanted` stands in `text`.
pub fn count_char_in(text: &str, wanted: char) -> (count: usize)
    ensures
        count == count_char(text@, wanted),
{
    // A text has no more characters than bytes, and a `usize` counts its
    // bytes: so the count below cannot overflow.
    let byte_count: usize = text.as_bytes().len();
    proof {
        lemma_chars_within_bytes(text@);
        assert(text@.len() <= byte_count);
    }
    let mut count: usize = 0;
    for c in it: text.chars()
        invariant
            it.seq() == text@,
            text@.len() <= usize::MAX,
            count == count_char(text@.take(it.index()), wanted),
            count <= it.index(),
    {
        proof {
            let next = it.index() + 1;
            assert(text@.take(next).drop_last() =~= text@.take(it.index()));
        }
        if c == wanted {
            count += 1;
        }
    }
    proof {
        assert(text@.take(text@.len() as int) =~= text@);
    }
    count
}

/// The text workload: one hundred times, builds the payload of one thousand
/// records in a reused buffer and counts its colons. Returns the last count,
/// which is 2001 as every one before it.
pub fn rust_json_parse() -> (colons: usize)
    ensures
        colons == count_char(payload(1000), ':'),
        colons == 2001,
{
    let mut buf: String = String::with_capacity(TEXT_CAPACITY);
    let mut colons: usize = 0;
    for round in 0..TEXT_ROUNDS
        invariant
            round > 0 ==> colons == 2001,
    {
        build_payload(&mut buf, TEXT_RECORDS);
        colons = count_char_in(buf.as_str(), ':');
        proof {
            lemma_payload_colons(1000);
        }
    }
    proof {
        lemma_payload_colons(1000);
    }
    colons
}

} // verus!
