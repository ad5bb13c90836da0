//! The header text `version-traceid-spanid-flags`.

use vstd::prelude::*;
use vstd::string::*;
use crate::hex::{hex_text, hex_number, hex_value, push_hex, read_hex, lemma_hex_text_len, lemma_pow16_values, lemma_hex_round_trip, lemma_hex_number_bound, lemma_hex_text_digits};

verus! {

/// The header text of three fields: version `00`, then the trace identifier in
/// 32 digits, the span identifier in 16 and the flags in 2, joined by hyphens.
pub open spec fn traceparent_text(trace_id: u128, span_id: u64, flags: u8) -> Seq<char> {
    seq!['0', '0', '-'] + hex_text(trace_id as nat, 32) + seq!['-'] + hex_text(span_id as nat, 16)
        + seq!['-'] + hex_text(flags as nat, 2)
}

/// The shape of a header text: 55 characters, version `00`, hyphens in place.
pub open spec fn traceparent_shape(s: Seq<char>) -> bool {
    s.len() == 55 && s[0] == '0' && s[1] == '0' && s[2] == '-' && s[35] == '-' && s[52] == '-'
}

/// The three fields that a header text holds; `None` where the text has
/// another length or version, a misplaced hyphen, a character that is no
/// lowercase hexadecimal digit, or an identifier that is zero.
pub open spec fn traceparent_fields(s: Seq<char>) -> Option<(u128, u64, u8)> {
    if traceparent_shape(s) {
        match (hex_number(s.subrange(3, 35)), hex_number(s.subrange(36, 52)), hex_number(s.subrange(53, 55))) {
            (Some(t), Some(p), Some(f)) => if t != 0 && p != 0 {
                Some((t as u128, p as u64, f as u8))
            } else {
                None
            },
            _ => None,
        }
    } else {
        None
    }
}

/// Parsing a written header gives back the fields it was written from.
pub proof fn lemma_traceparent_round_trip(trace_id: u128, span_id: u64, flags: u8)
    requires
        trace_id != 0,
        span_id != 0,
    ensures
        traceparent_fields(traceparent_text(trace_id, span_id, flags)) == Some((trace_id, span_id, flags)),
{
    let s = traceparent_text(trace_id, span_id, flags);
    lemma_hex_text_len(trace_id as nat, 32);
    lemma_hex_text_len(span_id as nat, 16);
    lemma_hex_text_len(flags as nat, 2);
    lemma_pow16_values();
    lemma_hex_round_trip(trace_id as nat, 32);
    lemma_hex_round_trip(span_id as nat, 16);
    lemma_hex_round_trip(flags as nat, 2);
    assert(s.len() == 55);
    assert(s.subrange(3, 35) =~= hex_text(trace_id as nat, 32));
    assert(s.subrange(36, 52) =~= hex_text(span_id as nat, 16));
    assert(s.subrange(53, 55) =~= hex_text(flags as nat, 2));
}

/// Every written header is made of hyphens and hexadecimal digits.
pub proof fn lemma_traceparent_chars(trace_id: u128, span_id: u64, flags: u8)
    ensures
        traceparent_text(trace_id, span_id, flags).len() == 55,
        forall|i: int| 0 <= i < 55 ==> {
            let c = #[trigger] traceparent_text(trace_id, span_id, flags)[i];
            c == '-' || hex_value(c) is Some
        },
{
    let s = traceparent_text(trace_id, span_id, flags);
    lemma_hex_text_len(trace_id as nat, 32);
    lemma_hex_text_len(span_id as nat, 16);
    lemma_hex_text_len(flags as nat, 2);
    lemma_hex_text_digits(trace_id as nat, 32);
    lemma_hex_text_digits(span_id as nat, 16);
    lemma_hex_text_digits(flags as nat, 2);
    assert forall|i: int| 0 <= i < 55 implies {
        let c = #[trigger] s[i];
        c == '-' || hex_value(c) is Some
    } by {
        if 3 <= i < 35 {
            assert(s[i] == hex_text(trace_id as nat, 32)[i - 3]);
        } else if 36 <= i < 52 {
            assert(s[i] == hex_text(span_id as nat, 16)[i - 36]);
        } else if 53 <= i {
            assert(s[i] == hex_text(flags as nat, 2)[i - 53]);
        }
    }
}

/// Writes the header text of three fields.
pub fn format_traceparent(trace_id: u128, span_id: u64, flags: u8) -> (s: String)
    ensures
        s@ == traceparent_text(trace_id, span_id, flags),
{
    proof {
        reveal_strlit("00-");
        reveal_strlit("-");
    }
    let mut s = String::from_str("00-");
    assert(s@ =~= seq!['0', '0', '-']);
    push_hex(&mut s, trace_id, 32);
    s.append("-");
    push_hex(&mut s, span_id as u128, 16);
    s.append("-");
    push_hex(&mut s, flags as u128, 2);
    assert("-"@ =~= seq!['-']);
    s
}

/// Reads the three fields of a header text.
pub fn parse_traceparent(s: &str) -> (r: Option<(u128, u64, u8)>)
    ensures
        r == traceparent_fields(s@),
        r matches Some((t, p, _)) ==> t != 0 && p != 0,
{
    if s.unicode_len() != 55 {
        return None;
    }
    if s.get_char(0) != '0' || s.get_char(1) != '0' || s.get_char(2) != '-' || s.get_char(35) != '-'
        || s.get_char(52) != '-' {
        return None;
    }
    proof {
        lemma_pow16_values();
        lemma_hex_number_bound(s@.subrange(3, 35));
        lemma_hex_number_bound(s@.subrange(36, 52));
        lemma_hex_number_bound(s@.subrange(53, 55));
    }
    match (read_hex(s, 3, 32), read_hex(s, 36, 16), read_hex(s, 53, 2)) {
        (Some(t), Some(p), Some(f)) => {
            if t != 0 && p != 0 {
                Some((t, p as u64, f as u8))
            } else {
                None
            }
        },
        _ => None,
    }
}

} // verus!
