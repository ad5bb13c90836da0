use tonic::metadata::{MetadataMap, MetadataValue};
use trace_propagation::carrier;
use trace_propagation::context::TraceContext;
use trace_propagation::hex::{digit_value, push_hex, read_hex};
use trace_propagation::propagator::{extract, extract_carried, extract_or, inject, parent_key_text, state_key_text};
use trace_propagation::trace_state::{join_state, parse_state};
use trace_propagation::traceparent::{format_traceparent, parse_traceparent};

const TRACE: u128 = 0x0af7651916cd43dd8448eb211c80319c;
const SPAN: u64 = 0xb7ad6b7169203331;
const HEADER: &str = "00-0af7651916cd43dd8448eb211c80319c-b7ad6b7169203331-01";

fn pairs(items: &[(&str, &str)]) -> Vec<(String, String)> {
    items.iter().map(|(k, v)| (String::from(*k), String::from(*v))).collect()
}

fn carrier_with(value: &str) -> MetadataMap {
    let mut m = MetadataMap::new();
    assert!(carrier::set(&mut m, "traceparent", value));
    m
}

fn assert_root(ctx: &TraceContext, raw_trace: u128, raw_span: u64) {
    assert_eq!(ctx.trace_id, raw_trace);
    assert_eq!(ctx.span_id, raw_span);
    assert_eq!(ctx.trace_flags, 1);
    assert!(ctx.trace_state.is_empty());
}

#[test]
fn hex_digits_have_their_values() {
    assert_eq!(digit_value('0'), Some(0));
    assert_eq!(digit_value('9'), Some(9));
    assert_eq!(digit_value('a'), Some(10));
    assert_eq!(digit_value('f'), Some(15));
    assert_eq!(digit_value('g'), None);
    assert_eq!(digit_value('A'), None);
    assert_eq!(digit_value('-'), None);
}

#[test]
fn push_hex_pads_to_the_width() {
    let mut s = String::from("x");
    push_hex(&mut s, 0x1f, 4);
    assert_eq!(s, "x001f");
    push_hex(&mut s, 0, 0);
    assert_eq!(s, "x001f");
    push_hex(&mut s, u128::MAX, 32);
    assert_eq!(s, "x001fffffffffffffffffffffffffffffffff");
}

#[test]
fn push_hex_cuts_what_does_not_fit() {
    let mut s = String::new();
    push_hex(&mut s, 0x1234, 2);
    assert_eq!(s, "34");
}

#[test]
fn read_hex_reads_a_window() {
    assert_eq!(read_hex("zz00ffzz", 2, 4), Some(0xff));
    assert_eq!(read_hex("abc", 0, 0), Some(0));
    assert_eq!(read_hex("12g4", 0, 4), None);
    assert_eq!(read_hex("ffffffffffffffffffffffffffffffff", 0, 32), Some(u128::MAX));
}

#[test]
fn format_gives_the_header_text() {
    assert_eq!(format_traceparent(TRACE, SPAN, 1), HEADER);
    assert_eq!(
        format_traceparent(1, 2, 0),
        "00-00000000000000000000000000000001-0000000000000002-00"
    );
    assert_eq!(
        format_traceparent(u128::MAX, u64::MAX, 0xff),
        "00-ffffffffffffffffffffffffffffffff-ffffffffffffffff-ff"
    );
}

#[test]
fn parse_reads_the_header_text() {
    assert_eq!(parse_traceparent(HEADER), Some((TRACE, SPAN, 1)));
    assert_eq!(
        parse_traceparent("00-00000000000000000000000000000001-0000000000000002-00"),
        Some((1, 2, 0))
    );
}

#[test]
fn parse_refuses_malformed_text() {
    assert_eq!(parse_traceparent(""), None);
    assert_eq!(parse_traceparent("00-0af7651916cd43dd8448eb211c80319c-b7ad6b7169203331-0"), None);
    assert_eq!(parse_traceparent("00-0af7651916cd43dd8448eb211c80319c-b7ad6b7169203331-011"), None);
    assert_eq!(parse_traceparent("01-0af7651916cd43dd8448eb211c80319c-b7ad6b7169203331-01"), None);
    assert_eq!(parse_traceparent("ff-0af7651916cd43dd8448eb211c80319c-b7ad6b7169203331-01"), None);
    assert_eq!(parse_traceparent("00-0af7651916cd43dd8448eb211c80319g-b7ad6b7169203331-01"), None);
    assert_eq!(parse_traceparent("00-0AF7651916CD43DD8448EB211C80319C-b7ad6b7169203331-01"), None);
    assert_eq!(parse_traceparent("00-0af7651916cd43dd8448eb211c80319c-b7ad6b7169203331-0x"), None);
    assert_eq!(parse_traceparent("00-0af7651916cd43dd8448eb211c80319c_b7ad6b7169203331-01"), None);
    assert_eq!(parse_traceparent("00-00000000000000000000000000000000-b7ad6b7169203331-01"), None);
    assert_eq!(parse_traceparent("00-0af7651916cd43dd8448eb211c80319c-0000000000000000-01"), None);
}

#[test]
fn parse_counts_characters_not_bytes() {
    let text = "00-0af7651916cd43dd8448eb211c80319c-b7ad6b716920333\u{e9}-01";
    assert_eq!(text.chars().count(), 55);
    assert_eq!(parse_traceparent(text), None);
}

#[test]
fn set_then_get_gives_the_value() {
    let mut m = MetadataMap::new();
    assert_eq!(carrier::get(&m, "alpha"), None);
    assert!(carrier::set(&mut m, "alpha", "one"));
    assert_eq!(carrier::get(&m, "alpha"), Some(String::from("one")));
    assert_eq!(carrier::get(&m, "beta"), None);
    assert_eq!(m.len(), 1);
}

#[test]
fn set_replaces_the_value() {
    let mut m = MetadataMap::new();
    assert!(carrier::set(&mut m, "alpha", "one"));
    assert!(carrier::set(&mut m, "alpha", "two"));
    assert_eq!(carrier::get(&m, "alpha"), Some(String::from("two")));
    assert_eq!(m.len(), 1);
}

#[test]
fn set_refuses_what_is_no_header_key() {
    let mut m = MetadataMap::new();
    assert!(!carrier::set(&mut m, "", "v"));
    assert!(!carrier::set(&mut m, "with space", "v"));
    assert!(!carrier::set(&mut m, "colon:", "v"));
    assert!(!carrier::set(&mut m, "caf\u{e9}", "v"));
    assert!(!carrier::set(&mut m, "trace-bin", "v"));
    assert!(!carrier::set(&mut m, "Trace-BIN", "v"));
    let too_long = "a".repeat(carrier::KEY_LIMIT + 1);
    assert!(!carrier::set(&mut m, &too_long, "v"));
    assert_eq!(m.len(), 0);
    assert!(carrier::keys(&m).is_empty());
}

#[test]
fn set_takes_every_header_key() {
    let mut m = MetadataMap::new();
    assert!(carrier::set(&mut m, "x-host", "v"));
    assert_eq!(carrier::get(&m, "x-host"), Some(String::from("v")));
    assert!(carrier::set(&mut m, "a!#$%&'*+-.^_`|~9", "signs"));
    assert_eq!(carrier::get(&m, "a!#$%&'*+-.^_`|~9"), Some(String::from("signs")));
    assert!(carrier::set(&mut m, "bin", "short"));
    assert!(carrier::set(&mut m, "x-bin-y", "inside"));
    assert_eq!(carrier::get(&m, "x-bin-y"), Some(String::from("inside")));
    let long = "k".repeat(65);
    assert!(carrier::set(&mut m, &long, "long"));
    assert_eq!(carrier::get(&m, &long), Some(String::from("long")));
    let longest = "k".repeat(carrier::KEY_LIMIT);
    assert!(carrier::set(&mut m, &longest, "longest"));
    assert_eq!(carrier::get(&m, &longest), Some(String::from("longest")));
    assert_eq!(m.len(), 6);
}

#[test]
fn a_key_is_stored_and_found_in_lower_case() {
    let mut m = MetadataMap::new();
    assert!(carrier::set(&mut m, "X-Request-ID", "one"));
    assert_eq!(carrier::get(&m, "x-request-id"), Some(String::from("one")));
    assert_eq!(carrier::get(&m, "X-REQUEST-ID"), Some(String::from("one")));
    assert_eq!(carrier::keys(&m), vec![String::from("x-request-id")]);
    assert!(carrier::set(&mut m, "x-request-id", "two"));
    assert_eq!(carrier::get(&m, "X-Request-Id"), Some(String::from("two")));
    assert_eq!(m.len(), 1);
}

#[test]
fn set_puts_one_value_in_place_of_all() {
    let mut m = MetadataMap::new();
    m.append("alpha", MetadataValue::try_from("one").unwrap());
    m.append("alpha", MetadataValue::try_from("two").unwrap());
    m.append("beta", MetadataValue::try_from("b1").unwrap());
    m.append("beta", MetadataValue::try_from("b2").unwrap());
    assert_eq!(m.len(), 4);
    assert!(carrier::set(&mut m, "alpha", "three"));
    assert_eq!(m.len(), 3);
    let alpha: Vec<&str> = m.get_all("alpha").iter().map(|v| v.to_str().unwrap()).collect();
    assert_eq!(alpha, vec!["three"]);
    let beta: Vec<&str> = m.get_all("beta").iter().map(|v| v.to_str().unwrap()).collect();
    assert_eq!(beta, vec!["b1", "b2"]);
    assert!(carrier::set(&mut m, "alpha", "three"));
    assert_eq!(m.len(), 3);
    assert!(!carrier::set(&mut m, "alpha", "bad\n"));
    assert_eq!(m.len(), 3);
    assert_eq!(carrier::get(&m, "alpha"), Some(String::from("three")));
}

#[test]
fn get_reads_what_a_transport_delivered() {
    let mut m = MetadataMap::new();
    m.insert("x-host", MetadataValue::try_from("example").unwrap());
    assert_eq!(carrier::get(&m, "x-host"), Some(String::from("example")));
    assert_eq!(carrier::get(&m, "x-other"), None);
}

#[test]
fn inject_without_vendor_entries_leaves_one_key() {
    let mut m = MetadataMap::new();
    inject(&TraceContext::new(TRACE, SPAN, 1, Vec::new()), &mut m);
    assert_eq!(carrier::keys(&m), vec![String::from("traceparent")]);
    assert_eq!(m.len(), 1);
}

#[test]
fn set_refuses_a_value_with_control_characters() {
    let mut m = MetadataMap::new();
    assert!(!carrier::set(&mut m, "alpha", "line\nbreak"));
    assert!(!carrier::set(&mut m, "alpha", "del\u{7f}"));
    assert_eq!(m.len(), 0);
    assert!(carrier::set(&mut m, "alpha", "tab\there ~"));
    assert_eq!(carrier::get(&m, "alpha"), Some(String::from("tab\there ~")));
}

#[test]
fn a_value_that_is_stored_but_not_readable_hides_the_key() {
    let mut m = MetadataMap::new();
    assert!(carrier::set(&mut m, "alpha", "one"));
    assert!(carrier::set(&mut m, "alpha", "caf\u{e9}"));
    assert_eq!(carrier::get(&m, "alpha"), None);
    assert_eq!(m.len(), 1);
}

#[test]
fn get_refuses_what_is_no_header_key() {
    let mut m = MetadataMap::new();
    assert!(carrier::set(&mut m, "alpha", "one"));
    assert_eq!(carrier::get(&m, "ALPHA"), Some(String::from("one")));
    assert_eq!(carrier::get(&m, ""), None);
    assert_eq!(carrier::get(&m, "al pha"), None);
    assert_eq!(carrier::get(&m, "alpha-bin"), None);
}

#[test]
fn a_carrier_with_room_always_takes_a_value() {
    let mut m = MetadataMap::new();
    for i in 0..carrier::CARRIER_ROOM {
        assert!(carrier::has_room(&m));
        assert!(carrier::set(&mut m, &format!("k{}", i), "v"));
    }
    assert!(!carrier::has_room(&m));
    assert_eq!(m.keys_len(), carrier::CARRIER_ROOM);
}

#[test]
fn one_key_with_many_values_takes_a_new_value() {
    let mut m = MetadataMap::new();
    for i in 0..7000 {
        m.append("traceparent", MetadataValue::try_from(format!("old{}", i)).unwrap());
    }
    m.append("other", MetadataValue::try_from("stays").unwrap());
    assert_eq!(m.len(), 7001);
    assert!(carrier::has_room(&m));
    assert!(carrier::set(&mut m, "traceparent", "new"));
    assert_eq!(m.len(), 2);
    assert_eq!(m.get_all("traceparent").iter().count(), 1);
    assert_eq!(carrier::get(&m, "traceparent"), Some(String::from("new")));
    let ctx = TraceContext::new(TRACE, SPAN, 1, pairs(&[("a", "b")]));
    for i in 0..7000 {
        m.append("tracestate", MetadataValue::try_from(format!("old={}", i)).unwrap());
    }
    inject(&ctx, &mut m);
    assert_eq!(m.len(), 3);
    assert_eq!(carrier::get(&m, "traceparent"), Some(String::from(HEADER)));
    assert_eq!(carrier::get(&m, "tracestate"), Some(String::from("a=b")));
    assert_eq!(carrier::get(&m, "other"), Some(String::from("stays")));
}

#[test]
fn a_carrier_that_cannot_grow_refuses_and_stays_as_it_was() {
    let mut m = MetadataMap::new();
    let mut stored = 0usize;
    let mut refused = None;
    for i in 0..40000 {
        if carrier::set(&mut m, &format!("k{}", i), "v") {
            stored += 1;
        } else {
            refused = Some(i);
            break;
        }
    }
    let at = refused.unwrap();
    assert!(at >= carrier::CARRIER_ROOM);
    assert_eq!(m.keys_len(), stored);
    assert_eq!(m.len(), stored);
    assert_eq!(carrier::get(&m, &format!("k{}", at)), None);
    assert_eq!(carrier::get(&m, "k0"), Some(String::from("v")));
    let ctx = TraceContext::new(TRACE, SPAN, 1, pairs(&[("a", "b")]));
    inject(&ctx, &mut m);
    assert!(m.len() <= stored + 2);
}

#[test]
fn the_keys_are_the_wire_names() {
    assert_eq!(parent_key_text(), "traceparent");
    assert_eq!(state_key_text(), "tracestate");
}

#[test]
fn inject_writes_one_entry_without_vendor_entries() {
    let mut m = MetadataMap::new();
    let ctx = TraceContext::new(TRACE, SPAN, 1, Vec::new());
    inject(&ctx, &mut m);
    assert_eq!(m.len(), 1);
    assert_eq!(m.get("traceparent").unwrap().to_str().unwrap(), HEADER);
    assert!(m.get("tracestate").is_none());
}

#[test]
fn inject_writes_vendor_entries_under_the_second_key() {
    let mut m = MetadataMap::new();
    let ctx = TraceContext::new(TRACE, SPAN, 0, pairs(&[("congo", "t61rcWkgMzE"), ("rojo", "00f067aa0ba902b7")]));
    inject(&ctx, &mut m);
    assert_eq!(m.len(), 2);
    assert_eq!(
        m.get("traceparent").unwrap().to_str().unwrap(),
        "00-0af7651916cd43dd8448eb211c80319c-b7ad6b7169203331-00"
    );
    assert_eq!(
        m.get("tracestate").unwrap().to_str().unwrap(),
        "congo=t61rcWkgMzE,rojo=00f067aa0ba902b7"
    );
}

#[test]
fn inject_writes_nothing_for_a_zero_identifier() {
    let mut m = MetadataMap::new();
    inject(&TraceContext::new(0, SPAN, 1, Vec::new()), &mut m);
    inject(&TraceContext::new(TRACE, 0, 1, pairs(&[("a", "b")])), &mut m);
    assert_eq!(m.len(), 0);
}

#[test]
fn inject_leaves_out_vendor_entries_that_the_carrier_refuses() {
    let mut m = MetadataMap::new();
    let ctx = TraceContext::new(TRACE, SPAN, 1, pairs(&[("a", "b\nc")]));
    inject(&ctx, &mut m);
    assert_eq!(m.len(), 1);
    assert_eq!(carrier::get(&m, "traceparent"), Some(String::from(HEADER)));
    assert_eq!(carrier::get(&m, "tracestate"), None);
}

#[test]
fn round_trip_keeps_every_field() {
    let cases: Vec<(u128, u64, u8, Vec<(String, String)>)> = vec![
        (TRACE, SPAN, 1, Vec::new()),
        (TRACE, SPAN, 0, pairs(&[("congo", "t61rcWkgMzE"), ("rojo", "00f067aa0ba902b7")])),
        (1, 1, 0xff, pairs(&[("a", "b")])),
        (u128::MAX, u64::MAX, 0, pairs(&[("k", "v"), ("k2", ""), ("k3", "x=y z"), ("k", "again")])),
    ];
    for (t, s, f, state) in cases {
        let ctx = TraceContext::new(t, s, f, state.clone());
        let mut m = MetadataMap::new();
        inject(&ctx, &mut m);
        let back = extract_or(&m, 77, 88);
        assert_eq!(back.trace_id, t);
        assert_eq!(back.span_id, s);
        assert_eq!(back.trace_flags, f);
        assert_eq!(back.trace_state, state);
        let again = extract(&m);
        assert_eq!(again.trace_id, t);
        assert_eq!(again.span_id, s);
        assert_eq!(again.trace_flags, f);
        assert_eq!(again.trace_state, state);
    }
}

#[test]
fn vendor_entries_that_are_not_readable_do_not_come_back() {
    let ctx = TraceContext::new(TRACE, SPAN, 1, pairs(&[("k", "caf\u{e9}")]));
    let mut m = MetadataMap::new();
    inject(&ctx, &mut m);
    let back = extract_or(&m, 77, 88);
    assert_eq!(back.trace_id, TRACE);
    assert_eq!(back.span_id, SPAN);
    assert!(back.trace_state.is_empty());
}

#[test]
fn a_missing_key_gives_a_new_root() {
    let m = MetadataMap::new();
    assert_root(&extract_or(&m, 77, 88), 77, 88);
    let mut other = MetadataMap::new();
    assert!(carrier::set(&mut other, "tracestate", "a=b"));
    assert_root(&extract_or(&other, 77, 88), 77, 88);
}

#[test]
fn a_malformed_header_gives_a_new_root() {
    let bad = [
        "",
        "00",
        "00-0af7651916cd43dd8448eb211c80319c-b7ad6b7169203331",
        "00-0af7651916cd43dd8448eb211c80319c-b7ad6b7169203331-0",
        "00-0af7651916cd43dd8448eb211c80319c-b7ad6b7169203331-01-",
        "00-0af7651916cd43dd8448eb211c80319z-b7ad6b7169203331-01",
        "00-0af7651916cd43dd8448eb211c80319c-b7ad6b716920333Z-01",
        "00-0af7651916cd43dd8448eb211c80319c-b7ad6b7169203331-zz",
        "01-0af7651916cd43dd8448eb211c80319c-b7ad6b7169203331-01",
        "0 -0af7651916cd43dd8448eb211c80319c-b7ad6b7169203331-01",
        "00-00000000000000000000000000000000-b7ad6b7169203331-01",
        "00-0af7651916cd43dd8448eb211c80319c-0000000000000000-01",
    ];
    for text in bad {
        let m = carrier_with(text);
        assert_root(&extract_or(&m, 77, 88), 77, 88);
        let fresh = extract(&m);
        assert_ne!(fresh.trace_id, 0);
        assert_ne!(fresh.span_id, 0);
        assert_eq!(fresh.trace_flags, 1);
        assert!(fresh.trace_state.is_empty());
    }
}

#[test]
fn a_root_never_has_a_zero_identifier() {
    let m = MetadataMap::new();
    let ctx = extract_or(&m, 0, 0);
    assert_eq!(ctx.trace_id, 1);
    assert_eq!(ctx.span_id, 1);
    let root = TraceContext::root(0, 5);
    assert_eq!((root.trace_id, root.span_id), (1, 5));
}

#[test]
fn the_first_of_several_values_is_used() {
    let mut m = MetadataMap::new();
    m.append("traceparent", MetadataValue::try_from(HEADER).unwrap());
    m.append(
        "traceparent",
        MetadataValue::try_from("00-00000000000000000000000000000009-0000000000000009-00").unwrap(),
    );
    let ctx = extract_or(&m, 77, 88);
    assert_eq!(ctx.trace_id, TRACE);
    assert_eq!(ctx.span_id, SPAN);
    assert_eq!(ctx.trace_flags, 1);
}

#[test]
fn the_first_value_decides_even_where_it_is_malformed() {
    let mut m = MetadataMap::new();
    m.append("traceparent", MetadataValue::try_from("garbage").unwrap());
    m.append("traceparent", MetadataValue::try_from(HEADER).unwrap());
    assert_root(&extract_or(&m, 77, 88), 77, 88);
}

#[test]
fn an_unreadable_header_gives_a_new_root() {
    let mut m = MetadataMap::new();
    m.insert("traceparent", MetadataValue::try_from(&b"\xfa\xfb"[..]).unwrap());
    assert_root(&extract_or(&m, 77, 88), 77, 88);
}

#[test]
fn sampled_reads_bit_zero() {
    assert!(TraceContext::new(1, 1, 1, Vec::new()).sampled());
    assert!(TraceContext::new(1, 1, 3, Vec::new()).sampled());
    assert!(!TraceContext::new(1, 1, 2, Vec::new()).sampled());
    assert!(!TraceContext::new(1, 1, 0, Vec::new()).sampled());
}

#[test]
fn duplicate_copies_every_field() {
    let ctx = TraceContext::new(TRACE, SPAN, 1, pairs(&[("a", "b"), ("c", "d")]));
    let copy = ctx.duplicate();
    assert_eq!(copy.trace_id, TRACE);
    assert_eq!(copy.span_id, SPAN);
    assert_eq!(copy.trace_flags, 1);
    assert_eq!(copy.trace_state, pairs(&[("a", "b"), ("c", "d")]));
}

#[test]
fn join_state_writes_pairs_in_their_order() {
    assert_eq!(join_state(&Vec::new()), "");
    assert_eq!(join_state(&pairs(&[("a", "b")])), "a=b");
    assert_eq!(join_state(&pairs(&[("congo", "t61rcWkgMzE"), ("rojo", "00f067aa0ba902b7")])), "congo=t61rcWkgMzE,rojo=00f067aa0ba902b7");
    assert_eq!(join_state(&pairs(&[("a", ""), ("b", "1=2")])), "a=,b=1=2");
}

#[test]
fn parse_state_reads_pairs_in_their_order() {
    assert_eq!(parse_state(""), Some(Vec::new()));
    assert_eq!(parse_state("a=b"), Some(pairs(&[("a", "b")])));
    assert_eq!(
        parse_state("congo=t61rcWkgMzE,rojo=00f067aa0ba902b7"),
        Some(pairs(&[("congo", "t61rcWkgMzE"), ("rojo", "00f067aa0ba902b7")]))
    );
    assert_eq!(parse_state("b=2,a=1,b=3"), Some(pairs(&[("b", "2"), ("a", "1"), ("b", "3")])));
    assert_eq!(parse_state("a=1=2"), Some(pairs(&[("a", "1=2")])));
    assert_eq!(parse_state("a="), Some(pairs(&[("a", "")])));
    assert_eq!(parse_state("a=,b="), Some(pairs(&[("a", ""), ("b", "")])));
    assert_eq!(parse_state("a=b,c=\u{e9}"), Some(pairs(&[("a", "b"), ("c", "\u{e9}")])));
}

#[test]
fn parse_state_refuses_what_is_no_list_of_entries() {
    assert_eq!(parse_state("a"), None);
    assert_eq!(parse_state("=b"), None);
    assert_eq!(parse_state(","), None);
    assert_eq!(parse_state("a=b,"), None);
    assert_eq!(parse_state(",a=b"), None);
    assert_eq!(parse_state("a=b,,c=d"), None);
    assert_eq!(parse_state("a=b,c"), None);
    assert_eq!(parse_state("a,c=d"), None);
}

#[test]
fn vendor_entries_that_hold_no_list_are_left_out() {
    let mut m = carrier_with(HEADER);
    assert!(carrier::set(&mut m, "tracestate", "no entries here"));
    let ctx = extract_or(&m, 77, 88);
    assert_eq!(ctx.trace_id, TRACE);
    assert!(ctx.trace_state.is_empty());
}

#[test]
fn an_entry_with_a_comma_in_its_key_does_not_come_back_as_it_was() {
    let ctx = TraceContext::new(TRACE, SPAN, 1, pairs(&[("a,b", "c")]));
    let mut m = MetadataMap::new();
    inject(&ctx, &mut m);
    let back = extract_or(&m, 77, 88);
    assert_eq!(back.trace_id, TRACE);
    assert!(back.trace_state.is_empty());
}

#[test]
fn keys_lists_each_key_once() {
    let mut m = MetadataMap::new();
    assert!(carrier::keys(&m).is_empty());
    inject(&TraceContext::new(TRACE, SPAN, 1, pairs(&[("a", "b")])), &mut m);
    assert!(carrier::set(&mut m, "alpha", "one"));
    assert!(carrier::set(&mut m, "alpha", "two"));
    m.append("alpha", MetadataValue::try_from("three").unwrap());
    let mut names = carrier::keys(&m);
    names.sort();
    assert_eq!(names, vec![String::from("alpha"), String::from("traceparent"), String::from("tracestate")]);
}

#[test]
fn extract_carried_tells_whether_a_context_came() {
    let mut m = MetadataMap::new();
    assert!(extract_carried(&m).is_none());
    assert!(carrier::set(&mut m, "traceparent", "00-4bf92f3577b34da6a3ce929d0e0e4736-00f067aa"));
    assert!(extract_carried(&m).is_none());
    assert!(carrier::set(&mut m, "traceparent", HEADER));
    assert!(carrier::set(&mut m, "tracestate", "a=b,c=d"));
    let ctx = extract_carried(&m).unwrap();
    assert_eq!((ctx.trace_id, ctx.span_id, ctx.trace_flags), (TRACE, SPAN, 1));
    assert_eq!(ctx.trace_state, pairs(&[("a", "b"), ("c", "d")]));
}
