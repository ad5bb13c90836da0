//! The vendor entries of a trace context and their header text: `key=value`
//! pairs joined by commas, in their order.

use vstd::prelude::*;
use vstd::string::*;
use crate::carrier::{readable_char, readable_text};

verus! {

/// The values of a list of pairs of texts.
pub open spec fn entries_view(p: Seq<(String, String)>) -> Seq<(Seq<char>, Seq<char>)> {
    Seq::new(p.len(), |i: int| (p[i].0@, p[i].1@))
}

/// The index of the last comma of `s`; -1 where it has none.
pub open spec fn last_comma(s: Seq<char>) -> int
    decreases s.len(),
{
    if s.len() == 0 {
        -1
    } else if s.last() == ',' {
        s.len() - 1
    } else {
        last_comma(s.drop_last())
    }
}

/// The index of the first `=` of `s`; the length of `s` where it has none.
pub open spec fn first_equals(s: Seq<char>) -> int
    decreases s.len(),
{
    if s.len() == 0 {
        0
    } else if s[0] == '=' {
        0
    } else {
        1 + first_equals(s.skip(1))
    }
}

/// The text of one entry.
pub open spec fn entry_text(e: (Seq<char>, Seq<char>)) -> Seq<char> {
    e.0 + seq!['='] + e.1
}

/// The entry that a text holds: the key before its first `=`, the value
/// after it. `None` where the text has no `=` or nothing before it.
pub open spec fn entry_of(item: Seq<char>) -> Option<(Seq<char>, Seq<char>)> {
    let q = first_equals(item);
    if 0 < q < item.len() {
        Some((item.take(q), item.skip(q + 1)))
    } else {
        None
    }
}

/// The header text of a list of entries.
pub open spec fn state_text(p: Seq<(Seq<char>, Seq<char>)>) -> Seq<char>
    decreases p.len(),
{
    if p.len() == 0 {
        Seq::empty()
    } else if p.len() == 1 {
        entry_text(p[0])
    } else {
        state_text(p.drop_last()) + seq![','] + entry_text(p.last())
    }
}

/// The entries that a header text holds, in their order. The empty text
/// holds none. `None` where some part between commas, before the first or
/// after the last, is no entry. The last comma always lies inside the text;
/// the test on it only shows that the text to read gets shorter.
pub open spec fn state_pairs(text: Seq<char>) -> Option<Seq<(Seq<char>, Seq<char>)>>
    decreases text.len(),
{
    if text.len() == 0 {
        Some(Seq::empty())
    } else {
        let c = last_comma(text);
        match entry_of(text.skip(c + 1)) {
            None => None,
            Some(e) => if c < 0 {
                Some(seq![e])
            } else if c == 0 || c >= text.len() {
                None
            } else {
                match state_pairs(text.take(c)) {
                    Some(h) => Some(h.push(e)),
                    None => None,
                }
            },
        }
    }
}

/// An entry that survives the way through a carrier: its key is not empty
/// and holds neither `=` nor a comma, its value holds no comma, and both are
/// readable text.
pub open spec fn portable_entry(e: (Seq<char>, Seq<char>)) -> bool {
    &&& e.0.len() > 0
    &&& forall|i: int| 0 <= i < e.0.len() ==> #[trigger] e.0[i] != '=' && e.0[i] != ',' && readable_char(e.0[i])
    &&& forall|i: int| 0 <= i < e.1.len() ==> #[trigger] e.1[i] != ',' && readable_char(e.1[i])
}

/// A list of portable entries.
pub open spec fn portable(p: Seq<(Seq<char>, Seq<char>)>) -> bool {
    forall|i: int| 0 <= i < p.len() ==> portable_entry(#[trigger] p[i])
}

/// A comma that no comma follows is the last one; a text without commas has
/// none.
pub proof fn lemma_last_comma(s: Seq<char>, c: int)
    requires
        -1 <= c < s.len(),
        c >= 0 ==> s[c] == ',',
        forall|j: int| c < j < s.len() ==> s[j] != ',',
    ensures
        last_comma(s) == c,
    decreases s.len(),
{
    if s.len() > 0 && s.last() != ',' {
        lemma_last_comma(s.drop_last(), c);
    }
}

/// An `=` that no `=` precedes is the first one; a text without `=` has
/// none.
pub proof fn lemma_first_equals(s: Seq<char>, q: int)
    requires
        0 <= q <= s.len(),
        q < s.len() ==> s[q] == '=',
        forall|j: int| 0 <= j < q ==> s[j] != '=',
    ensures
        first_equals(s) == q,
    decreases s.len(),
{
    if s.len() > 0 && s[0] != '=' {
        lemma_first_equals(s.skip(1), q - 1);
    }
}

/// The text of a portable entry holds that entry, and no comma.
pub proof fn lemma_entry_round_trip(e: (Seq<char>, Seq<char>))
    requires
        portable_entry(e),
    ensures
        entry_of(entry_text(e)) == Some(e),
        entry_text(e).len() > 0,
        forall|j: int| 0 <= j < entry_text(e).len() ==> entry_text(e)[j] != ',',
        readable_text(entry_text(e)),
{
    let t = entry_text(e);
    let q = e.0.len() as int;
    assert(t[q] == '=');
    assert forall|j: int| 0 <= j < q implies t[j] != '=' by {
        assert(t[j] == e.0[j]);
    }
    lemma_first_equals(t, q);
    assert(t.take(q) =~= e.0);
    assert(t.skip(q + 1) =~= e.1);
    assert forall|j: int| 0 <= j < t.len() implies t[j] != ',' && readable_char(#[trigger] t[j]) by {
        if j < q {
            assert(t[j] == e.0[j]);
        } else if j > q {
            assert(t[j] == e.1[j - q - 1]);
        }
    }
}

/// The header text of portable entries holds those entries in their order,
/// and a carrier gives it back as it was.
pub proof fn lemma_state_round_trip(p: Seq<(Seq<char>, Seq<char>)>)
    requires
        portable(p),
    ensures
        state_pairs(state_text(p)) == Some(p),
        p.len() > 0 ==> state_text(p).len() > 0,
        readable_text(state_text(p)),
    decreases p.len(),
{
    let text = state_text(p);
    if p.len() == 0 {
        assert(p =~= Seq::empty());
    } else if p.len() == 1 {
        lemma_entry_round_trip(p[0]);
        lemma_last_comma(text, -1);
        assert(text.skip(0) =~= text);
        assert(p =~= seq![p[0]]);
    } else {
        let head = p.drop_last();
        let e = p.last();
        assert(portable(head)) by {
            assert forall|i: int| 0 <= i < head.len() implies portable_entry(#[trigger] head[i]) by {
                assert(head[i] == p[i]);
            }
        }
        lemma_state_round_trip(head);
        lemma_entry_round_trip(e);
        let prefix = state_text(head);
        let c = prefix.len() as int;
        assert(text[c] == ',');
        assert forall|j: int| c < j < text.len() implies text[j] != ',' by {
            assert(text[j] == entry_text(e)[j - c - 1]);
        }
        lemma_last_comma(text, c);
        assert(text.skip(c + 1) =~= entry_text(e));
        assert(text.take(c) =~= prefix);
        assert(head.push(e) =~= p);
        assert forall|j: int| 0 <= j < text.len() implies readable_char(#[trigger] text[j]) by {
            if j < c {
                assert(text[j] == prefix[j]);
            } else if j > c {
                assert(text[j] == entry_text(e)[j - c - 1]);
            }
        }
    }
}

/// A text that holds entries holds entries before each of its commas, and
/// does not begin with one.
pub proof fn lemma_prefix_holds_entries(text: Seq<char>, c: int)
    requires
        0 <= c < text.len(),
        text[c] == ',',
        state_pairs(text) is Some,
    ensures
        c > 0,
        state_pairs(text.take(c)) is Some,
    decreases text.len(),
{
    let l = last_comma(text);
    lemma_last_comma_is_last(text);
    assert(l >= c);
    if l > c {
        let shorter = text.take(l);
        assert(shorter[c] == ',');
        lemma_prefix_holds_entries(shorter, c);
        assert(shorter.take(c) =~= text.take(c));
    }
}

/// What `last_comma` gives is a comma, and none follows it.
pub proof fn lemma_last_comma_is_last(s: Seq<char>)
    ensures
        -1 <= last_comma(s) < s.len(),
        last_comma(s) >= 0 ==> s[last_comma(s)] == ',',
        forall|j: int| last_comma(s) < j < s.len() ==> s[j] != ',',
    decreases s.len(),
{
    if s.len() > 0 && s.last() != ',' {
        lemma_last_comma_is_last(s.drop_last());
        assert forall|j: int| last_comma(s) < j < s.len() implies s[j] != ',' by {
            if j < s.len() - 1 {
                assert(s.drop_last()[j] == s[j]);
            }
        }
    }
}

/// Writes the header text of a list of entries.
pub fn join_state(pairs: &Vec<(String, String)>) -> (text: String)
    ensures
        text@ == state_text(entries_view(pairs@)),
{
    proof {
        reveal_strlit(",");
        reveal_strlit("=");
    }
    let ghost all = entries_view(pairs@);
    let mut text = String::new();
    let mut i: usize = 0;
    while i < pairs.len()
        invariant
            i <= pairs.len(),
            all == entries_view(pairs@),
            text@ == state_text(all.take(i as int)),
        decreases pairs.len() - i,
    {
        let ghost before = text@;
        if i > 0 {
            text.append(",");
        }
        text.append(pairs[i].0.as_str());
        text.append("=");
        text.append(pairs[i].1.as_str());
        proof {
            let now = all.take(i + 1);
            assert(now.drop_last() =~= all.take(i as int));
            assert(now.last() == all[i as int]);
            reveal_strlit(",");
            reveal_strlit("=");
            assert(","@ =~= seq![',']);
            assert("="@ =~= seq!['=']);
            if i == 0 {
                assert(before =~= Seq::empty());
                assert(text@ =~= entry_text(now[0]));
            } else {
                assert(text@ =~= before + seq![','] + entry_text(now.last()));
            }
        }
        i = i + 1;
    }
    assert(all.take(i as int) =~= all);
    text
}

/// Reads the entry that stands in `text` from `start` up to `end`.
fn parse_entry(text: &str, start: usize, end: usize) -> (r: Option<(String, String)>)
    requires
        start <= end <= text@.len(),
    ensures
        match r {
            Some(e) => entry_of(text@.subrange(start as int, end as int)) == Some((e.0@, e.1@)),
            None => entry_of(text@.subrange(start as int, end as int)) is None,
        },
{
    let ghost item = text@.subrange(start as int, end as int);
    let mut q: usize = start;
    while q < end && text.get_char(q) != '='
        invariant
            start <= q <= end <= text@.len(),
            item == text@.subrange(start as int, end as int),
            forall|j: int| 0 <= j < q - start ==> item[j] != '=',
        decreases end - q,
    {
        assert(item[q - start] == text@[q as int]);
        q = q + 1;
    }
    proof {
        if q < end {
            assert(item[q - start] == text@[q as int]);
        }
        lemma_first_equals(item, q - start);
    }
    if q == start || q == end {
        return None;
    }
    let key = String::from_str(text.substring_char(start, q));
    let value = String::from_str(text.substring_char(q + 1, end));
    assert(key@ =~= item.take(q - start));
    assert(value@ =~= item.skip(q - start + 1));
    Some((key, value))
}

/// Reads the entries of a header text.
pub fn parse_state(text: &str) -> (r: Option<Vec<(String, String)>>)
    ensures
        match r {
            Some(p) => state_pairs(text@) == Some(entries_view(p@)),
            None => state_pairs(text@) is None,
        },
{
    let n = text.unicode_len();
    let mut found: Vec<(String, String)> = Vec::new();
    if n == 0 {
        assert(entries_view(found@) =~= Seq::empty());
        return Some(found);
    }
    let mut start: usize = 0;
    let mut i: usize = 0;
    while i <= n
        invariant
            n == text@.len(),
            n > 0,
            start <= i <= n,
            forall|j: int| start <= j < i ==> text@[j] != ',',
            start == 0 ==> found@.len() == 0,
            start > 0 ==> start >= 2 && text@[start - 1] == ',' && state_pairs(text@.take(start - 1)) == Some(
                entries_view(found@),
            ),
        decreases n - i,
    {
        let at_end = i == n;
        if at_end || text.get_char(i) == ',' {
            let ghost upto = text@.take(i as int);
            let ghost item = text@.subrange(start as int, i as int);
            let ghost held = entries_view(found@);
            proof {
                if i > 0 {
                    assert forall|j: int| start - 1 < j < upto.len() implies upto[j] != ',' by {
                        assert(upto[j] == text@[j]);
                    }
                    lemma_last_comma(upto, start - 1);
                    assert(upto.skip(start as int) =~= item);
                    if start > 0 {
                        assert(upto.take(start - 1) =~= text@.take(start - 1));
                    }
                }
                if at_end {
                    assert(upto =~= text@);
                }
            }
            match parse_entry(text, start, i) {
                None => {
                    proof {
                        if i > 0 {
                            assert(state_pairs(upto) is None);
                        }
                        if !at_end && state_pairs(text@) is Some {
                            lemma_prefix_holds_entries(text@, i as int);
                        }
                    }
                    return None;
                },
                Some(e) => {
                    assert(i > 0) by {
                        if i == 0 {
                            assert(item.len() == 0);
                        }
                    }
                    found.push(e);
                    proof {
                        let entry = (e.0@, e.1@);
                        if start == 0 {
                            assert(entries_view(found@) =~= seq![entry]);
                        } else {
                            assert(entries_view(found@) =~= held.push(entry));
                        }
                        assert(state_pairs(upto) == Some(entries_view(found@)));
                    }
                },
            }
            if at_end {
                return Some(found);
            }
            start = i + 1;
        }
        i = i + 1;
    }
    None
}

} // verus!
