//! The metadata that rides along one RPC call, read and written by key.

use vstd::prelude::*;
use vstd::string::*;
use tonic::metadata::MetadataMap;
use tonic::metadata::MetadataKey;
use tonic::metadata::MetadataValue;
use tonic::metadata::Ascii;
use tonic::metadata::KeyRef;
use http::header::HeaderName;
use http::header::HeaderValue;

verus! {

#[verifier::external_type_specification]
#[verifier::external_body]
pub struct ExMetadataMap(tonic::metadata::MetadataMap);

/// What a carrier holds: each stored key, in lower case, with the values
/// under it in their order, never none. A value stands as the text that its
/// bytes spell; one whose bytes spell no text stands as some text that is not
/// readable.
pub uninterp spec fn carrier_values(m: MetadataMap) -> Map<Seq<char>, Seq<Seq<char>>>;

/// How many values a carrier stores, over all its keys.
pub uninterp spec fn carrier_size(m: MetadataMap) -> nat;

/// How many keys a carrier stores.
pub uninterp spec fn carrier_keys(m: MetadataMap) -> nat;

/// The number of keys below which a carrier always takes one more. The map
/// behind a carrier holds at most 32768 keys, and may refuse to grow once it
/// holds a fifth of that.
pub const CARRIER_ROOM: usize = 6554;

/// The longest key, in characters.
pub const KEY_LIMIT: usize = 65535;

/// A character that a carrier gives back as text: a tab, or printable ASCII.
pub open spec fn readable_char(c: char) -> bool {
    c == '\t' || (' ' <= c && c <= '~')
}

/// A character that a carrier takes: any but the control characters other
/// than tab.
pub open spec fn storable_char(c: char) -> bool {
    c == '\t' || (' ' <= c && c != '\x7f')
}

/// A value that a reader gets back as text.
pub open spec fn readable_text(v: Seq<char>) -> bool {
    forall|i: int| 0 <= i < v.len() ==> readable_char(#[trigger] v[i])
}

/// A value that a carrier takes.
pub open spec fn storable_text(v: Seq<char>) -> bool {
    forall|i: int| 0 <= i < v.len() ==> storable_char(#[trigger] v[i])
}

/// A character of a header name: a letter, a digit, or one of the signs
/// ``!#$%&'*+-.^_`|~``.
pub open spec fn name_char(c: char) -> bool {
    ('a' <= c && c <= 'z') || ('A' <= c && c <= 'Z') || ('0' <= c && c <= '9') || c == '!' || c == '#'
        || c == '$' || c == '%' || c == '&' || c == '\'' || c == '*' || c == '+' || c == '-' || c == '.'
        || c == '^' || c == '_' || c == '`' || c == '|' || c == '~'
}

/// The lower-case form of a letter; any other character itself.
pub open spec fn lower_char(c: char) -> char {
    if 'A' <= c && c <= 'Z' {
        ((c as u8) + 32) as char
    } else {
        c
    }
}

/// A text with each letter in lower case.
pub open spec fn lowered(k: Seq<char>) -> Seq<char> {
    Seq::new(k.len(), |i: int| lower_char(k[i]))
}

/// Whether a text ends in `-bin`, the mark of a key for binary values.
pub open spec fn ends_in_bin(k: Seq<char>) -> bool {
    k.len() >= 4 && k[k.len() - 4] == '-' && k[k.len() - 3] == 'b' && k[k.len() - 2] == 'i' && k[k.len() - 1]
        == 'n'
}

/// The key under which a carrier stores and finds text for `k`: `k` in lower
/// case, where `k` has 1 to 65535 characters, all of them header-name
/// characters, and in lower case does not end in `-bin`. `None` for any
/// other text.
pub open spec fn header_key(k: Seq<char>) -> Option<Seq<char>> {
    if 0 < k.len() <= KEY_LIMIT && (forall|i: int| 0 <= i < k.len() ==> name_char(#[trigger] k[i]))
        && !ends_in_bin(lowered(k)) {
        Some(lowered(k))
    } else {
        None
    }
}

/// What a reader finds in a carrier: under each key the first value stored
/// there, where that value is readable text.
pub open spec fn entries_of(values: Map<Seq<char>, Seq<Seq<char>>>) -> Map<Seq<char>, Seq<char>> {
    Map::new(
        |k: Seq<char>| values.contains_key(k) && values[k].len() > 0 && readable_text(values[k][0]),
        |k: Seq<char>| values[k][0],
    )
}

/// What a reader finds in the carrier `m`.
pub open spec fn carrier_entries(m: MetadataMap) -> Map<Seq<char>, Seq<char>> {
    entries_of(carrier_values(m))
}

/// How many values stand under `name`.
pub open spec fn held(values: Map<Seq<char>, Seq<Seq<char>>>, name: Seq<char>) -> nat {
    if values.contains_key(name) {
        values[name].len()
    } else {
        0
    }
}

/// What a reader finds after `value` was offered under the key `name`. A
/// value that is not storable changes nothing; one that is replaces what stood
/// under the key, and is found again where it is readable.
pub open spec fn entries_after_set(
    before: Map<Seq<char>, Seq<char>>,
    name: Seq<char>,
    value: Seq<char>,
) -> Map<Seq<char>, Seq<char>> {
    if !storable_text(value) {
        before
    } else if readable_text(value) {
        before.insert(name, value)
    } else {
        before.remove(name)
    }
}

/// `tonic::metadata::MetadataMap::new`: the new map holds nothing.
pub assume_specification[ tonic::metadata::MetadataMap::new ]() -> (m: MetadataMap)
    ensures
        carrier_values(m).dom() == Set::<Seq<char>>::empty(),
        carrier_size(m) == 0,
        carrier_keys(m) == 0,
;

/// `tonic::metadata::MetadataMap::keys_len`: the number of keys stored.
pub assume_specification[ tonic::metadata::MetadataMap::keys_len ](m: &MetadataMap) -> (n: usize)
    ensures
        n == carrier_keys(*m),
;

/// The keys of a carrier once a value was stored under `name`.
pub open spec fn keys_after_store(values: Map<Seq<char>, Seq<Seq<char>>>, keys: nat, name: Seq<char>) -> nat {
    if values.contains_key(name) {
        keys
    } else {
        keys + 1
    }
}

/// `MetadataKey::from_bytes` and `MetadataValue::try_from`, then the map's
/// own `HeaderMap::try_insert`, reached through `MetadataMap::as_mut`, with
/// key and value handed over as `HeaderName` and `HeaderValue`. A key that
/// `header_key` accepts parses, to its lower-case form. The value parses
/// exactly where every byte of it is a tab or at least 32 and not 127, which
/// for text means that it is storable. The insert puts the value in place of
/// every value that stood under the key, or refuses and changes nothing where
/// the map cannot grow; it never panics. A map of fewer than `CARRIER_ROOM`
/// keys can always grow; of a larger one nothing is promised.
#[verifier::external_body]
fn store(m: &mut MetadataMap, key: &str, value: &str) -> (stored: bool)
    requires
        header_key(key@) is Some,
    ensures
        stored ==> storable_text(value@),
        storable_text(value@) && carrier_keys(*old(m)) < CARRIER_ROOM ==> stored,
        carrier_values(*final(m)) == if stored {
            carrier_values(*old(m)).insert(header_key(key@).unwrap(), seq![value@])
        } else {
            carrier_values(*old(m))
        },
        carrier_size(*final(m)) == if stored {
            carrier_size(*old(m)) - held(carrier_values(*old(m)), header_key(key@).unwrap()) + 1
        } else {
            carrier_size(*old(m)) as int
        },
        carrier_keys(*final(m)) == if stored {
            keys_after_store(carrier_values(*old(m)), carrier_keys(*old(m)), header_key(key@).unwrap())
        } else {
            carrier_keys(*old(m))
        },
{
    match (MetadataKey::<Ascii>::from_bytes(key.as_bytes()), MetadataValue::<Ascii>::try_from(value)) {
        (Ok(k), Ok(v)) => match (HeaderName::from_bytes(k.as_str().as_bytes()), HeaderValue::from_bytes(v.as_bytes())) {
            (Ok(name), Ok(text)) => m.as_mut().try_insert(name, text).is_ok(),
            _ => false,
        },
        _ => false,
    }
}

/// `MetadataMap::get` and `MetadataValue::to_str`: the first value under the
/// key's lower-case form, where there is one and all of it is readable text.
/// `to_str` gives text only where every byte is a tab or printable ASCII.
#[verifier::external_body]
fn lookup(m: &MetadataMap, key: &str) -> (r: Option<String>)
    requires
        header_key(key@) is Some,
    ensures
        match r {
            Some(s) => carrier_entries(*m).contains_key(header_key(key@).unwrap()) && carrier_entries(
                *m,
            )[header_key(key@).unwrap()] == s@,
            None => !carrier_entries(*m).contains_key(header_key(key@).unwrap()),
        },
{
    match m.get(key) {
        Some(v) => match v.to_str() {
            Ok(s) => Some(s.to_owned()),
            Err(_) => None,
        },
        None => None,
    }
}

/// Whether `key` is one of `names`.
pub open spec fn names_hold(names: Seq<String>, key: Seq<char>) -> bool {
    exists|i: int| 0 <= i < names.len() && names[i]@ == key
}

/// Whether no two of `names` are the same text.
pub open spec fn names_differ(names: Seq<String>) -> bool {
    forall|i: int, j: int| 0 <= i < j < names.len() ==> names[i]@ != names[j]@
}

/// `MetadataMap::keys`, each key handed out as text: every key that the map
/// stores comes once, in no stated order, and nothing else comes, so there
/// are as many names as stored keys.
#[verifier::external_body]
fn key_names(m: &MetadataMap) -> (names: Vec<String>)
    ensures
        forall|i: int| 0 <= i < names@.len() ==> carrier_values(*m).contains_key(#[trigger] names@[i]@),
        forall|k: Seq<char>| #[trigger] carrier_values(*m).contains_key(k) ==> names_hold(names@, k),
        names_differ(names@),
        names@.len() == carrier_keys(*m),
{
    let mut names: Vec<String> = Vec::new();
    for key in m.keys() {
        match key {
            KeyRef::Ascii(k) => names.push(k.as_str().to_owned()),
            KeyRef::Binary(k) => names.push(k.as_str().to_owned()),
        }
    }
    names
}

/// Whether a character is a header-name character.
fn is_name_char(c: char) -> (b: bool)
    ensures
        b == name_char(c),
{
    (c >= 'a' && c <= 'z') || (c >= 'A' && c <= 'Z') || (c >= '0' && c <= '9') || c == '!' || c == '#'
        || c == '$' || c == '%' || c == '&' || c == '\'' || c == '*' || c == '+' || c == '-' || c == '.'
        || c == '^' || c == '_' || c == '`' || c == '|' || c == '~'
}

/// Whether a carrier stores and finds text under `key`.
pub fn is_header_key(key: &str) -> (b: bool)
    ensures
        b == (header_key(key@) is Some),
{
    let n = key.unicode_len();
    if n == 0 || n > KEY_LIMIT {
        return false;
    }
    let mut i: usize = 0;
    while i < n
        invariant
            i <= n,
            n == key@.len(),
            forall|j: int| 0 <= j < i ==> name_char(#[trigger] key@[j]),
        decreases n - i,
    {
        if !is_name_char(key.get_char(i)) {
            return false;
        }
        i = i + 1;
    }
    if n >= 4 {
        let c1 = key.get_char(n - 4);
        let c2 = key.get_char(n - 3);
        let c3 = key.get_char(n - 2);
        let c4 = key.get_char(n - 1);
        let low = Ghost(lowered(key@));
        assert(low@[n - 4] == lower_char(c1) && low@[n - 3] == lower_char(c2) && low@[n - 2] == lower_char(c3)
            && low@[n - 1] == lower_char(c4));
        assert(lower_char(c2) == 'b' <==> (c2 == 'b' || c2 == 'B'));
        assert(lower_char(c3) == 'i' <==> (c3 == 'i' || c3 == 'I'));
        assert(lower_char(c4) == 'n' <==> (c4 == 'n' || c4 == 'N'));
        if c1 == '-' && (c2 == 'b' || c2 == 'B') && (c3 == 'i' || c3 == 'I') && (c4 == 'n' || c4 == 'N') {
            return false;
        }
    }
    true
}

/// A key of 1 to 64 lower-case letters, digits and `_`.
pub open spec fn plain_key(k: Seq<char>) -> bool {
    0 < k.len() <= 64 && forall|i: int|
        0 <= i < k.len() ==> {
            let c = #[trigger] k[i];
            ('a' <= c && c <= 'z') || ('0' <= c && c <= '9') || c == '_'
        }
}

/// A plain key is stored and found under its own text.
pub proof fn lemma_plain_key(k: Seq<char>)
    requires
        plain_key(k),
    ensures
        header_key(k) == Some(k),
{
    assert(lowered(k) =~= k);
    assert forall|i: int| 0 <= i < k.len() implies name_char(#[trigger] k[i]) by {}
}

/// What a reader finds changes with a stored value as `entries_after_set`
/// says.
pub proof fn lemma_entries_after_store(values: Map<Seq<char>, Seq<Seq<char>>>, name: Seq<char>, value: Seq<char>)
    requires
        storable_text(value),
    ensures
        entries_of(values.insert(name, seq![value])) == entries_after_set(entries_of(values), name, value),
{
    let after = values.insert(name, seq![value]);
    assert(after[name][0] == value);
    assert(entries_of(after) =~= entries_after_set(entries_of(values), name, value));
}

/// A second store of the same value under the same key changes nothing: one
/// value stands under the key after the first, and the same one after the
/// second.
pub proof fn lemma_store_twice(values: Map<Seq<char>, Seq<Seq<char>>>, name: Seq<char>, value: Seq<char>)
    ensures
        values.insert(name, seq![value]).insert(name, seq![value]) == values.insert(name, seq![value]),
        held(values.insert(name, seq![value]), name) == 1,
        forall|other: Seq<char>|
            other != name ==> held(values.insert(name, seq![value]), other) == held(values, other),
{
    assert(values.insert(name, seq![value]).insert(name, seq![value]) =~= values.insert(name, seq![value]));
}

/// Whether `set` is sure to store `value` under `key` in `m`: the key is a
/// header key, the value is storable, and the carrier has fewer than
/// `CARRIER_ROOM` keys.
pub open spec fn stores(m: MetadataMap, key: Seq<char>, value: Seq<char>) -> bool {
    header_key(key) is Some && storable_text(value) && carrier_keys(m) < CARRIER_ROOM
}

/// Puts `value` under `key`, in place of every value that stood there; the
/// values under other keys stay as they were. Does nothing where the key is
/// no header key or the value is not storable. A carrier of `CARRIER_ROOM`
/// keys or more may refuse a value that it could take, and is then left as
/// it was.
pub fn set(m: &mut MetadataMap, key: &str, value: &str) -> (stored: bool)
    ensures
        stored ==> header_key(key@) is Some && storable_text(value@),
        stores(*old(m), key@, value@) ==> stored,
        carrier_values(*final(m)) == if stored {
            carrier_values(*old(m)).insert(header_key(key@).unwrap(), seq![value@])
        } else {
            carrier_values(*old(m))
        },
        carrier_entries(*final(m)) == if stored {
            entries_after_set(carrier_entries(*old(m)), header_key(key@).unwrap(), value@)
        } else {
            carrier_entries(*old(m))
        },
        carrier_size(*final(m)) == if stored {
            carrier_size(*old(m)) - held(carrier_values(*old(m)), header_key(key@).unwrap()) + 1
        } else {
            carrier_size(*old(m)) as int
        },
        carrier_keys(*final(m)) == if stored {
            keys_after_store(carrier_values(*old(m)), carrier_keys(*old(m)), header_key(key@).unwrap())
        } else {
            carrier_keys(*old(m))
        },
{
    if !is_header_key(key) {
        return false;
    }
    let stored = store(m, key, value);
    proof {
        if stored {
            lemma_entries_after_store(carrier_values(*old(m)), header_key(key@).unwrap(), value@);
        }
    }
    stored
}

/// Whether the carrier has fewer than `CARRIER_ROOM` keys, so that `set`
/// is sure to store a storable value under a header key.
pub fn has_room(m: &MetadataMap) -> (b: bool)
    ensures
        b == (carrier_keys(*m) < CARRIER_ROOM),
{
    m.keys_len() < CARRIER_ROOM
}

/// The first value under `key`, where it is readable text; later values
/// under the key do not count. `None` where the key is no header key or
/// nothing readable stands first under it.
pub fn get(m: &MetadataMap, key: &str) -> (r: Option<String>)
    ensures
        match r {
            Some(s) => header_key(key@) is Some && carrier_entries(*m).contains_key(header_key(key@).unwrap())
                && carrier_entries(*m)[header_key(key@).unwrap()] == s@ && readable_text(s@),
            None => header_key(key@) is None || !carrier_entries(*m).contains_key(header_key(key@).unwrap()),
        },
{
    if !is_header_key(key) {
        return None;
    }
    lookup(m, key)
}

/// The keys of a carrier in lower case, each once, in no stated order: the
/// keys under which values stand, for text and binary values alike, and
/// nothing else.
pub fn keys(m: &MetadataMap) -> (names: Vec<String>)
    ensures
        forall|i: int| 0 <= i < names@.len() ==> carrier_values(*m).contains_key(#[trigger] names@[i]@),
        forall|k: Seq<char>| #[trigger] carrier_values(*m).contains_key(k) ==> names_hold(names@, k),
        forall|k: Seq<char>| #[trigger] carrier_entries(*m).contains_key(k) ==> names_hold(names@, k),
        names_differ(names@),
        names@.len() == carrier_keys(*m),
{
    key_names(m)
}

} // verus!
