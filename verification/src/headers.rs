//! Header fields, kept in hyper's header map.
use vstd::prelude::*;
use vstd::string::*;

use crate::flow;
use crate::text;

verus! {

/// hyper's header map, opaque: what it holds is `header_entries`.
#[verifier::external_type_specification]
#[verifier::external_body]
#[verifier::reject_recursive_types(T)]
pub struct ExHeaderMap<T>(hyper::HeaderMap<T>);

/// hyper's header value, opaque.
#[verifier::external_type_specification]
#[verifier::external_body]
pub struct ExHeaderValue(hyper::header::HeaderValue);

/// The fields of a header map in the order it walks them: each name in lower case, with the
/// values it has in the order they were added.
pub uninterp spec fn header_entries(m: hyper::HeaderMap<hyper::header::HeaderValue>) -> Seq<
    (Seq<char>, Seq<Seq<u8>>),
>;

/// How many names a header map is sure to have room for when one more field is added.
pub const FIELD_CAPACITY: usize = 6553;

/// Where a name stands among the entries, or their number where it does not.
pub open spec fn position(entries: Seq<(Seq<char>, Seq<Seq<u8>>)>, name: Seq<char>) -> int
    decreases entries.len(),
{
    if entries.len() == 0 {
        0
    } else if entries[0].0 == name {
        0
    } else {
        1 + position(entries.subrange(1, entries.len() as int), name)
    }
}

/// Whether a name has a value.
pub open spec fn present(entries: Seq<(Seq<char>, Seq<Seq<u8>>)>, name: Seq<char>) -> bool {
    position(entries, name) < entries.len()
}

/// The values of a name.
pub open spec fn values(entries: Seq<(Seq<char>, Seq<Seq<u8>>)>, name: Seq<char>) -> Seq<Seq<u8>> {
    if present(entries, name) {
        entries[position(entries, name)].1
    } else {
        Seq::empty()
    }
}

/// The first value of a name.
pub open spec fn first_value(entries: Seq<(Seq<char>, Seq<Seq<u8>>)>, name: Seq<char>) -> Option<Seq<u8>> {
    if values(entries, name).len() > 0 {
        Some(values(entries, name)[0])
    } else {
        None
    }
}

/// The entries once `value` has become the only value of `name`.
pub open spec fn with_inserted(
    entries: Seq<(Seq<char>, Seq<Seq<u8>>)>,
    name: Seq<char>,
    value: Seq<u8>,
) -> Seq<(Seq<char>, Seq<Seq<u8>>)> {
    if present(entries, name) {
        entries.update(position(entries, name), (name, seq![value]))
    } else {
        entries.push((name, seq![value]))
    }
}

/// The entries once `value` has been added behind the values of `name`.
pub open spec fn with_appended(
    entries: Seq<(Seq<char>, Seq<Seq<u8>>)>,
    name: Seq<char>,
    value: Seq<u8>,
) -> Seq<(Seq<char>, Seq<Seq<u8>>)> {
    if present(entries, name) {
        entries.update(position(entries, name), (name, values(entries, name).push(value)))
    } else {
        entries.push((name, seq![value]))
    }
}

/// The entries once `name` has left: the last entry takes its place.
pub open spec fn with_removed(entries: Seq<(Seq<char>, Seq<Seq<u8>>)>, name: Seq<char>) -> Seq<
    (Seq<char>, Seq<Seq<u8>>),
> {
    if present(entries, name) {
        entries.update(position(entries, name), entries.last()).drop_last()
    } else {
        entries
    }
}

/// The fields one by one, each value with its name.
pub open spec fn flat(entries: Seq<(Seq<char>, Seq<Seq<u8>>)>) -> Seq<(Seq<char>, Seq<u8>)>
    decreases entries.len(),
{
    if entries.len() == 0 {
        Seq::empty()
    } else {
        flat(entries.drop_last()) + entries.last().1.map_values(|v: Seq<u8>| (entries.last().0, v))
    }
}

/// Whether a character may stand in a header name.
pub open spec fn name_char(c: char) -> bool {
    ||| '0' <= c <= '9'
    ||| 'a' <= c <= 'z'
    ||| 'A' <= c <= 'Z'
    ||| c == '!'
    ||| c == '#'
    ||| c == '$'
    ||| c == '%'
    ||| c == '&'
    ||| c == '\''
    ||| c == '*'
    ||| c == '+'
    ||| c == '-'
    ||| c == '.'
    ||| c == '^'
    ||| c == '_'
    ||| c == '`'
    ||| c == '|'
    ||| c == '~'
}

/// Whether a text is a header name.
pub open spec fn valid_name(s: Seq<char>) -> bool {
    1 <= s.len() <= 65535 && forall|i: int| 0 <= i < s.len() ==> name_char(#[trigger] s[i])
}

/// Whether a byte may stand in a header value.
pub open spec fn value_byte(b: u8) -> bool {
    b >= 32 && b != 127 || b == 9
}

/// Whether some bytes are a header value.
pub open spec fn valid_value(v: Seq<u8>) -> bool {
    forall|i: int| 0 <= i < v.len() ==> value_byte(#[trigger] v[i])
}

/// Whether a byte is visible ASCII, a space or a tab.
pub open spec fn text_byte(b: u8) -> bool {
    32 <= b < 127 || b == 9
}

/// The text of a header value, which only a value of visible ASCII has.
pub open spec fn value_text(v: Seq<u8>) -> Option<Seq<char>> {
    if forall|i: int| 0 <= i < v.len() ==> text_byte(#[trigger] v[i]) {
        Some(v.map_values(|b: u8| b as char))
    } else {
        None
    }
}

/// The text of an optional header value.
pub open spec fn value_text_opt(v: Option<Seq<u8>>) -> Option<Seq<char>> {
    match v {
        Some(b) => value_text(b),
        None => None,
    }
}

/// `HeaderMap::new` makes a map without fields.
#[verifier::external_body]
pub(crate) fn new_headers() -> (r: hyper::HeaderMap)
    ensures
        header_entries(r) == Seq::<(Seq<char>, Seq<Seq<u8>>)>::empty(),
{
    hyper::HeaderMap::new()
}

/// `HeaderMap::get` looks a name up whatever the case of its letters and gives the first value.
#[verifier::external_body]
pub(crate) fn get(m: &hyper::HeaderMap, name: &str) -> (r: Option<Vec<u8>>)
    ensures
        match r {
            Some(v) => first_value(header_entries(*m), text::lower(name@)) == Some(v@),
            None => first_value(header_entries(*m), text::lower(name@)) is None,
        },
{
    m.get(name).map(|v| v.as_bytes().to_vec())
}

/// `HeaderMap::get_all` gives every value of a name in the order they were added.
#[verifier::external_body]
pub(crate) fn get_all(m: &hyper::HeaderMap, name: &str) -> (r: Vec<Vec<u8>>)
    ensures
        r@.map_values(|v: Vec<u8>| v@) == values(header_entries(*m), text::lower(name@)),
{
    m.get_all(name).iter().map(|v| v.as_bytes().to_vec()).collect()
}

/// `HeaderMap::insert` makes a value the only one of its name. The name goes through
/// `HeaderName::from_bytes`, which writes it in lower case, and the value through
/// `HeaderValue::from_bytes`; the requirements are what those two accept. A map holding at most
/// `FIELD_CAPACITY` names has room for the field.
#[verifier::external_body]
pub(crate) fn insert(m: &mut hyper::HeaderMap, name: &str, value: &[u8])
    requires
        valid_name(name@),
        valid_value(value@),
        header_entries(*old(m)).len() <= FIELD_CAPACITY,
    ensures
        header_entries(*final(m)) == with_inserted(header_entries(*old(m)), text::lower(name@), value@),
{
    let name = hyper::header::HeaderName::from_bytes(name.as_bytes()).unwrap();
    m.insert(name, hyper::header::HeaderValue::from_bytes(value).unwrap());
}

/// `HeaderMap::try_append` adds a value behind those of its name, or reports that the map is
/// full and leaves its fields alone. A map holding at most `FIELD_CAPACITY` names is not full.
/// Name and value are converted as for `insert`. When a larger map is full is not stated: it
/// depends on how the names hash.
#[verifier::external_body]
pub(crate) fn append(m: &mut hyper::HeaderMap, name: &str, value: &[u8]) -> (r: bool)
    requires
        valid_name(name@),
        valid_value(value@),
    ensures
        header_entries(*old(m)).len() <= FIELD_CAPACITY ==> r,
        r ==> header_entries(*final(m)) == with_appended(header_entries(*old(m)), text::lower(name@), value@),
        !r ==> header_entries(*final(m)) == header_entries(*old(m)),
{
    let name = hyper::header::HeaderName::from_bytes(name.as_bytes()).unwrap();
    m.try_append(name, hyper::header::HeaderValue::from_bytes(value).unwrap()).is_ok()
}

/// `HeaderMap::remove` takes a name out with all its values and tells whether it was there.
#[verifier::external_body]
pub(crate) fn remove(m: &mut hyper::HeaderMap, name: &str) -> (r: bool)
    ensures
        header_entries(*final(m)) == with_removed(header_entries(*old(m)), text::lower(name@)),
        r == present(header_entries(*old(m)), text::lower(name@)),
{
    m.remove(name).is_some()
}

/// `HeaderMap::iter` walks the fields entry by entry, the values of a name together. A map holds
/// valid names in lower case and valid values only.
#[verifier::external_body]
pub(crate) fn fields(m: &hyper::HeaderMap) -> (r: Vec<(String, Vec<u8>)>)
    ensures
        r@.map_values(|f: (String, Vec<u8>)| (f.0@, f.1@)) == flat(header_entries(*m)),
        forall|i: int|
            0 <= i < r@.len() ==> valid_name((#[trigger] r@[i]).0@) && text::lower(r@[i].0@) == r@[i].0@ && valid_value(
                r@[i].1@,
            ),
{
    m.iter().map(|(k, v)| (k.as_str().to_string(), v.as_bytes().to_vec())).collect()
}

/// Cloning a `HeaderMap` copies its fields.
#[verifier::external_body]
pub(crate) fn copy(m: &hyper::HeaderMap) -> (r: hyper::HeaderMap)
    ensures
        header_entries(r) == header_entries(*m),
{
    m.clone()
}

/// What `String::from_utf8_lossy` makes of some bytes.
pub uninterp spec fn lossy_text(bytes: Seq<u8>) -> Seq<char>;

/// `String::from_utf8_lossy` decodes bytes as UTF-8, writing replacement characters where they
/// are not; valid UTF-8 decodes to its own text.
#[verifier::external_body]
pub(crate) fn lossy(bytes: &[u8]) -> (r: String)
    ensures
        r@ == lossy_text(bytes@),
        vstd::utf8::valid_utf8(bytes@) ==> r@ == vstd::utf8::decode_utf8(bytes@),
{
    String::from_utf8_lossy(bytes).to_string()
}

fn is_name_char(c: char) -> (r: bool)
    ensures
        r == name_char(c),
{
    ('0' <= c && c <= '9') || ('a' <= c && c <= 'z') || ('A' <= c && c <= 'Z') || c == '!' || c == '#' || c == '$'
        || c == '%' || c == '&' || c == '\'' || c == '*' || c == '+' || c == '-' || c == '.' || c == '^' || c == '_'
        || c == '`' || c == '|' || c == '~'
}

/// Whether a text is a header name.
pub fn is_valid_name(s: &str) -> (r: bool)
    ensures
        r == valid_name(s@),
{
    let chars = text::chars_of(s);
    if chars.len() == 0 || chars.len() > 65535 {
        return false;
    }
    let mut i: usize = 0;
    while i < chars.len()
        invariant
            i <= chars@.len(),
            chars@ == s@,
            forall|j: int| 0 <= j < i ==> name_char(#[trigger] s@[j]),
        decreases chars.len() - i,
    {
        if !is_name_char(chars[i]) {
            assert(!name_char(s@[i as int]));
            return false;
        }
        i = i + 1;
    }
    true
}

/// Whether some bytes are a header value.
pub fn is_valid_value(v: &[u8]) -> (r: bool)
    ensures
        r == valid_value(v@),
        r <==> forall|i: int| 0 <= i < v@.len() ==> #[trigger] v@[i] == 9 || 32 <= v@[i] < 127 || v@[i] > 127,
{
    proof {
        law_values_hold_no_line_breaks(v@);
    }
    let mut i: usize = 0;
    while i < v.len()
        invariant
            i <= v@.len(),
            forall|j: int| 0 <= j < i ==> value_byte(#[trigger] v@[j]),
        decreases v.len() - i,
    {
        let b: u8 = v[i];
        if !(b >= 32 && b != 127 || b == 9) {
            assert(!value_byte(v@[i as int]));
            return false;
        }
        i = i + 1;
    }
    true
}

/// The text of a header value, which only a value of visible ASCII has.
pub fn to_text(v: &[u8]) -> (r: Option<String>)
    ensures
        text::text_opt(r) == value_text(v@),
        r is Some <==> forall|i: int| 0 <= i < v@.len() ==> 32 <= #[trigger] v@[i] < 127 || v@[i] == 9,
        r matches Some(t) ==> t@.len() == v@.len() && forall|i: int|
            0 <= i < v@.len() ==> #[trigger] t@[i] as int == v@[i] as int,
{
    proof {
        law_visible_values_are_text(v@);
    }
    let mut out = String::new();
    let mut i: usize = 0;
    while i < v.len()
        invariant
            i <= v@.len(),
            forall|j: int| 0 <= j < i ==> text_byte(#[trigger] v@[j]),
            out@ == v@.subrange(0, i as int).map_values(|b: u8| b as char),
        decreases v.len() - i,
    {
        let b: u8 = v[i];
        if !((32 <= b && b < 127) || b == 9) {
            assert(!text_byte(v@[i as int]));
            return None;
        }
        out.push(b as char);
        assert(v@.subrange(0, i + 1).map_values(|b: u8| b as char) =~= v@.subrange(0, i as int).map_values(
            |b: u8| b as char,
        ).push(b as char));
        i = i + 1;
    }
    assert(v@.subrange(0, i as int) =~= v@);
    Some(out)
}

/// The text of the first value of a name.
pub fn get_text(m: &hyper::HeaderMap, name: &str) -> (r: Option<String>)
    ensures
        text::text_opt(r) == value_text_opt(first_value(header_entries(*m), text::lower(name@))),
{
    match get(m, name) {
        Some(v) => to_text(v.as_slice()),
        None => None,
    }
}

/// Whether a name has a value.
pub fn contains(m: &hyper::HeaderMap, name: &str) -> (r: bool)
    ensures
        r == (first_value(header_entries(*m), text::lower(name@)) is Some),
{
    get(m, name).is_some()
}

/// The fields as a record lists them: each value read as UTF-8.
pub open spec fn listed(entries: Seq<(Seq<char>, Seq<Seq<u8>>)>) -> Seq<(Seq<char>, Seq<char>)> {
    flat(entries).map_values(|f: (Seq<char>, Seq<u8>)| (f.0, lossy_text(f.1)))
}

/// The fields as a record lists them.
pub fn list(m: &hyper::HeaderMap) -> (r: Vec<(String, String)>)
    ensures
        flow::pairs(r@) == listed(header_entries(*m)),
        r@.len() == flat(header_entries(*m)).len(),
        forall|i: int|
            0 <= i < r@.len() ==> (#[trigger] r@[i]).0@ == flat(header_entries(*m))[i].0 && r@[i].1@ == lossy_text(
                flat(header_entries(*m))[i].1,
            ),
{
    let all = fields(m);
    let ghost seen = all@.map_values(|f: (String, Vec<u8>)| (f.0@, f.1@));
    let mut out: Vec<(String, String)> = Vec::new();
    let mut i: usize = 0;
    while i < all.len()
        invariant
            i <= all@.len(),
            out@.len() == i,
            forall|j: int|
                0 <= j < i ==> (#[trigger] out@[j]).0@ == all@[j].0@ && out@[j].1@ == lossy_text(all@[j].1@),
        decreases all.len() - i,
    {
        out.push((text::copy(all[i].0.as_str()), lossy(all[i].1.as_slice())));
        i = i + 1;
    }
    proof {
        assert(seen == flat(header_entries(*m)));
        assert(flow::pairs(out@) =~= listed(header_entries(*m))) by {
            assert forall|j: int| 0 <= j < out@.len() implies flow::pairs(out@)[j] == listed(header_entries(*m))[j] by {
                assert(out@[j].0@ == all@[j].0@);
                assert(seen[j] == (all@[j].0@, all@[j].1@));
            }
        }
    }
    out
}

/// Whether a field of a record can be sent.
pub open spec fn sendable(f: (Seq<char>, Seq<char>)) -> bool {
    valid_name(f.0) && valid_value(vstd::utf8::encode_utf8(f.1))
}

/// Whether a field of a record can be sent.
pub fn is_sendable(name: &str, value: &str) -> (r: bool)
    ensures
        r == sendable((name@, value@)),
{
    is_valid_name(name) && is_valid_value(value.as_bytes())
}

/// The entries once the sendable fields of a list have been added one after the other.
pub open spec fn all_appended(
    entries: Seq<(Seq<char>, Seq<Seq<u8>>)>,
    list: Seq<(Seq<char>, Seq<char>)>,
) -> Seq<(Seq<char>, Seq<Seq<u8>>)>
    decreases list.len(),
{
    if list.len() == 0 {
        entries
    } else {
        let before = all_appended(entries, list.drop_last());
        if sendable(list.last()) {
            with_appended(before, text::lower(list.last().0), vstd::utf8::encode_utf8(list.last().1))
        } else {
            before
        }
    }
}

/// The entries once each sendable field of a list has replaced those of its name.
pub open spec fn all_inserted(
    entries: Seq<(Seq<char>, Seq<Seq<u8>>)>,
    list: Seq<(Seq<char>, Seq<char>)>,
) -> Seq<(Seq<char>, Seq<Seq<u8>>)>
    decreases list.len(),
{
    if list.len() == 0 {
        entries
    } else {
        let before = all_inserted(entries, list.drop_last());
        if sendable(list.last()) {
            with_inserted(before, text::lower(list.last().0), vstd::utf8::encode_utf8(list.last().1))
        } else {
            before
        }
    }
}

/// A name's position is that of its first entry, or the number of entries.
pub proof fn lemma_position(entries: Seq<(Seq<char>, Seq<Seq<u8>>)>, name: Seq<char>)
    ensures
        0 <= position(entries, name) <= entries.len(),
        present(entries, name) ==> entries[position(entries, name)].0 == name,
        forall|j: int| 0 <= j < position(entries, name) ==> (#[trigger] entries[j]).0 != name,
    decreases entries.len(),
{
    if entries.len() > 0 && entries[0].0 != name {
        let rest = entries.subrange(1, entries.len() as int);
        lemma_position(rest, name);
        assert forall|j: int| 0 <= j < position(entries, name) implies (#[trigger] entries[j]).0 != name by {
            if j > 0 {
                assert(rest[j - 1] == entries[j]);
            }
        }
    }
}

/// Add the sendable fields of a list one after the other; `false` where the map is full, which then
/// holds those before the one it had no room for.
pub fn append_list(m: &mut hyper::HeaderMap, list: &[(String, String)]) -> (r: bool)
    ensures
        header_entries(*old(m)).len() + list@.len() <= FIELD_CAPACITY ==> r,
        r ==> header_entries(*final(m)) == all_appended(header_entries(*old(m)), flow::pairs(list@)),
        !r ==> exists|n: int|
            0 <= n < list@.len() && header_entries(*final(m)) == all_appended(
                header_entries(*old(m)),
                #[trigger] flow::pairs(list@).subrange(0, n),
            ),
{
    let ghost start = header_entries(*m);
    let mut i: usize = 0;
    while i < list.len()
        invariant
            i <= list@.len(),
            start == header_entries(*old(m)),
            header_entries(*m) == all_appended(start, flow::pairs(list@).subrange(0, i as int)),
            header_entries(*m).len() <= start.len() + i,
        decreases list.len() - i,
    {
        let ghost prefix = flow::pairs(list@).subrange(0, i + 1);
        proof {
            assert(prefix.drop_last() =~= flow::pairs(list@).subrange(0, i as int));
            assert(prefix.last() == (list@[i as int].0@, list@[i as int].1@));
            lemma_position(header_entries(*m), text::lower(list@[i as int].0@));
        }
        if is_sendable(list[i].0.as_str(), list[i].1.as_str()) {
            if !append(m, list[i].0.as_str(), list[i].1.as_str().as_bytes()) {
                return false;
            }
        }
        i = i + 1;
    }
    assert(flow::pairs(list@).subrange(0, i as int) =~= flow::pairs(list@));
    true
}

/// Let each sendable field of a list replace those of its name.
pub fn insert_list(m: &mut hyper::HeaderMap, list: &[(String, String)])
    requires
        header_entries(*old(m)).len() + list@.len() <= FIELD_CAPACITY,
    ensures
        header_entries(*final(m)) == all_inserted(header_entries(*old(m)), flow::pairs(list@)),
        header_entries(*final(m)).len() <= header_entries(*old(m)).len() + list@.len(),
{
    let ghost start = header_entries(*m);
    let mut i: usize = 0;
    while i < list.len()
        invariant
            i <= list@.len(),
            start == header_entries(*old(m)),
            start.len() + list@.len() <= FIELD_CAPACITY,
            header_entries(*m) == all_inserted(start, flow::pairs(list@).subrange(0, i as int)),
            header_entries(*m).len() <= start.len() + i,
        decreases list.len() - i,
    {
        let ghost prefix = flow::pairs(list@).subrange(0, i + 1);
        proof {
            assert(prefix.drop_last() =~= flow::pairs(list@).subrange(0, i as int));
            assert(prefix.last() == (list@[i as int].0@, list@[i as int].1@));
            lemma_position(header_entries(*m), text::lower(list@[i as int].0@));
        }
        if is_sendable(list[i].0.as_str(), list[i].1.as_str()) {
            insert(m, list[i].0.as_str(), list[i].1.as_str().as_bytes());
        }
        i = i + 1;
    }
    assert(flow::pairs(list@).subrange(0, i as int) =~= flow::pairs(list@));
}

proof fn lemma_position_is(entries: Seq<(Seq<char>, Seq<Seq<u8>>)>, name: Seq<char>, p: int)
    requires
        0 <= p <= entries.len(),
        p < entries.len() ==> entries[p].0 == name,
        forall|j: int| 0 <= j < p ==> (#[trigger] entries[j]).0 != name,
    ensures
        position(entries, name) == p,
    decreases entries.len(),
{
    if entries.len() > 0 && p > 0 {
        assert(entries[0].0 != name);
        let rest = entries.subrange(1, entries.len() as int);
        assert forall|j: int| 0 <= j < p - 1 implies (#[trigger] rest[j]).0 != name by {
            assert(rest[j] == entries[j + 1]);
        }
        lemma_position_is(rest, name, p - 1);
    }
}

/// Inserting a field makes its value the only one of its name and leaves the other names alone.
pub proof fn law_insert_replaces(
    entries: Seq<(Seq<char>, Seq<Seq<u8>>)>,
    name: Seq<char>,
    value: Seq<u8>,
    other: Seq<char>,
)
    ensures
        values(with_inserted(entries, name, value), name) == seq![value],
        other != name ==> values(with_inserted(entries, name, value), other) == values(entries, other),
{
    lemma_position(entries, name);
    lemma_position(entries, other);
    let after = with_inserted(entries, name, value);
    let p = position(entries, name);
    assert forall|j: int| 0 <= j < p implies (#[trigger] after[j]).0 != name by {
        assert(entries[j].0 != name);
    }
    lemma_position_is(after, name, p);
    if other != name {
        let q = position(entries, other);
        if q < entries.len() {
            assert forall|j: int| 0 <= j < q implies (#[trigger] after[j]).0 != other by {
                assert(entries[j].0 != other);
            }
            lemma_position_is(after, other, q);
        } else {
            assert forall|j: int| 0 <= j < after.len() implies (#[trigger] after[j]).0 != other by {
                if j < entries.len() {
                    assert(entries[j].0 != other);
                }
            }
            lemma_position_is(after, other, after.len() as int);
        }
    }
}

/// Of the fields of a list that are laid down one over the other, the last of a name is the one
/// that stays.
pub proof fn law_last_field_stays(
    entries: Seq<(Seq<char>, Seq<Seq<u8>>)>,
    list: Seq<(Seq<char>, Seq<char>)>,
    i: int,
)
    requires
        0 <= i < list.len(),
        sendable(list[i]),
        forall|j: int| i < j < list.len() ==> text::lower((#[trigger] list[j]).0) != text::lower(list[i].0),
    ensures
        values(all_inserted(entries, list), text::lower(list[i].0)) == seq![vstd::utf8::encode_utf8(list[i].1)],
    decreases list.len(),
{
    let rest = list.drop_last();
    let before = all_inserted(entries, rest);
    let last = list.last();
    let name = text::lower(list[i].0);
    if i == list.len() - 1 {
        law_insert_replaces(before, name, vstd::utf8::encode_utf8(last.1), name);
    } else {
        assert forall|j: int| i < j < rest.len() implies text::lower((#[trigger] rest[j]).0) != text::lower(
            rest[i].0,
        ) by {
            assert(rest[j] == list[j]);
        }
        law_last_field_stays(entries, rest, i);
        assert(text::lower(list[list.len() - 1].0) != name);
        if sendable(last) {
            law_insert_replaces(before, text::lower(last.0), vstd::utf8::encode_utf8(last.1), name);
        }
    }
}

/// The values that the sendable fields of a list have under a name, in order.
pub open spec fn listed_values(list: Seq<(Seq<char>, Seq<char>)>, name: Seq<char>) -> Seq<Seq<u8>>
    decreases list.len(),
{
    if list.len() == 0 {
        Seq::empty()
    } else {
        let rest = listed_values(list.drop_last(), name);
        if sendable(list.last()) && text::lower(list.last().0) == name {
            rest.push(vstd::utf8::encode_utf8(list.last().1))
        } else {
            rest
        }
    }
}

/// Adding a value puts it behind those of its name and leaves the other names alone.
pub proof fn lemma_appended_values(
    entries: Seq<(Seq<char>, Seq<Seq<u8>>)>,
    added: Seq<char>,
    value: Seq<u8>,
    name: Seq<char>,
)
    ensures
        values(with_appended(entries, added, value), name) == (if added == name {
            values(entries, name).push(value)
        } else {
            values(entries, name)
        }),
{
    let after = with_appended(entries, added, value);
    lemma_position(entries, added);
    lemma_position(entries, name);
    let p = position(entries, name);
    if p < entries.len() {
        assert(after[p].0 == name);
        assert forall|j: int| 0 <= j < p implies (#[trigger] after[j]).0 != name by {
            assert(after[j].0 == entries[j].0);
        }
        lemma_position_is(after, name, p);
    } else {
        assert forall|j: int| 0 <= j < entries.len() implies (#[trigger] after[j]).0 != name by {
            assert(after[j].0 == entries[j].0);
        }
        if added == name {
            lemma_position_is(after, name, p);
            assert(values(entries, name).push(value) =~= seq![value]);
        } else {
            lemma_position_is(after, name, after.len() as int);
        }
    }
}

/// However fields are added, each name has the values that were listed under it, in their order,
/// behind those it had before.
pub proof fn law_fields_keep_their_values(
    entries: Seq<(Seq<char>, Seq<Seq<u8>>)>,
    list: Seq<(Seq<char>, Seq<char>)>,
    name: Seq<char>,
)
    ensures
        values(all_appended(entries, list), name) == values(entries, name) + listed_values(list, name),
    decreases list.len(),
{
    if list.len() == 0 {
        assert(values(entries, name) + listed_values(list, name) =~= values(entries, name));
    } else {
        law_fields_keep_their_values(entries, list.drop_last(), name);
        let before = all_appended(entries, list.drop_last());
        if sendable(list.last()) {
            lemma_appended_values(before, text::lower(list.last().0), vstd::utf8::encode_utf8(list.last().1), name);
        }
        assert(values(all_appended(entries, list), name) =~= values(entries, name) + listed_values(list, name));
    }
}

/// The values some fields have under a name, in order.
pub open spec fn field_values(fields: Seq<(Seq<char>, Seq<u8>)>, name: Seq<char>) -> Seq<Seq<u8>>
    decreases fields.len(),
{
    if fields.len() == 0 {
        Seq::empty()
    } else {
        let rest = field_values(fields.drop_last(), name);
        if fields.last().0 == name {
            rest.push(fields.last().1)
        } else {
            rest
        }
    }
}

/// Whether each name has one entry only.
pub open spec fn distinct_names(entries: Seq<(Seq<char>, Seq<Seq<u8>>)>) -> bool {
    forall|i: int, j: int| 0 <= i < j < entries.len() ==> (#[trigger] entries[i]).0 != (#[trigger] entries[j]).0
}

proof fn lemma_field_values_concat(a: Seq<(Seq<char>, Seq<u8>)>, b: Seq<(Seq<char>, Seq<u8>)>, name: Seq<char>)
    ensures
        field_values(a + b, name) == field_values(a, name) + field_values(b, name),
    decreases b.len(),
{
    if b.len() == 0 {
        assert(a + b =~= a);
        assert(field_values(a, name) + field_values(b, name) =~= field_values(a, name));
    } else {
        assert((a + b).drop_last() =~= a + b.drop_last());
        lemma_field_values_concat(a, b.drop_last(), name);
        assert(field_values(a + b, name) =~= field_values(a, name) + field_values(b, name));
    }
}

proof fn lemma_values_of_one_name(own: Seq<char>, list: Seq<Seq<u8>>, name: Seq<char>)
    ensures
        field_values(list.map_values(|v: Seq<u8>| (own, v)), name) == (if own == name {
            list
        } else {
            Seq::empty()
        }),
    decreases list.len(),
{
    let fields = list.map_values(|v: Seq<u8>| (own, v));
    if list.len() > 0 {
        lemma_values_of_one_name(own, list.drop_last(), name);
        assert(fields.drop_last() =~= list.drop_last().map_values(|v: Seq<u8>| (own, v)));
        assert(list.drop_last().push(list.last()) =~= list);
    } else {
        assert(list =~= Seq::empty());
    }
}

/// Walking the fields one by one meets under each name the values it has, in their order.
pub proof fn law_walking_meets_every_value(entries: Seq<(Seq<char>, Seq<Seq<u8>>)>, name: Seq<char>)
    requires
        distinct_names(entries),
    ensures
        field_values(flat(entries), name) == values(entries, name),
    decreases entries.len(),
{
    if entries.len() == 0 {
        lemma_position(entries, name);
    } else {
        let rest = entries.drop_last();
        let last = entries.last();
        assert forall|i: int, j: int| 0 <= i < j < rest.len() implies (#[trigger] rest[i]).0 != (#[trigger] rest[j]).0 by {
            assert(entries[i].0 != entries[j].0);
        }
        law_walking_meets_every_value(rest, name);
        lemma_field_values_concat(flat(rest), last.1.map_values(|v: Seq<u8>| (last.0, v)), name);
        lemma_values_of_one_name(last.0, last.1, name);
        lemma_position(rest, name);
        lemma_position(entries, name);
        let p = position(rest, name);
        if last.0 == name {
            assert forall|j: int| 0 <= j < rest.len() implies (#[trigger] entries[j]).0 != name by {
                assert(entries[j].0 != entries[entries.len() - 1].0);
            }
            if present(rest, name) {
                assert(rest[p].0 == name);
                assert(entries[p].0 != name);
            }
            lemma_position_is(entries, name, entries.len() - 1);
            assert(values(rest, name) + last.1 =~= values(entries, name));
        } else {
            assert forall|j: int| 0 <= j < p implies (#[trigger] entries[j]).0 != name by {
                assert(rest[j] == entries[j]);
            }
            if present(rest, name) {
                assert(entries[p] == rest[p]);
                lemma_position_is(entries, name, p);
            } else {
                assert forall|j: int| 0 <= j < entries.len() implies (#[trigger] entries[j]).0 != name by {
                    if j < rest.len() {
                        assert(rest[j] == entries[j]);
                    }
                }
                lemma_position_is(entries, name, entries.len() as int);
            }
            assert(values(rest, name) + Seq::<Seq<u8>>::empty() =~= values(entries, name));
        }
    }
}

/// A record lists every field of a head, in the order of the head: the names as they are, the values
/// read as text.
pub proof fn law_records_list_every_field(entries: Seq<(Seq<char>, Seq<Seq<u8>>)>, i: int)
    requires
        0 <= i < flat(entries).len(),
    ensures
        listed(entries).len() == flat(entries).len(),
        listed(entries)[i].0 == flat(entries)[i].0,
        listed(entries)[i].1 == lossy_text(flat(entries)[i].1),
{
}

/// Every value of every name is among the fields that are walked.
pub proof fn law_every_value_is_walked(entries: Seq<(Seq<char>, Seq<Seq<u8>>)>, e: int, v: int)
    requires
        0 <= e < entries.len(),
        0 <= v < entries[e].1.len(),
    ensures
        flat(entries).contains((entries[e].0, entries[e].1[v])),
    decreases entries.len(),
{
    let rest = entries.drop_last();
    let own = entries.last().1.map_values(|x: Seq<u8>| (entries.last().0, x));
    if e < rest.len() {
        law_every_value_is_walked(rest, e, v);
        let at = choose|k: int| 0 <= k < flat(rest).len() && flat(rest)[k] == (entries[e].0, entries[e].1[v]);
        assert(flat(entries)[at] == flat(rest)[at]);
    } else {
        assert(flat(entries)[flat(rest).len() + v] == own[v]);
    }
}

/// A sendable field of a list is there once the list has been added to a head, whatever stood there
/// before and whatever else is added.
pub proof fn law_added_fields_are_there(
    entries: Seq<(Seq<char>, Seq<Seq<u8>>)>,
    list: Seq<(Seq<char>, Seq<char>)>,
    i: int,
)
    requires
        0 <= i < list.len(),
        valid_name(list[i].0),
        valid_value(vstd::utf8::encode_utf8(list[i].1)),
    ensures
        values(all_appended(entries, list), text::lower(list[i].0)).contains(vstd::utf8::encode_utf8(list[i].1)),
    decreases list.len(),
{
    let rest = list.drop_last();
    let name = text::lower(list[i].0);
    let value = vstd::utf8::encode_utf8(list[i].1);
    let before = all_appended(entries, rest);
    let last = list.last();
    if i == list.len() - 1 {
        lemma_appended_values(before, name, value, name);
        let all = values(all_appended(entries, list), name);
        assert(all[all.len() - 1] == value);
    } else {
        law_added_fields_are_there(entries, rest, i);
        let at = choose|k: int| 0 <= k < values(before, name).len() && values(before, name)[k] == value;
        if sendable(last) {
            lemma_appended_values(before, text::lower(last.0), vstd::utf8::encode_utf8(last.1), name);
        }
        assert(values(all_appended(entries, list), name)[at] == value);
    }
}

/// A value that is there once a list has been added to a head was there before, or a field of the
/// list brought it.
pub proof fn law_nothing_else_is_added(
    entries: Seq<(Seq<char>, Seq<Seq<u8>>)>,
    list: Seq<(Seq<char>, Seq<char>)>,
    name: Seq<char>,
    value: Seq<u8>,
)
    requires
        values(all_appended(entries, list), name).contains(value),
        !values(entries, name).contains(value),
    ensures
        exists|i: int|
            0 <= i < list.len() && text::lower((#[trigger] list[i]).0) == name && vstd::utf8::encode_utf8(list[i].1)
                == value,
    decreases list.len(),
{
    if list.len() > 0 {
        let rest = list.drop_last();
        let before = all_appended(entries, rest);
        let last = list[list.len() - 1];
        if sendable(last) {
            lemma_appended_values(before, text::lower(last.0), vstd::utf8::encode_utf8(last.1), name);
        }
        if values(before, name).contains(value) {
            law_nothing_else_is_added(entries, rest, name, value);
            let i = choose|i: int|
                0 <= i < rest.len() && text::lower((#[trigger] rest[i]).0) == name && vstd::utf8::encode_utf8(
                    rest[i].1,
                ) == value;
            assert(list[i] == rest[i]);
        } else {
            let all = values(all_appended(entries, list), name);
            let k = choose|k: int| 0 <= k < all.len() && all[k] == value;
            if k < values(before, name).len() {
                assert(values(before, name)[k] == value);
            }
            assert(text::lower(last.0) == name && vstd::utf8::encode_utf8(last.1) == value);
        }
    }
}

/// Once a list has been laid over a head each name has the last value the list gives it, or what it
/// had where the list gives it none.
pub proof fn law_laid_lists_decide(
    entries: Seq<(Seq<char>, Seq<Seq<u8>>)>,
    list: Seq<(Seq<char>, Seq<char>)>,
    name: Seq<char>,
)
    ensures
        values(all_inserted(entries, list), name) == (if listed_values(list, name).len() == 0 {
            values(entries, name)
        } else {
            seq![listed_values(list, name).last()]
        }),
    decreases list.len(),
{
    if list.len() > 0 {
        let rest = list.drop_last();
        let last = list.last();
        law_laid_lists_decide(entries, rest, name);
        if sendable(last) {
            law_insert_replaces(
                all_inserted(entries, rest),
                text::lower(last.0),
                vstd::utf8::encode_utf8(last.1),
                name,
            );
        }
    }
}

/// A name that is taken out of a head is gone, and the others keep their values.
pub proof fn law_removed_names_are_gone(entries: Seq<(Seq<char>, Seq<Seq<u8>>)>, name: Seq<char>, other: Seq<char>)
    requires
        distinct_names(entries),
    ensures
        values(with_removed(entries, name), name).len() == 0,
        other != name ==> values(with_removed(entries, name), other) == values(entries, other),
{
    let after = with_removed(entries, name);
    let p = position(entries, name);
    lemma_position(entries, name);
    lemma_position(entries, other);
    lemma_position(after, name);
    if present(entries, name) {
        let q = position(entries, other);
        let end = entries.len() - 1;
        assert forall|j: int| 0 <= j < after.len() implies (#[trigger] after[j]).0 != name by {
            if j == p {
                assert(entries[p].0 != entries[end].0);
            } else if j < p {
                assert(entries[j].0 != entries[p].0);
            } else {
                assert(entries[p].0 != entries[j].0);
            }
        }
        if other != name {
            if q < entries.len() {
                let at = if q == end {
                    p
                } else {
                    q
                };
                assert(after[at] == entries[q]);
                assert forall|j: int| 0 <= j < at implies (#[trigger] after[j]).0 != other by {
                    let source = if j == p {
                        end
                    } else {
                        j
                    };
                    assert(after[j] == entries[source]);
                    if source < q {
                        assert(entries[source].0 != entries[q].0);
                    } else {
                        assert(entries[q].0 != entries[source].0);
                    }
                }
                lemma_position_is(after, other, at);
            } else {
                assert forall|j: int| 0 <= j < after.len() implies (#[trigger] after[j]).0 != other by {
                    let source = if j == p {
                        end
                    } else {
                        j
                    };
                    assert(entries[source].0 != other);
                }
                lemma_position_is(after, other, after.len() as int);
            }
        }
    }
}

/// A value is text where each of its bytes is visible ASCII, a blank or a tab; each byte is then the
/// character of its number.
pub proof fn law_visible_values_are_text(v: Seq<u8>)
    ensures
        value_text(v) is Some <==> forall|i: int| 0 <= i < v.len() ==> 32 <= #[trigger] v[i] < 127 || v[i] == 9,
        value_text(v) matches Some(t) ==> t.len() == v.len() && forall|i: int|
            0 <= i < v.len() ==> #[trigger] t[i] as int == v[i] as int,
{
    if forall|i: int| 0 <= i < v.len() ==> text_byte(#[trigger] v[i]) {
        assert forall|i: int| 0 <= i < v.len() implies 32 <= #[trigger] v[i] < 127 || v[i] == 9 by {
            assert(text_byte(v[i]));
        }
    } else {
        let k = choose|k: int| 0 <= k < v.len() && !text_byte(#[trigger] v[k]);
        assert(!(32 <= v[k] < 127 || v[k] == 9));
    }
}

/// A value that can be sent holds no line break, no other control character but the tab, and no
/// DEL; every other byte may stand in it.
pub proof fn law_values_hold_no_line_breaks(v: Seq<u8>)
    ensures
        valid_value(v) <==> forall|i: int| 0 <= i < v.len() ==> #[trigger] v[i] == 9 || 32 <= v[i] < 127 || v[i] > 127,
{
    if valid_value(v) {
        assert forall|i: int| 0 <= i < v.len() implies #[trigger] v[i] == 9 || 32 <= v[i] < 127 || v[i] > 127 by {
            assert(value_byte(v[i]));
        }
    } else {
        let k = choose|k: int| 0 <= k < v.len() && !value_byte(#[trigger] v[k]);
        assert(!(v[k] == 9 || 32 <= v[k] < 127 || v[k] > 127));
    }
}

} // verus!
