//! Operations on text, stated over the sequence of characters a text holds.
use vstd::prelude::*;
use vstd::string::*;

verus! {

/// `String::push` appends one character to the end of the text.
pub assume_specification[ String::push ](s: &mut String, c: char)
    ensures
        final(s)@ == old(s)@.push(c),
;

/// The texts a list of strings holds.
pub open spec fn texts(list: Seq<String>) -> Seq<Seq<char>> {
    list.map_values(|s: String| s@)
}

/// The text an optional string holds.
pub open spec fn text_opt(s: Option<String>) -> Option<Seq<char>> {
    match s {
        Some(t) => Some(t@),
        None => None,
    }
}

/// The text an optional string slice holds.
pub open spec fn str_opt(s: Option<&str>) -> Option<Seq<char>> {
    match s {
        Some(t) => Some(t@),
        None => None,
    }
}

/// An ASCII capital becomes its small letter, any other character stays.
pub open spec fn lower_char(c: char) -> char {
    if 'A' <= c <= 'Z' {
        ((c as int) + 32) as char
    } else {
        c
    }
}

/// An ASCII small letter becomes its capital, any other character stays.
pub open spec fn upper_char(c: char) -> char {
    if 'a' <= c <= 'z' {
        ((c as int) - 32) as char
    } else {
        c
    }
}

/// The text with its ASCII capitals made small.
pub open spec fn lower(s: Seq<char>) -> Seq<char> {
    s.map_values(|c: char| lower_char(c))
}

/// The text with its ASCII small letters made capital.
pub open spec fn upper(s: Seq<char>) -> Seq<char> {
    s.map_values(|c: char| upper_char(c))
}

/// Whether a character is one of Unicode's White_Space characters.
pub open spec fn is_white(c: char) -> bool {
    let n = c as int;
    ||| 0x09 <= n <= 0x0d
    ||| n == 0x20
    ||| n == 0x85
    ||| n == 0xa0
    ||| n == 0x1680
    ||| 0x2000 <= n <= 0x200a
    ||| n == 0x2028
    ||| n == 0x2029
    ||| n == 0x202f
    ||| n == 0x205f
    ||| n == 0x3000
}

/// The text without the white space it starts with.
pub open spec fn trim_start(s: Seq<char>) -> Seq<char>
    decreases s.len(),
{
    if s.len() > 0 && is_white(s[0]) {
        trim_start(s.subrange(1, s.len() as int))
    } else {
        s
    }
}

/// The text without the white space it ends with.
pub open spec fn trim_end(s: Seq<char>) -> Seq<char>
    decreases s.len(),
{
    if s.len() > 0 && is_white(s.last()) {
        trim_end(s.drop_last())
    } else {
        s
    }
}

/// The text without the white space around it.
pub open spec fn trimmed(s: Seq<char>) -> Seq<char> {
    trim_end(trim_start(s))
}

/// Whether `needle` stands in `hay` at position `i`.
pub open spec fn stands_at(hay: Seq<char>, needle: Seq<char>, i: int) -> bool {
    &&& 0 <= i
    &&& i + needle.len() <= hay.len()
    &&& hay.subrange(i, i + needle.len()) == needle
}

/// Whether `needle` stands somewhere in `hay`.
pub open spec fn has(hay: Seq<char>, needle: Seq<char>) -> bool {
    exists|i: int| #[trigger] stands_at(hay, needle, i)
}

/// Whether `s` starts with `prefix`.
pub open spec fn starts(s: Seq<char>, prefix: Seq<char>) -> bool {
    stands_at(s, prefix, 0)
}

/// The first position of `c` at or after `from`, or the length where there is none.
pub open spec fn find_from(s: Seq<char>, c: char, from: int) -> int
    decreases s.len() - from,
{
    if from < 0 || from >= s.len() {
        s.len() as int
    } else if s[from] == c {
        from
    } else {
        find_from(s, c, from + 1)
    }
}

/// The pieces of `s` between the occurrences of `sep`; always at least one.
pub open spec fn pieces(s: Seq<char>, sep: char) -> Seq<Seq<char>>
    decreases s.len(),
{
    let i = find_from(s, sep, 0);
    if 0 <= i < s.len() {
        seq![s.subrange(0, i)] + pieces(s.subrange(i + 1, s.len() as int), sep)
    } else {
        seq![s]
    }
}

/// The maximal runs of characters that are not white space.
pub open spec fn words(s: Seq<char>) -> Seq<Seq<char>>
    decreases s.len(),
{
    let t = trim_start(s);
    let n = word_len(t);
    if 0 < n && n <= t.len() && t.len() <= s.len() {
        seq![t.subrange(0, n)] + words(t.subrange(n, t.len() as int))
    } else {
        Seq::empty()
    }
}

/// How many characters at the start of `s` are not white space.
pub open spec fn word_len(s: Seq<char>) -> int
    decreases s.len(),
{
    if s.len() == 0 || is_white(s[0]) {
        0
    } else {
        1 + word_len(s.subrange(1, s.len() as int))
    }
}

/// The texts of `list` with `sep` between each two.
pub open spec fn joined(list: Seq<Seq<char>>, sep: Seq<char>) -> Seq<char>
    decreases list.len(),
{
    if list.len() == 0 {
        Seq::empty()
    } else if list.len() == 1 {
        list[0]
    } else {
        joined(list.drop_last(), sep) + sep + list.last()
    }
}

/// Whether a character is an ASCII digit.
pub open spec fn is_digit(c: char) -> bool {
    '0' <= c <= '9'
}

/// The number a character stands for as a decimal digit.
pub open spec fn digit_of(c: char) -> nat {
    ((c as int) - 48) as nat
}

/// The number a run of decimal digits spells.
pub open spec fn number_of(s: Seq<char>) -> nat
    decreases s.len(),
{
    if s.len() == 0 {
        0
    } else {
        number_of(s.drop_last()) * 10 + digit_of(s.last())
    }
}

/// Whether every character is an ASCII digit and there is at least one.
pub open spec fn is_number(s: Seq<char>) -> bool {
    s.len() > 0 && forall|i: int| 0 <= i < s.len() ==> is_digit(#[trigger] s[i])
}

/// The decimal digits of a number, without leading zeros.
pub open spec fn decimal(n: nat) -> Seq<char>
    decreases n,
{
    if n < 10 {
        seq![((n as int) + 48) as char]
    } else {
        decimal(n / 10).push((((n % 10) as int) + 48) as char)
    }
}

/// The digits of an unsigned number as text reads it: one leading plus sign is
/// allowed.
pub open spec fn unsigned_digits(s: Seq<char>) -> Seq<char> {
    if s.len() > 1 && s[0] == '+' {
        s.subrange(1, s.len() as int)
    } else {
        s
    }
}

/// The unsigned number a text spells, where it spells one not above `max`.
pub open spec fn unsigned(s: Seq<char>, max: nat) -> Option<nat> {
    let d = unsigned_digits(s);
    if is_number(d) && number_of(d) <= max {
        Some(number_of(d))
    } else {
        None
    }
}

proof fn lemma_same_bytes_same_text(a: &str, b: &str)
    ensures
        a.spec_bytes() == b.spec_bytes() ==> a@ == b@,
{
    broadcast use vstd::utf8::group_utf8_lib;
    vstd::utf8::encode_utf8_decode_utf8(a@);
    vstd::utf8::encode_utf8_decode_utf8(b@);
}

/// Whether two texts are the same.
pub fn same_text(a: &str, b: &str) -> (r: bool)
    ensures
        r == (a@ == b@),
{
    let x = a.as_bytes();
    let y = b.as_bytes();
    proof {
        lemma_same_bytes_same_text(a, b);
    }
    if x.len() != y.len() {
        return false;
    }
    let mut i: usize = 0;
    while i < x.len()
        invariant
            i <= x.len(),
            x.len() == y.len(),
            x@ == a.spec_bytes(),
            y@ == b.spec_bytes(),
            forall|j: int| 0 <= j < i ==> x[j] == y[j],
        decreases x.len() - i,
    {
        if x[i] != y[i] {
            return false;
        }
        i = i + 1;
    }
    assert(x@ =~= y@);
    true
}

/// The characters of a text.
pub fn chars_of(s: &str) -> (r: Vec<char>)
    ensures
        r@ == s@,
{
    let mut out: Vec<char> = Vec::new();
    for c in it: s.chars()
        invariant
            it.seq() == s@,
            out@ == s@.subrange(0, it.index() as int),
    {
        out.push(c);
    }
    assert(out@ =~= s@);
    out
}

/// The text made of the characters from `from` up to `to`.
pub fn string_of_range(chars: &[char], from: usize, to: usize) -> (r: String)
    requires
        from <= to <= chars@.len(),
    ensures
        r@ == chars@.subrange(from as int, to as int),
{
    let mut out = String::new();
    let mut i: usize = from;
    while i < to
        invariant
            from <= i <= to <= chars@.len(),
            out@ == chars@.subrange(from as int, i as int),
        decreases to - i,
    {
        out.push(chars[i]);
        assert(chars@.subrange(from as int, i + 1) =~= chars@.subrange(from as int, i as int).push(chars@[i as int]));
        i = i + 1;
    }
    out
}

/// A copy of a text.
pub fn copy(s: &str) -> (r: String)
    ensures
        r@ == s@,
{
    s.to_string()
}

/// A copy of an optional text.
pub fn copy_opt(s: &Option<String>) -> (r: Option<String>)
    ensures
        text_opt(r) == text_opt(*s),
{
    match s {
        Some(t) => Some(copy(t.as_str())),
        None => None,
    }
}

/// The two texts, one after the other.
pub fn concat2(a: &str, b: &str) -> (r: String)
    ensures
        r@ == a@ + b@,
{
    let mut out = copy(a);
    out.append(b);
    out
}

/// The three texts, one after the other.
pub fn concat3(a: &str, b: &str, c: &str) -> (r: String)
    ensures
        r@ == a@ + b@ + c@,
{
    let mut out = copy(a);
    out.append(b);
    out.append(c);
    out
}

/// The four texts, one after the other.
pub fn concat4(a: &str, b: &str, c: &str, d: &str) -> (r: String)
    ensures
        r@ == a@ + b@ + c@ + d@,
{
    let mut out = concat3(a, b, c);
    out.append(d);
    out
}

fn lower_of(c: char) -> (r: char)
    ensures
        r == lower_char(c),
{
    if 'A' <= c && c <= 'Z' {
        let n: u8 = (c as u8) + 32u8;
        n as char
    } else {
        c
    }
}

fn upper_of(c: char) -> (r: char)
    ensures
        r == upper_char(c),
{
    if 'a' <= c && c <= 'z' {
        let n: u8 = (c as u8) - 32u8;
        n as char
    } else {
        c
    }
}

/// The text with its ASCII capitals made small.
pub fn to_ascii_lower(s: &str) -> (r: String)
    ensures
        r@ == lower(s@),
        r@.len() == s@.len(),
        forall|i: int|
            0 <= i < s@.len() ==> (if 'A' <= s@[i] <= 'Z' {
                #[trigger] r@[i] as int == s@[i] as int + 32
            } else {
                r@[i] == s@[i]
            }),
{
    let mut out = String::new();
    for c in it: s.chars()
        invariant
            it.seq() == s@,
            out@ == lower(s@).subrange(0, it.index() as int),
    {
        out.push(lower_of(c));
    }
    assert(out@ =~= lower(s@));
    out
}

/// The text with its ASCII small letters made capital.
pub fn to_ascii_upper(s: &str) -> (r: String)
    ensures
        r@ == upper(s@),
        r@.len() == s@.len(),
        forall|i: int|
            0 <= i < s@.len() ==> (if 'a' <= s@[i] <= 'z' {
                #[trigger] r@[i] as int == s@[i] as int - 32
            } else {
                r@[i] == s@[i]
            }),
{
    let mut out = String::new();
    for c in it: s.chars()
        invariant
            it.seq() == s@,
            out@ == upper(s@).subrange(0, it.index() as int),
    {
        out.push(upper_of(c));
    }
    assert(out@ =~= upper(s@));
    out
}

/// Whether two texts are the same but for the case of ASCII letters.
pub fn same_ignoring_case(a: &str, b: &str) -> (r: bool)
    ensures
        r == (lower(a@) == lower(b@)),
{
    let x = to_ascii_lower(a);
    let y = to_ascii_lower(b);
    same_text(x.as_str(), y.as_str())
}

fn white(c: char) -> (r: bool)
    ensures
        r == is_white(c),
{
    let n: u32 = c as u32;
    (0x09 <= n && n <= 0x0d) || n == 0x20 || n == 0x85 || n == 0xa0 || n == 0x1680 || (0x2000 <= n && n
        <= 0x200a) || n == 0x2028 || n == 0x2029 || n == 0x202f || n == 0x205f || n == 0x3000
}

proof fn lemma_trim_start(s: Seq<char>, i: int)
    requires
        0 <= i <= s.len(),
        forall|j: int| 0 <= j < i ==> is_white(#[trigger] s[j]),
        i == s.len() || !is_white(s[i]),
    ensures
        trim_start(s) == s.subrange(i, s.len() as int),
    decreases i,
{
    if i == 0 {
        assert(s.subrange(0, s.len() as int) =~= s);
    } else {
        let t = s.subrange(1, s.len() as int);
        assert(is_white(s[0]));
        lemma_trim_start(t, i - 1);
        assert(t.subrange(i - 1, t.len() as int) =~= s.subrange(i, s.len() as int));
    }
}

proof fn lemma_trim_end(s: Seq<char>, i: int)
    requires
        0 <= i <= s.len(),
        forall|j: int| i <= j < s.len() ==> is_white(#[trigger] s[j]),
        i == 0 || !is_white(s[i - 1]),
    ensures
        trim_end(s) == s.subrange(0, i),
    decreases s.len() - i,
{
    if i == s.len() {
        assert(s.subrange(0, s.len() as int) =~= s);
    } else {
        let t = s.drop_last();
        assert(is_white(s[s.len() - 1]));
        lemma_trim_end(t, i);
        assert(t.subrange(0, i) =~= s.subrange(0, i));
    }
}

/// The text without the white space around it.
pub fn trim(s: &str) -> (r: String)
    ensures
        r@ == trimmed(s@),
        r@.len() > 0 ==> !is_white(r@[0]) && !is_white(r@.last()),
        exists|from: int, to: int| #[trigger] cut_out(s@, from, to, r@),
{
    let chars = chars_of(s);
    let mut from: usize = 0;
    while from < chars.len() && white(chars[from])
        invariant
            from <= chars@.len(),
            forall|j: int| 0 <= j < from ==> is_white(#[trigger] chars@[j]),
        decreases chars.len() - from,
    {
        from = from + 1;
    }
    let mut to: usize = chars.len();
    while from < to && white(chars[to - 1])
        invariant
            from <= to <= chars@.len(),
            forall|j: int| to <= j < chars@.len() ==> is_white(#[trigger] chars@[j]),
        decreases to,
    {
        to = to - 1;
    }
    proof {
        lemma_trim_start(chars@, from as int);
        let t = chars@.subrange(from as int, chars@.len() as int);
        assert forall|j: int| to - from <= j < t.len() implies is_white(#[trigger] t[j]) by {
            assert(t[j] == chars@[j + from]);
        }
        lemma_trim_end(t, to - from);
        assert(t.subrange(0, to - from) =~= chars@.subrange(from as int, to as int));
        assert(cut_out(s@, from as int, to as int, s@.subrange(from as int, to as int)));
        law_trimming_cuts_white_space(s@);
    }
    string_of_range(chars.as_slice(), from, to)
}

fn stands(hay: &[char], needle: &[char], at: usize) -> (r: bool)
    requires
        at + needle@.len() <= hay@.len(),
    ensures
        r == stands_at(hay@, needle@, at as int),
{
    let end: usize = hay.len();
    let mut i: usize = 0;
    while i < needle.len()
        invariant
            i <= needle@.len(),
            end == hay@.len(),
            at + needle@.len() <= end,
            forall|j: int| 0 <= j < i ==> hay@[at + j] == #[trigger] needle@[j],
        decreases needle.len() - i,
    {
        if hay[at + i] != needle[i] {
            proof {
                let sub = hay@.subrange(at as int, at + needle@.len());
                assert(sub[i as int] == hay@[at + i]);
            }
            return false;
        }
        i = i + 1;
    }
    assert(hay@.subrange(at as int, at + needle@.len()) =~= needle@);
    true
}

/// Whether `needle` stands somewhere in `hay`.
pub fn contains(hay: &str, needle: &str) -> (r: bool)
    ensures
        r == has(hay@, needle@),
        r <==> exists|i: int|
            0 <= i && i + needle@.len() <= hay@.len() && #[trigger] hay@.subrange(i, i + needle@.len()) == needle@,
{
    proof {
        assert forall|i: int|
            0 <= i && i + needle@.len() <= hay@.len() && #[trigger] hay@.subrange(i, i + needle@.len())
                == needle@ implies stands_at(hay@, needle@, i) by {}
    }
    let h = chars_of(hay);
    let n = chars_of(needle);
    if n.len() > h.len() {
        return false;
    }
    let last: usize = h.len() - n.len();
    let mut i: usize = 0;
    while i <= last
        invariant
            i <= last + 1,
            last + n@.len() == h@.len(),
            h@ == hay@,
            n@ == needle@,
            forall|j: int| 0 <= j < i ==> !stands_at(hay@, needle@, j),
            has(hay@, needle@) <==> exists|j: int|
                0 <= j && j + needle@.len() <= hay@.len() && #[trigger] hay@.subrange(j, j + needle@.len()) == needle@,
        decreases last + 1 - i,
    {
        if stands(h.as_slice(), n.as_slice(), i) {
            return true;
        }
        if i == last {
            return false;
        }
        i = i + 1;
    }
    false
}

/// Whether `s` starts with `prefix`.
pub fn starts_with(s: &str, prefix: &str) -> (r: bool)
    ensures
        r == starts(s@, prefix@),
        r <==> prefix@.len() <= s@.len() && forall|i: int| 0 <= i < prefix@.len() ==> s@[i] == #[trigger] prefix@[i],
{
    proof {
        law_prefixes_agree_throughout(s@, prefix@);
    }
    let h = chars_of(s);
    let n = chars_of(prefix);
    n.len() <= h.len() && stands(h.as_slice(), n.as_slice(), 0)
}

/// The text after its first `n` characters.
pub fn skip(s: &str, n: usize) -> (r: String)
    requires
        n <= s@.len(),
    ensures
        r@ == s@.subrange(n as int, s@.len() as int),
{
    let chars = chars_of(s);
    string_of_range(chars.as_slice(), n, chars.len())
}

/// The first position of `c` at or after `from`, or the length where there is none.
pub fn find_char(s: &[char], c: char, from: usize) -> (r: usize)
    requires
        from <= s@.len(),
    ensures
        r == find_from(s@, c, from as int),
        from <= r <= s@.len(),
        forall|j: int| from <= j < r ==> s@[j] != c,
        r < s@.len() ==> s@[r as int] == c,
{
    let mut i: usize = from;
    while i < s.len() && s[i] != c
        invariant
            from <= i <= s@.len(),
            forall|j: int| from <= j < i ==> s@[j] != c,
            find_from(s@, c, i as int) == find_from(s@, c, from as int),
        decreases s.len() - i,
    {
        i = i + 1;
    }
    i
}

proof fn lemma_find_shift(s: Seq<char>, c: char, base: int, from: int)
    requires
        0 <= base <= from <= s.len(),
    ensures
        find_from(s.subrange(base, s.len() as int), c, from - base) == find_from(s, c, from) - base,
    decreases s.len() - from,
{
    let t = s.subrange(base, s.len() as int);
    if from < s.len() {
        assert(t[from - base] == s[from]);
        if s[from] != c {
            lemma_find_shift(s, c, base, from + 1);
        }
    }
}

/// The pieces of `s` between the occurrences of `sep`.
pub fn split(s: &str, sep: char) -> (r: Vec<String>)
    ensures
        texts(r@) == pieces(s@, sep),
        r@.len() >= 1,
        joined(texts(r@), seq![sep]) == s@,
        forall|i: int, j: int| 0 <= i < r@.len() && 0 <= j < r@[i]@.len() ==> #[trigger] r@[i]@[j] != sep,
{
    proof {
        law_pieces_join_back(s@, sep);
        law_pieces_hold_no_separator(s@, sep);
    }
    let chars = chars_of(s);
    let mut out: Vec<String> = Vec::new();
    let mut from: usize = 0;
    assert(s@.subrange(0, s@.len() as int) =~= s@);
    assert(texts(out@) + pieces(s@, sep) =~= pieces(s@, sep));
    loop
        invariant_except_break
            from <= chars@.len(),
            chars@ == s@,
            texts(out@) + pieces(s@.subrange(from as int, s@.len() as int), sep) == pieces(s@, sep),
        ensures
            texts(out@) == pieces(s@, sep),
            out@.len() >= 1,
        decreases chars@.len() - from + 1,
    {
        let at: usize = find_char(chars.as_slice(), sep, from);
        let ghost before = out@;
        let ghost rest = s@.subrange(from as int, s@.len() as int);
        proof {
            lemma_find_shift(s@, sep, from as int, from as int);
        }
        out.push(string_of_range(chars.as_slice(), from, at));
        assert(texts(out@) =~= texts(before).push(s@.subrange(from as int, at as int)));
        if at == chars.len() {
            assert(s@.subrange(from as int, at as int) =~= rest);
            assert(pieces(rest, sep) =~= seq![rest]);
            assert(texts(before) + seq![rest] =~= texts(before).push(rest));
            break;
        }
        proof {
            assert(rest.subrange(0, at - from) =~= s@.subrange(from as int, at as int));
            assert(rest.subrange(at - from + 1, rest.len() as int) =~= s@.subrange(at + 1, s@.len() as int));
            assert(texts(out@) + pieces(s@.subrange(at + 1, s@.len() as int), sep) =~= texts(before) + pieces(
                rest,
                sep,
            ));
        }
        from = at + 1;
    }
    proof {
        assert forall|i: int, j: int| 0 <= i < out@.len() && 0 <= j < out@[i]@.len() implies #[trigger] out@[i]@[j]
            != sep by {
            assert(texts(out@)[i] == out@[i]@);
            assert(pieces(s@, sep)[i][j] != sep);
        }
    }
    out
}

proof fn lemma_word_len(s: Seq<char>, n: int)
    requires
        0 <= n <= s.len(),
        forall|j: int| 0 <= j < n ==> !is_white(#[trigger] s[j]),
        n == s.len() || is_white(s[n]),
    ensures
        word_len(s) == n,
    decreases n,
{
    if n > 0 {
        let t = s.subrange(1, s.len() as int);
        assert(!is_white(s[0]));
        lemma_word_len(t, n - 1);
    }
}

/// The maximal runs of characters that are not white space.
pub fn split_words(s: &str) -> (r: Vec<String>)
    ensures
        texts(r@) == words(s@),
{
    let chars = chars_of(s);
    let mut out: Vec<String> = Vec::new();
    let mut from: usize = 0;
    assert(s@.subrange(0, s@.len() as int) =~= s@);
    assert(texts(out@) + words(s@) =~= words(s@));
    loop
        invariant_except_break
            from <= chars@.len(),
            chars@ == s@,
            texts(out@) + words(s@.subrange(from as int, s@.len() as int)) == words(s@),
        ensures
            texts(out@) == words(s@),
        decreases chars@.len() - from,
    {
        let ghost rest = s@.subrange(from as int, s@.len() as int);
        let mut start: usize = from;
        while start < chars.len() && white(chars[start])
            invariant
                from <= start <= chars@.len(),
                forall|j: int| from <= j < start ==> is_white(#[trigger] chars@[j]),
            decreases chars.len() - start,
        {
            start = start + 1;
        }
        let mut end: usize = start;
        while end < chars.len() && !white(chars[end])
            invariant
                start <= end <= chars@.len(),
                forall|j: int| start <= j < end ==> !is_white(#[trigger] chars@[j]),
            decreases chars.len() - end,
        {
            end = end + 1;
        }
        let ghost t = rest.subrange(start - from, rest.len() as int);
        proof {
            assert forall|j: int| 0 <= j < start - from implies is_white(#[trigger] rest[j]) by {
                assert(rest[j] == chars@[j + from]);
            }
            lemma_trim_start(rest, start - from);
            assert forall|j: int| 0 <= j < end - start implies !is_white(#[trigger] t[j]) by {
                assert(t[j] == chars@[j + start]);
            }
            lemma_word_len(t, end - start);
        }
        if start == end {
            assert(words(rest) =~= Seq::<Seq<char>>::empty());
            break;
        }
        let ghost before = out@;
        out.push(string_of_range(chars.as_slice(), start, end));
        proof {
            assert(texts(out@) =~= texts(before).push(s@.subrange(start as int, end as int)));
            assert(t.subrange(0, end - start) =~= s@.subrange(start as int, end as int));
            assert(t.subrange(end - start, t.len() as int) =~= s@.subrange(end as int, s@.len() as int));
            assert(texts(out@) + words(s@.subrange(end as int, s@.len() as int)) =~= texts(before) + words(rest));
        }
        from = end;
    }
    out
}

/// The texts of `list` with `sep` between each two.
pub fn join(list: &Vec<String>, sep: &str) -> (r: String)
    ensures
        r@ == joined(texts(list@), sep@),
{
    let mut out = String::new();
    let mut i: usize = 0;
    while i < list.len()
        invariant
            i <= list@.len(),
            out@ == joined(texts(list@).subrange(0, i as int), sep@),
        decreases list.len() - i,
    {
        let ghost prefix = texts(list@).subrange(0, i + 1);
        assert(prefix.drop_last() =~= texts(list@).subrange(0, i as int));
        assert(prefix.last() == list@[i as int]@);
        if i > 0 {
            out.append(sep);
            out.append(list[i].as_str());
        } else {
            out.append(list[i].as_str());
            assert(out@ =~= list@[0]@);
        }
        i = i + 1;
    }
    assert(texts(list@).subrange(0, i as int) =~= texts(list@));
    out
}

/// The decimal digits of a number.
pub fn decimal_text(n: u64) -> (r: String)
    ensures
        r@ == decimal(n as nat),
        is_number(r@),
        number_of(r@) == n,
    decreases n,
{
    proof {
        lemma_decimal_spells(n as nat);
    }
    let d: u8 = (n % 10) as u8;
    let c: char = (d + 48u8) as char;
    if n < 10 {
        let mut out = String::new();
        out.push(c);
        assert(out@ =~= decimal(n as nat));
        out
    } else {
        let mut out = decimal_text(n / 10);
        out.push(c);
        out
    }
}

/// The digits of a number are digits and spell it.
pub proof fn lemma_decimal_spells(n: nat)
    ensures
        is_number(decimal(n)),
        number_of(decimal(n)) == n,
    decreases n,
{
    reveal_with_fuel(number_of, 2);
    let s = decimal(n);
    if n < 10 {
        assert(s.drop_last() =~= Seq::empty());
        assert(s.last() == ((n as int) + 48) as char);
    } else {
        lemma_decimal_spells(n / 10);
        assert(s.drop_last() =~= decimal(n / 10));
        assert(s.last() == (((n % 10) as int) + 48) as char);
    }
}

/// A number written in decimal is read back as that number.
pub proof fn lemma_decimal_reads_back(n: nat, max: nat)
    requires
        n <= max,
    ensures
        trimmed(decimal(n)) == decimal(n),
        unsigned(decimal(n), max) == Some(n),
{
    lemma_decimal_spells(n);
    let s = decimal(n);
    assert(is_digit(s[0]) && is_digit(s[s.len() - 1]));
    assert(unsigned_digits(s) == s);
}

proof fn lemma_number_grows(s: Seq<char>, i: int)
    requires
        0 <= i <= s.len(),
    ensures
        number_of(s.subrange(0, i)) <= number_of(s),
    decreases s.len() - i,
{
    if i < s.len() {
        lemma_number_grows(s, i + 1);
        let t = s.subrange(0, i + 1);
        assert(t.drop_last() =~= s.subrange(0, i));
    } else {
        assert(s.subrange(0, i) =~= s);
    }
}

/// The unsigned number a text spells, where it spells one not above `max`.
pub fn parse_unsigned(s: &str, max: u64) -> (r: Option<u64>)
    ensures
        match r {
            Some(n) => unsigned(s@, max as nat) == Some(n as nat),
            None => unsigned(s@, max as nat) is None,
        },
{
    let chars = chars_of(s);
    let from: usize = if chars.len() > 1 && chars[0] == '+' {
        1
    } else {
        0
    };
    let ghost d = unsigned_digits(s@);
    assert(d =~= s@.subrange(from as int, s@.len() as int));
    if from == chars.len() {
        return None;
    }
    let mut n: u64 = 0;
    let mut i: usize = from;
    while i < chars.len()
        invariant
            from <= i <= chars@.len(),
            chars@ == s@,
            d == unsigned_digits(s@),
            d == s@.subrange(from as int, s@.len() as int),
            d.len() > 0,
            forall|j: int| 0 <= j < i - from ==> is_digit(#[trigger] d[j]),
            n == number_of(d.subrange(0, i - from)),
            n <= max,
        decreases chars.len() - i,
    {
        let c = chars[i];
        assert(c == d[i - from]);
        if !('0' <= c && c <= '9') {
            assert(!is_digit(d[i - from]));
            return None;
        }
        let v: u64 = (c as u64) - 48;
        proof {
            let t = d.subrange(0, i - from + 1);
            assert(t.drop_last() =~= d.subrange(0, i - from));
            assert(t.last() == c);
            lemma_number_grows(d, i - from + 1);
        }
        match n.checked_mul(10) {
            None => {
                return None;
            },
            Some(m) => {
                match m.checked_add(v) {
                    None => {
                        return None;
                    },
                    Some(k) => {
                        if k > max {
                            return None;
                        }
                        n = k;
                    },
                }
            },
        }
        i = i + 1;
    }
    assert(d.subrange(0, i - from) =~= d);
    Some(n)
}

/// Whether `part` is what stands in `s` from `from` up to `to`, with nothing but white space around
/// it.
pub open spec fn cut_out(s: Seq<char>, from: int, to: int, part: Seq<char>) -> bool {
    &&& 0 <= from <= to <= s.len()
    &&& part == s.subrange(from, to)
    &&& forall|i: int| 0 <= i < from || to <= i < s.len() ==> is_white(#[trigger] s[i])
}

/// Trimming cuts off white space at both ends, all of it and nothing else.
pub proof fn law_trimming_cuts_white_space(s: Seq<char>)
    ensures
        exists|from: int, to: int| #[trigger] cut_out(s, from, to, trimmed(s)),
        trimmed(s).len() > 0 ==> !is_white(trimmed(s)[0]) && !is_white(trimmed(s).last()),
        trimmed(s).len() == 0 <==> forall|i: int| 0 <= i < s.len() ==> is_white(#[trigger] s[i]),
{
    let from = lemma_first_dark(s);
    lemma_trim_start(s, from);
    let t = s.subrange(from, s.len() as int);
    let to = lemma_last_dark(t);
    lemma_trim_end(t, to);
    assert(t.subrange(0, to) =~= s.subrange(from, from + to));
    assert forall|i: int| 0 <= i < from || from + to <= i < s.len() implies is_white(#[trigger] s[i]) by {
        if from + to <= i {
            assert(t[i - from] == s[i]);
        }
    }
    assert(cut_out(s, from, from + to, trimmed(s)));
    if to > 0 {
        if from < s.len() {
            assert(t[0] == s[from]);
        }
        assert(trimmed(s)[0] == s[from]);
        assert(trimmed(s).last() == t[to - 1]);
        assert(!is_white(s[from]));
    }
}

proof fn lemma_first_dark(s: Seq<char>) -> (n: int)
    ensures
        0 <= n <= s.len(),
        forall|j: int| 0 <= j < n ==> is_white(#[trigger] s[j]),
        n == s.len() || !is_white(s[n]),
    decreases s.len(),
{
    if s.len() == 0 || !is_white(s[0]) {
        0
    } else {
        let t = s.subrange(1, s.len() as int);
        let n = lemma_first_dark(t);
        assert forall|j: int| 0 <= j < n + 1 implies is_white(#[trigger] s[j]) by {
            if j > 0 {
                assert(t[j - 1] == s[j]);
            }
        }
        if n < t.len() {
            assert(t[n] == s[n + 1]);
        }
        n + 1
    }
}

proof fn lemma_last_dark(s: Seq<char>) -> (n: int)
    ensures
        0 <= n <= s.len(),
        forall|j: int| n <= j < s.len() ==> is_white(#[trigger] s[j]),
        n == 0 || !is_white(s[n - 1]),
    decreases s.len(),
{
    if s.len() == 0 || !is_white(s.last()) {
        s.len() as int
    } else {
        let t = s.drop_last();
        let n = lemma_last_dark(t);
        assert forall|j: int| n <= j < s.len() implies is_white(#[trigger] s[j]) by {
            if j < t.len() {
                assert(t[j] == s[j]);
            }
        }
        n
    }
}

/// A blank, a tab and the ends of lines are white space; no other visible or invisible character of
/// ASCII is.
pub proof fn law_ascii_white_space_is_this(c: char)
    requires
        c as int <= 0x7f,
    ensures
        is_white(c) <==> c == ' ' || c == '\t' || c == '\n' || c == '\r' || c as int == 0x0b || c as int == 0x0c,
{
}

/// One text starts with another where the two agree as far as the other goes.
pub proof fn law_prefixes_agree_throughout(s: Seq<char>, prefix: Seq<char>)
    ensures
        starts(s, prefix) <==> prefix.len() <= s.len() && forall|i: int|
            0 <= i < prefix.len() ==> s[i] == #[trigger] prefix[i],
{
    if prefix.len() <= s.len() {
        let start = s.subrange(0, prefix.len() as int);
        if start == prefix {
            assert forall|i: int| 0 <= i < prefix.len() implies s[i] == #[trigger] prefix[i] by {
                assert(start[i] == s[i]);
            }
        }
        if forall|i: int| 0 <= i < prefix.len() ==> s[i] == #[trigger] prefix[i] {
            assert(start =~= prefix);
        }
    }
}

/// The first place of a character: it stands there and not before, or nowhere.
pub proof fn law_the_first_place_is_found(s: Seq<char>, c: char, from: int)
    requires
        0 <= from <= s.len(),
    ensures
        from <= find_from(s, c, from) <= s.len(),
        forall|j: int| from <= j < find_from(s, c, from) ==> s[j] != c,
        find_from(s, c, from) < s.len() ==> s[find_from(s, c, from)] == c,
    decreases s.len() - from,
{
    if from < s.len() && s[from] != c {
        law_the_first_place_is_found(s, c, from + 1);
    }
}

proof fn lemma_joined_first(first: Seq<char>, rest: Seq<Seq<char>>, sep: Seq<char>)
    requires
        rest.len() > 0,
    ensures
        joined(seq![first] + rest, sep) == first + sep + joined(rest, sep),
    decreases rest.len(),
{
    let all = seq![first] + rest;
    reveal_with_fuel(joined, 3);
    assert(all.last() == rest.last());
    if rest.len() == 1 {
        assert(all.drop_last() =~= seq![first]);
        assert(joined(all, sep) =~= first + sep + rest[0]);
    } else {
        assert(all.drop_last() =~= seq![first] + rest.drop_last());
        lemma_joined_first(first, rest.drop_last(), sep);
        assert(joined(all, sep) =~= first + sep + joined(rest, sep));
    }
}

/// The pieces of a text, joined by what it was split at, are the text.
pub proof fn law_pieces_join_back(s: Seq<char>, sep: char)
    ensures
        joined(pieces(s, sep), seq![sep]) == s,
        pieces(s, sep).len() > 0,
    decreases s.len(),
{
    law_the_first_place_is_found(s, sep, 0);
    let i = find_from(s, sep, 0);
    if i < s.len() {
        let rest = s.subrange(i + 1, s.len() as int);
        law_pieces_join_back(rest, sep);
        lemma_joined_first(s.subrange(0, i), pieces(rest, sep), seq![sep]);
        assert(s.subrange(0, i) + seq![sep] + rest =~= s);
    }
}

/// What a text was split at stands in none of its pieces.
pub proof fn law_pieces_hold_no_separator(s: Seq<char>, sep: char)
    ensures
        forall|i: int, j: int|
            0 <= i < pieces(s, sep).len() && 0 <= j < pieces(s, sep)[i].len() ==> #[trigger] pieces(s, sep)[i][j] != sep,
    decreases s.len(),
{
    law_the_first_place_is_found(s, sep, 0);
    let at = find_from(s, sep, 0);
    if at < s.len() {
        let rest = s.subrange(at + 1, s.len() as int);
        law_pieces_hold_no_separator(rest, sep);
        assert forall|i: int, j: int|
            0 <= i < pieces(s, sep).len() && 0 <= j < pieces(s, sep)[i].len() implies #[trigger] pieces(s, sep)[i][j]
            != sep by {
            if i > 0 {
                assert(pieces(s, sep)[i] == pieces(rest, sep)[i - 1]);
                assert(pieces(rest, sep)[i - 1][j] != sep);
            } else {
                assert(pieces(s, sep)[0] == s.subrange(0, at));
            }
        }
    }
}

/// A word has characters, and none of them is white space.
pub proof fn law_words_are_not_blank(s: Seq<char>)
    ensures
        forall|i: int| 0 <= i < words(s).len() ==> (#[trigger] words(s)[i]).len() > 0,
        forall|i: int, j: int|
            0 <= i < words(s).len() && 0 <= j < words(s)[i].len() ==> !is_white(#[trigger] words(s)[i][j]),
        words(s).len() == 0 <==> forall|i: int| 0 <= i < s.len() ==> is_white(#[trigger] s[i]),
    decreases s.len(),
{
    let from = lemma_first_dark(s);
    lemma_trim_start(s, from);
    let t = trim_start(s);
    lemma_word_start(t);
    let n = word_len(t);
    if from < s.len() {
        assert(t[0] == s[from]);
        let rest = t.subrange(n, t.len() as int);
        law_words_are_not_blank(rest);
        let first = t.subrange(0, n);
        assert(words(s) == seq![first] + words(rest));
        assert forall|i: int| 0 <= i < words(s).len() implies (#[trigger] words(s)[i]).len() > 0 by {
            if i > 0 {
                assert(words(s)[i] == words(rest)[i - 1]);
            }
        }
        assert forall|i: int, j: int|
            0 <= i < words(s).len() && 0 <= j < words(s)[i].len() implies !is_white(#[trigger] words(s)[i][j]) by {
            if i > 0 {
                assert(words(s)[i] == words(rest)[i - 1]);
                assert(!is_white(words(rest)[i - 1][j]));
            } else {
                assert(words(s)[0] == first);
                assert(!is_white(t[j]));
            }
        }
    }
}

proof fn lemma_word_start(s: Seq<char>)
    ensures
        0 <= word_len(s) <= s.len(),
        forall|j: int| 0 <= j < word_len(s) ==> !is_white(#[trigger] s[j]),
        s.len() > 0 && !is_white(s[0]) ==> word_len(s) > 0,
    decreases s.len(),
{
    if s.len() > 0 && !is_white(s[0]) {
        let t = s.subrange(1, s.len() as int);
        lemma_word_start(t);
        assert forall|j: int| 0 <= j < word_len(s) implies !is_white(#[trigger] s[j]) by {
            if j > 0 {
                assert(t[j - 1] == s[j]);
            }
        }
    }
}

/// Capitals and small letters are told apart by their case alone, whichever way it is removed.
pub proof fn law_case_does_not_matter_twice(s: Seq<char>)
    ensures
        lower(lower(s)) == lower(s),
        upper(upper(s)) == upper(s),
        lower(upper(s)) == lower(s),
        lower(s).len() == s.len(),
{
    assert(lower(lower(s)) =~= lower(s));
    assert(upper(upper(s)) =~= upper(s));
    assert(lower(upper(s)) =~= lower(s));
}

} // verus!
