//! Strings as sequences of characters: concatenation, decimal and hexadecimal
//! numerals, order, and JSON string literals.

use vstd::prelude::*;

verus! {

/// `String::push`: the character is added at the end of the string.
pub assume_specification[ String::push ](s: &mut String, ch: char)
    ensures
        final(s)@ == old(s)@.push(ch),
;

/// The characters of `s`, in order.
pub fn to_chars(s: &str) -> (chars: Vec<char>)
    ensures
        chars@ == s@,
{
    let mut chars: Vec<char> = Vec::new();
    for c in it: s.chars()
        invariant
            it.seq() == s@,
            chars@ == s@.take(it.index()),
    {
        assert(s@.take(it.index() + 1) =~= s@.take(it.index()).push(c));
        chars.push(c);
    }
    assert(s@.take(s@.len() as int) =~= s@);
    chars
}

/// `a` followed by `b`.
pub fn concat(a: &str, b: &str) -> (out: String)
    ensures
        out@ == a@ + b@,
{
    let mut out: String = a.to_owned();
    out.append(b);
    out
}

/// `a` followed by `b` and `c`.
pub fn concat3(a: &str, b: &str, c: &str) -> (out: String)
    ensures
        out@ == a@ + b@ + c@,
{
    let mut out: String = a.to_owned();
    out.append(b);
    out.append(c);
    out
}

/// `chars[from..to]` as a string.
pub fn from_chars(chars: &Vec<char>, from: usize, to: usize) -> (out: String)
    requires
        from <= to <= chars@.len(),
    ensures
        out@ == chars@.subrange(from as int, to as int),
{
    let mut out: String = String::new();
    let mut i: usize = from;
    while i < to
        invariant
            from <= i <= to <= chars@.len(),
            out@ == chars@.subrange(from as int, i as int),
        decreases to - i,
    {
        out.push(chars[i]);
        i = i + 1;
        assert(chars@.subrange(from as int, i as int) =~= chars@.subrange(from as int, i - 1).push(
            chars@[i - 1],
        ));
    }
    out
}

/// The decimal digit `d`.
pub open spec fn digit(d: int) -> char {
    (48 + d) as char
}

/// The decimal numeral of `n`, without leading zeros.
pub open spec fn decimal(n: nat) -> Seq<char>
    decreases n,
{
    if n < 10 {
        seq![digit(n as int)]
    } else {
        decimal(n / 10).push(digit((n % 10) as int))
    }
}

/// The decimal numeral of an integer, with a minus sign where it is negative.
pub open spec fn decimal_int(n: int) -> Seq<char> {
    if n < 0 {
        seq!['-'] + decimal((-n) as nat)
    } else {
        decimal(n as nat)
    }
}

/// Appends the decimal numeral of `n`.
pub fn push_decimal(out: &mut String, n: u64)
    ensures
        final(out)@ == old(out)@ + decimal(n as nat),
    decreases n,
{
    if n >= 10 {
        push_decimal(out, n / 10);
    }
    let d: u8 = (n % 10) as u8;
    out.push((48u8 + d) as char);
    proof {
        assert(out@ =~= old(out)@ + decimal(n as nat));
    }
}

/// Appends the decimal numeral of `n`, signed.
pub fn push_decimal_int(out: &mut String, n: i64)
    ensures
        final(out)@ == old(out)@ + decimal_int(n as int),
{
    if n < 0 {
        out.push('-');
        let magnitude: u64 = (-(n as i128)) as u64;
        push_decimal(out, magnitude);
        proof {
            assert(out@ =~= old(out)@ + decimal_int(n as int));
        }
    } else {
        push_decimal(out, n as u64);
    }
}

/// What one character becomes inside a JSON string literal: quotes, backslashes
/// and the usual line controls are escaped, any other control character turns
/// into a space, and everything else stands for itself.
pub open spec fn json_escape(c: char) -> Seq<char> {
    if c == '"' {
        seq!['\\', '"']
    } else if c == '\\' {
        seq!['\\', '\\']
    } else if c == '\n' {
        seq!['\\', 'n']
    } else if c == '\r' {
        seq!['\\', 'r']
    } else if c == '\t' {
        seq!['\\', 't']
    } else if (c as int) < 0x20 {
        seq![' ']
    } else {
        seq![c]
    }
}

/// The characters of `s`, each one escaped.
pub open spec fn json_escaped(s: Seq<char>) -> Seq<char>
    decreases s.len(),
{
    if s.len() == 0 {
        Seq::empty()
    } else {
        json_escaped(s.drop_last()) + json_escape(s.last())
    }
}

/// `s` as a JSON string literal.
pub open spec fn json_string(s: Seq<char>) -> Seq<char> {
    seq!['"'] + json_escaped(s) + seq!['"']
}

/// Inside a string literal a quote and a backslash have a backslash in front, and
/// so have the letters that stand for a line feed, a carriage return and a tab. Any
/// other control character is a space, and every other character is itself.
pub proof fn law_special_characters_are_escaped(s: Seq<char>, c: char)
    ensures
        json_escaped(Seq::empty()).len() == 0,
        json_string(s).first() == '"' && json_string(s).last() == '"',
        json_string(s).len() == json_escaped(s).len() + 2,
        json_escaped(s.push('"')) == json_escaped(s).push('\\').push('"'),
        json_escaped(s.push('\\')) == json_escaped(s).push('\\').push('\\'),
        json_escaped(s.push('\n')) == json_escaped(s).push('\\').push('n'),
        json_escaped(s.push('\r')) == json_escaped(s).push('\\').push('r'),
        json_escaped(s.push('\t')) == json_escaped(s).push('\\').push('t'),
        (c as int) < 0x20 && c != '\n' && c != '\r' && c != '\t' ==> json_escaped(s.push(c))
            == json_escaped(s).push(' '),
        (c as int) >= 0x20 && c != '"' && c != '\\' ==> json_escaped(s.push(c)) == json_escaped(
            s,
        ).push(c),
{
    assert forall|d: char| #[trigger] s.push(d).drop_last() == s by {
        assert(s.push(d).drop_last() =~= s);
    }
    let done = json_escaped(s);
    assert(json_escaped(s.push('"')) =~= done.push('\\').push('"'));
    assert(json_escaped(s.push('\\')) =~= done.push('\\').push('\\'));
    assert(json_escaped(s.push('\n')) =~= done.push('\\').push('n'));
    assert(json_escaped(s.push('\r')) =~= done.push('\\').push('r'));
    assert(json_escaped(s.push('\t')) =~= done.push('\\').push('t'));
    assert(json_escaped(s.push(c)) == done + json_escape(c));
    if (c as int) >= 0x20 && c != '"' && c != '\\' {
        assert(done + seq![c] =~= done.push(c));
    } else if (c as int) < 0x20 && c != '\n' && c != '\r' && c != '\t' {
        assert(done + seq![' '] =~= done.push(' '));
    }
}

/// Appends the escaped form of one character.
fn push_json_char(out: &mut String, c: char)
    ensures
        final(out)@ == old(out)@ + json_escape(c),
{
    if c == '"' {
        out.push('\\');
        out.push('"');
    } else if c == '\\' {
        out.push('\\');
        out.push('\\');
    } else if c == '\n' {
        out.push('\\');
        out.push('n');
    } else if c == '\r' {
        out.push('\\');
        out.push('r');
    } else if c == '\t' {
        out.push('\\');
        out.push('t');
    } else if (c as u32) < 0x20 {
        out.push(' ');
    } else {
        out.push(c);
    }
    proof {
        assert(out@ =~= old(out)@ + json_escape(c));
    }
}

/// Appends `s` as a JSON string literal.
pub fn push_json_str(out: &mut String, s: &str)
    ensures
        final(out)@ == old(out)@ + json_string(s@),
{
    out.push('"');
    let ghost start = out@;
    for c in it: s.chars()
        invariant
            it.seq() == s@,
            out@ == start + json_escaped(s@.take(it.index())),
    {
        proof {
            let done = s@.take(it.index() + 1);
            assert(done.drop_last() =~= s@.take(it.index()));
            assert(done.last() == c);
        }
        push_json_char(out, c);
    }
    out.push('"');
    proof {
        assert(s@.take(s@.len() as int) =~= s@);
        assert(out@ =~= old(out)@ + json_string(s@));
    }
}

/// No raw control character and no unescaped quote survives in a string
/// literal: between its quotes every quote follows a backslash, and every
/// character is at or above the space.
pub proof fn law_json_string_is_printable(s: Seq<char>)
    ensures
        json_string(s).len() >= 2,
        json_string(s).first() == '"',
        json_string(s).last() == '"',
        forall|i: int| 0 <= i < json_string(s).len() ==> #[trigger] json_string(s)[i] as int >= 0x20,
        forall|i: int|
            1 <= i < json_string(s).len() - 1 && #[trigger] json_string(s)[i] == '"'
                ==> json_string(s)[i - 1] == '\\',
{
    lemma_json_escaped_printable(s);
    let body = json_escaped(s);
    let whole = json_string(s);
    assert forall|i: int| 0 <= i < whole.len() implies #[trigger] whole[i] as int >= 0x20 by {
        if 1 <= i < whole.len() - 1 {
            assert(whole[i] == body[i - 1]);
        }
    }
    assert forall|i: int|
        1 <= i < whole.len() - 1 && #[trigger] whole[i] == '"' implies whole[i - 1] == '\\' by {
        assert(whole[i] == body[i - 1]);
        assert(whole[i - 1] == body[i - 2]);
    }
}

proof fn lemma_json_escaped_printable(s: Seq<char>)
    ensures
        forall|i: int|
            0 <= i < json_escaped(s).len() ==> #[trigger] json_escaped(s)[i] as int >= 0x20,
        forall|i: int|
            0 <= i < json_escaped(s).len() && #[trigger] json_escaped(s)[i] == '"' ==> i > 0
                && json_escaped(s)[i - 1] == '\\',
    decreases s.len(),
{
    if s.len() > 0 {
        lemma_json_escaped_printable(s.drop_last());
        let before = json_escaped(s.drop_last());
        let tail = json_escape(s.last());
        let whole = json_escaped(s);
        assert forall|i: int| 0 <= i < whole.len() implies #[trigger] whole[i] as int >= 0x20 by {
            if i < before.len() {
                assert(whole[i] == before[i]);
            } else {
                assert(whole[i] == tail[i - before.len()]);
            }
        }
        assert forall|i: int| 0 <= i < whole.len() && #[trigger] whole[i] == '"' implies i > 0
            && whole[i - 1] == '\\' by {
            if i < before.len() {
                assert(whole[i] == before[i]);
                assert(whole[i - 1] == before[i - 1]);
            } else {
                assert(whole[i] == tail[i - before.len()]);
                assert(whole[i - 1] == tail[i - before.len() - 1]);
            }
        }
    }
}

/// Strict order of strings, by their first differing character. Comparing code
/// points gives the same order as comparing UTF-8 bytes.
pub open spec fn text_lt(a: Seq<char>, b: Seq<char>) -> bool
    decreases a.len(),
{
    if b.len() == 0 {
        false
    } else if a.len() == 0 {
        true
    } else if a[0] != b[0] {
        (a[0] as int) < (b[0] as int)
    } else {
        text_lt(a.skip(1), b.skip(1))
    }
}

/// Strings are ordered as in a dictionary: what decides is the first character
/// in which they differ, by its code point, and where there is none the shorter
/// one comes first.
pub proof fn law_first_difference_decides(a: Seq<char>, b: Seq<char>, k: int)
    requires
        0 <= k <= a.len(),
        k <= b.len(),
        a.take(k) == b.take(k),
    ensures
        k < a.len() && k < b.len() && a[k] as int != b[k] as int ==> (text_lt(a, b) <==> (
        a[k] as int) < (b[k] as int)),
        k == a.len() && k < b.len() ==> text_lt(a, b),
        k == b.len() ==> !text_lt(a, b),
    decreases k,
{
    if k > 0 {
        assert(a[0] == a.take(k)[0] && b[0] == b.take(k)[0]);
        assert(a.skip(1).take(k - 1) =~= a.take(k).skip(1));
        assert(b.skip(1).take(k - 1) =~= b.take(k).skip(1));
        law_first_difference_decides(a.skip(1), b.skip(1), k - 1);
    }
}

/// The order of strings is total: of two different strings one is the smaller.
pub proof fn law_text_lt_total(a: Seq<char>, b: Seq<char>)
    ensures
        a == b || text_lt(a, b) || text_lt(b, a),
        !(text_lt(a, b) && text_lt(b, a)),
        a == b ==> !text_lt(a, b),
    decreases a.len(),
{
    if a.len() > 0 && b.len() > 0 && a[0] == b[0] {
        law_text_lt_total(a.skip(1), b.skip(1));
        if a.skip(1) == b.skip(1) {
            assert(a =~= seq![a[0]] + a.skip(1));
            assert(b =~= seq![b[0]] + b.skip(1));
        }
    } else if a.len() == 0 && b.len() == 0 {
        assert(a =~= b);
    }
}

/// The order of strings is transitive.
pub proof fn law_text_lt_transitive(a: Seq<char>, b: Seq<char>, c: Seq<char>)
    requires
        text_lt(a, b),
        text_lt(b, c),
    ensures
        text_lt(a, c),
    decreases a.len(),
{
    if a.len() > 0 && b.len() > 0 && c.len() > 0 && a[0] == b[0] && b[0] == c[0] {
        law_text_lt_transitive(a.skip(1), b.skip(1), c.skip(1));
    }
}

/// The code point of a character.
pub fn char_code(c: char) -> (code: u32)
    ensures
        code == c as int,
{
    c as u32
}

/// How one string stands to another.
#[derive(Clone, Copy, PartialEq, Eq, Structural)]
pub enum TextOrder {
    Before,
    Same,
    After,
}

/// Orders `a` against `b`.
pub fn text_order(a: &str, b: &str) -> (order: TextOrder)
    ensures
        order == TextOrder::Before <==> text_lt(a@, b@),
        order == TextOrder::Same <==> a@ == b@,
        order == TextOrder::After <==> text_lt(b@, a@),
{
    let x: Vec<char> = to_chars(a);
    let y: Vec<char> = to_chars(b);
    proof {
        law_text_lt_total(a@, b@);
        assert(x@.skip(0) =~= x@);
        assert(y@.skip(0) =~= y@);
    }
    let mut i: usize = 0;
    while i < x.len() && i < y.len() && x[i] == y[i]
        invariant
            i <= x@.len(),
            i <= y@.len(),
            x@ == a@,
            y@ == b@,
            x@.take(i as int) == y@.take(i as int),
            text_lt(a@, b@) == text_lt(x@.skip(i as int), y@.skip(i as int)),
            text_lt(b@, a@) == text_lt(y@.skip(i as int), x@.skip(i as int)),
        decreases x@.len() - i,
    {
        proof {
            assert(x@.take(i + 1) =~= x@.take(i as int).push(x@[i as int]));
            assert(y@.take(i + 1) =~= y@.take(i as int).push(y@[i as int]));
            assert(x@.skip(i as int).skip(1) =~= x@.skip(i + 1));
            assert(y@.skip(i as int).skip(1) =~= y@.skip(i + 1));
        }
        i = i + 1;
    }
    proof {
        if i == x@.len() && i == y@.len() {
            assert(x@.take(i as int) =~= x@);
            assert(y@.take(i as int) =~= y@);
        } else if i < x@.len() && i < y@.len() {
            assert(a@[i as int] != b@[i as int]);
        }
    }
    if i == x.len() && i == y.len() {
        TextOrder::Same
    } else if i == x.len() {
        TextOrder::Before
    } else if i == y.len() {
        TextOrder::After
    } else {
        if char_code(x[i]) < char_code(y[i]) {
            TextOrder::Before
        } else {
            TextOrder::After
        }
    }
}

/// Whether two strings are the same.
pub fn same(a: &str, b: &str) -> (equal: bool)
    ensures
        equal == (a@ == b@),
{
    match text_order(a, b) {
        TextOrder::Same => true,
        _ => false,
    }
}

/// The lower-case hexadecimal digit `d`.
pub open spec fn hex_digit(d: int) -> char {
    if d < 10 {
        (48 + d) as char
    } else {
        (87 + d) as char
    }
}

/// Two hexadecimal digits for each byte.
pub open spec fn hex(bytes: Seq<u8>) -> Seq<char> {
    Seq::new(
        2 * bytes.len(),
        |i: int|
            if i % 2 == 0 {
                hex_digit(bytes[i / 2] as int / 16)
            } else {
                hex_digit(bytes[i / 2] as int % 16)
            },
    )
}

/// What a hexadecimal digit stands for.
pub open spec fn hex_value(c: char) -> int {
    if '0' <= c && c <= '9' {
        c as int - '0' as int
    } else {
        c as int - 'a' as int + 10
    }
}

/// Bytes in hexadecimal can be read back: byte `i` is in digits `2 i` and
/// `2 i + 1`, the high half first, and every digit is one of `0` to `9` and `a`
/// to `f`.
pub proof fn law_hex_is_read_back(bytes: Seq<u8>, i: int)
    requires
        0 <= i < bytes.len(),
    ensures
        hex(bytes).len() == 2 * bytes.len(),
        bytes[i] == 16 * hex_value(hex(bytes)[2 * i]) + hex_value(hex(bytes)[2 * i + 1]),
        forall|k: int|
            0 <= k < hex(bytes).len() ==> {
                let c = #[trigger] hex(bytes)[k];
                ('0' <= c && c <= '9') || ('a' <= c && c <= 'f')
            },
{
}

fn hex_char(d: u8) -> (c: char)
    requires
        d < 16,
    ensures
        c == hex_digit(d as int),
{
    if d < 10 {
        (48u8 + d) as char
    } else {
        (87u8 + d) as char
    }
}

/// Renders bytes as lower-case hexadecimal.
pub fn hex_encode(bytes: &[u8]) -> (out: String)
    ensures
        out@ == hex(bytes@),
{
    let mut out: String = String::new();
    let mut i: usize = 0;
    while i < bytes.len()
        invariant
            i <= bytes@.len(),
            out@ == hex(bytes@.take(i as int)),
        decreases bytes@.len() - i,
    {
        out.push(hex_char(bytes[i] / 16));
        out.push(hex_char(bytes[i] % 16));
        i = i + 1;
        proof {
            let done = bytes@.take(i as int);
            assert(forall|k: int| 0 <= k < i - 1 ==> done[k] == bytes@.take(i - 1)[k]);
            assert(out@ =~= hex(done));
        }
    }
    assert(bytes@.take(i as int) =~= bytes@);
    out
}

/// The strings of a list, in order, with `separator` between each two.
pub open spec fn joined(parts: Seq<Seq<char>>, separator: Seq<char>) -> Seq<char>
    decreases parts.len(),
{
    if parts.len() == 0 {
        Seq::empty()
    } else if parts.len() == 1 {
        parts[0]
    } else {
        joined(parts.drop_last(), separator) + separator + parts.last()
    }
}

/// Strings are joined with exactly one separator between two that stand next to
/// each other, and with none in front or behind.
pub proof fn law_joined_parts_are_separated(
    parts: Seq<Seq<char>>,
    part: Seq<char>,
    separator: Seq<char>,
)
    ensures
        joined(Seq::empty(), separator).len() == 0,
        joined(seq![part], separator) == part,
        parts.len() > 0 ==> joined(parts.push(part), separator) == joined(parts, separator)
            + separator + part,
{
    assert(parts.push(part).drop_last() =~= parts);
}

/// Views lose nothing: an optional value is there with all that it holds, or not
/// there, and a list has all its strings, in order.
pub proof fn law_views_lose_nothing(s: String, bytes: Vec<u8>, list: Seq<String>, i: int)
    ensures
        text_view(Some(s)) == Some(s@),
        text_view(None) is None,
        bytes_view(Some(bytes)) == Some(bytes@),
        bytes_view(None) is None,
        text_views(list).len() == list.len(),
        0 <= i < list.len() ==> text_views(list)[i] == list[i]@,
{
}

/// An optional string by its characters.
pub open spec fn text_view(s: Option<String>) -> Option<Seq<char>> {
    match s {
        Some(s) => Some(s@),
        None => None,
    }
}

/// An optional byte vector by its bytes.
pub open spec fn bytes_view(s: Option<Vec<u8>>) -> Option<Seq<u8>> {
    match s {
        Some(s) => Some(s@),
        None => None,
    }
}

/// The characters of each string in a list.
pub open spec fn text_views(list: Seq<String>) -> Seq<Seq<char>> {
    list.map_values(|s: String| s@)
}

/// Whether the strings of a list stand in strict order.
pub open spec fn strictly_sorted(keys: Seq<Seq<char>>) -> bool {
    forall|i: int, j: int| 0 <= i < j < keys.len() ==> text_lt(#[trigger] keys[i], #[trigger] keys[j])
}

/// How many strings at the front of a list are smaller than `x`.
pub open spec fn lower_bound(keys: Seq<Seq<char>>, x: Seq<char>) -> nat
    decreases keys.len(),
{
    if keys.len() == 0 || !text_lt(keys[0], x) {
        0
    } else {
        1 + lower_bound(keys.skip(1), x)
    }
}

/// Whether `x` is among the strings of a sorted list.
pub open spec fn has_key(keys: Seq<Seq<char>>, x: Seq<char>) -> bool {
    lower_bound(keys, x) < keys.len() && keys[lower_bound(keys, x) as int] == x
}

/// A sorted list with `x` added, unless it is there already.
pub open spec fn with_key(keys: Seq<Seq<char>>, x: Seq<char>) -> Seq<Seq<char>> {
    if has_key(keys, x) {
        keys
    } else {
        keys.insert(lower_bound(keys, x) as int, x)
    }
}

/// The lower bound is the place of the first string that is not smaller.
pub proof fn lemma_lower_bound(keys: Seq<Seq<char>>, x: Seq<char>)
    ensures
        lower_bound(keys, x) <= keys.len(),
        forall|i: int| 0 <= i < lower_bound(keys, x) ==> text_lt(#[trigger] keys[i], x),
        lower_bound(keys, x) < keys.len() ==> !text_lt(keys[lower_bound(keys, x) as int], x),
    decreases keys.len(),
{
    if keys.len() > 0 && text_lt(keys[0], x) {
        let rest = keys.skip(1);
        lemma_lower_bound(rest, x);
        let n = lower_bound(rest, x) as int;
        assert forall|i: int| 0 <= i < lower_bound(keys, x) implies text_lt(
            #[trigger] keys[i],
            x,
        ) by {
            if i > 0 {
                assert(keys[i] == rest[i - 1]);
            }
        }
        if n < rest.len() {
            assert(rest[n] == keys[n + 1]);
        }
    }
}

/// A place that splits a list into smaller strings and a first one that is not
/// smaller is the lower bound.
pub proof fn lemma_lower_bound_unique(keys: Seq<Seq<char>>, x: Seq<char>, n: nat)
    requires
        n <= keys.len(),
        forall|i: int| 0 <= i < n ==> text_lt(#[trigger] keys[i], x),
        n < keys.len() ==> !text_lt(keys[n as int], x),
    ensures
        lower_bound(keys, x) == n,
{
    lemma_lower_bound(keys, x);
    let m = lower_bound(keys, x);
    if m < n {
        assert(text_lt(keys[m as int], x));
    } else if n < m {
        assert(text_lt(keys[n as int], x));
    }
}

/// A sorted list holds `x` exactly where the search finds it.
pub proof fn law_search_is_complete(keys: Seq<Seq<char>>, x: Seq<char>)
    requires
        strictly_sorted(keys),
    ensures
        has_key(keys, x) <==> keys.contains(x),
{
    lemma_lower_bound(keys, x);
    let n = lower_bound(keys, x) as int;
    if keys.contains(x) && !has_key(keys, x) {
        let i = keys.index_of(x);
        law_text_lt_total(x, x);
        if i < n {
            assert(text_lt(keys[i], x));
        } else if i > n {
            assert(text_lt(keys[n], keys[i]));
        }
    }
}

/// Adding a string keeps the list in strict order and adds nothing else.
pub proof fn law_with_key_is_sorted(keys: Seq<Seq<char>>, x: Seq<char>)
    requires
        strictly_sorted(keys),
    ensures
        strictly_sorted(with_key(keys, x)),
        forall|t: Seq<char>| #[trigger] with_key(keys, x).contains(t) <==> keys.contains(t) || t == x,
{
    lemma_lower_bound(keys, x);
    let n = lower_bound(keys, x) as int;
    let out = with_key(keys, x);
    if has_key(keys, x) {
        assert(keys[n] == x);
    } else {
        assert forall|i: int, j: int| 0 <= i < j < out.len() implies text_lt(
            #[trigger] out[i],
            #[trigger] out[j],
        ) by {
            let a = if i < n {
                i
            } else {
                i - 1
            };
            let b = if j < n {
                j
            } else {
                j - 1
            };
            if i == n {
                law_text_lt_total(x, keys[n]);
                if b != n {
                    law_text_lt_transitive(x, keys[n], keys[b]);
                }
            } else if j == n {
                assert(text_lt(keys[a], x));
            } else {
                assert(text_lt(keys[a], keys[b]));
            }
        }
        assert forall|t: Seq<char>| out.contains(t) <==> keys.contains(t) || t == x by {
            if out.contains(t) {
                let i = out.index_of(t);
                if i < n {
                    assert(keys[i] == t);
                } else if i > n {
                    assert(keys[i - 1] == t);
                }
            }
            if keys.contains(t) {
                let i = keys.index_of(t);
                if i < n {
                    assert(out[i] == t);
                } else {
                    assert(out[i + 1] == t);
                }
            }
            if t == x {
                assert(out[n] == x);
            }
        }
    }
}

/// Whether `a` comes before `b`.
pub fn precedes(a: &str, b: &str) -> (yes: bool)
    ensures
        yes == text_lt(a@, b@),
{
    match text_order(a, b) {
        TextOrder::Before => true,
        _ => false,
    }
}

/// Adds `x` to a sorted list of strings, unless it is there already.
pub fn insert_sorted(keys: &mut Vec<String>, x: String)
    ensures
        text_views(final(keys)@) == with_key(text_views(old(keys)@), x@),
{
    let ghost before = text_views(keys@);
    let i: usize = place_in(keys, x.as_str());
    if i < keys.len() && same(keys[i].as_str(), x.as_str()) {
        return;
    }
    keys.insert(i, x);
    assert(text_views(keys@) =~= with_key(before, x@));
}

/// A sorted list without `x`.
pub open spec fn without_key(keys: Seq<Seq<char>>, x: Seq<char>) -> Seq<Seq<char>> {
    if has_key(keys, x) {
        keys.remove(lower_bound(keys, x) as int)
    } else {
        keys
    }
}

/// Removing a string keeps the list in strict order and removes nothing else.
pub proof fn law_without_key_is_sorted(keys: Seq<Seq<char>>, x: Seq<char>)
    requires
        strictly_sorted(keys),
    ensures
        strictly_sorted(without_key(keys, x)),
        forall|t: Seq<char>| #[trigger] without_key(keys, x).contains(t) <==> keys.contains(t) && t != x,
{
    law_search_is_complete(keys, x);
    lemma_lower_bound(keys, x);
    let n = lower_bound(keys, x) as int;
    let out = without_key(keys, x);
    if has_key(keys, x) {
        law_text_lt_total(x, x);
        assert forall|t: Seq<char>| out.contains(t) <==> keys.contains(t) && t != x by {
            if out.contains(t) {
                let i = out.index_of(t);
                if i < n {
                    assert(keys[i] == t);
                    assert(text_lt(keys[i], keys[n]));
                } else {
                    assert(keys[i + 1] == t);
                    assert(text_lt(keys[n], keys[i + 1]));
                }
            }
            if keys.contains(t) && t != x {
                let i = keys.index_of(t);
                if i < n {
                    assert(out[i] == t);
                } else {
                    assert(out[i - 1] == t);
                }
            }
        }
    }
}

/// Where `x` stands, or would stand, in a sorted list.
fn place_in(keys: &Vec<String>, x: &str) -> (i: usize)
    ensures
        i == lower_bound(text_views(keys@), x@),
        i <= keys@.len(),
{
    let ghost all = text_views(keys@);
    let mut i: usize = 0;
    while i < keys.len() && precedes(keys[i].as_str(), x)
        invariant
            i <= keys@.len(),
            all == text_views(keys@),
            forall|k: int| 0 <= k < i ==> text_lt(#[trigger] all[k], x@),
        decreases keys@.len() - i,
    {
        i = i + 1;
    }
    proof {
        lemma_lower_bound_unique(all, x@, i as nat);
    }
    i
}

/// Whether `x` is in a sorted list.
pub fn contains_sorted(keys: &Vec<String>, x: &str) -> (found: bool)
    ensures
        found == has_key(text_views(keys@), x@),
{
    let i: usize = place_in(keys, x);
    i < keys.len() && same(keys[i].as_str(), x)
}

/// Takes `x` out of a sorted list, if it is there.
pub fn remove_sorted(keys: &mut Vec<String>, x: &str)
    ensures
        text_views(final(keys)@) == without_key(text_views(old(keys)@), x@),
{
    let ghost before = text_views(keys@);
    let i: usize = place_in(keys, x);
    if i < keys.len() && same(keys[i].as_str(), x) {
        let _gone: String = keys.remove(i);
        assert(text_views(keys@) =~= without_key(before, x@));
    }
}

} // verus!
