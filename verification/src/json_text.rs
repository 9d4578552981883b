//! JSON texts read back: the value that a text without white space denotes.

use crate::text;
use vstd::prelude::*;

verus! {

/// A JSON value. The members of a record keep their order.
pub ghost enum Json {
    Text(Seq<char>),
    Number(int),
    List(Seq<Json>),
    Record(Seq<(Seq<char>, Json)>),
}

/// What the character behind a backslash stands for, if anything.
pub open spec fn unescaped(c: char) -> Option<char> {
    if c == '"' || c == '\\' || c == '/' {
        Some(c)
    } else if c == 'n' {
        Some('\n')
    } else if c == 'r' {
        Some('\r')
    } else if c == 't' {
        Some('\t')
    } else {
        None
    }
}

/// Reads characters up to the closing quote, and tells what is left behind it.
pub open spec fn read_chars(s: Seq<char>) -> Option<(Seq<char>, Seq<char>)>
    decreases s.len(),
{
    if s.len() == 0 || (s[0] as int) < 0x20 {
        None
    } else if s[0] == '"' {
        Some((Seq::empty(), s.skip(1)))
    } else if s[0] == '\\' {
        if s.len() < 2 {
            None
        } else {
            match (unescaped(s[1]), read_chars(s.skip(2))) {
                (Some(c), Some((chars, rest))) => Some((seq![c] + chars, rest)),
                _ => None,
            }
        }
    } else {
        match read_chars(s.skip(1)) {
            Some((chars, rest)) => Some((seq![s[0]] + chars, rest)),
            None => None,
        }
    }
}

/// Whether a character is a decimal digit.
pub open spec fn is_digit(c: char) -> bool {
    '0' <= c && c <= '9'
}

/// Reads the digits at the front, behind digits that denote `value`.
pub open spec fn read_digits(s: Seq<char>, value: int) -> (int, Seq<char>)
    decreases s.len(),
{
    if s.len() > 0 && is_digit(s[0]) {
        read_digits(s.skip(1), 10 * value + (s[0] as int - '0' as int))
    } else {
        (value, s)
    }
}

/// Reads a natural number: at least one digit, and no zero in front of others.
pub open spec fn read_natural(s: Seq<char>) -> Option<(int, Seq<char>)> {
    if s.len() == 0 || !is_digit(s[0]) || (s[0] == '0' && s.len() > 1 && is_digit(s[1])) {
        None
    } else {
        Some(read_digits(s, 0))
    }
}

/// Reads a whole number, with a minus sign where it is negative.
pub open spec fn read_number(s: Seq<char>) -> Option<(int, Seq<char>)> {
    if s.len() > 0 && s[0] == '-' {
        match read_natural(s.skip(1)) {
            Some((n, rest)) => Some((-n, rest)),
            None => None,
        }
    } else {
        read_natural(s)
    }
}

/// Reads one value, in at most `steps` steps, and tells what is left behind it.
pub open spec fn read_value(s: Seq<char>, steps: nat) -> Option<(Json, Seq<char>)>
    decreases steps,
{
    if steps == 0 || s.len() == 0 {
        None
    } else if s[0] == '"' {
        match read_chars(s.skip(1)) {
            Some((chars, rest)) => Some((Json::Text(chars), rest)),
            None => None,
        }
    } else if s[0] == '[' {
        if s.len() > 1 && s[1] == ']' {
            Some((Json::List(Seq::empty()), s.skip(2)))
        } else {
            read_items(s.skip(1), Seq::empty(), (steps - 1) as nat)
        }
    } else if s[0] == '{' {
        if s.len() > 1 && s[1] == '}' {
            Some((Json::Record(Seq::empty()), s.skip(2)))
        } else {
            read_members(s.skip(1), Seq::empty(), (steps - 1) as nat)
        }
    } else {
        match read_number(s) {
            Some((n, rest)) => Some((Json::Number(n), rest)),
            None => None,
        }
    }
}

/// Reads the items of a list that come behind `items`, with one comma between
/// two, up to the closing bracket.
pub open spec fn read_items(s: Seq<char>, items: Seq<Json>, steps: nat) -> Option<
    (Json, Seq<char>),
>
    decreases steps,
{
    if steps == 0 {
        None
    } else {
        match read_value(s, (steps - 1) as nat) {
            None => None,
            Some((item, rest)) => if rest.len() == 0 {
                None
            } else if rest[0] == ',' {
                read_items(rest.skip(1), items.push(item), (steps - 1) as nat)
            } else if rest[0] == ']' {
                Some((Json::List(items.push(item)), rest.skip(1)))
            } else {
                None
            },
        }
    }
}

/// Reads the members of a record that come behind `members`, each a name and a
/// value with a colon between, and one comma between two, up to the closing
/// brace.
pub open spec fn read_members(
    s: Seq<char>,
    members: Seq<(Seq<char>, Json)>,
    steps: nat,
) -> Option<(Json, Seq<char>)>
    decreases steps,
{
    if steps == 0 || s.len() == 0 || s[0] != '"' {
        None
    } else {
        match read_chars(s.skip(1)) {
            None => None,
            Some((name, after)) => if after.len() == 0 || after[0] != ':' {
                None
            } else {
                match read_value(after.skip(1), (steps - 1) as nat) {
                    None => None,
                    Some((value, rest)) => if rest.len() == 0 {
                        None
                    } else if rest[0] == ',' {
                        read_members(
                            rest.skip(1),
                            members.push((name, value)),
                            (steps - 1) as nat,
                        )
                    } else if rest[0] == '}' {
                        Some((Json::Record(members.push((name, value))), rest.skip(1)))
                    } else {
                        None
                    },
                }
            },
        }
    }
}

/// The value that a whole text denotes, if it is a JSON text.
pub open spec fn parsed(s: Seq<char>) -> Option<Json> {
    match read_value(s, s.len() + 1) {
        Some((value, rest)) => if rest.len() == 0 {
            Some(value)
        } else {
            None
        },
        None => None,
    }
}

/// What is left of a text inside a JSON string: a control character other than
/// a line feed, a carriage return or a tab is shown as a space.
pub open spec fn shown(s: Seq<char>) -> Seq<char> {
    s.map_values(
        |c: char|
            if (c as int) < 0x20 && c != '\n' && c != '\r' && c != '\t' {
                ' '
            } else {
                c
            },
    )
}

/// Whether a text ends here, or goes on as it does behind a value.
pub open spec fn ends(rest: Seq<char>) -> bool {
    rest.len() == 0 || rest[0] == ',' || rest[0] == ']' || rest[0] == '}'
}

/// Whether `t` denotes `value`, whatever stands behind it.
pub open spec fn denotes(t: Seq<char>, value: Json) -> bool {
    &&& t.len() > 0
    &&& t[0] != ']' && t[0] != '}'
    &&& forall|rest: Seq<char>, steps: nat|
        ends(rest) && steps > t.len() ==> #[trigger] read_value(t + rest, steps) == Some(
            (value, rest),
        )
}

/// A text that denotes a value parses to it.
pub proof fn lemma_parsed(t: Seq<char>, value: Json)
    requires
        denotes(t, value),
    ensures
        parsed(t) == Some(value),
{
    assert(t + Seq::<char>::empty() =~= t);
    assert(read_value(t + Seq::<char>::empty(), t.len() + 1) == Some((value, Seq::<char>::empty())));
}

proof fn lemma_escaped_front(s: Seq<char>)
    requires
        s.len() > 0,
    ensures
        text::json_escaped(s) == text::json_escape(s[0]) + text::json_escaped(s.skip(1)),
    decreases s.len(),
{
    reveal_with_fuel(text::json_escaped, 2);
    if s.len() == 1 {
        assert(s.drop_last() =~= Seq::empty());
        assert(s.skip(1) =~= Seq::empty());
        assert(text::json_escaped(s) =~= text::json_escape(s[0]) + text::json_escaped(s.skip(1)));
    } else {
        lemma_escaped_front(s.drop_last());
        assert(s.drop_last().skip(1) =~= s.skip(1).drop_last());
        assert(s.skip(1).last() == s.last());
        assert(text::json_escaped(s) =~= text::json_escape(s[0]) + text::json_escaped(s.skip(1)));
    }
}

/// Reading back the inside of a string literal gives the text that it was made
/// from, as far as it can be shown.
pub proof fn law_string_is_read_back(s: Seq<char>, rest: Seq<char>)
    ensures
        read_chars(text::json_escaped(s) + seq!['"'] + rest) == Some((shown(s), rest)),
    decreases s.len(),
{
    let whole = text::json_escaped(s) + seq!['"'] + rest;
    if s.len() == 0 {
        assert(whole.skip(1) =~= rest);
        assert(shown(s) =~= Seq::empty());
    } else {
        let tail = text::json_escaped(s.skip(1)) + seq!['"'] + rest;
        lemma_escaped_front(s);
        law_string_is_read_back(s.skip(1), rest);
        let head = text::json_escape(s[0]);
        assert(whole =~= head + tail);
        assert(whole.skip(head.len() as int) =~= tail);
        assert(whole[0] == head[0]);
        if head.len() == 2 {
            assert(whole[1] == head[1]);
        }
        let c = if (s[0] as int) < 0x20 && s[0] != '\n' && s[0] != '\r' && s[0] != '\t' {
            ' '
        } else {
            s[0]
        };
        assert(shown(s) =~= seq![c] + shown(s.skip(1)));
    }
}

/// A string literal denotes its text.
pub proof fn lemma_string_denotes(s: Seq<char>)
    ensures
        denotes(text::json_string(s), Json::Text(shown(s))),
{
    let t = text::json_string(s);
    assert forall|rest: Seq<char>, steps: nat| ends(rest) && steps > t.len() implies #[trigger] read_value(
        t + rest,
        steps,
    ) == Some((Json::Text(shown(s)), rest)) by {
        law_string_is_read_back(s, rest);
        assert((t + rest).skip(1) =~= text::json_escaped(s) + seq!['"'] + rest);
    }
}

proof fn lemma_digits(n: nat, rest: Seq<char>)
    ensures
        read_digits(text::decimal(n) + rest, 0) == read_digits(rest, n as int),
        text::decimal(n).len() > 0,
        is_digit(text::decimal(n)[0]),
        text::decimal(n)[0] == '0' ==> text::decimal(n).len() == 1,
        n > 0 ==> text::decimal(n)[0] != '0',
    decreases n,
{
    let d = (n % 10) as int;
    let tail = seq![text::digit(d)] + rest;
    assert(tail.skip(1) =~= rest);
    assert(is_digit(tail[0]));
    if n < 10 {
        assert(text::decimal(n) + rest =~= tail);
    } else {
        lemma_digits(n / 10, tail);
        assert(text::decimal(n) + rest =~= text::decimal(n / 10) + tail);
    }
}

/// Reading back a decimal numeral gives the number, whatever stands behind it
/// that is no digit.
pub proof fn law_decimal_is_read_back(n: int, rest: Seq<char>)
    requires
        rest.len() > 0 ==> !is_digit(rest[0]),
    ensures
        read_number(text::decimal_int(n) + rest) == Some((n, rest)),
        n >= 0 ==> read_natural(text::decimal(n as nat) + rest) == Some((n, rest)),
{
    let magnitude = if n < 0 {
        (-n) as nat
    } else {
        n as nat
    };
    let digits = text::decimal(magnitude);
    lemma_digits(magnitude, rest);
    assert((digits + rest)[0] == digits[0]);
    if digits.len() > 1 {
        assert((digits + rest)[1] == digits[1]);
    } else if rest.len() > 0 {
        assert((digits + rest)[1] == rest[0]);
    }
    assert(read_natural(digits + rest) == Some((magnitude as int, rest)));
    if n < 0 {
        let whole = text::decimal_int(n) + rest;
        assert(whole.skip(1) =~= digits + rest);
        assert(whole[0] == '-');
    }
}

/// A decimal numeral denotes its number.
pub proof fn lemma_number_denotes(n: int)
    ensures
        denotes(text::decimal_int(n), Json::Number(n)),
        n >= 0 ==> denotes(text::decimal(n as nat), Json::Number(n)),
{
    let t = text::decimal_int(n);
    let magnitude = if n < 0 {
        (-n) as nat
    } else {
        n as nat
    };
    lemma_digits(magnitude, Seq::empty());
    assert(n < 0 ==> t[0] == '-');
    assert forall|rest: Seq<char>, steps: nat| ends(rest) && steps > t.len() implies #[trigger] read_value(
        t + rest,
        steps,
    ) == Some((Json::Number(n), rest)) by {
        law_decimal_is_read_back(n, rest);
        assert((t + rest)[0] == t[0]);
    }
}

/// The part of a list from item `from` on, up to and with the closing bracket.
spec fn items_from(parts: Seq<Seq<char>>, from: int) -> Seq<char>
    decreases parts.len() - from,
{
    if from >= parts.len() {
        seq![']']
    } else if from == parts.len() - 1 {
        parts[from] + seq![']']
    } else {
        parts[from] + seq![','] + items_from(parts, from + 1)
    }
}

proof fn lemma_joined_splits(parts: Seq<Seq<char>>, from: int)
    requires
        0 <= from < parts.len(),
    ensures
        text::joined(parts, seq![',']) + seq![']'] == text::joined(
            parts.take(from),
            seq![','],
        ) + (if from == 0 {
            Seq::<char>::empty()
        } else {
            seq![',']
        }) + items_from(parts, from),
    decreases parts.len() - from,
{
    let comma = seq![','];
    let whole = text::joined(parts, comma) + seq![']'];
    let head = text::joined(parts.take(from), comma);
    let next = text::joined(parts.take(from + 1), comma);
    assert(parts.take(from + 1).drop_last() =~= parts.take(from));
    assert(parts.take(from + 1).last() == parts[from]);
    let lead = if from == 0 {
        Seq::<char>::empty()
    } else {
        comma
    };
    assert(next =~= head + lead + parts[from]) by {
        reveal_with_fuel(text::joined, 2);
    }
    if from == parts.len() - 1 {
        assert(parts.take(from + 1) =~= parts);
        assert(whole =~= head + lead + items_from(parts, from));
    } else {
        lemma_joined_splits(parts, from + 1);
        assert(whole =~= head + lead + items_from(parts, from));
    }
}

proof fn lemma_items(
    parts: Seq<Seq<char>>,
    values: Seq<Json>,
    from: int,
    rest: Seq<char>,
    steps: nat,
)
    requires
        parts.len() == values.len(),
        0 <= from < parts.len(),
        forall|i: int| 0 <= i < parts.len() ==> denotes(#[trigger] parts[i], values[i]),
        steps > items_from(parts, from).len(),
    ensures
        read_items(items_from(parts, from) + rest, values.take(from), steps) == Some(
            (Json::List(values), rest),
        ),
    decreases parts.len() - from,
{
    let t = parts[from];
    assert(denotes(t, values[from]));
    let whole = items_from(parts, from) + rest;
    assert(values.take(from).push(values[from]) =~= values.take(from + 1));
    if from == parts.len() - 1 {
        let after = seq![']'] + rest;
        assert(whole =~= t + after);
        assert(read_value(t + after, (steps - 1) as nat) == Some((values[from], after)));
        assert(after.skip(1) =~= rest);
        assert(values.take(from + 1) =~= values);
    } else {
        let after = seq![','] + items_from(parts, from + 1) + rest;
        assert(whole =~= t + after);
        assert(read_value(t + after, (steps - 1) as nat) == Some((values[from], after)));
        assert(after.skip(1) =~= items_from(parts, from + 1) + rest);
        lemma_items(parts, values, from + 1, rest, (steps - 1) as nat);
    }
}

/// Items with one comma between two, in brackets, denote their list: one value
/// for each item, in order.
pub proof fn lemma_list_denotes(parts: Seq<Seq<char>>, values: Seq<Json>)
    requires
        parts.len() == values.len(),
        forall|i: int| 0 <= i < parts.len() ==> denotes(#[trigger] parts[i], values[i]),
    ensures
        denotes(
            seq!['['] + text::joined(parts, seq![',']) + seq![']'],
            Json::List(values),
        ),
{
    let t = seq!['['] + text::joined(parts, seq![',']) + seq![']'];
    assert forall|rest: Seq<char>, steps: nat| ends(rest) && steps > t.len() implies #[trigger] read_value(
        t + rest,
        steps,
    ) == Some((Json::List(values), rest)) by {
        let whole = t + rest;
        assert(whole[0] == '[');
        if parts.len() == 0 {
            assert(whole.skip(2) =~= rest);
            assert(values =~= Seq::empty());
        } else {
            lemma_joined_splits(parts, 0);
            assert(text::joined(parts.take(0), seq![',']) =~= Seq::empty());
            assert(text::joined(parts, seq![',']) + seq![']'] =~= items_from(parts, 0));
            assert(t =~= seq!['['] + items_from(parts, 0));
            assert(whole.skip(1) =~= items_from(parts, 0) + rest);
            assert(denotes(parts[0], values[0]));
            assert(whole[1] == parts[0][0]);
            lemma_items(parts, values, 0, rest, (steps - 1) as nat);
            assert(values.take(0) =~= Seq::empty());
        }
    }
}

/// Whether a name needs no escapes in a string literal.
pub open spec fn is_plain(name: Seq<char>) -> bool {
    forall|i: int|
        0 <= i < name.len() ==> (#[trigger] name[i]) as int >= 0x20 && name[i] != '"' && name[i]
            != '\\'
}

proof fn lemma_plain(name: Seq<char>)
    requires
        is_plain(name),
    ensures
        text::json_escaped(name) == name,
        shown(name) == name,
    decreases name.len(),
{
    if name.len() > 0 {
        assert forall|i: int| 0 <= i < name.drop_last().len() implies (#[trigger] name.drop_last()[i]) as int
            >= 0x20 && name.drop_last()[i] != '"' && name.drop_last()[i] != '\\' by {
            assert(name[i] == name.drop_last()[i]);
        }
        lemma_plain(name.drop_last());
        assert(name.last() == name[name.len() - 1]);
        assert(text::json_escaped(name) =~= name);
    }
    assert(shown(name) =~= name);
}

/// A member of a record: its name and the text of its value.
pub open spec fn member(name: Seq<char>, t: Seq<char>) -> Seq<char> {
    seq!['"'] + name + seq!['"', ':'] + t
}

/// The members of a record from `from` on, up to and with the closing brace.
spec fn members_from(names: Seq<Seq<char>>, parts: Seq<Seq<char>>, from: int) -> Seq<char>
    decreases parts.len() - from,
{
    if from >= parts.len() {
        seq!['}']
    } else if from == parts.len() - 1 {
        member(names[from], parts[from]) + seq!['}']
    } else {
        member(names[from], parts[from]) + seq![','] + members_from(names, parts, from + 1)
    }
}

proof fn lemma_members(
    names: Seq<Seq<char>>,
    parts: Seq<Seq<char>>,
    values: Seq<(Seq<char>, Json)>,
    from: int,
    rest: Seq<char>,
    steps: nat,
)
    requires
        parts.len() == values.len(),
        names.len() == values.len(),
        0 <= from < parts.len(),
        forall|i: int|
            0 <= i < parts.len() ==> values[i].0 == names[i] && is_plain(#[trigger] names[i])
                && denotes(parts[i], values[i].1),
        steps > members_from(names, parts, from).len(),
    ensures
        read_members(members_from(names, parts, from) + rest, values.take(from), steps) == Some(
            (Json::Record(values), rest),
        ),
    decreases parts.len() - from,
{
    let name = names[from];
    let t = parts[from];
    let value = values[from].1;
    assert(is_plain(name) && denotes(t, value));
    lemma_plain(name);
    let whole = members_from(names, parts, from) + rest;
    let last = from == parts.len() - 1;
    let after = if last {
        seq!['}'] + rest
    } else {
        seq![','] + members_from(names, parts, from + 1) + rest
    };
    assert(whole =~= member(name, t) + after);
    let behind_name = seq![':'] + t + after;
    assert(whole.skip(1) =~= name + seq!['"'] + behind_name);
    law_string_is_read_back(name, behind_name);
    assert(whole[0] == '"');
    assert(read_chars(whole.skip(1)) == Some((name, behind_name)));
    assert(behind_name.skip(1) =~= t + after);
    assert(read_value(t + after, (steps - 1) as nat) == Some((value, after)));
    assert(values.take(from).push(values[from]) =~= values.take(from + 1));
    assert(values[from] == (name, value));
    if last {
        assert(after.skip(1) =~= rest);
        assert(values.take(from + 1) =~= values);
    } else {
        assert(after.skip(1) =~= members_from(names, parts, from + 1) + rest);
        lemma_members(names, parts, values, from + 1, rest, (steps - 1) as nat);
    }
}

/// The text of a record up to its closing brace.
pub open spec fn record_front(names: Seq<Seq<char>>, parts: Seq<Seq<char>>) -> Seq<char>
    decreases parts.len(),
{
    if parts.len() == 0 {
        seq!['{']
    } else if parts.len() == 1 {
        seq!['{'] + member(names[0], parts[0])
    } else {
        record_front(names.drop_last(), parts.drop_last()) + seq![','] + member(
            names.last(),
            parts.last(),
        )
    }
}

proof fn lemma_front_splits(names: Seq<Seq<char>>, parts: Seq<Seq<char>>, n: int)
    requires
        names.len() == parts.len(),
        1 <= n <= parts.len(),
    ensures
        seq!['{'] + members_from(names, parts, 0) == record_front(names.take(n), parts.take(n)) + (
        if n == parts.len() {
            seq!['}']
        } else {
            seq![','] + members_from(names, parts, n)
        }),
    decreases n,
{
    let front = record_front(names.take(n), parts.take(n));
    if n == 1 {
        assert(front =~= seq!['{'] + member(names[0], parts[0]));
        assert(seq!['{'] + members_from(names, parts, 0) =~= front + (if n == parts.len() {
            seq!['}']
        } else {
            seq![','] + members_from(names, parts, n)
        }));
    } else {
        lemma_front_splits(names, parts, n - 1);
        assert(names.take(n).drop_last() =~= names.take(n - 1));
        assert(parts.take(n).drop_last() =~= parts.take(n - 1));
        let before = record_front(names.take(n - 1), parts.take(n - 1));
        let next = member(names[n - 1], parts[n - 1]);
        lemma_grouping(
            before,
            next,
            if n == parts.len() {
                seq!['}']
            } else {
                seq![','] + members_from(names, parts, n)
            },
        );
        if n < parts.len() {
            assert(next + seq![','] + members_from(names, parts, n) =~= next + (seq![',']
                + members_from(names, parts, n)));
        }
    }
}

proof fn lemma_grouping(a: Seq<char>, b: Seq<char>, c: Seq<char>)
    ensures
        a + (seq![','] + (b + c)) == a + seq![','] + b + c,
{
    assert(a + (seq![','] + (b + c)) =~= a + seq![','] + b + c);
}

/// How the text of a record starts.
pub proof fn lemma_first_member(name: Seq<char>, part: Seq<char>)
    ensures
        record_front(seq![name], seq![part]) == (seq!['{', '"'] + name + seq!['"', ':']) + part,
{
    assert(record_front(seq![name], seq![part]) =~= (seq!['{', '"'] + name + seq!['"', ':'])
        + part);
}

/// How the text of a record goes on with one more member.
pub proof fn lemma_next_member(
    names: Seq<Seq<char>>,
    parts: Seq<Seq<char>>,
    name: Seq<char>,
    part: Seq<char>,
)
    requires
        names.len() == parts.len(),
        parts.len() > 0,
    ensures
        record_front(names.push(name), parts.push(part)) == record_front(names, parts) + (seq![
            ',',
            '"',
        ] + name + seq!['"', ':']) + part,
{
    assert(names.push(name).drop_last() =~= names);
    assert(parts.push(part).drop_last() =~= parts);
    lemma_member_grouping(record_front(names, parts), name, part);
}

proof fn lemma_member_grouping(front: Seq<char>, name: Seq<char>, part: Seq<char>)
    ensures
        front + seq![','] + member(name, part) == front + (seq![',', '"'] + name + seq!['"', ':'])
            + part,
{
    assert(front + seq![','] + member(name, part) =~= front + (seq![',', '"'] + name + seq![
        '"',
        ':',
    ]) + part);
}

/// A member whose value is a list, as it stands behind others.
pub proof fn lemma_list_member(front: Seq<char>, name: Seq<char>, items: Seq<char>)
    ensures
        front + (seq![',', '"'] + name + seq!['"', ':']) + (seq!['['] + items + seq![']']) == front
            + (seq![',', '"'] + name + seq!['"', ':', '[']) + items + seq![']'],
{
    assert(front + (seq![',', '"'] + name + seq!['"', ':']) + (seq!['['] + items + seq![']'])
        =~= front + (seq![',', '"'] + name + seq!['"', ':', '[']) + items + seq![']']);
}

/// A bracket that closes a list, in front of one more member.
pub proof fn lemma_closing_bracket(front: Seq<char>, name: Seq<char>)
    ensures
        front + seq![']'] + (seq![',', '"'] + name + seq!['"', ':']) == front + (seq![
            ']',
            ',',
            '"',
        ] + name + seq!['"', ':']),
{
    assert(front + seq![']'] + (seq![',', '"'] + name + seq!['"', ':']) =~= front + (seq![
        ']',
        ',',
        '"',
    ] + name + seq!['"', ':']));
}

/// Members with one comma between two, in braces, denote their record.
pub proof fn lemma_record_denotes(
    names: Seq<Seq<char>>,
    parts: Seq<Seq<char>>,
    values: Seq<(Seq<char>, Json)>,
)
    requires
        parts.len() == values.len(),
        names.len() == values.len(),
        parts.len() > 0,
        forall|i: int|
            0 <= i < parts.len() ==> values[i].0 == names[i] && is_plain(#[trigger] names[i])
                && denotes(parts[i], values[i].1),
    ensures
        denotes(record_front(names, parts) + seq!['}'], Json::Record(values)),
{
    let t = seq!['{'] + members_from(names, parts, 0);
    lemma_front_splits(names, parts, parts.len() as int);
    assert(names.take(parts.len() as int) =~= names);
    assert(parts.take(parts.len() as int) =~= parts);
    assert forall|rest: Seq<char>, steps: nat| ends(rest) && steps > t.len() implies #[trigger] read_value(
        t + rest,
        steps,
    ) == Some((Json::Record(values), rest)) by {
        let whole = t + rest;
        assert(whole[0] == '{');
        assert(whole.skip(1) =~= members_from(names, parts, 0) + rest);
        assert(members_from(names, parts, 0)[0] == '"');
        assert(whole[1] == '"');
        lemma_members(names, parts, values, 0, rest, (steps - 1) as nat);
        assert(values.take(0) =~= Seq::empty());
    }
}

} // verus!
