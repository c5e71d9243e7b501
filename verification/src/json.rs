//! The documented JSON shape of a result list.
//!
//! A result list serializes to an array of objects, one per resolution:
//! `{"name":…,"source":…,"records":[…]}` for a successful outcome
//! (possibly with an empty array) and `{"name":…,"source":…,"failure":…}`
//! for a failed one, so that exactly one of `records`/`failure` is present
//! per entry. String values escape the quote, the backslash and control
//! characters; parsing a serialized list back yields the records the list
//! was built from.

use vstd::prelude::*;

use crate::text::{chars_to_string, join_chars, lemma_join_chars_push};
use crate::types::{DugResult, DugResultView, Resolution, ResolutionView};

verus! {

/// The character of one hexadecimal digit, lower case.
pub open spec fn hex_digit_char(d: nat) -> char
    recommends
        d < 16,
{
    if d < 10 {
        ((48 + d) as u8) as char
    } else {
        ((87 + d) as u8) as char
    }
}

/// How one character stands inside a JSON string: the quote and the
/// backslash get a backslash escape, control characters a `\u00XX`
/// escape, and every other character stands as itself.
pub open spec fn escape_char(c: char) -> Seq<char> {
    if c == '"' {
        seq!['\\', '"']
    } else if c == '\\' {
        seq!['\\', '\\']
    } else if (c as u32) < 32 {
        seq![
            '\\',
            'u',
            '0',
            '0',
            hex_digit_char(((c as u32) / 16) as nat),
            hex_digit_char(((c as u32) % 16) as nat),
        ]
    } else {
        seq![c]
    }
}

/// The body of a JSON string: each character escaped in order.
pub open spec fn escape_string(s: Seq<char>) -> Seq<char>
    decreases s.len(),
{
    if s.len() == 0 {
        Seq::empty()
    } else {
        escape_char(s[0]) + escape_string(s.drop_first())
    }
}

/// Escaping one more character appends its escape.
pub proof fn lemma_escape_string_push(s: Seq<char>, c: char)
    ensures
        escape_string(s.push(c)) == escape_string(s) + escape_char(c),
    decreases s.len(),
{
    if s.len() == 0 {
        assert(s.push(c).drop_first() =~= Seq::<char>::empty());
        assert(escape_string(Seq::<char>::empty()) == Seq::<char>::empty());
        assert(s.push(c)[0] == c);
        assert(escape_string(s.push(c)) =~= escape_char(c));
        assert(escape_string(s) + escape_char(c) =~= escape_char(c));
    } else {
        lemma_escape_string_push(s.drop_first(), c);
        assert(s.push(c).drop_first() =~= s.drop_first().push(c));
        assert(escape_string(s) + escape_char(c) =~= escape_char(s[0]) + (escape_string(
            s.drop_first(),
        ) + escape_char(c)));
    }
}

/// A JSON string: the escaped body between quotes.
pub open spec fn quoted(s: Seq<char>) -> Seq<char> {
    seq!['"'] + escape_string(s) + seq!['"']
}

/// The tail of one serialized entry, carrying exactly one of the
/// `records` and `failure` keys.
pub open spec fn json_of_result(v: DugResultView) -> Seq<char> {
    match v {
        DugResultView::Records(recs) => ",\"records\":["@ + join_chars(
            recs.map_values(|r: Seq<char>| quoted(r)),
            seq![','],
        ) + "]}"@,
        DugResultView::Failure(f) => ",\"failure\":"@ + quoted(f) + seq!['}'],
    }
}

/// One serialized entry: the hostname, the source label, and the outcome.
pub open spec fn json_of_resolution(v: ResolutionView) -> Seq<char> {
    "{\"name\":"@ + quoted(v.name) + ",\"source\":"@ + quoted(v.source) + json_of_result(v.result)
}

/// A serialized result list: the entries, comma-separated, between
/// brackets.
pub open spec fn json_of_resolutions(vs: Seq<ResolutionView>) -> Seq<char> {
    seq!['['] + join_chars(vs.map_values(|v: ResolutionView| json_of_resolution(v)), seq![','])
        + seq![']']
}

/// The value of one hexadecimal digit character, or 16 for any other
/// character.
pub open spec fn hex_val(c: char) -> int {
    let u = (c as u32) as int;
    if 48 <= u && u <= 57 {
        u - 48
    } else if 97 <= u && u <= 102 {
        u - 87
    } else {
        16
    }
}

/// A hexadecimal digit character reads back as its value.
pub proof fn lemma_hex_digit_val(d: nat)
    requires
        d < 16,
    ensures
        hex_val(hex_digit_char(d)) == d,
{
}

/// The text at `i` begins with `p`.
pub open spec fn matches_at(s: Seq<char>, i: int, p: Seq<char>) -> bool {
    &&& 0 <= i
    &&& i + p.len() <= s.len()
    &&& s.subrange(i, i + p.len() as int) == p
}

/// A matched prefix pins each of its characters.
pub proof fn lemma_matches_at_index(s: Seq<char>, i: int, p: Seq<char>, k: int)
    requires
        matches_at(s, i, p),
        0 <= k < p.len(),
    ensures
        s[i + k] == p[k],
{
    assert(s.subrange(i, i + p.len() as int)[k] == s[i + k]);
}

/// A match of a concatenation is a match of each part in turn.
pub proof fn lemma_matches_at_split(s: Seq<char>, i: int, p: Seq<char>, q: Seq<char>)
    requires
        matches_at(s, i, p + q),
    ensures
        matches_at(s, i, p),
        matches_at(s, i + p.len() as int, q),
{
    assert forall|k: int| 0 <= k < p.len() implies s.subrange(i, i + p.len() as int)[k] == p[k] by {
        assert(s.subrange(i, i + (p + q).len() as int)[k] == (p + q)[k]);
    }
    assert(s.subrange(i, i + p.len() as int) =~= p);
    let j = i + p.len() as int;
    assert forall|k: int| 0 <= k < q.len() implies s.subrange(j, j + q.len() as int)[k] == q[k] by {
        assert(s.subrange(i, i + (p + q).len() as int)[p.len() + k] == (p + q)[p.len() + k]);
    }
    assert(s.subrange(j, j + q.len() as int) =~= q);
}

/// Parses the body of a JSON string at `i` (just after the opening
/// quote), up to and over the closing quote: the decoded characters and
/// the position after the closing quote. Understands the escapes the
/// serializer emits: `\"`, `\\` and `\u00XX`.
pub open spec fn parse_string_body(s: Seq<char>, i: int) -> Option<(Seq<char>, int)>
    decreases s.len() - i,
{
    if i < 0 || i >= s.len() {
        None
    } else if s[i] == '"' {
        Some((Seq::empty(), i + 1))
    } else if s[i] == '\\' {
        if i + 1 < s.len() && (s[i + 1] == '"' || s[i + 1] == '\\') {
            match parse_string_body(s, i + 2) {
                None => None,
                Some((t, j)) => Some((seq![s[i + 1]] + t, j)),
            }
        } else if i + 5 < s.len() && s[i + 1] == 'u' && s[i + 2] == '0' && s[i + 3] == '0'
            && hex_val(s[i + 4]) < 16 && hex_val(s[i + 5]) < 16 {
            let v = 16 * hex_val(s[i + 4]) + hex_val(s[i + 5]);
            match parse_string_body(s, i + 6) {
                None => None,
                Some((t, j)) => Some((seq![((v as u32) as char)] + t, j)),
            }
        } else {
            None
        }
    } else {
        match parse_string_body(s, i + 1) {
            None => None,
            Some((t, j)) => Some((seq![s[i]] + t, j)),
        }
    }
}

/// A parsed string body ends after its starting position and within the
/// text.
pub proof fn lemma_parse_string_body_advances(s: Seq<char>, i: int)
    ensures
        parse_string_body(s, i) matches Some((t, j)) ==> i < j <= s.len(),
    decreases s.len() - i,
{
    if i < 0 || i >= s.len() {
    } else if s[i] == '"' {
    } else if s[i] == '\\' {
        if i + 1 < s.len() && (s[i + 1] == '"' || s[i + 1] == '\\') {
            lemma_parse_string_body_advances(s, i + 2);
        } else if i + 5 < s.len() && s[i + 1] == 'u' && s[i + 2] == '0' && s[i + 3] == '0'
            && hex_val(s[i + 4]) < 16 && hex_val(s[i + 5]) < 16 {
            lemma_parse_string_body_advances(s, i + 6);
        }
    } else {
        lemma_parse_string_body_advances(s, i + 1);
    }
}

/// Parses the items of a `records` array at `i` (just after the opening
/// bracket), up to and over the closing bracket.
pub open spec fn parse_record_items(s: Seq<char>, i: int) -> Option<(Seq<Seq<char>>, int)>
    decreases s.len() - i,
    via parse_record_items_dec
{
    if i < 0 || i >= s.len() {
        None
    } else if s[i] == ']' {
        Some((Seq::empty(), i + 1))
    } else if s[i] == '"' {
        match parse_string_body(s, i + 1) {
            None => None,
            Some((r0, j)) => if j < s.len() && s[j] == ',' {
                match parse_record_items(s, j + 1) {
                    None => None,
                    Some((rest, k)) => Some((seq![r0] + rest, k)),
                }
            } else if j < s.len() && s[j] == ']' {
                Some((seq![r0], j + 1))
            } else {
                None
            },
        }
    } else {
        None
    }
}

#[via_fn]
proof fn parse_record_items_dec(s: Seq<char>, i: int) {
    lemma_parse_string_body_advances(s, i + 1);
}

/// A parsed record array ends after its starting position and within the
/// text.
pub proof fn lemma_parse_record_items_advances(s: Seq<char>, i: int)
    ensures
        parse_record_items(s, i) matches Some((r, k)) ==> i < k <= s.len(),
    decreases s.len() - i,
{
    if 0 <= i && i < s.len() && s[i] != ']' && s[i] == '"' {
        lemma_parse_string_body_advances(s, i + 1);
        match parse_string_body(s, i + 1) {
            None => {},
            Some((r0, j)) => {
                if j < s.len() && s[j] == ',' {
                    lemma_parse_record_items_advances(s, j + 1);
                }
            },
        }
    }
}

/// Parses one serialized entry at `i`: the braces, the `name` and
/// `source` keys, and exactly one of the `records` and `failure` keys.
pub open spec fn parse_entry(s: Seq<char>, i: int) -> Option<(ResolutionView, int)> {
    if !matches_at(s, i, "{\"name\":\""@) {
        None
    } else {
        match parse_string_body(s, i + 9) {
            None => None,
            Some((name, j)) => if !matches_at(s, j, ",\"source\":\""@) {
                None
            } else {
                match parse_string_body(s, j + 11) {
                    None => None,
                    Some((source, k)) => if matches_at(s, k, ",\"records\":["@) {
                        match parse_record_items(s, k + 12) {
                            None => None,
                            Some((recs, m)) => if m < s.len() && s[m] == '}' {
                                Some(
                                    (
                                        ResolutionView {
                                            name,
                                            source,
                                            result: DugResultView::Records(recs),
                                        },
                                        m + 1,
                                    ),
                                )
                            } else {
                                None
                            },
                        }
                    } else if matches_at(s, k, ",\"failure\":\""@) {
                        match parse_string_body(s, k + 12) {
                            None => None,
                            Some((cause, m)) => if m < s.len() && s[m] == '}' {
                                Some(
                                    (
                                        ResolutionView {
                                            name,
                                            source,
                                            result: DugResultView::Failure(cause),
                                        },
                                        m + 1,
                                    ),
                                )
                            } else {
                                None
                            },
                        }
                    } else {
                        None
                    },
                }
            },
        }
    }
}

/// A parsed entry ends after its starting position and within the text.
pub proof fn lemma_parse_entry_advances(s: Seq<char>, i: int)
    ensures
        parse_entry(s, i) matches Some((v, j)) ==> i < j <= s.len(),
{
    reveal_strlit("{\"name\":\"");
    if matches_at(s, i, "{\"name\":\""@) {
        lemma_parse_string_body_advances(s, i + 9);
        match parse_string_body(s, i + 9) {
            None => {},
            Some((name, j)) => {
                lemma_parse_string_body_advances(s, j + 11);
                match parse_string_body(s, j + 11) {
                    None => {},
                    Some((source, k)) => {
                        lemma_parse_record_items_advances(s, k + 12);
                        lemma_parse_string_body_advances(s, k + 12);
                    },
                }
            },
        }
    }
}

/// Parses the comma-separated entries of a serialized list at `i` (just
/// after the opening bracket), up to and over the closing bracket.
pub open spec fn parse_entries(s: Seq<char>, i: int) -> Option<(Seq<ResolutionView>, int)>
    decreases s.len() - i,
    via parse_entries_dec
{
    match parse_entry(s, i) {
        None => None,
        Some((v, j)) => if j < s.len() && s[j] == ',' {
            match parse_entries(s, j + 1) {
                None => None,
                Some((vs, k)) => Some((seq![v] + vs, k)),
            }
        } else if j < s.len() && s[j] == ']' {
            Some((seq![v], j + 1))
        } else {
            None
        },
    }
}

#[via_fn]
proof fn parse_entries_dec(s: Seq<char>, i: int) {
    lemma_parse_entry_advances(s, i);
}

/// Parses a whole serialized result list.
pub open spec fn parse_json(s: Seq<char>) -> Option<Seq<ResolutionView>> {
    if s.len() == 2 && s[0] == '[' && s[1] == ']' {
        Some(Seq::empty())
    } else if s.len() >= 1 && s[0] == '[' {
        match parse_entries(s, 1) {
            None => None,
            Some((vs, j)) => if j == s.len() {
                Some(vs)
            } else {
                None
            },
        }
    } else {
        None
    }
}

/// Parsing an escaped string body followed by its closing quote yields
/// the characters it encodes.
pub proof fn lemma_parse_escaped(s: Seq<char>, i: int, t: Seq<char>)
    requires
        matches_at(s, i, escape_string(t) + seq!['"']),
    ensures
        parse_string_body(s, i) == Some((t, i + escape_string(t).len() + 1)),
    decreases t.len(),
{
    let p = escape_string(t) + seq!['"'];
    if t.len() == 0 {
        assert(escape_string(t) == Seq::<char>::empty());
        assert(p =~= seq!['"']);
        lemma_matches_at_index(s, i, p, 0);
        assert(s[i] == '"');
        assert(t =~= Seq::<char>::empty());
    } else {
        let c = t[0];
        let t2 = t.drop_first();
        let e = escape_char(c);
        let el = e.len() as int;
        assert(escape_string(t) == e + escape_string(t2));
        assert(p =~= e + (escape_string(t2) + seq!['"']));
        lemma_matches_at_split(s, i, e, escape_string(t2) + seq!['"']);
        lemma_parse_escaped(s, i + el, t2);
        let j = i + el + escape_string(t2).len() + 1;
        if c == '"' {
            lemma_matches_at_index(s, i, e, 0);
            lemma_matches_at_index(s, i, e, 1);
            assert(s[i] == '\\' && s[i + 1] == '"');
            assert(parse_string_body(s, i) == Some((seq![s[i + 1]] + t2, j)));
            assert(seq![s[i + 1]] + t2 =~= t);
        } else if c == '\\' {
            lemma_matches_at_index(s, i, e, 0);
            lemma_matches_at_index(s, i, e, 1);
            assert(s[i] == '\\' && s[i + 1] == '\\');
            assert(parse_string_body(s, i) == Some((seq![s[i + 1]] + t2, j)));
            assert(seq![s[i + 1]] + t2 =~= t);
        } else if (c as u32) < 32 {
            let u = (c as u32) as int;
            lemma_matches_at_index(s, i, e, 0);
            lemma_matches_at_index(s, i, e, 1);
            lemma_matches_at_index(s, i, e, 2);
            lemma_matches_at_index(s, i, e, 3);
            lemma_matches_at_index(s, i, e, 4);
            lemma_matches_at_index(s, i, e, 5);
            assert(s[i] == '\\' && s[i + 1] == 'u' && s[i + 2] == '0' && s[i + 3] == '0');
            assert(s[i + 4] == hex_digit_char((u / 16) as nat));
            assert(s[i + 5] == hex_digit_char((u % 16) as nat));
            lemma_hex_digit_val((u / 16) as nat);
            lemma_hex_digit_val((u % 16) as nat);
            let v = 16 * hex_val(s[i + 4]) + hex_val(s[i + 5]);
            assert(v == u);
            vstd::utf8::char_u32_cast(c, v as u32);
            assert(((v as u32) as char) == c);
            assert(parse_string_body(s, i) == Some((seq![((v as u32) as char)] + t2, j)));
            assert(seq![((v as u32) as char)] + t2 =~= t);
        } else {
            lemma_matches_at_index(s, i, e, 0);
            assert(s[i] == c);
            assert(parse_string_body(s, i) == Some((seq![s[i]] + t2, j)));
            assert(seq![s[i]] + t2 =~= t);
        }
    }
}

/// The serialized form of a record array's items: the quoted records,
/// comma-separated, and the closing bracket.
pub open spec fn records_tail(recs: Seq<Seq<char>>) -> Seq<char> {
    join_chars(recs.map_values(|r: Seq<char>| quoted(r)), seq![',']) + seq![']']
}

/// Parsing serialized record items yields the records they encode.
pub proof fn lemma_parse_records(s: Seq<char>, i: int, recs: Seq<Seq<char>>)
    requires
        matches_at(s, i, records_tail(recs)),
    ensures
        parse_record_items(s, i) == Some((recs, i + records_tail(recs).len() as int)),
    decreases recs.len(),
{
    let items = recs.map_values(|r: Seq<char>| quoted(r));
    let p = records_tail(recs);
    if recs.len() == 0 {
        assert(join_chars(items, seq![',']) == Seq::<char>::empty());
        assert(p =~= seq![']']);
        lemma_matches_at_index(s, i, p, 0);
        assert(s[i] == ']');
        assert(recs =~= Seq::<Seq<char>>::empty());
    } else {
        let r0 = recs[0];
        let q0 = quoted(r0);
        let rest = recs.drop_first();
        assert(items[0] == q0);
        if recs.len() == 1 {
            assert(join_chars(items, seq![',']) == q0);
            assert(p =~= seq!['"'] + ((escape_string(r0) + seq!['"']) + seq![']']));
            lemma_matches_at_split(s, i, seq!['"'], (escape_string(r0) + seq!['"']) + seq![']']);
            lemma_matches_at_index(s, i, seq!['"'], 0);
            assert(s[i] == '"');
            lemma_matches_at_split(s, i + 1, escape_string(r0) + seq!['"'], seq![']']);
            lemma_parse_escaped(s, i + 1, r0);
            let j = i + 1 + escape_string(r0).len() + 1;
            lemma_matches_at_index(s, j, seq![']'], 0);
            assert(s[j] == ']');
            assert(parse_record_items(s, i) == Some((seq![r0], j + 1)));
            assert(seq![r0] =~= recs);
        } else {
            let rest_items = rest.map_values(|r: Seq<char>| quoted(r));
            assert(items.drop_first() =~= rest_items);
            assert(join_chars(items, seq![',']) == q0 + seq![','] + join_chars(
                rest_items,
                seq![','],
            ));
            assert(p =~= seq!['"'] + ((escape_string(r0) + seq!['"']) + (seq![','] + records_tail(
                rest,
            ))));
            lemma_matches_at_split(
                s,
                i,
                seq!['"'],
                (escape_string(r0) + seq!['"']) + (seq![','] + records_tail(rest)),
            );
            lemma_matches_at_index(s, i, seq!['"'], 0);
            assert(s[i] == '"');
            lemma_matches_at_split(
                s,
                i + 1,
                escape_string(r0) + seq!['"'],
                seq![','] + records_tail(rest),
            );
            lemma_parse_escaped(s, i + 1, r0);
            let j = i + 1 + escape_string(r0).len() + 1;
            lemma_matches_at_split(s, j, seq![','], records_tail(rest));
            lemma_matches_at_index(s, j, seq![','], 0);
            assert(s[j] == ',');
            lemma_parse_records(s, j + 1, rest);
            assert(parse_record_items(s, i) == Some(
                (seq![r0] + rest, j + 1 + records_tail(rest).len() as int),
            ));
            assert(seq![r0] + rest =~= recs);
        }
    }
}

/// Parsing one serialized entry yields the resolution it encodes.
pub proof fn lemma_parse_entry_correct(s: Seq<char>, i: int, v: ResolutionView)
    requires
        matches_at(s, i, json_of_resolution(v)),
    ensures
        parse_entry(s, i) == Some((v, i + json_of_resolution(v).len() as int)),
{
    reveal_strlit("{\"name\":");
    reveal_strlit("{\"name\":\"");
    reveal_strlit(",\"source\":");
    reveal_strlit(",\"source\":\"");
    reveal_strlit(",\"records\":[");
    reveal_strlit(",\"failure\":");
    reveal_strlit(",\"failure\":\"");
    reveal_strlit("]}");
    let jv = json_of_resolution(v);
    let en = escape_string(v.name);
    let es = escape_string(v.source);
    match v.result {
        DugResultView::Records(recs) => {
            assert(jv =~= "{\"name\":\""@ + ((en + seq!['"']) + (",\"source\":\""@ + ((es
                + seq!['"']) + (",\"records\":["@ + (records_tail(recs) + seq!['}']))))));
            lemma_matches_at_split(
                s,
                i,
                "{\"name\":\""@,
                (en + seq!['"']) + (",\"source\":\""@ + ((es + seq!['"']) + (",\"records\":["@ + (
                records_tail(recs) + seq!['}'])))),
            );
            lemma_matches_at_split(
                s,
                i + 9,
                en + seq!['"'],
                ",\"source\":\""@ + ((es + seq!['"']) + (",\"records\":["@ + (records_tail(recs)
                    + seq!['}']))),
            );
            lemma_parse_escaped(s, i + 9, v.name);
            let j = i + 9 + en.len() + 1;
            lemma_matches_at_split(
                s,
                j,
                ",\"source\":\""@,
                (es + seq!['"']) + (",\"records\":["@ + (records_tail(recs) + seq!['}'])),
            );
            lemma_matches_at_split(
                s,
                j + 11,
                es + seq!['"'],
                ",\"records\":["@ + (records_tail(recs) + seq!['}']),
            );
            lemma_parse_escaped(s, j + 11, v.source);
            let k = j + 11 + es.len() + 1;
            lemma_matches_at_split(s, k, ",\"records\":["@, records_tail(recs) + seq!['}']);
            lemma_matches_at_split(s, k + 12, records_tail(recs), seq!['}']);
            lemma_parse_records(s, k + 12, recs);
            let m = k + 12 + records_tail(recs).len() as int;
            lemma_matches_at_index(s, m, seq!['}'], 0);
            assert(s[m] == '}');
            assert(parse_entry(s, i) == Some(
                (ResolutionView { name: v.name, source: v.source, result: v.result }, m + 1),
            ));
            assert(ResolutionView { name: v.name, source: v.source, result: v.result } == v);
        },
        DugResultView::Failure(cause) => {
            let ec = escape_string(cause);
            assert(jv =~= "{\"name\":\""@ + ((en + seq!['"']) + (",\"source\":\""@ + ((es
                + seq!['"']) + (",\"failure\":\""@ + ((ec + seq!['"']) + seq!['}']))))));
            lemma_matches_at_split(
                s,
                i,
                "{\"name\":\""@,
                (en + seq!['"']) + (",\"source\":\""@ + ((es + seq!['"']) + (",\"failure\":\""@ + (
                (ec + seq!['"']) + seq!['}'])))),
            );
            lemma_matches_at_split(
                s,
                i + 9,
                en + seq!['"'],
                ",\"source\":\""@ + ((es + seq!['"']) + (",\"failure\":\""@ + ((ec + seq!['"'])
                    + seq!['}']))),
            );
            lemma_parse_escaped(s, i + 9, v.name);
            let j = i + 9 + en.len() + 1;
            lemma_matches_at_split(
                s,
                j,
                ",\"source\":\""@,
                (es + seq!['"']) + (",\"failure\":\""@ + ((ec + seq!['"']) + seq!['}'])),
            );
            lemma_matches_at_split(
                s,
                j + 11,
                es + seq!['"'],
                ",\"failure\":\""@ + ((ec + seq!['"']) + seq!['}']),
            );
            lemma_parse_escaped(s, j + 11, v.source);
            let k = j + 11 + es.len() + 1;
            lemma_matches_at_split(s, k, ",\"failure\":\""@, (ec + seq!['"']) + seq!['}']);
            if matches_at(s, k, ",\"records\":["@) {
                lemma_matches_at_index(s, k, ",\"records\":["@, 2);
                lemma_matches_at_index(s, k, ",\"failure\":\""@, 2);
                assert(false);
            }
            lemma_matches_at_split(s, k + 12, ec + seq!['"'], seq!['}']);
            lemma_parse_escaped(s, k + 12, cause);
            let m = k + 12 + ec.len() + 1;
            lemma_matches_at_index(s, m, seq!['}'], 0);
            assert(s[m] == '}');
            assert(parse_entry(s, i) == Some(
                (ResolutionView { name: v.name, source: v.source, result: v.result }, m + 1),
            ));
            assert(ResolutionView { name: v.name, source: v.source, result: v.result } == v);
        },
    }
}

/// Parsing serialized entries yields the resolutions they encode.
pub proof fn lemma_parse_entries_correct(s: Seq<char>, i: int, vs: Seq<ResolutionView>)
    requires
        vs.len() > 0,
        matches_at(
            s,
            i,
            join_chars(vs.map_values(|v: ResolutionView| json_of_resolution(v)), seq![','])
                + seq![']'],
        ),
    ensures
        parse_entries(s, i) == Some(
            (
                vs,
                i + join_chars(
                    vs.map_values(|v: ResolutionView| json_of_resolution(v)),
                    seq![','],
                ).len() as int + 1,
            ),
        ),
    decreases vs.len(),
{
    let items = vs.map_values(|v: ResolutionView| json_of_resolution(v));
    let v0 = vs[0];
    let j0 = json_of_resolution(v0);
    assert(items[0] == j0);
    if vs.len() == 1 {
        assert(join_chars(items, seq![',']) == j0);
        assert(join_chars(items, seq![',']) + seq![']'] =~= j0 + seq![']']);
        lemma_matches_at_split(s, i, j0, seq![']']);
        lemma_parse_entry_correct(s, i, v0);
        let j = i + j0.len() as int;
        lemma_matches_at_index(s, j, seq![']'], 0);
        assert(s[j] == ']');
        assert(parse_entries(s, i) == Some((seq![v0], j + 1)));
        assert(seq![v0] =~= vs);
    } else {
        let rest = vs.drop_first();
        let rest_items = rest.map_values(|v: ResolutionView| json_of_resolution(v));
        assert(items.drop_first() =~= rest_items);
        assert(join_chars(items, seq![',']) == j0 + seq![','] + join_chars(rest_items, seq![',']));
        assert(join_chars(items, seq![',']) + seq![']'] =~= j0 + (seq![','] + (join_chars(
            rest_items,
            seq![','],
        ) + seq![']'])));
        lemma_matches_at_split(
            s,
            i,
            j0,
            seq![','] + (join_chars(rest_items, seq![',']) + seq![']']),
        );
        lemma_parse_entry_correct(s, i, v0);
        let j = i + j0.len() as int;
        lemma_matches_at_split(s, j, seq![','], join_chars(rest_items, seq![',']) + seq![']']);
        lemma_matches_at_index(s, j, seq![','], 0);
        assert(s[j] == ',');
        lemma_parse_entries_correct(s, j + 1, rest);
        assert(parse_entries(s, i) == Some(
            (seq![v0] + rest, j + 1 + join_chars(rest_items, seq![',']).len() as int + 1),
        ));
        assert(seq![v0] + rest =~= vs);
    }
}

/// Serializing a result list to the documented JSON shape and parsing it
/// back yields the records the list was built from.
pub proof fn lemma_json_round_trip(vs: Seq<ResolutionView>)
    ensures
        parse_json(json_of_resolutions(vs)) == Some(vs),
{
    let s = json_of_resolutions(vs);
    let items = vs.map_values(|v: ResolutionView| json_of_resolution(v));
    let joined = join_chars(items, seq![',']);
    assert(s =~= seq!['['] + (joined + seq![']']));
    assert(s[0] == '[');
    if vs.len() == 0 {
        assert(joined == Seq::<char>::empty());
        assert(s =~= seq!['[', ']']);
        assert(parse_json(s) == Some(Seq::<ResolutionView>::empty()));
        assert(Seq::<ResolutionView>::empty() =~= vs);
    } else {
        reveal_strlit("{\"name\":");
        reveal_strlit("{\"name\":\"");
        let j0 = json_of_resolution(vs[0]);
        assert(j0[0] == "{\"name\":"@[0]);
        assert(j0[0] == '{');
        assert(items[0] == j0);
        if vs.len() == 1 {
            assert(joined == j0);
        } else {
            assert(joined == j0 + seq![','] + join_chars(items.drop_first(), seq![',']));
        }
        assert(joined[0] == '{');
        assert(s[1] == joined[0]);
        assert(s[1] == '{');
        assert(!(s.len() == 2 && s[0] == '[' && s[1] == ']'));
        assert forall|k: int| 0 <= k < (joined + seq![']']).len() implies s.subrange(
            1,
            1 + (joined + seq![']']).len() as int,
        )[k] == (joined + seq![']'])[k] by {
            assert(s[1 + k] == (seq!['['] + (joined + seq![']']))[1 + k]);
        }
        assert(s.subrange(1, 1 + (joined + seq![']']).len() as int) =~= joined + seq![']']);
        assert(matches_at(s, 1, joined + seq![']']));
        lemma_parse_entries_correct(s, 1, vs);
        assert(parse_entries(s, 1) == Some((vs, 1 + joined.len() as int + 1)));
        assert(s.len() == joined.len() + 2);
        assert(parse_json(s) == Some(vs));
    }
}

fn hex_char(d: u32) -> (c: char)
    requires
        d < 16,
    ensures
        c == hex_digit_char(d as nat),
{
    if d < 10 {
        (48 + d as u8) as char
    } else {
        (87 + d as u8) as char
    }
}

fn push_str_chars(out: &mut Vec<char>, s: &str)
    ensures
        final(out)@ == old(out)@ + s@,
{
    let n = s.unicode_len();
    let mut i: usize = 0;
    while i < n
        invariant
            n == s@.len(),
            0 <= i <= n,
            out@ == old(out)@ + s@.take(i as int),
        decreases n - i,
    {
        let ghost pre = out@;
        out.push(s.get_char(i));
        proof {
            assert(s@.take(i + 1) =~= s@.take(i as int).push(s@[i as int]));
            assert(out@ =~= old(out)@ + s@.take(i + 1));
        }
        i = i + 1;
    }
    proof {
        assert(s@.take(n as int) =~= s@);
    }
}

fn push_escaped(out: &mut Vec<char>, s: &str)
    ensures
        final(out)@ == old(out)@ + escape_string(s@),
{
    let n = s.unicode_len();
    let mut i: usize = 0;
    proof {
        assert(s@.take(0) =~= Seq::<char>::empty());
        assert(escape_string(s@.take(0)) == Seq::<char>::empty());
        assert(out@ =~= out@ + escape_string(s@.take(0)));
    }
    while i < n
        invariant
            n == s@.len(),
            0 <= i <= n,
            out@ == old(out)@ + escape_string(s@.take(i as int)),
        decreases n - i,
    {
        let c = s.get_char(i);
        let ghost pre = out@;
        if c == '"' {
            out.push('\\');
            out.push('"');
        } else if c == '\\' {
            out.push('\\');
            out.push('\\');
        } else {
            let u = c as u32;
            if u < 32 {
                out.push('\\');
                out.push('u');
                out.push('0');
                out.push('0');
                out.push(hex_char(u / 16));
                out.push(hex_char(u % 16));
            } else {
                out.push(c);
            }
        }
        proof {
            assert(out@ =~= pre + escape_char(s@[i as int]));
            lemma_escape_string_push(s@.take(i as int), s@[i as int]);
            assert(s@.take(i + 1) =~= s@.take(i as int).push(s@[i as int]));
            assert(out@ =~= old(out)@ + escape_string(s@.take(i + 1)));
        }
        i = i + 1;
    }
    proof {
        assert(s@.take(n as int) =~= s@);
    }
}

fn push_quoted(out: &mut Vec<char>, s: &str)
    ensures
        final(out)@ == old(out)@ + quoted(s@),
{
    out.push('"');
    push_escaped(out, s);
    out.push('"');
    proof {
        assert(out@ =~= old(out)@ + quoted(s@));
    }
}

fn push_result(out: &mut Vec<char>, result: &DugResult)
    ensures
        final(out)@ == old(out)@ + json_of_result(result@),
{
    match result {
        DugResult::Records(recs) => {
            let ghost items = recs.deep_view().map_values(|r: Seq<char>| quoted(r));
            push_str_chars(out, ",\"records\":[");
            let ghost mid = out@;
            proof {
                assert(items.take(0) =~= Seq::<Seq<char>>::empty());
                assert(out@ =~= mid + join_chars(items.take(0), seq![',']));
            }
            let mut k: usize = 0;
            while k < recs.len()
                invariant
                    items == recs.deep_view().map_values(|r: Seq<char>| quoted(r)),
                    items.len() == recs@.len(),
                    0 <= k <= recs@.len(),
                    out@ == mid + join_chars(items.take(k as int), seq![',']),
                decreases recs@.len() - k,
            {
                let ghost pre_join = join_chars(items.take(k as int), seq![',']);
                if k > 0 {
                    out.push(',');
                }
                push_quoted(out, recs[k].as_str());
                proof {
                    assert(recs.deep_view()[k as int] == recs@[k as int]@);
                    assert(items[k as int] == quoted(recs@[k as int]@));
                    lemma_join_chars_push(items.take(k as int), seq![','], items[k as int]);
                    assert(items.take(k + 1) =~= items.take(k as int).push(items[k as int]));
                    if k > 0 {
                        assert(out@ =~= mid + (pre_join + seq![','] + items[k as int]));
                    } else {
                        assert(out@ =~= mid + items[k as int]);
                    }
                    assert(out@ =~= mid + join_chars(items.take(k + 1), seq![',']));
                }
                k = k + 1;
            }
            proof {
                assert(items.take(recs@.len() as int) =~= items);
            }
            push_str_chars(out, "]}");
            proof {
                assert(out@ =~= old(out)@ + json_of_result(result@));
            }
        },
        DugResult::Failure(cause) => {
            push_str_chars(out, ",\"failure\":");
            push_quoted(out, cause.as_str());
            out.push('}');
            proof {
                assert(out@ =~= old(out)@ + json_of_result(result@));
            }
        },
    }
}

fn push_resolution(out: &mut Vec<char>, res: &Resolution)
    ensures
        final(out)@ == old(out)@ + json_of_resolution(res@),
{
    push_str_chars(out, "{\"name\":");
    push_quoted(out, res.name.as_str());
    push_str_chars(out, ",\"source\":");
    push_quoted(out, res.source.as_str());
    push_result(out, &res.result);
    proof {
        assert(out@ =~= old(out)@ + json_of_resolution(res@));
    }
}

/// Relies on `char::from_u32`: for a value it accepts it returns the
/// character with that value, and it accepts every value below the
/// surrogate range.
#[verifier::external_body]
fn char_from_code(v: u32) -> (r: Option<char>)
    ensures
        r matches Some(c) ==> c as u32 == v,
        v < 0xD800 ==> r is Some,
{
    char::from_u32(v)
}

fn hex_val_exec(c: char) -> (r: u32)
    ensures
        r as int == hex_val(c),
{
    let u = c as u32;
    if 48 <= u && u <= 57 {
        u - 48
    } else if 97 <= u && u <= 102 {
        u - 87
    } else {
        16
    }
}

fn matches_at_exec(s: &str, i: usize, p: &str) -> (r: bool)
    ensures
        r == matches_at(s@, i as int, p@),
{
    let n = s.unicode_len();
    let pl = p.unicode_len();
    if i > n || pl > n - i {
        return false;
    }
    let mut k: usize = 0;
    while k < pl
        invariant
            n == s@.len(),
            pl == p@.len(),
            0 <= i,
            i + pl <= n,
            0 <= k <= pl,
            forall|t: int| 0 <= t < k ==> s@[i + t] == p@[t],
        decreases pl - k,
    {
        if s.get_char(i + k) != p.get_char(k) {
            proof {
                if matches_at(s@, i as int, p@) {
                    lemma_matches_at_index(s@, i as int, p@, k as int);
                    assert(false);
                }
            }
            return false;
        }
        k = k + 1;
    }
    proof {
        assert(s@.subrange(i as int, i + p@.len() as int) =~= p@);
    }
    true
}

fn parse_string_body_exec(s: &str, i: usize) -> (r: Option<(String, usize)>)
    ensures
        match r {
            Some((t, j)) => parse_string_body(s@, i as int) == Some((t@, j as int)) && j
                <= s@.len(),
            None => parse_string_body(s@, i as int) is None,
        },
    decreases s@.len() - i,
{
    let n = s.unicode_len();
    if i >= n {
        return None;
    }
    let c = s.get_char(i);
    if c == '"' {
        let empty: Vec<char> = Vec::new();
        let t = chars_to_string(&empty);
        proof {
            assert(t@ =~= Seq::<char>::empty());
        }
        Some((t, i + 1))
    } else if c == '\\' {
        if i + 1 < n {
            let c1 = s.get_char(i + 1);
            if c1 == '"' || c1 == '\\' {
                match parse_string_body_exec(s, i + 2) {
                    None => None,
                    Some((t, j)) => {
                        let mut head: Vec<char> = Vec::new();
                        head.push(c1);
                        let mut out = chars_to_string(&head);
                        out.append(t.as_str());
                        proof {
                            assert(out@ =~= seq![s@[i + 1]] + t@);
                        }
                        Some((out, j))
                    },
                }
            } else if n - i > 5 && c1 == 'u' && s.get_char(i + 2) == '0' && s.get_char(i + 3)
                == '0' {
                let h4 = hex_val_exec(s.get_char(i + 4));
                let h5 = hex_val_exec(s.get_char(i + 5));
                if h4 < 16 && h5 < 16 {
                    let v: u32 = 16 * h4 + h5;
                    match parse_string_body_exec(s, i + 6) {
                        None => None,
                        Some((t, j)) => match char_from_code(v) {
                            Some(decoded) => {
                                proof {
                                    vstd::utf8::char_u32_cast(decoded, v);
                                }
                                let mut head: Vec<char> = Vec::new();
                                head.push(decoded);
                                let mut out = chars_to_string(&head);
                                out.append(t.as_str());
                                proof {
                                    assert(out@ =~= seq![(v as char)] + t@);
                                }
                                Some((out, j))
                            },
                            None => {
                                proof {
                                    assert(false);
                                }
                                None
                            },
                        },
                    }
                } else {
                    None
                }
            } else {
                None
            }
        } else {
            None
        }
    } else {
        match parse_string_body_exec(s, i + 1) {
            None => None,
            Some((t, j)) => {
                let mut head: Vec<char> = Vec::new();
                head.push(c);
                let mut out = chars_to_string(&head);
                out.append(t.as_str());
                proof {
                    assert(out@ =~= seq![s@[i as int]] + t@);
                }
                Some((out, j))
            },
        }
    }
}

fn parse_record_items_exec(s: &str, i: usize) -> (r: Option<(Vec<String>, usize)>)
    ensures
        match r {
            Some((recs, k)) => parse_record_items(s@, i as int) == Some((recs.deep_view(), k as int))
                && k <= s@.len(),
            None => parse_record_items(s@, i as int) is None,
        },
    decreases s@.len() - i,
{
    let n = s.unicode_len();
    if i >= n {
        return None;
    }
    let c = s.get_char(i);
    if c == ']' {
        let empty: Vec<String> = Vec::new();
        proof {
            assert(empty.deep_view() =~= Seq::<Seq<char>>::empty());
        }
        Some((empty, i + 1))
    } else if c == '"' {
        match parse_string_body_exec(s, i + 1) {
            None => None,
            Some((r0, j)) => {
                proof {
                    lemma_parse_string_body_advances(s@, i + 1);
                }
                if j < n && s.get_char(j) == ',' {
                    match parse_record_items_exec(s, j + 1) {
                        None => None,
                        Some((rest, k)) => {
                            let ghost rest_view = rest.deep_view();
                            let mut recs = rest;
                            recs.insert(0, r0);
                            proof {
                                assert(recs.deep_view() =~= seq![r0@] + rest_view);
                            }
                            Some((recs, k))
                        },
                    }
                } else if j < n && s.get_char(j) == ']' {
                    let mut recs: Vec<String> = Vec::new();
                    recs.push(r0);
                    proof {
                        assert(recs.deep_view() =~= seq![r0@]);
                    }
                    Some((recs, j + 1))
                } else {
                    None
                }
            },
        }
    } else {
        None
    }
}

fn parse_entry_exec(s: &str, i: usize) -> (r: Option<(Resolution, usize)>)
    ensures
        match r {
            Some((res, j)) => parse_entry(s@, i as int) == Some((res@, j as int)) && j <= s@.len(),
            None => parse_entry(s@, i as int) is None,
        },
{
    let n = s.unicode_len();
    if !matches_at_exec(s, i, "{\"name\":\"") {
        return None;
    }
    proof {
        reveal_strlit("{\"name\":\"");
    }
    match parse_string_body_exec(s, i + 9) {
        None => None,
        Some((name, j)) => {
            if !matches_at_exec(s, j, ",\"source\":\"") {
                return None;
            }
            proof {
                reveal_strlit(",\"source\":\"");
            }
            match parse_string_body_exec(s, j + 11) {
                None => None,
                Some((source, k)) => {
                    if matches_at_exec(s, k, ",\"records\":[") {
                        proof {
                            reveal_strlit(",\"records\":[");
                        }
                        match parse_record_items_exec(s, k + 12) {
                            None => None,
                            Some((recs, m)) => {
                                if m < n && s.get_char(m) == '}' {
                                    let res = Resolution {
                                        name,
                                        source,
                                        result: DugResult::Records(recs),
                                    };
                                    Some((res, m + 1))
                                } else {
                                    None
                                }
                            },
                        }
                    } else if matches_at_exec(s, k, ",\"failure\":\"") {
                        proof {
                            reveal_strlit(",\"failure\":\"");
                        }
                        match parse_string_body_exec(s, k + 12) {
                            None => None,
                            Some((cause, m)) => {
                                if m < n && s.get_char(m) == '}' {
                                    let res = Resolution {
                                        name,
                                        source,
                                        result: DugResult::Failure(cause),
                                    };
                                    Some((res, m + 1))
                                } else {
                                    None
                                }
                            },
                        }
                    } else {
                        None
                    }
                },
            }
        },
    }
}

fn parse_entries_exec(s: &str, i: usize) -> (r: Option<(Vec<Resolution>, usize)>)
    ensures
        match r {
            Some((rs, k)) => parse_entries(s@, i as int) == Some(
                (rs@.map_values(|x: Resolution| x@), k as int),
            ) && k <= s@.len(),
            None => parse_entries(s@, i as int) is None,
        },
    decreases s@.len() - i,
{
    let n = s.unicode_len();
    match parse_entry_exec(s, i) {
        None => None,
        Some((res, j)) => {
            proof {
                lemma_parse_entry_advances(s@, i as int);
            }
            if j < n && s.get_char(j) == ',' {
                match parse_entries_exec(s, j + 1) {
                    None => None,
                    Some((rest, k)) => {
                        let ghost rest_views = rest@.map_values(|x: Resolution| x@);
                        let ghost res_view = res@;
                        let mut rs = rest;
                        rs.insert(0, res);
                        proof {
                            assert(rs@.map_values(|x: Resolution| x@) =~= seq![res_view]
                                + rest_views);
                        }
                        Some((rs, k))
                    },
                }
            } else if j < n && s.get_char(j) == ']' {
                let ghost res_view = res@;
                let mut rs: Vec<Resolution> = Vec::new();
                rs.push(res);
                proof {
                    assert(rs@.map_values(|x: Resolution| x@) =~= seq![res_view]);
                }
                Some((rs, j + 1))
            } else {
                None
            }
        },
    }
}

/// Parses text in the documented JSON shape back into a result list;
/// `None` when the text is not in that shape. Parsing what
/// [`resolutions_to_json`] wrote yields the records the list was built
/// from, as [`lemma_json_round_trip`] states.
pub fn resolutions_from_json(s: &str) -> (r: Option<Vec<Resolution>>)
    ensures
        match r {
            Some(rs) => parse_json(s@) == Some(rs@.map_values(|x: Resolution| x@)),
            None => parse_json(s@) is None,
        },
{
    let n = s.unicode_len();
    if n == 2 && s.get_char(0) == '[' && s.get_char(1) == ']' {
        let empty: Vec<Resolution> = Vec::new();
        proof {
            assert(empty@.map_values(|x: Resolution| x@) =~= Seq::<ResolutionView>::empty());
        }
        return Some(empty);
    }
    if n >= 1 && s.get_char(0) == '[' {
        match parse_entries_exec(s, 1) {
            None => None,
            Some((rs, j)) => {
                if j == n {
                    Some(rs)
                } else {
                    None
                }
            },
        }
    } else {
        None
    }
}

/// Serializes a result list to the documented JSON shape.
pub fn resolutions_to_json(resolutions: &Vec<Resolution>) -> (r: String)
    ensures
        r@ == json_of_resolutions(resolutions@.map_values(|x: Resolution| x@)),
{
    let ghost vs = resolutions@.map_values(|x: Resolution| x@);
    let ghost items = vs.map_values(|v: ResolutionView| json_of_resolution(v));
    let mut out: Vec<char> = Vec::new();
    out.push('[');
    proof {
        assert(items.take(0) =~= Seq::<Seq<char>>::empty());
        assert(out@ =~= seq!['['] + join_chars(items.take(0), seq![',']));
    }
    let mut k: usize = 0;
    while k < resolutions.len()
        invariant
            vs == resolutions@.map_values(|x: Resolution| x@),
            items == vs.map_values(|v: ResolutionView| json_of_resolution(v)),
            items.len() == resolutions@.len(),
            0 <= k <= resolutions@.len(),
            out@ == seq!['['] + join_chars(items.take(k as int), seq![',']),
        decreases resolutions@.len() - k,
    {
        let ghost pre_join = join_chars(items.take(k as int), seq![',']);
        if k > 0 {
            out.push(',');
        }
        push_resolution(&mut out, &resolutions[k]);
        proof {
            assert(items[k as int] == json_of_resolution(vs[k as int]));
            lemma_join_chars_push(items.take(k as int), seq![','], items[k as int]);
            assert(items.take(k + 1) =~= items.take(k as int).push(items[k as int]));
            if k > 0 {
                assert(out@ =~= seq!['['] + (pre_join + seq![','] + items[k as int]));
            } else {
                assert(out@ =~= seq!['['] + items[k as int]);
            }
            assert(out@ =~= seq!['['] + join_chars(items.take(k + 1), seq![',']));
        }
        k = k + 1;
    }
    proof {
        assert(items.take(resolutions@.len() as int) =~= items);
    }
    out.push(']');
    proof {
        assert(out@ =~= json_of_resolutions(vs));
    }
    crate::text::chars_to_string(&out)
}

} // verus!
