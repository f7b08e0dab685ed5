//! Compact JSON text: string literals come from `serde_json`; objects are
//! framed here.

use vstd::prelude::*;
use vstd::string::*;

use crate::string_map::pairs_view;

verus! {

/// The lowercase hexadecimal digit for `d`, which is below sixteen.
pub open spec fn hex_digit(d: nat) -> char {
    if d < 10 {
        ((d + 48) as u32) as char
    } else {
        ((d + 87) as u32) as char
    }
}

/// How one character of a string appears inside a JSON string literal:
/// quote, backslash and the control characters are escaped; every other
/// character stands for itself.
pub open spec fn escape_char(c: char) -> Seq<char> {
    if c == '"' {
        seq!['\\', '"']
    } else if c == '\\' {
        seq!['\\', '\\']
    } else if c == '\u{8}' {
        seq!['\\', 'b']
    } else if c == '\t' {
        seq!['\\', 't']
    } else if c == '\n' {
        seq!['\\', 'n']
    } else if c == '\u{c}' {
        seq!['\\', 'f']
    } else if c == '\r' {
        seq!['\\', 'r']
    } else if (c as u32) < 0x20 {
        seq!['\\', 'u', '0', '0', hex_digit((c as u32 / 16) as nat), hex_digit((c as u32 % 16) as nat)]
    } else {
        seq![c]
    }
}

/// The escaped characters of `s`.
pub open spec fn escape_text(s: Seq<char>) -> Seq<char>
    decreases s.len(),
{
    if s.len() == 0 {
        Seq::empty()
    } else {
        escape_text(s.drop_last()) + escape_char(s.last())
    }
}

/// Text with no quote, no backslash and no character below U+0020 is written
/// as it is, between quotes; a quote is written as backslash-quote.
pub proof fn lemma_plain_text_unescaped(s: Seq<char>)
    ensures
        (forall|i: int| 0 <= i < s.len() ==> #[trigger] s[i] != '"' && s[i] != '\\' && (s[i] as u32) >= 0x20)
            ==> escape_text(s) == s,
        escape_char('"') == seq!['\\', '"'],
    decreases s.len(),
{
    if s.len() > 0 && (forall|i: int| 0 <= i < s.len() ==> #[trigger] s[i] != '"' && s[i] != '\\' && (s[i] as u32) >= 0x20) {
        let p = s.drop_last();
        assert forall|i: int| 0 <= i < p.len() implies #[trigger] p[i] != '"' && p[i] != '\\' && (p[i] as u32) >= 0x20 by {
            assert(p[i] == s[i]);
        }
        lemma_plain_text_unescaped(p);
        let c = s.last();
        assert(c == s[s.len() - 1]);
        assert(c != '\u{8}' && c != '\t' && c != '\n' && c != '\u{c}' && c != '\r');
        assert(escape_char(c) == seq![c]);
        assert(s =~= p + seq![c]);
    } else if s.len() > 0 {
        lemma_plain_text_unescaped(s.drop_last());
    }
}

/// The JSON string literal for `s`.
pub open spec fn json_string(s: Seq<char>) -> Seq<char> {
    seq!['"'] + escape_text(s) + seq!['"']
}

/// `serde_json::to_string` applied to a `str`: the JSON string literal for
/// `s`. Its serializer writes a quote, each character of `s` (quote,
/// backslash and the characters below U+0020 escaped as in [`escape_char`]),
/// and a closing quote; writing into a vector does not fail, so the call
/// always returns `Ok`.
#[verifier::external_body]
pub(crate) fn quoted(s: &str) -> (r: String)
    ensures
        r@ == json_string(s@),
{
    serde_json::to_string(s).expect("a str always serializes")
}

/// `"true"` or `"false"`.
pub open spec fn bool_text(b: bool) -> Seq<char> {
    if b {
        "true"@
    } else {
        "false"@
    }
}

/// The JSON text of a boolean.
pub fn bool_json(b: bool) -> (r: &'static str)
    ensures
        r@ == bool_text(b),
{
    if b {
        "true"
    } else {
        "false"
    }
}

/// The members of a JSON object, separated by commas, for keys paired with
/// the JSON text of their values.
pub open spec fn members_text(ms: Seq<(Seq<char>, Seq<char>)>) -> Seq<char>
    decreases ms.len(),
{
    if ms.len() == 0 {
        Seq::empty()
    } else if ms.len() == 1 {
        json_string(ms[0].0) + ":"@ + ms[0].1
    } else {
        members_text(ms.drop_last()) + ","@ + json_string(ms.last().0) + ":"@ + ms.last().1
    }
}

/// Members are written one after another, each as its key's JSON string, a
/// colon and its value text, with exactly one comma between neighbours: a
/// single member has no comma, and adding a member to a non-empty list adds a
/// comma and that member after what was there.
pub proof fn lemma_members_comma_separated(ms: Seq<(Seq<char>, Seq<char>)>, m: (Seq<char>, Seq<char>))
    ensures
        members_text(Seq::<(Seq<char>, Seq<char>)>::empty()) == Seq::<char>::empty(),
        members_text(seq![m]) == json_string(m.0) + ":"@ + m.1,
        ms.len() > 0 ==> members_text(ms.push(m)) == members_text(ms) + ","@ + json_string(m.0) + ":"@ + m.1,
{
    assert(seq![m].len() == 1);
    assert(seq![m][0] == m);
    if ms.len() > 0 {
        assert(ms.push(m).drop_last() =~= ms);
        assert(ms.push(m).last() == m);
    }
}

/// A JSON object with the given members, in order.
pub open spec fn object_text(ms: Seq<(Seq<char>, Seq<char>)>) -> Seq<char> {
    "{"@ + members_text(ms) + "}"@
}

/// Pairs of texts with the second one written as a JSON string.
pub open spec fn quote_values(es: Seq<(Seq<char>, Seq<char>)>) -> Seq<(Seq<char>, Seq<char>)> {
    es.map_values(|e: (Seq<char>, Seq<char>)| (e.0, json_string(e.1)))
}

/// The JSON object whose keys are the first strings of `es`; the second
/// strings are written as JSON strings when `quote` holds, else as they are.
pub fn object_json(es: &Vec<(String, String)>, quote: bool) -> (r: String)
    ensures
        r@ == object_text(
            if quote {
                quote_values(pairs_view(es@))
            } else {
                pairs_view(es@)
            },
        ),
{
    let ghost ms = if quote {
        quote_values(pairs_view(es@))
    } else {
        pairs_view(es@)
    };
    let mut s = String::from_str("{");
    let n = es.len();
    let mut i: usize = 0;
    while i < n
        invariant
            n == es@.len(),
            ms.len() == n,
            ms == (if quote {
                quote_values(pairs_view(es@))
            } else {
                pairs_view(es@)
            }),
            i <= n,
            s@ == "{"@ + members_text(ms.subrange(0, i as int)),
        decreases n - i,
    {
        let ghost before = s@;
        if i > 0 {
            s.append(",");
        }
        let key = quoted(es[i].0.as_str());
        s.append(key.as_str());
        s.append(":");
        if quote {
            let value = quoted(es[i].1.as_str());
            s.append(value.as_str());
        } else {
            s.append(es[i].1.as_str());
        }
        proof {
            let sub = ms.subrange(0, i + 1);
            assert(sub.drop_last() =~= ms.subrange(0, i as int));
            assert(sub.last() == ms[i as int]);
            if i == 0 {
                assert(sub.len() == 1);
                assert(members_text(ms.subrange(0, 0)) =~= Seq::<char>::empty());
            }
        }
        i = i + 1;
    }
    assert(ms.subrange(0, n as int) =~= ms);
    s.append("}");
    s
}

} // verus!
