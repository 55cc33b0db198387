//! A small JSON writer, specified character by character.
//!
//! The registry's wire output — the error envelope, the success response and
//! the index-log entry — is JSON of a fixed shape, so the library builds it
//! itself and the contracts pin every character of it.

use vstd::prelude::*;

use crate::text::push_str_chars;

verus! {

/// The hexadecimal digit `d`, lower case, for `d < 16`.
pub open spec fn hex_digit(d: nat) -> char {
    if d < 10 {
        (0x30 + d) as char
    } else {
        (0x61 + (d - 10)) as char
    }
}

/// The escape of one character inside a JSON string literal: quotes and
/// backslashes are escaped, control characters take the `\u00xx` form, and
/// everything else stands as itself.
pub open spec fn esc_char(c: char) -> Seq<char> {
    if c == '"' {
        seq!['\\', '"']
    } else if c == '\\' {
        seq!['\\', '\\']
    } else if (c as nat) < 0x20 {
        seq!['\\', 'u', '0', '0', hex_digit((c as nat) / 16), hex_digit((c as nat) % 16)]
    } else {
        seq![c]
    }
}

/// A character sequence with every character escaped for a JSON string
/// literal.
pub open spec fn json_escaped(s: Seq<char>) -> Seq<char>
    decreases s.len(),
{
    if s.len() == 0 {
        Seq::empty()
    } else {
        esc_char(s[0]) + json_escaped(s.drop_first())
    }
}

/// A JSON string literal: quote, escaped characters, quote.
pub open spec fn json_str_of(s: Seq<char>) -> Seq<char> {
    seq!['"'] + json_escaped(s) + seq!['"']
}

/// A JSON boolean literal.
pub open spec fn json_bool_of(b: bool) -> Seq<char> {
    if b {
        "true"@
    } else {
        "false"@
    }
}

/// An optional string: `null` when absent, a string literal when present.
pub open spec fn json_opt_str_of(o: Option<Seq<char>>) -> Seq<char> {
    match o {
        Option::None => "null"@,
        Option::Some(s) => json_str_of(s),
    }
}

/// Pieces joined with commas.
pub open spec fn join_comma(items: Seq<Seq<char>>) -> Seq<char>
    decreases items.len(),
{
    if items.len() == 0 {
        Seq::empty()
    } else if items.len() == 1 {
        items[0]
    } else {
        items[0] + seq![','] + join_comma(items.drop_first())
    }
}

/// Appending one piece extends a comma join at its end.
pub proof fn lemma_join_comma_snoc(items: Seq<Seq<char>>, x: Seq<char>)
    ensures
        join_comma(items.push(x)) == if items.len() == 0 {
            x
        } else {
            join_comma(items) + seq![','] + x
        },
    decreases items.len(),
{
    if items.len() == 0 {
        assert(items.push(x).len() == 1);
        assert(join_comma(items.push(x)) == items.push(x)[0]);
    } else {
        lemma_join_comma_snoc(items.drop_first(), x);
        assert(items.push(x).drop_first() =~= items.drop_first().push(x));
        if items.len() == 1 {
            assert(items.drop_first().len() == 0);
            assert(join_comma(items.push(x)) == items[0] + seq![','] + x);
            assert(join_comma(items) == items[0]);
        } else {
            assert(join_comma(items.push(x)) == items[0] + seq![','] + join_comma(
                items.drop_first().push(x),
            ));
            assert(join_comma(items.drop_first().push(x)) == join_comma(items.drop_first())
                + seq![','] + x);
            assert((items[0] + seq![','] + (join_comma(items.drop_first()) + seq![','] + x)) =~= (
            items[0] + seq![','] + join_comma(items.drop_first())) + seq![','] + x);
        }
    }
}

/// The string views of a vector of strings, in order.
pub open spec fn views_of(ss: Seq<String>) -> Seq<Seq<char>> {
    ss.map_values(|s: String| s@)
}

/// A JSON array of string literals.
pub open spec fn json_str_array_of(ss: Seq<Seq<char>>) -> Seq<char> {
    seq!['['] + join_comma(ss.map_values(|s: Seq<char>| json_str_of(s))) + seq![']']
}

/// A feature map as a JSON object: each name paired with its array of
/// enabled sub-features, in stored order.
pub open spec fn json_features_of(fs: Seq<(Seq<char>, Seq<Seq<char>>)>) -> Seq<char> {
    seq!['{'] + join_comma(
        fs.map_values(
            |kv: (Seq<char>, Seq<Seq<char>>)| json_str_of(kv.0) + seq![':'] + json_str_array_of(
                kv.1,
            ),
        ),
    ) + seq!['}']
}

/// The hexadecimal digit `d`, executable form.
pub fn hex_digit_char(d: u8) -> (r: char)
    requires
        d < 16,
    ensures
        r == hex_digit(d as nat),
{
    match d {
        0 => '0',
        1 => '1',
        2 => '2',
        3 => '3',
        4 => '4',
        5 => '5',
        6 => '6',
        7 => '7',
        8 => '8',
        9 => '9',
        10 => 'a',
        11 => 'b',
        12 => 'c',
        13 => 'd',
        14 => 'e',
        _ => 'f',
    }
}

/// Escaping distributes over extending the string by one character.
proof fn lemma_json_escaped_snoc(s: Seq<char>, c: char)
    ensures
        json_escaped(s.push(c)) == json_escaped(s) + esc_char(c),
    decreases s.len(),
{
    if s.len() == 0 {
        assert(s.push(c).len() == 1);
        assert(s.push(c)[0] == c);
        assert(s.push(c).drop_first() =~= Seq::<char>::empty());
        assert(json_escaped(Seq::<char>::empty()) == Seq::<char>::empty());
        assert(json_escaped(s.push(c)) == esc_char(c) + json_escaped(s.push(c).drop_first()));
        assert(json_escaped(s.push(c)) =~= esc_char(c));
        assert(json_escaped(s) + esc_char(c) =~= esc_char(c));
    } else {
        lemma_json_escaped_snoc(s.drop_first(), c);
        assert(s.push(c).drop_first() =~= s.drop_first().push(c));
        assert(s.push(c)[0] == s[0]);
        assert((esc_char(s[0]) + (json_escaped(s.drop_first()) + esc_char(c))) =~= (esc_char(s[0])
            + json_escaped(s.drop_first())) + esc_char(c));
    }
}

/// Appends one escaped character.
fn push_esc_char(out: &mut Vec<char>, c: char)
    ensures
        final(out)@ == old(out)@ + esc_char(c),
{
    if c == '"' {
        out.push('\\');
        out.push('"');
        assert(out@ =~= old(out)@ + esc_char(c));
    } else if c == '\\' {
        out.push('\\');
        out.push('\\');
        assert(out@ =~= old(out)@ + esc_char(c));
    } else if (c as u32) < 0x20 {
        out.push('\\');
        out.push('u');
        out.push('0');
        out.push('0');
        let code = c as u32;
        out.push(hex_digit_char((code / 16) as u8));
        out.push(hex_digit_char((code % 16) as u8));
        assert(out@ =~= old(out)@ + esc_char(c));
    } else {
        out.push(c);
        assert(out@ =~= old(out)@ + esc_char(c));
    }
}

/// Appends a JSON string literal holding `s`.
pub fn push_json_str(out: &mut Vec<char>, s: &str)
    ensures
        final(out)@ == old(out)@ + json_str_of(s@),
{
    out.push('"');
    let n = s.unicode_len();
    let mut i: usize = 0;
    while i < n
        invariant
            n == s@.len(),
            i <= n,
            out@ == old(out)@ + seq!['"'] + json_escaped(s@.subrange(0, i as int)),
        decreases n - i,
    {
        let c = s.get_char(i);
        push_esc_char(out, c);
        proof {
            assert(s@.subrange(0, (i + 1) as int) =~= s@.subrange(0, i as int).push(s@[i as int]));
            lemma_json_escaped_snoc(s@.subrange(0, i as int), s@[i as int]);
            assert((old(out)@ + seq!['"'] + json_escaped(s@.subrange(0, i as int)) + esc_char(
                s@[i as int],
            )) =~= old(out)@ + seq!['"'] + json_escaped(s@.subrange(0, (i + 1) as int)));
        }
        i = i + 1;
    }
    out.push('"');
    proof {
        assert(s@.subrange(0, n as int) =~= s@);
        assert(out@ =~= old(out)@ + json_str_of(s@));
    }
}

/// Appends `true` or `false`.
pub fn push_json_bool(out: &mut Vec<char>, b: bool)
    ensures
        final(out)@ == old(out)@ + json_bool_of(b),
{
    if b {
        push_str_chars(out, "true");
    } else {
        push_str_chars(out, "false");
    }
}

/// Appends `null` or a string literal.
pub fn push_json_opt_str(out: &mut Vec<char>, o: &Option<String>)
    ensures
        final(out)@ == old(out)@ + json_opt_str_of(
            match o {
                Option::None => Option::None,
                Option::Some(s) => Option::Some(s@),
            },
        ),
{
    match o {
        None => push_str_chars(out, "null"),
        Some(s) => push_json_str(out, s.as_str()),
    }
}

/// Appends a JSON array of string literals.
pub fn push_json_str_array(out: &mut Vec<char>, ss: &Vec<String>)
    ensures
        final(out)@ == old(out)@ + json_str_array_of(views_of(ss@)),
{
    out.push('[');
    let n = ss.len();
    let mut i: usize = 0;
    while i < n
        invariant
            n == ss@.len(),
            i <= n,
            out@ == old(out)@ + seq!['['] + join_comma(
                views_of(ss@.subrange(0, i as int)).map_values(
                    |s: Seq<char>| json_str_of(s),
                ),
            ),
        decreases n - i,
    {
        if i > 0 {
            out.push(',');
        }
        push_json_str(out, ss[i].as_str());
        proof {
            let pref = views_of(ss@.subrange(0, i as int)).map_values(
                |s: Seq<char>| json_str_of(s),
            );
            let prefx = views_of(ss@.subrange(0, (i + 1) as int)).map_values(
                |s: Seq<char>| json_str_of(s),
            );
            assert(prefx =~= pref.push(json_str_of(ss@[i as int]@)));
            lemma_join_comma_snoc(pref, json_str_of(ss@[i as int]@));
            if i == 0 {
                assert(pref.len() == 0);
                assert(out@ =~= old(out)@ + seq!['['] + join_comma(prefx));
            } else {
                assert(pref.len() != 0);
                assert(out@ =~= old(out)@ + seq!['['] + join_comma(prefx));
            }
        }
        i = i + 1;
    }
    out.push(']');
    proof {
        assert(ss@.subrange(0, n as int) =~= ss@);
        assert(out@ =~= old(out)@ + json_str_array_of(views_of(ss@)));
    }
}

/// The view of a feature map held as name/sub-feature pairs.
pub open spec fn features_view(fs: Seq<(String, Vec<String>)>) -> Seq<
    (Seq<char>, Seq<Seq<char>>),
> {
    fs.map_values(|kv: (String, Vec<String>)| (kv.0@, views_of(kv.1@)))
}

/// Appends a feature map as a JSON object.
pub fn push_json_features(out: &mut Vec<char>, fs: &Vec<(String, Vec<String>)>)
    ensures
        final(out)@ == old(out)@ + json_features_of(features_view(fs@)),
{
    out.push('{');
    let n = fs.len();
    let mut i: usize = 0;
    while i < n
        invariant
            n == fs@.len(),
            i <= n,
            out@ == old(out)@ + seq!['{'] + join_comma(
                features_view(fs@.subrange(0, i as int)).map_values(
                    |kv: (Seq<char>, Seq<Seq<char>>)| json_str_of(kv.0) + seq![':']
                        + json_str_array_of(kv.1),
                ),
            ),
        decreases n - i,
    {
        if i > 0 {
            out.push(',');
        }
        push_json_str(out, fs[i].0.as_str());
        out.push(':');
        push_json_str_array(out, &fs[i].1);
        proof {
            let f = |kv: (Seq<char>, Seq<Seq<char>>)| json_str_of(kv.0) + seq![':']
                + json_str_array_of(kv.1);
            let pref = features_view(fs@.subrange(0, i as int)).map_values(f);
            let prefx = features_view(fs@.subrange(0, (i + 1) as int)).map_values(f);
            let item = json_str_of(fs@[i as int].0@) + seq![':'] + json_str_array_of(
                views_of(fs@[i as int].1@),
            );
            assert(prefx =~= pref.push(item));
            lemma_join_comma_snoc(pref, item);
            assert(out@ =~= old(out)@ + seq!['{'] + join_comma(prefx));
        }
        i = i + 1;
    }
    out.push('}');
    proof {
        assert(fs@.subrange(0, n as int) =~= fs@);
        assert(out@ =~= old(out)@ + json_features_of(features_view(fs@)));
    }
}

} // verus!
