//! Rendering of the response-map model as JSON text, character for
//! character: the fragment that the framework's specification output holds
//! for a route.

use vstd::prelude::*;

use crate::openapi::{
    ContentEntry, ContentEntryV, Property, PropertyV, ResponseEntryV, ResponseObject,
    ResponseObjectV, Responses, Schema, SchemaType, SchemaV,
};

verus! {

/// The decimal digit characters.
pub open spec fn spec_digit_char(d: int) -> char {
    if d == 0 {
        '0'
    } else if d == 1 {
        '1'
    } else if d == 2 {
        '2'
    } else if d == 3 {
        '3'
    } else if d == 4 {
        '4'
    } else if d == 5 {
        '5'
    } else if d == 6 {
        '6'
    } else if d == 7 {
        '7'
    } else if d == 8 {
        '8'
    } else {
        '9'
    }
}

/// The decimal rendering of a number, most significant digit first.
pub open spec fn spec_dec(n: nat) -> Seq<char>
    decreases n,
{
    if n < 10 {
        seq![spec_digit_char(n as int)]
    } else {
        spec_dec(n / 10).push(spec_digit_char((n % 10) as int))
    }
}

/// The lower-case hexadecimal digit characters.
pub open spec fn spec_hex_digit(d: int) -> char {
    if d == 0 {
        '0'
    } else if d == 1 {
        '1'
    } else if d == 2 {
        '2'
    } else if d == 3 {
        '3'
    } else if d == 4 {
        '4'
    } else if d == 5 {
        '5'
    } else if d == 6 {
        '6'
    } else if d == 7 {
        '7'
    } else if d == 8 {
        '8'
    } else if d == 9 {
        '9'
    } else if d == 10 {
        'a'
    } else if d == 11 {
        'b'
    } else if d == 12 {
        'c'
    } else if d == 13 {
        'd'
    } else if d == 14 {
        'e'
    } else {
        'f'
    }
}

/// How one character stands inside a JSON string: quote and backslash take a
/// backslash; the named control characters take their short escape; the
/// other control characters take a `\u00..` escape with two lower-case hex
/// digits; everything else stands as itself.
pub open spec fn spec_escape_char(c: char) -> Seq<char> {
    if c == '"' {
        seq!['\\', '"']
    } else if c == '\\' {
        seq!['\\', '\\']
    } else if c == '\u{8}' {
        seq!['\\', 'b']
    } else if c == '\t' {
        seq!['\\', 't']
    } else if c == '\n' {
        seq!['\\', 'n']
    } else if c == '\u{c}' {
        seq!['\\', 'f']
    } else if c == '\r' {
        seq!['\\', 'r']
    } else if (c as int) < 32 {
        seq!['\\', 'u', '0', '0', spec_hex_digit(c as int / 16), spec_hex_digit(c as int % 16)]
    } else {
        seq![c]
    }
}

/// A character sequence with every character escaped for JSON.
pub open spec fn spec_escaped(s: Seq<char>) -> Seq<char>
    decreases s.len(),
{
    if s.len() == 0 {
        Seq::empty()
    } else {
        spec_escaped(s.drop_last()) + spec_escape_char(s.last())
    }
}

/// A JSON string: the escaped characters between quotes.
pub open spec fn spec_json_string(s: Seq<char>) -> Seq<char> {
    seq!['"'] + spec_escaped(s) + seq!['"']
}

/// Object or array members joined with commas.
pub open spec fn spec_join_comma(parts: Seq<Seq<char>>) -> Seq<char>
    decreases parts.len(),
{
    if parts.len() == 0 {
        Seq::empty()
    } else if parts.len() == 1 {
        parts[0]
    } else {
        spec_join_comma(parts.drop_last()) + seq![','] + parts.last()
    }
}

/// The JSON name of a schema type.
pub open spec fn spec_type_name(t: SchemaType) -> Seq<char> {
    match t {
        SchemaType::StringType => "string"@,
        SchemaType::ObjectType => "object"@,
    }
}

/// The members of a property's schema object: format and type, each present
/// only when set.
pub open spec fn spec_property_members(p: PropertyV) -> Seq<Seq<char>> {
    let parts = Seq::<Seq<char>>::empty();
    let parts = if p.format.len() > 0 {
        parts.push("\"format\":"@ + spec_json_string(p.format))
    } else {
        parts
    };
    let parts = match p.schema_type {
        Some(t) => parts.push("\"type\":"@ + spec_json_string(spec_type_name(t))),
        None => parts,
    };
    parts
}

/// A property's schema as a JSON object.
pub open spec fn spec_property_json(p: PropertyV) -> Seq<char> {
    "{"@ + spec_join_comma(spec_property_members(p)) + "}"@
}

/// The members of a `properties` object, one per property, in order.
pub open spec fn spec_props_members(props: Seq<PropertyV>) -> Seq<Seq<char>>
    decreases props.len(),
{
    if props.len() == 0 {
        Seq::empty()
    } else {
        spec_props_members(props.drop_last()).push(
            spec_json_string(props.last().name) + ":"@ + spec_property_json(props.last()),
        )
    }
}

/// The members of a `required` array, one JSON string per name, in order.
pub open spec fn spec_required_members(req: Seq<Seq<char>>) -> Seq<Seq<char>>
    decreases req.len(),
{
    if req.len() == 0 {
        Seq::empty()
    } else {
        spec_required_members(req.drop_last()).push(spec_json_string(req.last()))
    }
}

/// The members of a schema object, in the order the framework writes them:
/// description, format, properties, example, type, required — each present
/// only when set.
pub open spec fn spec_schema_members(s: SchemaV) -> Seq<Seq<char>> {
    let parts = Seq::<Seq<char>>::empty();
    let parts = if s.description.len() > 0 {
        parts.push("\"description\":"@ + spec_json_string(s.description))
    } else {
        parts
    };
    let parts = if s.format.len() > 0 {
        parts.push("\"format\":"@ + spec_json_string(s.format))
    } else {
        parts
    };
    let parts = if s.properties.len() > 0 {
        parts.push(
            "\"properties\":{"@ + spec_join_comma(spec_props_members(s.properties)) + "}"@,
        )
    } else {
        parts
    };
    let parts = match s.example {
        Some(e) => parts.push("\"example\":"@ + spec_json_string(e)),
        None => parts,
    };
    let parts = match s.schema_type {
        Some(t) => parts.push("\"type\":"@ + spec_json_string(spec_type_name(t))),
        None => parts,
    };
    let parts = if s.required.len() > 0 {
        parts.push("\"required\":["@ + spec_join_comma(spec_required_members(s.required)) + "]"@)
    } else {
        parts
    };
    parts
}

/// A schema as a JSON object.
pub open spec fn spec_schema_json(s: SchemaV) -> Seq<char> {
    "{"@ + spec_join_comma(spec_schema_members(s)) + "}"@
}

/// The members of a `content` object: each media type with its schema
/// wrapped in a media object, in order.
pub open spec fn spec_content_members(content: Seq<ContentEntryV>) -> Seq<Seq<char>>
    decreases content.len(),
{
    if content.len() == 0 {
        Seq::empty()
    } else {
        spec_content_members(content.drop_last()).push(
            spec_json_string(content.last().content_type) + ":{\"schema\":"@ + spec_schema_json(
                content.last().schema,
            ) + "}"@,
        )
    }
}

/// A response object as JSON: the description always, the content object
/// only when there are content entries.
pub open spec fn spec_response_object_json(r: ResponseObjectV) -> Seq<char> {
    let head = "{\"description\":"@ + spec_json_string(r.description);
    if r.content.len() > 0 {
        head + ",\"content\":{"@ + spec_join_comma(spec_content_members(r.content)) + "}}"@
    } else {
        head + "}"@
    }
}

/// The members of the response map: each status code, rendered in decimal as
/// a JSON string, with its response object, in order.
pub open spec fn spec_responses_members(s: Seq<ResponseEntryV>) -> Seq<Seq<char>>
    decreases s.len(),
{
    if s.len() == 0 {
        Seq::empty()
    } else {
        spec_responses_members(s.drop_last()).push(
            "\""@ + spec_dec(s.last().code as nat) + "\":"@ + spec_response_object_json(
                s.last().response,
            ),
        )
    }
}

/// The response map as a JSON object.
pub open spec fn spec_responses_json(s: Seq<ResponseEntryV>) -> Seq<char> {
    "{"@ + spec_join_comma(spec_responses_members(s)) + "}"@
}

/// One decimal digit as text.
fn digit_str(d: u16) -> (r: &'static str)
    requires
        d < 10,
    ensures
        r@ == seq![spec_digit_char(d as int)],
{
    proof {
        reveal_strlit("0");
        reveal_strlit("1");
        reveal_strlit("2");
        reveal_strlit("3");
        reveal_strlit("4");
        reveal_strlit("5");
        reveal_strlit("6");
        reveal_strlit("7");
        reveal_strlit("8");
        reveal_strlit("9");
    }
    let r = match d {
        0 => "0",
        1 => "1",
        2 => "2",
        3 => "3",
        4 => "4",
        5 => "5",
        6 => "6",
        7 => "7",
        8 => "8",
        _ => "9",
    };
    proof {
        assert(r@ =~= seq![spec_digit_char(d as int)]);
    }
    r
}

/// One lower-case hexadecimal digit as text.
fn hex_str(d: u32) -> (r: &'static str)
    requires
        d < 16,
    ensures
        r@ == seq![spec_hex_digit(d as int)],
{
    proof {
        reveal_strlit("0");
        reveal_strlit("1");
        reveal_strlit("2");
        reveal_strlit("3");
        reveal_strlit("4");
        reveal_strlit("5");
        reveal_strlit("6");
        reveal_strlit("7");
        reveal_strlit("8");
        reveal_strlit("9");
        reveal_strlit("a");
        reveal_strlit("b");
        reveal_strlit("c");
        reveal_strlit("d");
        reveal_strlit("e");
        reveal_strlit("f");
    }
    let r = match d {
        0 => "0",
        1 => "1",
        2 => "2",
        3 => "3",
        4 => "4",
        5 => "5",
        6 => "6",
        7 => "7",
        8 => "8",
        9 => "9",
        10 => "a",
        11 => "b",
        12 => "c",
        13 => "d",
        14 => "e",
        _ => "f",
    };
    proof {
        assert(r@ =~= seq![spec_hex_digit(d as int)]);
    }
    r
}

/// Append the decimal rendering of a number.
fn push_dec(out: &mut String, n: u16)
    ensures
        final(out)@ == old(out)@ + spec_dec(n as nat),
    decreases n,
{
    if n < 10 {
        out.append(digit_str(n));
        proof {
            assert(final(out)@ =~= old(out)@ + spec_dec(n as nat));
        }
    } else {
        push_dec(out, n / 10);
        out.append(digit_str(n % 10));
        proof {
            assert(final(out)@ =~= old(out)@ + spec_dec(n as nat));
        }
    }
}

/// Append one character in its JSON-escaped form.
fn push_escaped_char(out: &mut String, piece: &str)
    requires
        piece@.len() == 1,
    ensures
        final(out)@ == old(out)@ + spec_escape_char(piece@[0]),
{
    let c = piece.get_char(0);
    if c == '"' {
        out.append("\\\"");
        proof {
            reveal_strlit("\\\"");
            assert(final(out)@ =~= old(out)@ + spec_escape_char(piece@[0]));
        }
    } else if c == '\\' {
        out.append("\\\\");
        proof {
            reveal_strlit("\\\\");
            assert(final(out)@ =~= old(out)@ + spec_escape_char(piece@[0]));
        }
    } else if c == '\u{8}' {
        out.append("\\b");
        proof {
            reveal_strlit("\\b");
            assert(final(out)@ =~= old(out)@ + spec_escape_char(piece@[0]));
        }
    } else if c == '\t' {
        out.append("\\t");
        proof {
            reveal_strlit("\\t");
            assert(final(out)@ =~= old(out)@ + spec_escape_char(piece@[0]));
        }
    } else if c == '\n' {
        out.append("\\n");
        proof {
            reveal_strlit("\\n");
            assert(final(out)@ =~= old(out)@ + spec_escape_char(piece@[0]));
        }
    } else if c == '\u{c}' {
        out.append("\\f");
        proof {
            reveal_strlit("\\f");
            assert(final(out)@ =~= old(out)@ + spec_escape_char(piece@[0]));
        }
    } else if c == '\r' {
        out.append("\\r");
        proof {
            reveal_strlit("\\r");
            assert(final(out)@ =~= old(out)@ + spec_escape_char(piece@[0]));
        }
    } else {
        let code: u32 = c as u32;
        if code < 32 {
            out.append("\\u00");
            out.append(hex_str(code / 16));
            out.append(hex_str(code % 16));
            proof {
                reveal_strlit("\\u00");
                assert(final(out)@ =~= old(out)@ + spec_escape_char(piece@[0]));
            }
        } else {
            out.append(piece);
            proof {
                assert(piece@ =~= seq![piece@[0]]);
                assert(final(out)@ =~= old(out)@ + spec_escape_char(piece@[0]));
            }
        }
    }
}

/// Append a whole string in its JSON-escaped form.
fn push_escaped(out: &mut String, s: &str)
    ensures
        final(out)@ == old(out)@ + spec_escaped(s@),
{
    let ghost init = out@;
    let n = s.unicode_len();
    let mut i: usize = 0;
    while i < n
        invariant
            i <= n,
            n == s@.len(),
            out@ == init + spec_escaped(s@.take(i as int)),
        decreases n - i,
    {
        let piece = s.substring_char(i, i + 1);
        proof {
            assert(piece@ =~= seq![s@[i as int]]);
            assert(s@.take(i as int + 1).drop_last() =~= s@.take(i as int));
            assert(s@.take(i as int + 1).last() == s@[i as int]);
        }
        push_escaped_char(out, piece);
        proof {
            assert(out@ =~= init + spec_escaped(s@.take(i as int + 1)));
        }
        i += 1;
    }
    proof {
        assert(s@.take(n as int) =~= s@);
    }
}

/// Append a string as a JSON string: quoted, with its characters escaped.
fn push_json_string(out: &mut String, s: &str)
    ensures
        final(out)@ == old(out)@ + spec_json_string(s@),
{
    out.append("\"");
    push_escaped(out, s);
    out.append("\"");
    proof {
        reveal_strlit("\"");
        assert(final(out)@ =~= old(out)@ + spec_json_string(s@));
    }
}


/// One member per property.
proof fn lemma_props_members_len(s: Seq<PropertyV>)
    ensures
        spec_props_members(s).len() == s.len(),
    decreases s.len(),
{
    if s.len() > 0 {
        lemma_props_members_len(s.drop_last());
    }
}

/// One member per required name.
proof fn lemma_required_members_len(s: Seq<Seq<char>>)
    ensures
        spec_required_members(s).len() == s.len(),
    decreases s.len(),
{
    if s.len() > 0 {
        lemma_required_members_len(s.drop_last());
    }
}

/// One member per content entry.
proof fn lemma_content_members_len(s: Seq<ContentEntryV>)
    ensures
        spec_content_members(s).len() == s.len(),
    decreases s.len(),
{
    if s.len() > 0 {
        lemma_content_members_len(s.drop_last());
    }
}

/// One member per response entry.
proof fn lemma_responses_members_len(s: Seq<ResponseEntryV>)
    ensures
        spec_responses_members(s).len() == s.len(),
    decreases s.len(),
{
    if s.len() > 0 {
        lemma_responses_members_len(s.drop_last());
    }
}

/// What joining one more member adds.
proof fn lemma_join_push(parts: Seq<Seq<char>>, p: Seq<char>)
    ensures
        spec_join_comma(parts.push(p)) == if parts.len() == 0 {
            p
        } else {
            spec_join_comma(parts) + seq![','] + p
        },
{
    let t = parts.push(p);
    assert(t.drop_last() =~= parts);
    assert(t.last() == p);
    if parts.len() == 0 {
        assert(t[0] == p);
    }
}

/// Append the JSON name of a schema type.
fn push_type_member(out: &mut String, t: SchemaType)
    ensures
        final(out)@ == old(out)@ + "\"type\":"@ + spec_json_string(spec_type_name(t)),
{
    out.append("\"type\":");
    match t {
        SchemaType::StringType => push_json_string(out, "string"),
        SchemaType::ObjectType => push_json_string(out, "object"),
    }
}

/// Append a property's schema object.
fn push_property(out: &mut String, p: &Property)
    ensures
        final(out)@ == old(out)@ + spec_property_json(p@),
{
    let ghost init = out@;
    out.append("{");
    let ghost mut parts = Seq::<Seq<char>>::empty();
    let mut first: bool = true;
    if !p.format.as_str().is_empty() {
        out.append("\"format\":");
        push_json_string(out, p.format.as_str());
        proof {
            lemma_join_push(parts, "\"format\":"@ + spec_json_string(p@.format));
            parts = parts.push("\"format\":"@ + spec_json_string(p@.format));
            assert(out@ =~= init + "{"@ + spec_join_comma(parts));
        }
        first = false;
    }
    match p.schema_type {
        Some(t) => {
            if !first {
                out.append(",");
            }
            push_type_member(out, t);
            proof {
                reveal_strlit(",");
                assert(","@ =~= seq![',']);
                lemma_join_push(parts, "\"type\":"@ + spec_json_string(spec_type_name(t)));
                parts = parts.push("\"type\":"@ + spec_json_string(spec_type_name(t)));
                assert(out@ =~= init + "{"@ + spec_join_comma(parts));
            }
        },
        None => {},
    }
    out.append("}");
    proof {
        assert(parts =~~= spec_property_members(p@));
        assert(final(out)@ =~= old(out)@ + spec_property_json(p@));
    }
}

/// Append the members of a `properties` object, comma-joined.
fn push_props_members(out: &mut String, props: &Vec<Property>)
    ensures
        final(out)@ == old(out)@ + spec_join_comma(
            spec_props_members(crate::openapi::spec_props_view(props@)),
        ),
{
    let ghost init = out@;
    let ghost view = crate::openapi::spec_props_view(props@);
    let n = props.len();
    let mut i: usize = 0;
    while i < n
        invariant
            i <= n,
            n == props@.len(),
            view == crate::openapi::spec_props_view(props@),
            out@ == init + spec_join_comma(spec_props_members(view.take(i as int))),
        decreases n - i,
    {
        let p = &props[i];
        let ghost sofar = spec_props_members(view.take(i as int));
        proof {
            assert(view.take(i as int + 1).drop_last() =~= view.take(i as int));
            assert(view.take(i as int + 1).last() == view[i as int]);
            assert(view[i as int] == p@);
        }
        if i > 0 {
            out.append(",");
        }
        push_json_string(out, p.name.as_str());
        out.append(":");
        push_property(out, p);
        proof {
            reveal_strlit(",");
            assert(","@ =~= seq![',']);
            let member = spec_json_string(p@.name) + ":"@ + spec_property_json(p@);
            lemma_join_push(sofar, member);
            assert(spec_props_members(view.take(i as int + 1)) =~= sofar.push(member));
            lemma_props_members_len(view.take(i as int));
            assert(out@ =~= init + spec_join_comma(spec_props_members(view.take(i as int + 1))));
        }
        i += 1;
    }
    proof {
        assert(view.take(n as int) =~= view);
    }
}

/// Append the members of a `required` array, comma-joined.
fn push_required_members(out: &mut String, req: &Vec<String>)
    ensures
        final(out)@ == old(out)@ + spec_join_comma(
            spec_required_members(crate::openapi::spec_strs_view(req@)),
        ),
{
    let ghost init = out@;
    let ghost view = crate::openapi::spec_strs_view(req@);
    let n = req.len();
    let mut i: usize = 0;
    while i < n
        invariant
            i <= n,
            n == req@.len(),
            view == crate::openapi::spec_strs_view(req@),
            out@ == init + spec_join_comma(spec_required_members(view.take(i as int))),
        decreases n - i,
    {
        let ghost sofar = spec_required_members(view.take(i as int));
        proof {
            assert(view.take(i as int + 1).drop_last() =~= view.take(i as int));
            assert(view.take(i as int + 1).last() == view[i as int]);
            assert(view[i as int] == req@[i as int]@);
        }
        if i > 0 {
            out.append(",");
        }
        push_json_string(out, req[i].as_str());
        proof {
            reveal_strlit(",");
            assert(","@ =~= seq![',']);
            let member = spec_json_string(view[i as int]);
            lemma_join_push(sofar, member);
            assert(spec_required_members(view.take(i as int + 1)) =~= sofar.push(member));
            lemma_required_members_len(view.take(i as int));
            assert(out@ =~= init + spec_join_comma(
                spec_required_members(view.take(i as int + 1)),
            ));
        }
        i += 1;
    }
    proof {
        assert(view.take(n as int) =~= view);
    }
}

/// A member built from a fixed key prefix and a JSON string value.
fn member_text(prefix: &str, text: &str) -> (r: String)
    ensures
        r@ == prefix@ + spec_json_string(text@),
{
    let mut out: String = prefix.to_owned();
    push_json_string(&mut out, text);
    out
}

/// The `type` member for a schema type.
fn member_type(t: SchemaType) -> (r: String)
    ensures
        r@ == "\"type\":"@ + spec_json_string(spec_type_name(t)),
{
    let mut out = String::new();
    push_type_member(&mut out, t);
    proof {
        assert(out@ =~= "\"type\":"@ + spec_json_string(spec_type_name(t)));
    }
    out
}

/// The `properties` member for a property list.
fn member_properties(props: &Vec<Property>) -> (r: String)
    ensures
        r@ == "\"properties\":{"@ + spec_join_comma(
            spec_props_members(crate::openapi::spec_props_view(props@)),
        ) + "}"@,
{
    let mut out: String = "\"properties\":{".to_owned();
    push_props_members(&mut out, props);
    out.append("}");
    proof {
        assert(out@ =~= "\"properties\":{"@ + spec_join_comma(
            spec_props_members(crate::openapi::spec_props_view(props@)),
        ) + "}"@);
    }
    out
}

/// The `required` member for a name list.
fn member_required(req: &Vec<String>) -> (r: String)
    ensures
        r@ == "\"required\":["@ + spec_join_comma(
            spec_required_members(crate::openapi::spec_strs_view(req@)),
        ) + "]"@,
{
    let mut out: String = "\"required\":[".to_owned();
    push_required_members(&mut out, req);
    out.append("]");
    proof {
        assert(out@ =~= "\"required\":["@ + spec_join_comma(
            spec_required_members(crate::openapi::spec_strs_view(req@)),
        ) + "]"@);
    }
    out
}

/// Append ready-made members, comma-joined.
fn push_joined_members(out: &mut String, members: &Vec<String>)
    ensures
        final(out)@ == old(out)@ + spec_join_comma(crate::openapi::spec_strs_view(members@)),
{
    let ghost init = out@;
    let ghost view = crate::openapi::spec_strs_view(members@);
    let n = members.len();
    let mut i: usize = 0;
    while i < n
        invariant
            i <= n,
            n == members@.len(),
            view == crate::openapi::spec_strs_view(members@),
            out@ == init + spec_join_comma(view.take(i as int)),
        decreases n - i,
    {
        let ghost sofar = view.take(i as int);
        proof {
            assert(view.take(i as int + 1).drop_last() =~= view.take(i as int));
            assert(view.take(i as int + 1).last() == view[i as int]);
            assert(view[i as int] == members@[i as int]@);
        }
        if i > 0 {
            out.append(",");
        }
        out.append(members[i].as_str());
        proof {
            reveal_strlit(",");
            assert(","@ =~= seq![',']);
            lemma_join_push(sofar, view[i as int]);
            assert(view.take(i as int + 1) =~= sofar.push(view[i as int]));
            assert(out@ =~= init + spec_join_comma(view.take(i as int + 1)));
        }
        i += 1;
    }
    proof {
        assert(view.take(n as int) =~= view);
    }
}

/// Append a schema as a JSON object: its present members, comma-joined,
/// between braces.
#[verifier::rlimit(100)]
fn push_schema(out: &mut String, s: &Schema)
    ensures
        final(out)@ == old(out)@ + spec_schema_json(s@),
{
    let mut members: Vec<String> = Vec::new();
    let ghost mut parts = Seq::<Seq<char>>::empty();
    proof {
        assert(crate::openapi::spec_strs_view(members@) =~= parts);
    }
    if !s.description.as_str().is_empty() {
        let ghost before = members@;
        members.push(member_text("\"description\":", s.description.as_str()));
        proof {
            parts = parts.push("\"description\":"@ + spec_json_string(s@.description));
            assert(crate::openapi::spec_strs_view(members@) =~= parts);
        }
    }
    if !s.format.as_str().is_empty() {
        members.push(member_text("\"format\":", s.format.as_str()));
        proof {
            parts = parts.push("\"format\":"@ + spec_json_string(s@.format));
            assert(crate::openapi::spec_strs_view(members@) =~= parts);
        }
    }
    if s.properties.len() > 0 {
        members.push(member_properties(&s.properties));
        proof {
            parts = parts.push(
                "\"properties\":{"@ + spec_join_comma(spec_props_members(s@.properties)) + "}"@,
            );
            assert(crate::openapi::spec_strs_view(members@) =~= parts);
        }
    }
    match &s.example {
        Some(e) => {
            members.push(member_text("\"example\":", e.as_str()));
            proof {
                parts = parts.push("\"example\":"@ + spec_json_string(e@));
                assert(crate::openapi::spec_strs_view(members@) =~= parts);
            }
        },
        None => {},
    }
    match s.schema_type {
        Some(t) => {
            members.push(member_type(t));
            proof {
                parts = parts.push("\"type\":"@ + spec_json_string(spec_type_name(t)));
                assert(crate::openapi::spec_strs_view(members@) =~= parts);
            }
        },
        None => {},
    }
    if s.required.len() > 0 {
        members.push(member_required(&s.required));
        proof {
            parts = parts.push(
                "\"required\":["@ + spec_join_comma(spec_required_members(s@.required)) + "]"@,
            );
            assert(crate::openapi::spec_strs_view(members@) =~= parts);
        }
    }
    proof {
        assert(parts =~~= spec_schema_members(s@));
    }
    out.append("{");
    push_joined_members(out, &members);
    out.append("}");
    proof {
        assert(final(out)@ =~= old(out)@ + spec_schema_json(s@));
    }
}

/// Render a schema as JSON text.
pub fn schema_json(s: &Schema) -> (r: String)
    ensures
        r@ == spec_schema_json(s@),
{
    let mut out = String::new();
    push_schema(&mut out, s);
    proof {
        assert(out@ =~= spec_schema_json(s@));
    }
    out
}

/// Append the members of a `content` object, comma-joined.
fn push_content_members(out: &mut String, content: &Vec<ContentEntry>)
    ensures
        final(out)@ == old(out)@ + spec_join_comma(
            spec_content_members(crate::openapi::spec_content_view(content@)),
        ),
{
    let ghost init = out@;
    let ghost view = crate::openapi::spec_content_view(content@);
    let n = content.len();
    let mut i: usize = 0;
    while i < n
        invariant
            i <= n,
            n == content@.len(),
            view == crate::openapi::spec_content_view(content@),
            out@ == init + spec_join_comma(spec_content_members(view.take(i as int))),
        decreases n - i,
    {
        let e = &content[i];
        let ghost sofar = spec_content_members(view.take(i as int));
        proof {
            assert(view.take(i as int + 1).drop_last() =~= view.take(i as int));
            assert(view.take(i as int + 1).last() == view[i as int]);
            assert(view[i as int] == e@);
        }
        if i > 0 {
            out.append(",");
        }
        push_json_string(out, e.content_type.as_str());
        out.append(":{\"schema\":");
        push_schema(out, &e.schema);
        out.append("}");
        proof {
            reveal_strlit(",");
            assert(","@ =~= seq![',']);
            let member = spec_json_string(e@.content_type) + ":{\"schema\":"@ + spec_schema_json(
                e@.schema,
            ) + "}"@;
            lemma_join_push(sofar, member);
            assert(spec_content_members(view.take(i as int + 1)) =~= sofar.push(member));
            lemma_content_members_len(view.take(i as int));
            assert(out@ =~= init + spec_join_comma(
                spec_content_members(view.take(i as int + 1)),
            ));
        }
        i += 1;
    }
    proof {
        assert(view.take(n as int) =~= view);
    }
}

/// Append a response object as JSON.
fn push_response_object(out: &mut String, r: &ResponseObject)
    ensures
        final(out)@ == old(out)@ + spec_response_object_json(r@),
{
    out.append("{\"description\":");
    push_json_string(out, r.description.as_str());
    if r.content.len() > 0 {
        out.append(",\"content\":{");
        push_content_members(out, &r.content);
        out.append("}}");
        proof {
            assert(final(out)@ =~= old(out)@ + spec_response_object_json(r@));
        }
    } else {
        out.append("}");
        proof {
            assert(final(out)@ =~= old(out)@ + spec_response_object_json(r@));
        }
    }
}

/// Render a response map as JSON text: each status code in decimal, with its
/// response object, in map order.
pub fn responses_json(resp: &Responses) -> (r: String)
    ensures
        r@ == spec_responses_json(resp@),
{
    let ghost view = resp@;
    let mut out = String::new();
    out.append("{");
    let ghost init = out@;
    proof {
        assert(init =~= Seq::<char>::empty() + "{"@);
    }
    let n = resp.entries.len();
    let mut i: usize = 0;
    while i < n
        invariant
            i <= n,
            n == resp.entries@.len(),
            view == resp@,
            out@ == Seq::<char>::empty() + "{"@ + spec_join_comma(
                spec_responses_members(view.take(i as int)),
            ),
        decreases n - i,
    {
        let e = &resp.entries[i];
        let ghost sofar = spec_responses_members(view.take(i as int));
        proof {
            assert(view.take(i as int + 1).drop_last() =~= view.take(i as int));
            assert(view.take(i as int + 1).last() == view[i as int]);
            assert(view[i as int] == e@);
        }
        if i > 0 {
            out.append(",");
        }
        out.append("\"");
        push_dec(&mut out, e.code);
        out.append("\":");
        push_response_object(&mut out, &e.response);
        proof {
            reveal_strlit(",");
            assert(","@ =~= seq![',']);
            let member = "\""@ + spec_dec(e@.code as nat) + "\":"@ + spec_response_object_json(
                e@.response,
            );
            lemma_join_push(sofar, member);
            assert(spec_responses_members(view.take(i as int + 1)) =~= sofar.push(member));
            lemma_responses_members_len(view.take(i as int));
            assert(out@ =~= Seq::<char>::empty() + "{"@ + spec_join_comma(
                spec_responses_members(view.take(i as int + 1)),
            ));
        }
        i += 1;
    }
    out.append("}");
    proof {
        assert(view.take(n as int) =~= view);
        assert(out@ =~= spec_responses_json(view));
    }
    out
}

} // verus!
