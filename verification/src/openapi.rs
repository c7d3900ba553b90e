//! A plain model of the OpenAPI response map that the framework builds for a
//! route: status codes, response objects, content entries and their schemas.
//! The generated code rewrites the delegate's map; the rewrite lives here.

use vstd::prelude::*;

use crate::content_type::{content_type_of, spec_content_type, ContentKind};
use crate::response_attrs::DerivePlan;
use crate::status_code::{spec_status_code, status_code_of, StatusKind};
use crate::strutil::{opt_str_view, str_is};
use vstd::multiset::Multiset;

verus! {

/// The schema types that the wrapped payloads use.
#[derive(Clone, Copy, PartialEq, Eq, Structural, Debug)]
pub enum SchemaType {
    StringType,
    ObjectType,
}

/// One named property of an object schema, reduced to the parts the
/// payloads use.
#[derive(Clone, Debug)]
pub struct Property {
    pub name: String,
    pub format: String,
    pub schema_type: Option<SchemaType>,
}

/// The mathematical face of a property.
#[verifier::ext_equal]
pub ghost struct PropertyV {
    pub name: Seq<char>,
    pub format: Seq<char>,
    pub schema_type: Option<SchemaType>,
}

impl View for Property {
    type V = PropertyV;

    open spec fn view(&self) -> PropertyV {
        PropertyV { name: self.name@, format: self.format@, schema_type: self.schema_type }
    }
}

/// An OpenAPI schema, reduced to the fields the wrapped payloads use. An
/// empty string stands for an absent text field.
#[derive(Clone, Debug)]
pub struct Schema {
    pub description: String,
    pub format: String,
    pub properties: Vec<Property>,
    pub example: Option<String>,
    pub schema_type: Option<SchemaType>,
    pub required: Vec<String>,
}

/// The mathematical face of a schema.
#[verifier::ext_equal]
pub ghost struct SchemaV {
    pub description: Seq<char>,
    pub format: Seq<char>,
    pub properties: Seq<PropertyV>,
    pub example: Option<Seq<char>>,
    pub schema_type: Option<SchemaType>,
    pub required: Seq<Seq<char>>,
}

/// The views of a property list, in order.
pub open spec fn spec_props_view(props: Seq<Property>) -> Seq<PropertyV> {
    Seq::new(props.len(), |i: int| props[i]@)
}

/// The character sequences of a string list, in order.
pub open spec fn spec_strs_view(strs: Seq<String>) -> Seq<Seq<char>> {
    Seq::new(strs.len(), |i: int| strs[i]@)
}

impl View for Schema {
    type V = SchemaV;

    open spec fn view(&self) -> SchemaV {
        SchemaV {
            description: self.description@,
            format: self.format@,
            properties: spec_props_view(self.properties@),
            example: match self.example {
                Some(e) => Some(e@),
                None => None,
            },
            schema_type: self.schema_type,
            required: spec_strs_view(self.required@),
        }
    }
}

/// One content entry of a response object: a media type and its schema.
#[derive(Clone, Debug)]
pub struct ContentEntry {
    pub content_type: String,
    pub schema: Schema,
}

/// The mathematical face of a content entry.
#[verifier::ext_equal]
pub ghost struct ContentEntryV {
    pub content_type: Seq<char>,
    pub schema: SchemaV,
}

impl View for ContentEntry {
    type V = ContentEntryV;

    open spec fn view(&self) -> ContentEntryV {
        ContentEntryV { content_type: self.content_type@, schema: self.schema@ }
    }
}

/// One response object: a description and its content entries, keyed by
/// media type and kept in insertion order.
#[derive(Clone, Debug)]
pub struct ResponseObject {
    pub description: String,
    pub content: Vec<ContentEntry>,
}

/// The mathematical face of a response object.
#[verifier::ext_equal]
pub ghost struct ResponseObjectV {
    pub description: Seq<char>,
    pub content: Seq<ContentEntryV>,
}

/// The views of a content list, in order.
pub open spec fn spec_content_view(list: Seq<ContentEntry>) -> Seq<ContentEntryV> {
    Seq::new(list.len(), |i: int| list[i]@)
}

impl View for ResponseObject {
    type V = ResponseObjectV;

    open spec fn view(&self) -> ResponseObjectV {
        ResponseObjectV { description: self.description@, content: spec_content_view(self.content@) }
    }
}

/// One entry of the response map: a status code and its response object.
#[derive(Clone, Debug)]
pub struct ResponseEntry {
    pub code: u16,
    pub response: ResponseObject,
}

/// The mathematical face of a response-map entry.
#[verifier::ext_equal]
pub ghost struct ResponseEntryV {
    pub code: u16,
    pub response: ResponseObjectV,
}

impl View for ResponseEntry {
    type V = ResponseEntryV;

    open spec fn view(&self) -> ResponseEntryV {
        ResponseEntryV { code: self.code, response: self.response@ }
    }
}

/// A response map: entries keyed by status code, in order. A well-formed map
/// has no code twice.
#[derive(Clone, Debug)]
pub struct Responses {
    pub entries: Vec<ResponseEntry>,
}

/// The views of an entry list, in order.
pub open spec fn spec_entries_view(entries: Seq<ResponseEntry>) -> Seq<ResponseEntryV> {
    Seq::new(entries.len(), |i: int| entries[i]@)
}

impl View for Responses {
    type V = Seq<ResponseEntryV>;

    open spec fn view(&self) -> Seq<ResponseEntryV> {
        spec_entries_view(self.entries@)
    }
}

/// No status code occurs twice.
pub open spec fn spec_unique_codes(s: Seq<ResponseEntryV>) -> bool {
    forall|i: int, j: int|
        0 <= i < j < s.len() ==> (#[trigger] s[i]).code != (#[trigger] s[j]).code
}

/// The index of the first entry with the given code, or -1.
pub open spec fn spec_first_code(s: Seq<ResponseEntryV>, code: u16) -> int
    decreases s.len(),
{
    if s.len() == 0 {
        -1
    } else if s[0].code == code {
        0
    } else {
        let r = spec_first_code(s.drop_first(), code);
        if r < 0 {
            -1
        } else {
            r + 1
        }
    }
}

/// The index of the first content entry with the given media type, or -1.
pub open spec fn spec_first_ct(s: Seq<ContentEntryV>, ct: Seq<char>) -> int
    decreases s.len(),
{
    if s.len() == 0 {
        -1
    } else if s[0].content_type == ct {
        0
    } else {
        let r = spec_first_ct(s.drop_first(), ct);
        if r < 0 {
            -1
        } else {
            r + 1
        }
    }
}

/// If an entry with the code stands at `i` and none stands earlier, then `i`
/// is the first index with that code.
pub proof fn lemma_first_code_found(s: Seq<ResponseEntryV>, code: u16, i: int)
    requires
        0 <= i < s.len(),
        s[i].code == code,
        forall|l: int| 0 <= l < i ==> (#[trigger] s[l]).code != code,
    ensures
        spec_first_code(s, code) == i,
    decreases i,
{
    if i > 0 {
        let rest = s.drop_first();
        assert(forall|l: int| 0 <= l < i - 1 ==> (#[trigger] rest[l]).code != code);
        lemma_first_code_found(rest, code, i - 1);
    }
}

/// If no entry has the code, the first index is -1.
pub proof fn lemma_first_code_none(s: Seq<ResponseEntryV>, code: u16)
    requires
        forall|l: int| 0 <= l < s.len() ==> (#[trigger] s[l]).code != code,
    ensures
        spec_first_code(s, code) == -1,
    decreases s.len(),
{
    if s.len() > 0 {
        lemma_first_code_none(s.drop_first(), code);
    }
}

/// If a content entry with the media type stands at `i` and none stands
/// earlier, then `i` is the first index with that media type.
pub proof fn lemma_first_ct_found(s: Seq<ContentEntryV>, ct: Seq<char>, i: int)
    requires
        0 <= i < s.len(),
        s[i].content_type == ct,
        forall|l: int| 0 <= l < i ==> (#[trigger] s[l]).content_type != ct,
    ensures
        spec_first_ct(s, ct) == i,
    decreases i,
{
    if i > 0 {
        let rest = s.drop_first();
        assert(forall|l: int| 0 <= l < i - 1 ==> (#[trigger] rest[l]).content_type != ct);
        lemma_first_ct_found(rest, ct, i - 1);
    }
}

/// If no content entry has the media type, the first index is -1.
pub proof fn lemma_first_ct_none(s: Seq<ContentEntryV>, ct: Seq<char>)
    requires
        forall|l: int| 0 <= l < s.len() ==> (#[trigger] s[l]).content_type != ct,
    ensures
        spec_first_ct(s, ct) == -1,
    decreases s.len(),
{
    if s.len() > 0 {
        lemma_first_ct_none(s.drop_first(), ct);
    }
}

/// A sequence with the element at `i` taken out, the last element standing
/// in its place: how an index map takes an entry out.
pub open spec fn spec_seq_swap_remove<A>(s: Seq<A>, i: int) -> Seq<A> {
    s.update(i, s.last()).drop_last()
}

/// The content rewrite that a `content` attribute causes inside the 200
/// entry: the media entry under `text/plain` moves under the new media type.
/// Its schema is kept; the `text/plain` key goes, the last entry stepping
/// into its place; the schema lands on the new key where it already exists,
/// and at the end of the list where it does not. Without a `text/plain`
/// entry nothing changes.
pub open spec fn spec_move_content(content: Seq<ContentEntryV>, new_ct: Seq<char>) -> Seq<
    ContentEntryV,
> {
    let j = spec_first_ct(content, "text/plain"@);
    if j < 0 {
        content
    } else {
        let moved = content[j].schema;
        let reduced = spec_seq_swap_remove(content, j);
        let l = spec_first_ct(reduced, new_ct);
        if l < 0 {
            reduced.push(ContentEntryV { content_type: new_ct, schema: moved })
        } else {
            reduced.update(
                l,
                ContentEntryV { content_type: reduced[l].content_type, schema: moved },
            )
        }
    }
}

/// Apply the content override to the map: the 200 entry's content is
/// rewritten; without a `content` attribute, or without a 200 entry, the map
/// is unchanged.
pub open spec fn spec_patch_content(s: Seq<ResponseEntryV>, content: Option<ContentKind>) -> Seq<
    ResponseEntryV,
> {
    match content {
        None => s,
        Some(kind) => {
            let i = spec_first_code(s, 200);
            if i < 0 {
                s
            } else {
                s.update(
                    i,
                    ResponseEntryV {
                        code: s[i].code,
                        response: ResponseObjectV {
                            description: s[i].response.description,
                            content: spec_move_content(
                                s[i].response.content,
                                spec_content_type(kind),
                            ),
                        },
                    },
                )
            }
        },
    }
}

/// Apply the description override to the map: the 200 entry's description
/// becomes the attribute text; without a `description` attribute, or without
/// a 200 entry, the map is unchanged.
pub open spec fn spec_patch_description(s: Seq<ResponseEntryV>, d: Option<Seq<char>>) -> Seq<
    ResponseEntryV,
> {
    match d {
        None => s,
        Some(text) => {
            let i = spec_first_code(s, 200);
            if i < 0 {
                s
            } else {
                s.update(
                    i,
                    ResponseEntryV {
                        code: s[i].code,
                        response: ResponseObjectV {
                            description: text,
                            content: s[i].response.content,
                        },
                    },
                )
            }
        },
    }
}

/// Apply the status override to the map: the 200 entry is taken out, the
/// last entry stepping into its place, and its response object is put back
/// under the configured code — over an entry already under that code where
/// one exists, at the end of the map where none does. Without a `status`
/// attribute, or without a 200 entry, the map is unchanged.
pub open spec fn spec_patch_status(s: Seq<ResponseEntryV>, st: Option<StatusKind>) -> Seq<
    ResponseEntryV,
> {
    match st {
        None => s,
        Some(kind) => {
            let i = spec_first_code(s, 200);
            if i < 0 {
                s
            } else {
                let moved = s[i].response;
                let reduced = spec_seq_swap_remove(s, i);
                let code = spec_status_code(kind);
                let l = spec_first_code(reduced, code);
                if l < 0 {
                    reduced.push(ResponseEntryV { code, response: moved })
                } else {
                    reduced.update(l, ResponseEntryV { code: reduced[l].code, response: moved })
                }
            }
        },
    }
}

/// The whole rewrite that the generated `describe_responses` makes before
/// sorting: content, then description, then status.
pub open spec fn spec_patch_core(
    s: Seq<ResponseEntryV>,
    content: Option<ContentKind>,
    d: Option<Seq<char>>,
    st: Option<StatusKind>,
) -> Seq<ResponseEntryV> {
    spec_patch_status(spec_patch_description(spec_patch_content(s, content), d), st)
}

/// The entries stand in ascending code order.
pub open spec fn spec_sorted_codes(s: Seq<ResponseEntryV>) -> bool {
    forall|i: int, j: int|
        0 <= i < j < s.len() ==> (#[trigger] s[i]).code <= (#[trigger] s[j]).code
}

/// The set of status codes of a map.
pub open spec fn spec_key_set(s: Seq<ResponseEntryV>) -> Set<u16> {
    Set::new(
        |c: u16| exists|i: int| 0 <= i < s.len() && (#[trigger] s[i]).code == c,
    )
}

/// The key set after the status rename: 200 becomes the configured code
/// where a status is configured and 200 is present; otherwise nothing moves.
pub open spec fn spec_renamed_key_set(keys: Set<u16>, st: Option<StatusKind>) -> Set<u16> {
    match st {
        None => keys,
        Some(kind) => if keys.contains(200) {
            keys.remove(200).insert(spec_status_code(kind))
        } else {
            keys
        },
    }
}

/// What the first index with a code means: -1 exactly when the code is
/// absent; otherwise a valid index of an entry with the code, with none
/// earlier.
pub proof fn lemma_first_code_props(s: Seq<ResponseEntryV>, code: u16)
    ensures
        spec_first_code(s, code) == -1 ==> forall|l: int|
            0 <= l < s.len() ==> (#[trigger] s[l]).code != code,
        spec_first_code(s, code) != -1 ==> 0 <= spec_first_code(s, code) < s.len() && s[spec_first_code(
            s,
            code,
        )].code == code && (forall|l: int|
            0 <= l < spec_first_code(s, code) ==> (#[trigger] s[l]).code != code),
    decreases s.len(),
{
    if s.len() > 0 && s[0].code != code {
        let rest = s.drop_first();
        lemma_first_code_props(rest, code);
        let r = spec_first_code(rest, code);
        if r == -1 {
            assert forall|l: int| 0 <= l < s.len() implies (#[trigger] s[l]).code != code by {
                if l > 0 {
                    assert(s[l] == rest[l - 1]);
                }
            }
        } else {
            assert(s[r + 1] == rest[r]);
            assert forall|l: int| 0 <= l < r + 1 implies (#[trigger] s[l]).code != code by {
                if l > 0 {
                    assert(s[l] == rest[l - 1]);
                }
            }
        }
    }
}

/// Two maps of the same length whose entries carry the same codes have the
/// same key set.
pub proof fn lemma_key_set_same_codes(a: Seq<ResponseEntryV>, b: Seq<ResponseEntryV>)
    requires
        a.len() == b.len(),
        forall|i: int| 0 <= i < a.len() ==> (#[trigger] a[i]).code == b[i].code,
    ensures
        spec_key_set(a) == spec_key_set(b),
{
    assert(spec_key_set(a) =~= spec_key_set(b)) by {
        assert forall|c: u16| spec_key_set(a).contains(c) implies spec_key_set(b).contains(
            c,
        ) by {
            let i = choose|i: int| 0 <= i < a.len() && (#[trigger] a[i]).code == c;
            assert(b[i].code == c);
        }
        assert forall|c: u16| spec_key_set(b).contains(c) implies spec_key_set(a).contains(
            c,
        ) by {
            let i = choose|i: int| 0 <= i < b.len() && (#[trigger] b[i]).code == c;
            assert(a[i].code == c);
        }
    }
}

/// Appending an entry adds exactly its code to the key set.
pub proof fn lemma_key_set_push(s: Seq<ResponseEntryV>, e: ResponseEntryV)
    ensures
        spec_key_set(s.push(e)) == spec_key_set(s).insert(e.code),
{
    assert(spec_key_set(s.push(e)) =~= spec_key_set(s).insert(e.code)) by {
        let t = s.push(e);
        assert(t[s.len() as int] == e);
        assert forall|c: u16| spec_key_set(t).contains(c) implies spec_key_set(s).insert(
            e.code,
        ).contains(c) by {
            let i = choose|i: int| 0 <= i < t.len() && (#[trigger] t[i]).code == c;
            if i < s.len() {
                assert(s[i].code == c);
            }
        }
        assert forall|c: u16| spec_key_set(s).insert(e.code).contains(c) implies spec_key_set(
            t,
        ).contains(c) by {
            if c == e.code {
                assert(t[s.len() as int].code == c);
            } else {
                let i = choose|i: int| 0 <= i < s.len() && (#[trigger] s[i]).code == c;
                assert(t[i].code == c);
            }
        }
    }
}

/// Taking an entry out of a map with unique codes removes exactly its code
/// from the key set.
pub proof fn lemma_key_set_swap_remove(s: Seq<ResponseEntryV>, i: int)
    requires
        spec_unique_codes(s),
        0 <= i < s.len(),
    ensures
        spec_key_set(spec_seq_swap_remove(s, i)) == spec_key_set(s).remove(s[i].code),
{
    let red = spec_seq_swap_remove(s, i);
    assert(red.len() == s.len() - 1);
    assert(spec_key_set(red) =~= spec_key_set(s).remove(s[i].code)) by {
        assert forall|c: u16| spec_key_set(red).contains(c) implies spec_key_set(s).remove(
            s[i].code,
        ).contains(c) by {
            let j = choose|j: int| 0 <= j < red.len() && (#[trigger] red[j]).code == c;
            if j == i {
                assert(red[j] == s[s.len() - 1]);
                assert(s[s.len() - 1].code == c);
            } else {
                assert(red[j] == s[j]);
            }
        }
        assert forall|c: u16| spec_key_set(s).remove(s[i].code).contains(c) implies spec_key_set(
            red,
        ).contains(c) by {
            let j = choose|j: int| 0 <= j < s.len() && (#[trigger] s[j]).code == c;
            if j == s.len() - 1 {
                assert(red[i] == s[s.len() - 1]);
                assert(red[i].code == c);
            } else {
                assert(red[j] == s[j]);
                assert(red[j].code == c);
            }
        }
    }
}

/// Two maps that hold the same entries, in whatever order, have the same
/// key set.
pub proof fn lemma_key_set_from_multiset(a: Seq<ResponseEntryV>, b: Seq<ResponseEntryV>)
    requires
        a.to_multiset() == b.to_multiset(),
    ensures
        spec_key_set(a) == spec_key_set(b),
{
    a.to_multiset_ensures();
    b.to_multiset_ensures();
    assert(spec_key_set(a) =~= spec_key_set(b)) by {
        assert forall|c: u16| spec_key_set(a).contains(c) implies spec_key_set(b).contains(
            c,
        ) by {
            let i = choose|i: int| 0 <= i < a.len() && (#[trigger] a[i]).code == c;
            let e = a[i];
            assert(a.contains(e));
            assert(b.to_multiset().count(e) > 0);
            assert(b.contains(e));
            let j = choose|j: int| 0 <= j < b.len() && b[j] == e;
            assert(b[j].code == c);
        }
        assert forall|c: u16| spec_key_set(b).contains(c) implies spec_key_set(a).contains(
            c,
        ) by {
            let i = choose|i: int| 0 <= i < b.len() && (#[trigger] b[i]).code == c;
            let e = b[i];
            assert(b.contains(e));
            assert(a.to_multiset().count(e) > 0);
            assert(a.contains(e));
            let j = choose|j: int| 0 <= j < a.len() && a[j] == e;
            assert(a[j].code == c);
        }
    }
}

/// The content step leaves every entry's code where it is.
pub proof fn lemma_patch_content_codes(s: Seq<ResponseEntryV>, content: Option<ContentKind>)
    ensures
        spec_patch_content(s, content).len() == s.len(),
        forall|i: int|
            0 <= i < s.len() ==> (#[trigger] spec_patch_content(s, content)[i]).code == s[i].code,
{
    match content {
        None => {},
        Some(kind) => {
            lemma_first_code_props(s, 200);
        },
    }
}

/// The description step leaves every entry's code where it is.
pub proof fn lemma_patch_description_codes(s: Seq<ResponseEntryV>, d: Option<Seq<char>>)
    ensures
        spec_patch_description(s, d).len() == s.len(),
        forall|i: int|
            0 <= i < s.len() ==> (#[trigger] spec_patch_description(s, d)[i]).code == s[i].code,
{
    match d {
        None => {},
        Some(text) => {
            lemma_first_code_props(s, 200);
        },
    }
}

/// The status step renames the key set: with a configured status and a 200
/// entry present, 200 goes and the configured code comes; otherwise the key
/// set stands.
pub proof fn lemma_patch_status_key_set(s: Seq<ResponseEntryV>, st: Option<StatusKind>)
    requires
        spec_unique_codes(s),
    ensures
        spec_key_set(spec_patch_status(s, st)) == spec_renamed_key_set(spec_key_set(s), st),
{
    match st {
        None => {},
        Some(kind) => {
            lemma_first_code_props(s, 200);
            let i = spec_first_code(s, 200);
            if i == -1 {
                assert(!spec_key_set(s).contains(200));
            } else {
                assert(spec_key_set(s).contains(200));
                let moved = s[i].response;
                let reduced = spec_seq_swap_remove(s, i);
                let code = spec_status_code(kind);
                let l = spec_first_code(reduced, code);
                lemma_first_code_props(reduced, code);
                lemma_key_set_swap_remove(s, i);
                if l == -1 {
                    lemma_key_set_push(reduced, ResponseEntryV { code, response: moved });
                } else {
                    let result = reduced.update(
                        l,
                        ResponseEntryV { code: reduced[l].code, response: moved },
                    );
                    assert(forall|j: int|
                        0 <= j < result.len() ==> (#[trigger] result[j]).code == reduced[j].code);
                    lemma_key_set_same_codes(result, reduced);
                    assert(spec_key_set(reduced).contains(code)) by {
                        assert(reduced[l].code == code);
                    }
                    assert(spec_key_set(reduced).insert(code) =~= spec_key_set(reduced));
                    assert(reduced[l].code == code);
                }
            }
        },
    }
}

/// Law: for every delegate map with unique codes and every resolved
/// attribute plan, the generated response map's key set equals the
/// delegate's key set, with 200 renamed to the configured status code where
/// a status is configured and a 200 entry exists, and unchanged otherwise.
pub proof fn lemma_generated_key_set(
    s: Seq<ResponseEntryV>,
    content: Option<ContentKind>,
    d: Option<Seq<char>>,
    st: Option<StatusKind>,
)
    requires
        spec_unique_codes(s),
    ensures
        spec_key_set(spec_patch_core(s, content, d, st)) == spec_renamed_key_set(
            spec_key_set(s),
            st,
        ),
{
    let s1 = spec_patch_content(s, content);
    let s2 = spec_patch_description(s1, d);
    lemma_patch_content_codes(s, content);
    lemma_patch_description_codes(s1, d);
    lemma_key_set_same_codes(s1, s);
    lemma_key_set_same_codes(s2, s1);
    assert(spec_unique_codes(s2)) by {
        assert(forall|i: int| 0 <= i < s.len() ==> (#[trigger] s2[i]).code == s[i].code);
    }
    lemma_patch_status_key_set(s2, st);
}

/// Find the first entry with the given status code.
pub fn find_code(entries: &Vec<ResponseEntry>, code: u16) -> (r: Option<usize>)
    ensures
        match r {
            Some(i) => i < entries@.len() && spec_first_code(spec_entries_view(entries@), code)
                == i as int,
            None => spec_first_code(spec_entries_view(entries@), code) == -1,
        },
{
    let ghost view = spec_entries_view(entries@);
    let n = entries.len();
    let mut i: usize = 0;
    while i < n
        invariant
            i <= n,
            n == entries@.len(),
            view == spec_entries_view(entries@),
            forall|l: int| 0 <= l < i ==> (#[trigger] view[l]).code != code,
        decreases n - i,
    {
        if entries[i].code == code {
            proof {
                lemma_first_code_found(view, code, i as int);
            }
            return Some(i);
        }
        i += 1;
    }
    proof {
        lemma_first_code_none(view, code);
    }
    None
}

/// Find the first content entry with the given media type.
pub fn find_content(list: &Vec<ContentEntry>, ct: &str) -> (r: Option<usize>)
    ensures
        match r {
            Some(i) => i < list@.len() && spec_first_ct(spec_content_view(list@), ct@) == i as int,
            None => spec_first_ct(spec_content_view(list@), ct@) == -1,
        },
{
    let ghost view = spec_content_view(list@);
    let n = list.len();
    let mut i: usize = 0;
    while i < n
        invariant
            i <= n,
            n == list@.len(),
            view == spec_content_view(list@),
            forall|l: int| 0 <= l < i ==> (#[trigger] view[l]).content_type != ct@,
        decreases n - i,
    {
        if str_is(&list[i].content_type, ct) {
            proof {
                lemma_first_ct_found(view, ct@, i as int);
            }
            return Some(i);
        }
        i += 1;
    }
    proof {
        lemma_first_ct_none(view, ct@);
    }
    None
}

/// Rewrite the 200 entry's content for a `content` attribute, as
/// `spec_patch_content` says.
pub fn patch_content(resp: Responses, content: Option<ContentKind>) -> (r: Responses)
    ensures
        r@ == spec_patch_content(resp@, content),
{
    let kind = match content {
        Some(k) => k,
        None => {
            return resp;
        },
    };
    let mut resp = resp;
    let ghost s0 = resp@;
    let idx = match find_code(&resp.entries, 200) {
        Some(i) => i,
        None => {
            return resp;
        },
    };
    let entry = resp.entries.remove(idx);
    proof {
        assert(entry@ == s0[idx as int]);
    }
    let ResponseEntry { code, response } = entry;
    let ResponseObject { description, content: mut list } = response;
    let ghost c0 = spec_content_view(list@);
    proof {
        assert(c0 == s0[idx as int].response.content);
    }
    let new_ct = content_type_of(kind);
    match find_content(&list, "text/plain") {
        Some(j) => {
            let removed = list.swap_remove(j);
            proof {
                assert(removed@ == c0[j as int]);
                assert(spec_content_view(list@) =~~= spec_seq_swap_remove(c0, j as int));
            }
            let ghost reduced = spec_content_view(list@);
            match find_content(&list, new_ct) {
                Some(l) => {
                    let old_entry = list.remove(l);
                    list.insert(
                        l,
                        ContentEntry { content_type: old_entry.content_type, schema: removed.schema },
                    );
                    proof {
                        assert(spec_content_view(list@) =~~= reduced.update(
                            l as int,
                            ContentEntryV {
                                content_type: reduced[l as int].content_type,
                                schema: removed@.schema,
                            },
                        ));
                    }
                },
                None => {
                    list.push(
                        ContentEntry { content_type: new_ct.to_owned(), schema: removed.schema },
                    );
                    proof {
                        assert(spec_content_view(list@) =~~= reduced.push(
                            ContentEntryV { content_type: new_ct@, schema: removed@.schema },
                        ));
                    }
                },
            }
            proof {
                assert(spec_content_view(list@) =~~= spec_move_content(c0, new_ct@));
            }
        },
        None => {
            proof {
                assert(spec_content_view(list@) =~~= spec_move_content(c0, new_ct@));
            }
        },
    }
    let rebuilt = ResponseEntry {
        code,
        response: ResponseObject { description, content: list },
    };
    proof {
        assert(rebuilt@ =~~= ResponseEntryV {
            code: s0[idx as int].code,
            response: ResponseObjectV {
                description: s0[idx as int].response.description,
                content: spec_move_content(c0, spec_content_type(kind)),
            },
        });
    }
    resp.entries.insert(idx, rebuilt);
    proof {
        assert(resp@ =~~= spec_patch_content(s0, content));
    }
    resp
}

/// Rewrite the 200 entry's description for a `description` attribute, as
/// `spec_patch_description` says.
pub fn patch_description(resp: Responses, d: &Option<String>) -> (r: Responses)
    ensures
        r@ == spec_patch_description(resp@, opt_str_view(*d)),
{
    let text = match d {
        Some(t) => t,
        None => {
            return resp;
        },
    };
    let mut resp = resp;
    let ghost s0 = resp@;
    let idx = match find_code(&resp.entries, 200) {
        Some(i) => i,
        None => {
            return resp;
        },
    };
    let entry = resp.entries.remove(idx);
    proof {
        assert(entry@ == s0[idx as int]);
    }
    let ResponseEntry { code, response } = entry;
    let ResponseObject { description: _, content } = response;
    let rebuilt = ResponseEntry {
        code,
        response: ResponseObject { description: text.clone(), content },
    };
    resp.entries.insert(idx, rebuilt);
    proof {
        assert(resp@ =~~= spec_patch_description(s0, opt_str_view(*d)));
    }
    resp
}

/// Move the 200 entry under the configured status code for a `status`
/// attribute, as `spec_patch_status` says.
pub fn patch_status(resp: Responses, st: Option<StatusKind>) -> (r: Responses)
    ensures
        r@ == spec_patch_status(resp@, st),
{
    let kind = match st {
        Some(k) => k,
        None => {
            return resp;
        },
    };
    let mut resp = resp;
    let ghost s0 = resp@;
    let idx = match find_code(&resp.entries, 200) {
        Some(i) => i,
        None => {
            return resp;
        },
    };
    let moved = resp.entries.swap_remove(idx);
    proof {
        assert(moved@ == s0[idx as int]);
        assert(resp@ =~~= spec_seq_swap_remove(s0, idx as int));
    }
    let ghost reduced = resp@;
    let code = status_code_of(kind);
    match find_code(&resp.entries, code) {
        Some(l) => {
            let old_entry = resp.entries.remove(l);
            resp.entries.insert(
                l,
                ResponseEntry { code: old_entry.code, response: moved.response },
            );
            proof {
                assert(resp@ =~~= reduced.update(
                    l as int,
                    ResponseEntryV { code: reduced[l as int].code, response: moved@.response },
                ));
            }
        },
        None => {
            resp.entries.push(ResponseEntry { code, response: moved.response });
            proof {
                assert(resp@ =~~= reduced.push(
                    ResponseEntryV { code, response: moved@.response },
                ));
            }
        },
    }
    proof {
        assert(resp@ =~~= spec_patch_status(s0, st));
    }
    resp
}

/// The index of an entry whose code is least.
fn min_code_index(v: &Vec<ResponseEntry>) -> (r: usize)
    requires
        v@.len() > 0,
    ensures
        r < v@.len(),
        forall|j: int|
            0 <= j < v@.len() ==> spec_entries_view(v@)[r as int].code <= (#[trigger] spec_entries_view(
                v@,
            )[j]).code,
{
    let ghost view = spec_entries_view(v@);
    let n = v.len();
    let mut best: usize = 0;
    let mut i: usize = 1;
    while i < n
        invariant
            1 <= i <= n,
            best < i,
            n == v@.len(),
            view == spec_entries_view(v@),
            forall|j: int| 0 <= j < i ==> view[best as int].code <= (#[trigger] view[j]).code,
        decreases n - i,
    {
        if v[i].code < v[best].code {
            best = i;
        }
        i += 1;
    }
    best
}

/// Sort the map by status code, ascending: the same entries, in code order.
pub fn sort_by_code(resp: Responses) -> (r: Responses)
    ensures
        spec_sorted_codes(r@),
        r@.to_multiset() == resp@.to_multiset(),
{
    broadcast use vstd::seq_lib::group_to_multiset_ensures;

    let ghost orig = resp@;
    let Responses { entries: mut rem } = resp;
    let mut out: Vec<ResponseEntry> = Vec::new();
    while rem.len() > 0
        invariant
            spec_sorted_codes(spec_entries_view(out@)),
            spec_entries_view(out@).to_multiset().add(spec_entries_view(rem@).to_multiset())
                =~= orig.to_multiset(),
            forall|a: int, b: int|
                0 <= a < out@.len() && 0 <= b < rem@.len() ==> (#[trigger] spec_entries_view(
                    out@,
                )[a]).code <= (#[trigger] spec_entries_view(rem@)[b]).code,
        decreases rem@.len(),
    {
        let ghost out0 = spec_entries_view(out@);
        let ghost rem0 = spec_entries_view(rem@);
        let m = min_code_index(&rem);
        let x = rem.remove(m);
        out.push(x);
        proof {
            out0.to_multiset_ensures();
            rem0.to_multiset_ensures();
            assert(x@ == rem0[m as int]);
            assert(spec_entries_view(out@) =~~= out0.push(x@));
            assert(spec_entries_view(rem@) =~~= rem0.remove(m as int));
            assert(out0.push(x@).to_multiset() =~= out0.to_multiset().insert(x@));
            assert(rem0.remove(m as int).to_multiset() =~= rem0.to_multiset().remove(x@));
            assert(rem0.to_multiset().count(x@) >= 1) by {
                assert(rem0.contains(x@));
            }
            assert(out0.to_multiset().insert(x@).add(rem0.to_multiset().remove(x@))
                =~= out0.to_multiset().add(rem0.to_multiset()));
        }
    }
    proof {
        assert(spec_entries_view(rem@).to_multiset() =~= Multiset::empty());
        assert(spec_entries_view(out@).to_multiset() =~= orig.to_multiset());
    }
    Responses { entries: out }
}

/// The whole rewrite that the generated `describe_responses` makes on the
/// delegate's map: content, then description, then status, then the sort.
/// The result holds exactly the entries of `spec_patch_core`, in ascending
/// code order.
pub fn patch_responses(resp: Responses, plan: &DerivePlan) -> (r: Responses)
    ensures
        spec_sorted_codes(r@),
        r@.to_multiset() == spec_patch_core(
            resp@,
            plan.content,
            opt_str_view(plan.description),
            plan.status,
        ).to_multiset(),
        spec_unique_codes(resp@) ==> spec_key_set(r@) == spec_renamed_key_set(
            spec_key_set(resp@),
            plan.status,
        ),
{
    let ghost s0 = resp@;
    let step1 = patch_content(resp, plan.content);
    let step2 = patch_description(step1, &plan.description);
    let step3 = patch_status(step2, plan.status);
    let sorted = sort_by_code(step3);
    proof {
        if spec_unique_codes(s0) {
            lemma_generated_key_set(
                s0,
                plan.content,
                opt_str_view(plan.description),
                plan.status,
            );
            lemma_key_set_from_multiset(
                sorted@,
                spec_patch_core(s0, plan.content, opt_str_view(plan.description), plan.status),
            );
        }
    }
    sorted
}

} // verus!
