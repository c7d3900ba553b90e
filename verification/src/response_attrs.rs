//! The derive attribute grammar: `key = "value"` pairs under `#[response(...)]`
//! with the four known keys `description`, `content`, `status` and `error`.

use vstd::prelude::*;

use crate::content_type::{content_kind_of_value, spec_content_kind, ContentKind};
use crate::status_code::{spec_status_kind, status_kind_of_value, StatusKind};
use crate::strutil::{clone_opt_str, opt_str_view, str_is};

verus! {

/// One `key = "value"` pair from the attribute list.
#[derive(Clone, Debug)]
pub struct AttrPair {
    pub key: String,
    pub value: String,
}

/// The four optional attributes, as the parser collects them.
#[derive(Clone, Debug)]
pub struct ResponseAttrs {
    pub description: Option<String>,
    pub content: Option<String>,
    pub status: Option<String>,
    pub error: Option<String>,
}

/// The failures that the derive reports at expansion time, each carrying the
/// offending text.
#[derive(Clone, Debug, PartialEq, Eq)]
pub enum MacroError {
    UnknownKey(String),
    UnknownContent(String),
}

/// True of the keys the attribute grammar knows.
pub open spec fn spec_known_key(k: Seq<char>) -> bool {
    k == "description"@ || k == "content"@ || k == "status"@ || k == "error"@
}

/// The value of the last pair with the given key, if any: a later pair
/// overwrites an earlier one.
pub open spec fn spec_last_value(pairs: Seq<AttrPair>, key: Seq<char>) -> Option<Seq<char>>
    decreases pairs.len(),
{
    if pairs.len() == 0 {
        None
    } else if pairs.last().key@ == key {
        Some(pairs.last().value@)
    } else {
        spec_last_value(pairs.drop_last(), key)
    }
}

/// The four known keys are pairwise different.
pub proof fn lemma_known_keys_distinct()
    ensures
        "description"@ != "content"@,
        "description"@ != "status"@,
        "description"@ != "error"@,
        "content"@ != "status"@,
        "content"@ != "error"@,
        "status"@ != "error"@,
{
    reveal_strlit("description");
    reveal_strlit("content");
    reveal_strlit("status");
    reveal_strlit("error");
    assert("description"@.len() == 11);
    assert("content"@.len() == 7);
    assert("status"@.len() == 6);
    assert("error"@.len() == 5);
}

/// Parse the attribute pairs in order. Each known key keeps the value of its
/// last pair; the first unknown key is an error, as the derive rejects it.
pub fn parse_response_attrs(pairs: &Vec<AttrPair>) -> (res: Result<ResponseAttrs, MacroError>)
    ensures
        match res {
            Ok(a) => {
                &&& forall|l: int|
                    0 <= l < pairs@.len() ==> spec_known_key(#[trigger] pairs@[l].key@)
                &&& opt_str_view(a.description) == spec_last_value(pairs@, "description"@)
                &&& opt_str_view(a.content) == spec_last_value(pairs@, "content"@)
                &&& opt_str_view(a.status) == spec_last_value(pairs@, "status"@)
                &&& opt_str_view(a.error) == spec_last_value(pairs@, "error"@)
            },
            Err(e) => match e {
                MacroError::UnknownKey(k) => exists|j: int|
                    0 <= j < pairs@.len() && !spec_known_key(#[trigger] pairs@[j].key@) && k@
                        == pairs@[j].key@ && (forall|l: int|
                        0 <= l < j ==> spec_known_key(#[trigger] pairs@[l].key@)),
                MacroError::UnknownContent(_) => false,
            },
        },
{
    let ghost all = pairs@;
    let mut description: Option<String> = None;
    let mut content: Option<String> = None;
    let mut status: Option<String> = None;
    let mut error: Option<String> = None;
    let mut i: usize = 0;
    while i < pairs.len()
        invariant
            i <= all.len(),
            all == pairs@,
            forall|l: int| 0 <= l < i ==> spec_known_key(#[trigger] all[l].key@),
            opt_str_view(description) == spec_last_value(all.take(i as int), "description"@),
            opt_str_view(content) == spec_last_value(all.take(i as int), "content"@),
            opt_str_view(status) == spec_last_value(all.take(i as int), "status"@),
            opt_str_view(error) == spec_last_value(all.take(i as int), "error"@),
        decreases all.len() - i,
    {
        let p = &pairs[i];
        proof {
            lemma_known_keys_distinct();
            assert(all.take(i as int + 1).drop_last() =~= all.take(i as int));
            assert(all.take(i as int + 1).last() == all[i as int]);
        }
        if str_is(&p.key, "description") {
            description = Some(p.value.clone());
        } else if str_is(&p.key, "content") {
            content = Some(p.value.clone());
        } else if str_is(&p.key, "status") {
            status = Some(p.value.clone());
        } else if str_is(&p.key, "error") {
            error = Some(p.value.clone());
        } else {
            proof {
                assert(!spec_known_key(all[i as int].key@));
            }
            return Err(MacroError::UnknownKey(p.key.clone()));
        }
        i += 1;
    }
    proof {
        assert(all.take(all.len() as int) =~= all);
    }
    Ok(ResponseAttrs { description, content, status, error })
}

/// What the generated code will do: the resolved description, content kind,
/// status kind and error type text.
#[derive(Clone, Debug)]
pub struct DerivePlan {
    pub description: Option<String>,
    pub content: Option<ContentKind>,
    pub status: Option<StatusKind>,
    pub error: Option<String>,
}

/// The content kind that parsed attributes select, when their value is valid.
pub open spec fn spec_plan_content(c: Option<Seq<char>>) -> Option<ContentKind> {
    match c {
        Some(v) => spec_content_kind(v),
        None => None,
    }
}

/// The status kind that parsed attributes select; an unsupported value
/// selects nothing.
pub open spec fn spec_plan_status(s: Option<Seq<char>>) -> Option<StatusKind> {
    match s {
        Some(v) => spec_status_kind(v),
        None => None,
    }
}

/// Resolve parsed attributes into a plan. A `content` value outside
/// {html, css, js} is an error; a `status` value outside
/// {OK, 200, CREATED, 201} is silently ignored, as the derive ignores it.
pub fn derive_plan_of(attrs: &ResponseAttrs) -> (res: Result<DerivePlan, MacroError>)
    ensures
        match res {
            Ok(p) => {
                &&& !(opt_str_view(attrs.content) matches Some(v) && spec_content_kind(v)
                    == None::<ContentKind>)
                &&& p.content == spec_plan_content(opt_str_view(attrs.content))
                &&& p.status == spec_plan_status(opt_str_view(attrs.status))
                &&& opt_str_view(p.description) == opt_str_view(attrs.description)
                &&& opt_str_view(p.error) == opt_str_view(attrs.error)
            },
            Err(e) => match e {
                MacroError::UnknownContent(v) => {
                    &&& opt_str_view(attrs.content) == Some(v@)
                    &&& spec_content_kind(v@) == None::<ContentKind>
                },
                MacroError::UnknownKey(_) => false,
            },
        },
{
    let content: Option<ContentKind> = match &attrs.content {
        Some(v) => match content_kind_of_value(v) {
            Some(k) => Some(k),
            None => {
                return Err(MacroError::UnknownContent(v.clone()));
            },
        },
        None => None,
    };
    let status: Option<StatusKind> = match &attrs.status {
        Some(v) => status_kind_of_value(v),
        None => None,
    };
    Ok(
        DerivePlan {
            description: clone_opt_str(&attrs.description),
            content,
            status,
            error: clone_opt_str(&attrs.error),
        },
    )
}

} // verus!
