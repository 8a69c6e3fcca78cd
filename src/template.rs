//! Summary templates: the records shown to the user, and the rule for
//! identifiers of user-made templates.

use vstd::prelude::*;
use crate::chars::{chars_of, string_of};

verus! {

/// One section of a template, in full.
#[derive(Debug)]
pub struct TemplateSectionInfo {
    pub title: String,
    pub instruction: String,
    pub format: String,
    pub item_format: Option<String>,
    pub example_item_format: Option<String>,
}

/// What a template list shows of a template.
#[derive(Debug)]
pub struct TemplateInfo {
    pub id: String,
    pub name: String,
    pub description: String,
    pub is_custom: bool,
}

/// A template with its sections, for preview and editing.
#[derive(Debug)]
pub struct TemplateDetails {
    pub id: String,
    pub name: String,
    pub description: String,
    pub is_custom: bool,
    pub sections: Vec<TemplateSectionInfo>,
}

/// Characters allowed in a template identifier: `a-z`, `0-9` and `_`.
pub open spec fn is_id_char(c: char) -> bool {
    ('a' <= c && c <= 'z') || ('0' <= c && c <= '9') || c == '_'
}

/// The allowed characters of `s`, in order.
pub open spec fn id_chars(s: Seq<char>) -> Seq<char>
    decreases s.len(),
{
    if s.len() == 0 {
        seq![]
    } else if is_id_char(s.last()) {
        id_chars(s.drop_last()).push(s.last())
    } else {
        id_chars(s.drop_last())
    }
}

/// Message for an identifier without any allowed character.
pub open spec fn empty_id_message() -> Seq<char> {
    "Template ID must contain at least one valid character (a-z, 0-9, _)"@
}

/// Message for an identifier with other characters, suggesting `suggested`.
pub open spec fn invalid_id_message(suggested: Seq<char>) -> Seq<char> {
    "Template ID contains invalid characters. Only lowercase letters, digits, and underscores are allowed. Suggested: '"@
        + suggested + "'"@
}

/// Accept a template identifier made only of `a-z`, `0-9` and `_` (and not
/// empty); otherwise explain, suggesting the identifier with the other
/// characters removed.
pub fn sanitize_template_id(id: &str) -> (r: Result<String, String>)
    ensures
        id_chars(id@).len() == 0 ==> (r matches Err(m) && m@ == empty_id_message()),
        id_chars(id@).len() > 0 && id_chars(id@) != id@ ==> (r matches Err(m) && m@
            == invalid_id_message(id_chars(id@))),
        id_chars(id@).len() > 0 && id_chars(id@) == id@ ==> (r matches Ok(s) && s@ == id@),
{
    let cs = chars_of(id);
    let mut kept: Vec<char> = Vec::new();
    let mut i: usize = 0;
    while i < cs.len()
        invariant
            i <= cs@.len(),
            cs@ == id@,
            kept@ == id_chars(cs@.subrange(0, i as int)),
        decreases cs@.len() - i,
    {
        let c = cs[i];
        if ('a' <= c && c <= 'z') || ('0' <= c && c <= '9') || c == '_' {
            kept.push(c);
        }
        assert(cs@.subrange(0, i + 1).drop_last() =~= cs@.subrange(0, i as int));
        i = i + 1;
    }
    assert(cs@.subrange(0, cs@.len() as int) =~= cs@);
    let sanitized = string_of(kept.as_slice());
    if kept.len() == 0 {
        return Err(String::from_str("Template ID must contain at least one valid character (a-z, 0-9, _)"));
    }
    if !(sanitized == String::from_str(id)) {
        let msg = String::from_str(
            "Template ID contains invalid characters. Only lowercase letters, digits, and underscores are allowed. Suggested: '",
        ).concat(sanitized.as_str()).concat("'");
        return Err(msg);
    }
    Ok(sanitized)
}

} // verus!
