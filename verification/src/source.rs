//! From the text of a documentation comment to its tags, by the `jsdoc` crate.

use vstd::prelude::*;
use vstd::utf8::is_ascii_chars;
use crate::markdown::{document_text, render_tags};
use crate::parser::file_fragments;
use crate::tag::{opt_chars, tag_models, TagKind, TagModel, TagNode};

verus! {

/// A parsed documentation comment of the `jsdoc` crate. Its inside is not
/// visible here; `doc_tags` stands for the tags it holds.
#[verifier::external_type_specification]
#[verifier::external_body]
pub struct ExJsDoc(jsdoc::ast::JsDoc);

/// The tags that `jsdoc::parse` finds in a comment with the given text, in
/// the order of the text; `None` where it reports an error.
pub uninterp spec fn parsed_tags(source: Seq<char>) -> Option<Seq<TagModel>>;

/// The tags that a parsed comment holds, in order, each as plain values: the
/// kind that its variant stands for, the name written after the `@`, and the
/// fields that the renderers read.
pub uninterp spec fn doc_tags(doc: jsdoc::ast::JsDoc) -> Seq<TagModel>;

/// Why a source text has no document.
#[derive(Clone, Copy, Debug, PartialEq, Eq, Structural)]
pub enum SourceError {
    /// The text holds a character beyond ASCII. The comment parser cuts its
    /// input one byte after the character that ends a word, which is inside
    /// that character where it takes more than one byte; such text is not
    /// handed to it.
    NonAscii,
    /// The comment parser reported an error.
    Syntax,
}

/// Calls `jsdoc::parse` on `source`, with the positions `BytePos::DUMMY` and
/// `BytePos::SYNTHESIZED`, and keeps the comment it returns. Claimed, not
/// proved: on ASCII text the parser returns, and what it returns depends on
/// the text alone; `parsed_tags` names the tags of that outcome.
#[verifier::external_body]
fn parse_comment(source: &str) -> (parsed: Option<jsdoc::ast::JsDoc>)
    requires
        is_ascii_chars(source@),
    ensures
        match parsed {
            Some(doc) => parsed_tags(source@) == Some(doc_tags(doc)),
            None => parsed_tags(source@) is None,
        },
{
    let input = jsdoc::Input::new(
        swc_common::BytePos::DUMMY,
        swc_common::BytePos::SYNTHESIZED,
        source,
    );
    match jsdoc::parse(input) {
        Ok((_, doc)) => Some(doc),
        Err(_) => None,
    }
}

/// The length of the field `tags` of a parsed comment.
#[verifier::external_body]
fn tag_count(doc: &jsdoc::ast::JsDoc) -> (count: usize)
    ensures
        count == doc_tags(*doc).len(),
{
    doc.tags.len()
}

/// Which variant of `jsdoc::ast::Tag` the tag at `at` is: one of the seven
/// that have a kind of their own here, or any other.
#[verifier::external_body]
fn tag_kind_at(doc: &jsdoc::ast::JsDoc, at: usize) -> (kind: TagKind)
    requires
        at < doc_tags(*doc).len(),
    ensures
        kind == doc_tags(*doc)[at as int].kind,
{
    match &doc.tags[at].tag {
        jsdoc::ast::Tag::Function(_) => TagKind::Function,
        jsdoc::ast::Tag::Description(_) => TagKind::Description,
        jsdoc::ast::Tag::Since(_) => TagKind::Since,
        jsdoc::ast::Tag::Parameter(_) => TagKind::Parameter,
        jsdoc::ast::Tag::Return(_) => TagKind::Return,
        jsdoc::ast::Tag::Example(_) => TagKind::Example,
        jsdoc::ast::Tag::Unknown(_) => TagKind::Unknown,
        _ => TagKind::Other,
    }
}

/// The field `tag_name` of the tag at `at`: the word after the `@`.
#[verifier::external_body]
fn tag_name_at(doc: &jsdoc::ast::JsDoc, at: usize) -> (name: String)
    requires
        at < doc_tags(*doc).len(),
    ensures
        name@ == doc_tags(*doc)[at as int].tag_name,
{
    doc.tags[at].tag_name.value.to_string()
}

/// The field `name` of a function tag at `at`; `None` for any other tag.
#[verifier::external_body]
fn function_name_at(doc: &jsdoc::ast::JsDoc, at: usize) -> (name: Option<String>)
    requires
        at < doc_tags(*doc).len(),
    ensures
        opt_chars(name) == doc_tags(*doc)[at as int].name,
{
    match &doc.tags[at].tag {
        jsdoc::ast::Tag::Function(t) => t.name.as_ref().map(|n| n.value.to_string()),
        _ => None,
    }
}

/// The field `ty` of a parameter or return tag at `at`; `None` for any other
/// tag.
#[verifier::external_body]
fn tag_type_at(doc: &jsdoc::ast::JsDoc, at: usize) -> (ty: Option<String>)
    requires
        at < doc_tags(*doc).len(),
    ensures
        opt_chars(ty) == doc_tags(*doc)[at as int].ty,
{
    match &doc.tags[at].tag {
        jsdoc::ast::Tag::Parameter(t) => t.ty.as_ref().map(|n| n.value.to_string()),
        jsdoc::ast::Tag::Return(t) => t.ty.as_ref().map(|n| n.value.to_string()),
        _ => None,
    }
}

/// The free text of the tag at `at`: the field `text` of a description or
/// example tag, `version` of a since tag, `desc` of a parameter tag,
/// `description` of a return tag, `extras` of an unknown tag; empty for any
/// other tag.
#[verifier::external_body]
fn tag_text_at(doc: &jsdoc::ast::JsDoc, at: usize) -> (text: String)
    requires
        at < doc_tags(*doc).len(),
    ensures
        text@ == doc_tags(*doc)[at as int].text,
{
    match &doc.tags[at].tag {
        jsdoc::ast::Tag::Description(t) => t.text.value.to_string(),
        jsdoc::ast::Tag::Example(t) => t.text.value.to_string(),
        jsdoc::ast::Tag::Since(t) => t.version.value.to_string(),
        jsdoc::ast::Tag::Parameter(t) => t.desc.value.to_string(),
        jsdoc::ast::Tag::Return(t) => t.description.value.to_string(),
        jsdoc::ast::Tag::Unknown(t) => t.extras.value.to_string(),
        _ => String::new(),
    }
}

/// The tags of a parsed comment as values of this library.
fn collect_tags(doc: &jsdoc::ast::JsDoc) -> (tags: Vec<TagNode>)
    ensures
        tag_models(tags@) == doc_tags(*doc),
{
    let count = tag_count(doc);
    let mut tags: Vec<TagNode> = Vec::new();
    let mut i: usize = 0;
    assert(tag_models(tags@) =~= doc_tags(*doc).take(0));
    while i < count
        invariant
            i <= count,
            count == doc_tags(*doc).len(),
            tag_models(tags@) == doc_tags(*doc).take(i as int),
        decreases count - i,
    {
        let tag = TagNode {
            kind: tag_kind_at(doc, i),
            tag_name: tag_name_at(doc, i),
            name: function_name_at(doc, i),
            ty: tag_type_at(doc, i),
            text: tag_text_at(doc, i),
        };
        let ghost before = tags@;
        let ghost model = tag@;
        assert(model == doc_tags(*doc)[i as int]);
        tags.push(tag);
        i += 1;
        assert(tag_models(tags@) =~= tag_models(before).push(model));
        assert(tag_models(tags@) =~= doc_tags(*doc).take(i as int));
    }
    assert(doc_tags(*doc).take(i as int) =~= doc_tags(*doc));
    tags
}

/// The tags of a source text, or the reason why there are none.
pub open spec fn source_tags(source: Seq<char>) -> Result<Seq<TagModel>, SourceError> {
    if !is_ascii_chars(source) {
        Err(SourceError::NonAscii)
    } else {
        match parsed_tags(source) {
            Some(tags) => Ok(tags),
            None => Err(SourceError::Syntax),
        }
    }
}

/// The document of a source text: its tags rendered and assembled.
pub open spec fn source_document(source: Seq<char>) -> Result<Seq<char>, SourceError> {
    match source_tags(source) {
        Ok(tags) => Ok(document_text(file_fragments(tags))),
        Err(e) => Err(e),
    }
}

/// Parses the text of a documentation comment into its tags. Text with a
/// character beyond ASCII is refused; so is text in which the comment parser
/// finds an error.
pub fn read_tags(source: &str) -> (found: Result<Vec<TagNode>, SourceError>)
    ensures
        match found {
            Ok(tags) => source_tags(source@) == Ok::<Seq<TagModel>, SourceError>(
                tag_models(tags@),
            ),
            Err(e) => source_tags(source@) == Err::<Seq<TagModel>, SourceError>(e),
        },
{
    if !source.is_ascii() {
        return Err(SourceError::NonAscii);
    }
    match parse_comment(source) {
        Some(doc) => Ok(collect_tags(&doc)),
        None => Err(SourceError::Syntax),
    }
}

/// Renders the text of a documentation comment as its document, or says why
/// it has none.
pub fn render_source(source: &str) -> (rendered: Result<String, SourceError>)
    ensures
        match rendered {
            Ok(markdown) => source_document(source@) == Ok::<Seq<char>, SourceError>(markdown@),
            Err(e) => source_document(source@) == Err::<Seq<char>, SourceError>(e),
        },
{
    match read_tags(source) {
        Ok(tags) => Ok(render_tags(&tags)),
        Err(e) => Err(e),
    }
}

} // verus!
