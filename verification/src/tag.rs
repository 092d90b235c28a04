//! The documentation tags that the renderers consume.

use vstd::prelude::*;

verus! {

/// What a documentation tag is about.
#[derive(Clone, Copy, Debug, PartialEq, Eq, Structural)]
pub enum TagKind {
    /// Names the documented function.
    Function,
    /// Free text that describes the documented item.
    Description,
    /// The version that introduced the item.
    Since,
    /// One parameter of the documented function.
    Parameter,
    /// What the documented function returns.
    Return,
    /// Sample code, still carrying its comment prefixes.
    Example,
    /// A tag that the comment grammar has no rule for; its text is kept as written.
    Unknown,
    /// A tag that the comment grammar knows and that has no rendering.
    Other,
}

/// One documentation tag, as plain values.
#[derive(Clone, Debug)]
pub struct TagNode {
    pub kind: TagKind,
    /// The name that followed the `@` in the comment.
    pub tag_name: String,
    /// The function's name, on a function tag that gives one.
    pub name: Option<String>,
    /// The declared type, braces included, on a parameter or return tag that gives one.
    pub ty: Option<String>,
    /// The tag's free text: a description, a version, sample code, or whatever
    /// followed an unknown tag.
    pub text: String,
}

/// The mathematical value of a [`TagNode`].
pub ghost struct TagModel {
    pub kind: TagKind,
    pub tag_name: Seq<char>,
    pub name: Option<Seq<char>>,
    pub ty: Option<Seq<char>>,
    pub text: Seq<char>,
}

/// The characters of an optional string.
pub open spec fn opt_chars(s: Option<String>) -> Option<Seq<char>> {
    match s {
        Some(t) => Some(t@),
        None => None,
    }
}

impl View for TagNode {
    type V = TagModel;

    open spec fn view(&self) -> TagModel {
        TagModel {
            kind: self.kind,
            tag_name: self.tag_name@,
            name: opt_chars(self.name),
            ty: opt_chars(self.ty),
            text: self.text@,
        }
    }
}

/// The values of a list of tags, in order.
pub open spec fn tag_models(tags: Seq<TagNode>) -> Seq<TagModel> {
    tags.map_values(|t: TagNode| t@)
}

} // verus!
