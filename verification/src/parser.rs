//! Rendering of single tags, and of a file's parameter tags as one table.

use vstd::prelude::*;
use crate::capture::{capture_first_groups, first_groups};
use crate::tag::{tag_models, TagKind, TagModel, TagNode};
use crate::text::{
    blank_end, chars_of, find_blank_end, find_word_end, push_range, push_without_braces,
    without_braces, word_end,
};

verus! {

/// One rendered piece of a document: a label that places it, and its Markdown.
#[derive(Debug, Clone)]
pub struct MarkdownTag {
    pub kind: String,
    pub value: String,
}

/// The mathematical value of a [`MarkdownTag`].
pub ghost struct Fragment {
    pub kind: Seq<char>,
    pub value: Seq<char>,
}

impl View for MarkdownTag {
    type V = Fragment;

    open spec fn view(&self) -> Fragment {
        Fragment { kind: self.kind@, value: self.value@ }
    }
}

/// The values of a list of rendered pieces, in order.
pub open spec fn fragments_of(tags: Seq<MarkdownTag>) -> Seq<Fragment> {
    tags.map_values(|t: MarkdownTag| t@)
}

/// The label of the parameters table.
pub open spec fn params_label() -> Seq<char> {
    "parameters"@
}

/// The heading and the header rows of the parameters table.
pub open spec fn params_header() -> Seq<char> {
    "#### 参数\n|  名称   | 类型  | 描述  |\n|  ----  | ----  | ----  |\n"@
}

/// The pattern that finds the code lines of an example: an asterisk, a space,
/// the line's content, a line feed.
pub open spec fn example_pattern() -> Seq<char> {
    "\\* (.*)\\n"@
}

/// A first-level heading with the function's name, or nothing without a name.
pub open spec fn function_text(name: Option<Seq<char>>) -> Seq<char> {
    match name {
        Some(n) => "# "@ + n + "\n"@,
        None => Seq::empty(),
    }
}

/// The description as one paragraph line.
pub open spec fn description_text(text: Seq<char>) -> Seq<char> {
    text + "\n"@
}

/// The version section: a heading, then the version as inline code.
pub open spec fn since_text(version: Seq<char>) -> Seq<char> {
    "#### 引入版本\n`"@ + version + "`\n"@
}

/// The category section: a heading, then the category as written.
pub open spec fn category_text(extras: Seq<char>) -> Seq<char> {
    "#### 分类\n"@ + extras + "\n"@
}

/// The returns section: a heading and a table of one row, or nothing where no
/// type is declared, whatever the description says.
pub open spec fn return_text(ty: Option<Seq<char>>, description: Seq<char>) -> Seq<char> {
    match ty {
        Some(t) => "#### 返回值\n| 类型  | 描述  |\n| ----  | ----  |\n|  "@ + without_braces(t)
            + "  | "@ + description + "  |\n"@,
        None => Seq::empty(),
    }
}

/// Each code line indented by two spaces and ended by a line feed.
pub open spec fn code_lines(lines: Seq<Seq<char>>) -> Seq<char>
    decreases lines.len(),
{
    if lines.len() == 0 {
        Seq::empty()
    } else {
        code_lines(lines.drop_last()) + "  "@ + lines.last() + "\n"@
    }
}

/// The example section: a heading, then the code lines in a fenced block.
pub open spec fn example_block(lines: Seq<Seq<char>>) -> Seq<char> {
    "#### 示例\n```ts\n"@ + code_lines(lines) + "\n```"@
}

/// The code lines of an example's raw text: what followed `* ` on each line
/// that the pattern matched; none where the engine refuses the pattern.
pub open spec fn example_lines(text: Seq<char>) -> Seq<Seq<char>> {
    match first_groups(example_pattern(), text) {
        Some(lines) => lines,
        None => Seq::empty(),
    }
}

/// The parameter's name: the description up to its first blank.
pub open spec fn param_name(desc: Seq<char>) -> Seq<char> {
    desc.subrange(0, word_end(desc, 0))
}

/// What the description says of the parameter: all that follows the run of
/// blanks after the name.
pub open spec fn param_detail(desc: Seq<char>) -> Seq<char> {
    desc.subrange(blank_end(desc, word_end(desc, 0)), desc.len() as int)
}

/// One row of the parameters table, without its line feed.
pub open spec fn param_row(ty: Seq<char>, desc: Seq<char>) -> Seq<char> {
    "|  "@ + param_name(desc) + "  |  "@ + without_braces(ty) + "  | "@ + param_detail(desc)
        + "  |"@
}

/// What a single parameter tag renders to: its row, or nothing without a type.
pub open spec fn param_text(tag: TagModel) -> Seq<char> {
    match tag.ty {
        Some(t) => param_row(t, tag.text),
        None => Seq::empty(),
    }
}

/// A parameter tag that declares a type: the only tags that get a row.
pub open spec fn is_typed_param(tag: TagModel) -> bool {
    tag.kind == TagKind::Parameter && tag.ty is Some
}

/// The parameter tags with a declared type among `tags`, in their order.
pub open spec fn typed_params(tags: Seq<TagModel>) -> Seq<TagModel> {
    tags.filter(|t: TagModel| is_typed_param(t))
}

/// The rows of the given tags, one for each, in their order.
pub open spec fn param_rows(params: Seq<TagModel>) -> Seq<Seq<char>> {
    params.map_values(|t: TagModel| param_text(t))
}

/// The given rows, each ended by a line feed.
pub open spec fn row_lines(rows: Seq<Seq<char>>) -> Seq<char>
    decreases rows.len(),
{
    if rows.len() == 0 {
        Seq::empty()
    } else {
        row_lines(rows.drop_last()) + rows.last() + "\n"@
    }
}

/// The parameters table of a file: the header, then one row for each
/// parameter tag with a declared type, in the tags' order.
pub open spec fn params_text(tags: Seq<TagModel>) -> Seq<char> {
    params_header() + row_lines(param_rows(typed_params(tags)))
}

/// The parameters table as a labelled piece.
pub open spec fn params_fragment(tags: Seq<TagModel>) -> Fragment {
    Fragment { kind: params_label(), value: params_text(tags) }
}

/// The Markdown of a tag that is rendered by itself.
pub open spec fn tag_text(tag: TagModel) -> Seq<char> {
    match tag.kind {
        TagKind::Function => function_text(tag.name),
        TagKind::Description => description_text(tag.text),
        TagKind::Since => since_text(tag.text),
        TagKind::Return => return_text(tag.ty, tag.text),
        TagKind::Example => example_block(example_lines(tag.text)),
        TagKind::Unknown => if tag.tag_name == "category"@ {
            category_text(tag.text)
        } else {
            Seq::empty()
        },
        TagKind::Parameter => Seq::empty(),
        TagKind::Other => Seq::empty(),
    }
}

/// The label of the piece that a single tag renders to. A tag of a kind with
/// a place of its own in the document carries the label of that place,
/// whichever of the kind's names the comment used; any other tag carries the
/// name it was written with.
pub open spec fn label_of(tag: TagModel) -> Seq<char> {
    match tag.kind {
        TagKind::Function => "function"@,
        TagKind::Description => "description"@,
        TagKind::Since => "since"@,
        TagKind::Return => "returns"@,
        TagKind::Example => "example"@,
        TagKind::Unknown => tag.tag_name,
        TagKind::Parameter => tag.tag_name,
        TagKind::Other => tag.tag_name,
    }
}

/// The piece that a single tag renders to.
pub open spec fn classify(tag: TagModel) -> Fragment {
    Fragment { kind: label_of(tag), value: tag_text(tag) }
}

/// A tag that is rendered by itself: any but a parameter tag.
pub open spec fn is_single(tag: TagModel) -> bool {
    tag.kind != TagKind::Parameter
}

/// The pieces of a file: one for each tag that is no parameter tag, in the
/// tags' order, then the parameters table.
pub open spec fn file_fragments(tags: Seq<TagModel>) -> Seq<Fragment> {
    tags.filter(|t: TagModel| is_single(t)).map_values(|t: TagModel| classify(t)).push(
        params_fragment(tags),
    )
}

/// Renders a function tag's name.
pub fn parse_function_tag(name: &Option<String>) -> (md: String)
    ensures
        md@ == function_text(crate::tag::opt_chars(*name)),
{
    match name {
        Some(n) => {
            let mut md = String::from_str("# ");
            md.append(n.as_str());
            md.append("\n");
            md
        },
        None => String::new(),
    }
}

/// Renders a description tag's text.
pub fn parse_description_tag(text: &str) -> (md: String)
    ensures
        md@ == description_text(text@),
{
    let mut md = String::from_str(text);
    md.append("\n");
    md
}

/// Renders a since tag's version.
pub fn parse_since_tag(version: &str) -> (md: String)
    ensures
        md@ == since_text(version@),
{
    let mut md = String::from_str("#### 引入版本\n`");
    md.append(version);
    md.append("`\n");
    md
}

/// Renders the text of a tag named `category`.
pub fn parse_category_tag(extras: &str) -> (md: String)
    ensures
        md@ == category_text(extras@),
{
    let mut md = String::from_str("#### 分类\n");
    md.append(extras);
    md.append("\n");
    md
}

/// Renders a return tag.
pub fn parse_return_tag(ty: &Option<String>, description: &str) -> (md: String)
    ensures
        md@ == return_text(crate::tag::opt_chars(*ty), description@),
{
    match ty {
        Some(t) => {
            let mut md = String::from_str("#### 返回值\n| 类型  | 描述  |\n| ----  | ----  |\n|  ");
            push_without_braces(&mut md, t.as_str());
            md.append("  | ");
            md.append(description);
            md.append("  |\n");
            md
        },
        None => String::new(),
    }
}

/// Renders code lines as the example section.
pub fn render_example(lines: &Vec<String>) -> (md: String)
    ensures
        md@ == example_block(lines.deep_view()),
{
    let mut md = String::from_str("#### 示例\n```ts\n");
    let mut i: usize = 0;
    assert(lines.deep_view().take(0) =~= Seq::<Seq<char>>::empty());
    assert(md@ =~= "#### 示例\n```ts\n"@ + code_lines(lines.deep_view().take(0)));
    while i < lines.len()
        invariant
            i <= lines.len(),
            md@ == "#### 示例\n```ts\n"@ + code_lines(lines.deep_view().take(i as int)),
        decreases lines.len() - i,
    {
        md.append("  ");
        md.append(lines[i].as_str());
        md.append("\n");
        proof {
            let all = lines.deep_view();
            assert(all.take(i + 1).drop_last() =~= all.take(i as int));
            assert(all.take(i + 1).last() == lines[i as int]@);
            assert(md@ =~= "#### 示例\n```ts\n"@ + code_lines(all.take(i + 1)));
        }
        i += 1;
    }
    assert(lines.deep_view().take(i as int) =~= lines.deep_view());
    md.append("\n```");
    md
}

/// Renders an example tag's raw text: its code lines, found by the pattern,
/// in a fenced block.
pub fn parse_example_tag(text: &str) -> (md: String)
    ensures
        md@ == example_block(example_lines(text@)),
{
    match capture_first_groups("\\* (.*)\\n", text) {
        Some(lines) => render_example(&lines),
        None => render_example(&Vec::new()),
    }
}

/// Renders one parameter tag as its table row: the name is the description up
/// to its first blank, the rest of the description follows the blanks after
/// it. A tag without a declared type renders to nothing.
pub fn parse_param_tag(param: &TagNode) -> (row: String)
    ensures
        row@ == param_text(param@),
{
    match &param.ty {
        Some(t) => {
            let desc = chars_of(param.text.as_str());
            let name_end = find_word_end(&desc, 0);
            let detail_start = find_blank_end(&desc, name_end);
            let mut row = String::from_str("|  ");
            push_range(&mut row, &desc, 0, name_end);
            row.append("  |  ");
            push_without_braces(&mut row, t.as_str());
            row.append("  | ");
            push_range(&mut row, &desc, detail_start, desc.len());
            row.append("  |");
            row
        },
        None => String::new(),
    }
}

/// Pushing a row adds that row and a line feed to the text.
proof fn lemma_row_lines_push(rows: Seq<Seq<char>>, row: Seq<char>)
    ensures
        row_lines(rows.push(row)) == row_lines(rows) + row + "\n"@,
{
    assert(rows.push(row).drop_last() =~= rows);
}

/// One more tag adds a row exactly when it is a parameter tag with a type.
proof fn lemma_typed_params_push(tags: Seq<TagModel>, tag: TagModel)
    ensures
        typed_params(tags.push(tag)) == if is_typed_param(tag) {
            typed_params(tags).push(tag)
        } else {
            typed_params(tags)
        },
{
    reveal(Seq::filter);
    assert(tags.push(tag).drop_last() =~= tags);
}

/// Renders the parameter tags among `tags` as one table: the header, then a
/// row for each of them that declares a type, in the order of `tags`.
pub fn parse_param_tags(tags: &Vec<TagNode>) -> (table: MarkdownTag)
    ensures
        table@ == params_fragment(tag_models(tags@)),
{
    let mut output = String::from_str(
        "#### 参数\n|  名称   | 类型  | 描述  |\n|  ----  | ----  | ----  |\n",
    );
    let ghost all = tag_models(tags@);
    let mut i: usize = 0;
    proof {
        reveal(Seq::filter);
        assert(typed_params(all.take(0)) =~= Seq::<TagModel>::empty());
        assert(param_rows(typed_params(all.take(0))) =~= Seq::<Seq<char>>::empty());
        assert(output@ =~= params_text(all.take(0)));
    }
    while i < tags.len()
        invariant
            i <= tags.len(),
            all == tag_models(tags@),
            output@ == params_text(all.take(i as int)),
        decreases tags.len() - i,
    {
        let tag = &tags[i];
        proof {
            assert(all.take(i + 1) =~= all.take(i as int).push(tag@));
            lemma_typed_params_push(all.take(i as int), tag@);
        }
        match tag.kind {
            TagKind::Parameter => {
                if tag.ty.is_some() {
                    let row = parse_param_tag(tag);
                    output.append(row.as_str());
                    output.append("\n");
                    proof {
                        let before = typed_params(all.take(i as int));
                        assert(param_rows(before.push(tag@)) =~= param_rows(before).push(
                            param_text(tag@),
                        ));
                        lemma_row_lines_push(param_rows(before), param_text(tag@));
                        assert(output@ =~= params_text(all.take(i + 1)));
                    }
                }
            },
            _ => {},
        }
        i += 1;
    }
    assert(all.take(i as int) =~= all);
    MarkdownTag { kind: String::from_str("parameters"), value: output }
}

/// The label of the piece that a single tag renders to.
pub fn tag_label(tag: &TagNode) -> (label: String)
    ensures
        label@ == label_of(tag@),
{
    match tag.kind {
        TagKind::Function => String::from_str("function"),
        TagKind::Description => String::from_str("description"),
        TagKind::Since => String::from_str("since"),
        TagKind::Return => String::from_str("returns"),
        TagKind::Example => String::from_str("example"),
        TagKind::Unknown => tag.tag_name.clone(),
        TagKind::Parameter => tag.tag_name.clone(),
        TagKind::Other => tag.tag_name.clone(),
    }
}

/// Renders one tag by itself. Of the tags that the comment grammar does not
/// know, only one named `category` has a rendering; a parameter tag has none
/// of its own. Such tags give a piece without text, under their own name.
pub fn parse_tag(tag: &TagNode) -> (piece: MarkdownTag)
    ensures
        piece@ == classify(tag@),
{
    let value = match tag.kind {
        TagKind::Function => parse_function_tag(&tag.name),
        TagKind::Description => parse_description_tag(tag.text.as_str()),
        TagKind::Since => parse_since_tag(tag.text.as_str()),
        TagKind::Return => parse_return_tag(&tag.ty, tag.text.as_str()),
        TagKind::Example => parse_example_tag(tag.text.as_str()),
        TagKind::Unknown => {
            let category = String::from_str("category");
            if tag.tag_name == category {
                parse_category_tag(tag.text.as_str())
            } else {
                String::new()
            }
        },
        TagKind::Parameter => String::new(),
        TagKind::Other => String::new(),
    };
    MarkdownTag { kind: tag_label(tag), value }
}

/// One more tag adds a piece exactly when it is no parameter tag.
proof fn lemma_singles_push(tags: Seq<TagModel>, tag: TagModel)
    ensures
        tags.push(tag).filter(|t: TagModel| is_single(t)) == if is_single(tag) {
            tags.filter(|t: TagModel| is_single(t)).push(tag)
        } else {
            tags.filter(|t: TagModel| is_single(t))
        },
{
    reveal(Seq::filter);
    assert(tags.push(tag).drop_last() =~= tags);
}

/// Renders the tags of one file: each tag that is no parameter tag by itself,
/// in the tags' order, and after them the parameters table, which is there
/// even without a parameter tag.
pub fn parse_tags(tags: &Vec<TagNode>) -> (pieces: Vec<MarkdownTag>)
    ensures
        fragments_of(pieces@) == file_fragments(tag_models(tags@)),
{
    let mut parsed_tags: Vec<MarkdownTag> = Vec::new();
    let ghost all = tag_models(tags@);
    let ghost single = |t: TagModel| is_single(t);
    let ghost render = |t: TagModel| classify(t);
    let mut i: usize = 0;
    proof {
        reveal(Seq::filter);
        assert(fragments_of(parsed_tags@) =~= all.take(0).filter(single).map_values(render));
    }
    while i < tags.len()
        invariant
            i <= tags.len(),
            all == tag_models(tags@),
            single == |t: TagModel| is_single(t),
            render == |t: TagModel| classify(t),
            fragments_of(parsed_tags@) == all.take(i as int).filter(single).map_values(render),
        decreases tags.len() - i,
    {
        let tag = &tags[i];
        proof {
            assert(all.take(i + 1) =~= all.take(i as int).push(tag@));
            lemma_singles_push(all.take(i as int), tag@);
        }
        match tag.kind {
            TagKind::Parameter => {},
            _ => {
                let ghost before = parsed_tags@;
                let piece = parse_tag(tag);
                parsed_tags.push(piece);
                assert(fragments_of(parsed_tags@) =~= fragments_of(before).push(piece@));
                assert(fragments_of(parsed_tags@) =~= all.take(i + 1).filter(single).map_values(
                    render,
                ));
            },
        }
        i += 1;
    }
    assert(all.take(i as int) =~= all);
    let ghost before = parsed_tags@;
    let table = parse_param_tags(tags);
    parsed_tags.push(table);
    assert(fragments_of(parsed_tags@) =~= fragments_of(before).push(table@));
    parsed_tags
}

/// The rows of the parameters table. The table has as many rows as there are
/// parameter tags with a declared type, and its row at place `k` is the row
/// of the tag at place `k` among them. A tag that is no parameter tag with a
/// declared type adds no row, wherever it stands among the others.
pub proof fn params_table_rows(tags: Seq<TagModel>, at: int, other: TagModel)
    requires
        0 <= at <= tags.len(),
        !is_typed_param(other),
    ensures
        param_rows(typed_params(tags)).len() == typed_params(tags).len(),
        forall|k: int|
            0 <= k < typed_params(tags).len() ==> {
                &&& is_typed_param(#[trigger] typed_params(tags)[k])
                &&& param_rows(typed_params(tags))[k] == param_row(
                    typed_params(tags)[k].ty->0,
                    typed_params(tags)[k].text,
                )
            },
        typed_params(tags.insert(at, other)) == typed_params(tags),
        params_text(tags.insert(at, other)) == params_text(tags),
{
    let typed = |t: TagModel| is_typed_param(t);
    assert forall|k: int| 0 <= k < typed_params(tags).len() implies is_typed_param(
        #[trigger] typed_params(tags)[k],
    ) by {
        tags.lemma_filter_pred(typed, k);
    }
    let head = tags.subrange(0, at);
    let tail = tags.subrange(at, tags.len() as int);
    let one = seq![other];
    assert(tags =~= head + tail);
    assert(tags.insert(at, other) =~= head + one + tail);
    Seq::filter_distributes_over_add(head, tail, typed);
    Seq::filter_distributes_over_add(head + one, tail, typed);
    Seq::filter_distributes_over_add(head, one, typed);
    assert(one.filter(typed) =~= Seq::<TagModel>::empty()) by {
        reveal_with_fuel(Seq::filter, 2);
    }
    assert(head.filter(typed) + Seq::<TagModel>::empty() =~= head.filter(typed));
}

/// The order of the rows is the order of the tags: the table of two lists of
/// tags, one after the other, holds the rows of the first list and then the
/// rows of the second.
pub proof fn params_table_order(first: Seq<TagModel>, second: Seq<TagModel>)
    ensures
        param_rows(typed_params(first + second)) == param_rows(typed_params(first)) + param_rows(
            typed_params(second),
        ),
{
    Seq::filter_distributes_over_add(first, second, |t: TagModel| is_typed_param(t));
    assert(param_rows(typed_params(first) + typed_params(second)) =~= param_rows(
        typed_params(first),
    ) + param_rows(typed_params(second)));
}

} // verus!
