use jsdoc_md::markdown::{build_markdown, render_tags};
use jsdoc_md::parser::{
    parse_category_tag, parse_description_tag, parse_example_tag, parse_function_tag,
    parse_param_tag, parse_param_tags, parse_return_tag, parse_since_tag, parse_tag, parse_tags,
    render_example, tag_label, MarkdownTag,
};
use jsdoc_md::tag::{TagKind, TagNode};

const PARAMS_HEADER: &str = "#### 参数\n|  名称   | 类型  | 描述  |\n|  ----  | ----  | ----  |\n";
const RETURN_HEADER: &str = "#### 返回值\n| 类型  | 描述  |\n| ----  | ----  |\n";

fn tag(kind: TagKind, tag_name: &str, name: Option<&str>, ty: Option<&str>, text: &str) -> TagNode {
    TagNode {
        kind,
        tag_name: tag_name.to_string(),
        name: name.map(|s| s.to_string()),
        ty: ty.map(|s| s.to_string()),
        text: text.to_string(),
    }
}

fn param(ty: Option<&str>, desc: &str) -> TagNode {
    tag(TagKind::Parameter, "param", None, ty, desc)
}

fn piece(kind: &str, value: &str) -> MarkdownTag {
    MarkdownTag { kind: kind.to_string(), value: value.to_string() }
}

#[test]
fn function_with_name_is_a_heading() {
    assert_eq!(parse_function_tag(&Some("foo".to_string())), "# foo\n");
}

#[test]
fn function_without_name_is_empty() {
    assert_eq!(parse_function_tag(&None), "");
}

#[test]
fn description_is_one_line() {
    assert_eq!(parse_description_tag("does X"), "does X\n");
}

#[test]
fn since_shows_version_as_code() {
    assert_eq!(parse_since_tag("1.2.0"), "#### 引入版本\n`1.2.0`\n");
}

#[test]
fn category_shows_text_as_written() {
    assert_eq!(parse_category_tag("Array"), "#### 分类\nArray\n");
}

#[test]
fn return_with_type_is_a_table() {
    assert_eq!(
        parse_return_tag(&Some("{number}".to_string()), "the result"),
        format!("{}|  number  | the result  |\n", RETURN_HEADER)
    );
}

#[test]
fn return_without_type_is_empty() {
    assert_eq!(parse_return_tag(&None, "the result"), "");
}

#[test]
fn return_type_loses_every_brace() {
    assert_eq!(
        parse_return_tag(&Some("{{a: number}}".to_string()), ""),
        format!("{}|  a: number  |   |\n", RETURN_HEADER)
    );
}

#[test]
fn example_lines_are_found_in_order() {
    assert_eq!(
        parse_example_tag("* doSomething(1)\n* doSomething(2)\n"),
        "#### 示例\n```ts\n  doSomething(1)\n  doSomething(2)\n\n```"
    );
}

#[test]
fn example_drops_lines_without_prefix() {
    assert_eq!(
        parse_example_tag("<caption>x</caption>\n * let a = 1;\nplain\n * a + 1\n"),
        "#### 示例\n```ts\n  let a = 1;\n  a + 1\n\n```"
    );
}

#[test]
fn example_drops_last_line_without_line_feed() {
    assert_eq!(parse_example_tag("* one\n* two"), "#### 示例\n```ts\n  one\n\n```");
}

#[test]
fn example_without_lines_is_an_empty_block() {
    assert_eq!(parse_example_tag(""), "#### 示例\n```ts\n\n```");
}

#[test]
fn render_example_indents_each_line() {
    let lines = vec!["a".to_string(), "".to_string(), "b".to_string()];
    assert_eq!(render_example(&lines), "#### 示例\n```ts\n  a\n  \n  b\n\n```");
}

#[test]
fn param_row_splits_name_and_detail() {
    assert_eq!(
        parse_param_tag(&param(Some("{number}"), "x the input")),
        "|  x  |  number  | the input  |"
    );
}

#[test]
fn param_row_with_one_token_has_no_detail() {
    assert_eq!(parse_param_tag(&param(Some("{string}"), "name")), "|  name  |  string  |   |");
}

#[test]
fn param_row_skips_the_whole_run_of_blanks() {
    assert_eq!(
        parse_param_tag(&param(Some("T"), "x \t  the  input")),
        "|  x  |  T  | the  input  |"
    );
}

#[test]
fn param_row_with_leading_blank_has_empty_name() {
    assert_eq!(parse_param_tag(&param(Some("T"), " x y")), "|    |  T  | x y  |");
}

#[test]
fn param_row_of_empty_description() {
    assert_eq!(parse_param_tag(&param(Some("T"), "")), "|    |  T  |   |");
}

#[test]
fn param_without_type_has_no_row() {
    assert_eq!(parse_param_tag(&param(None, "x the input")), "");
}

#[test]
fn params_table_without_tags_is_the_header() {
    let table = parse_param_tags(&vec![]);
    assert_eq!(table.kind, "parameters");
    assert_eq!(table.value, PARAMS_HEADER);
}

#[test]
fn params_table_keeps_typed_rows_in_order() {
    let tags = vec![
        param(Some("{number}"), "a first"),
        param(None, "b dropped"),
        tag(TagKind::Description, "description", None, None, "between"),
        param(Some("{string}"), "c third"),
        param(Some("{boolean}"), "d"),
    ];
    let table = parse_param_tags(&tags);
    assert_eq!(
        table.value,
        format!(
            "{}|  a  |  number  | first  |\n|  c  |  string  | third  |\n|  d  |  boolean  |   |\n",
            PARAMS_HEADER
        )
    );
    assert_eq!(table.value.lines().count(), 3 + 3);
}

#[test]
fn params_table_of_untyped_tags_has_no_rows() {
    let tags = vec![param(None, "a"), param(None, "b")];
    assert_eq!(parse_param_tags(&tags).value, PARAMS_HEADER);
}

#[test]
fn tag_of_a_placed_kind_carries_the_label_of_its_place() {
    let got = parse_tag(&tag(TagKind::Return, "return", None, Some("{number}"), "n"));
    assert_eq!(got.kind, "returns");
    assert_eq!(got.value, format!("{}|  number  | n  |\n", RETURN_HEADER));
    assert_eq!(parse_tag(&tag(TagKind::Function, "method", Some("f"), None, "")).kind, "function");
    assert_eq!(parse_tag(&tag(TagKind::Description, "desc", None, None, "d")).kind, "description");
    assert_eq!(parse_tag(&tag(TagKind::Since, "since", None, None, "1")).kind, "since");
    assert_eq!(parse_tag(&tag(TagKind::Example, "example", None, None, "")).kind, "example");
    assert_eq!(tag_label(&tag(TagKind::Other, "see", None, None, "")), "see");
}

#[test]
fn unknown_tag_named_category_is_rendered() {
    let got = parse_tag(&tag(TagKind::Unknown, "category", None, None, "Array"));
    assert_eq!(got.kind, "category");
    assert_eq!(got.value, "#### 分类\nArray\n");
}

#[test]
fn unknown_tag_of_other_name_is_empty() {
    let got = parse_tag(&tag(TagKind::Unknown, "custom", None, None, "text"));
    assert_eq!(got.kind, "custom");
    assert_eq!(got.value, "");
}

#[test]
fn known_tag_without_rendering_is_empty() {
    let got = parse_tag(&tag(TagKind::Other, "category", None, None, "text"));
    assert_eq!(got.kind, "category");
    assert_eq!(got.value, "");
}

#[test]
fn parameter_tag_alone_is_empty() {
    let got = parse_tag(&param(Some("{number}"), "x the input"));
    assert_eq!(got.kind, "param");
    assert_eq!(got.value, "");
}

#[test]
fn each_kind_renders_by_its_rule() {
    assert_eq!(parse_tag(&tag(TagKind::Function, "function", Some("f"), None, "")).value, "# f\n");
    assert_eq!(
        parse_tag(&tag(TagKind::Description, "description", None, None, "d")).value,
        "d\n"
    );
    assert_eq!(
        parse_tag(&tag(TagKind::Since, "since", None, None, "2.0")).value,
        "#### 引入版本\n`2.0`\n"
    );
    assert_eq!(
        parse_tag(&tag(TagKind::Example, "example", None, None, "* f()\n")).value,
        "#### 示例\n```ts\n  f()\n\n```"
    );
}

#[test]
fn tags_without_any_tag_give_the_parameters_header() {
    let pieces = parse_tags(&vec![]);
    assert_eq!(pieces.len(), 1);
    assert_eq!(pieces[0].kind, "parameters");
    assert_eq!(pieces[0].value, PARAMS_HEADER);
    assert_eq!(render_tags(&vec![]), format!("{}\n", PARAMS_HEADER));
}

#[test]
fn tags_put_the_parameters_table_last() {
    let tags = vec![
        param(Some("{number}"), "x the input"),
        tag(TagKind::Function, "function", Some("foo"), None, ""),
        param(Some("{number}"), "y other"),
        tag(TagKind::Unknown, "custom", None, None, "zzz"),
    ];
    let pieces = parse_tags(&tags);
    let labels: Vec<&str> = pieces.iter().map(|p| p.kind.as_str()).collect();
    assert_eq!(labels, vec!["function", "custom", "parameters"]);
    assert_eq!(pieces[0].value, "# foo\n");
    assert_eq!(pieces[1].value, "");
    assert_eq!(
        pieces[2].value,
        format!("{}|  x  |  number  | the input  |\n|  y  |  number  | other  |\n", PARAMS_HEADER)
    );
}

#[test]
fn document_follows_the_canonical_order() {
    let pieces = vec![
        piece("example", "E"),
        piece("custom", "U1"),
        piece("returns", "R"),
        piece("parameters", "P"),
        piece("category", "C"),
        piece("other", "U2"),
        piece("since", "S"),
        piece("description", "D"),
        piece("function", "F"),
    ];
    assert_eq!(build_markdown(pieces), "F\nD\nS\nC\nP\nR\nE\nU1\nU2\n");
}

#[test]
fn document_takes_only_the_first_of_a_label() {
    let pieces = vec![
        piece("description", "D1"),
        piece("custom", "U"),
        piece("description", "D2"),
        piece("function", "F"),
    ];
    assert_eq!(build_markdown(pieces), "F\nD1\nU\nD2\n");
}

#[test]
fn document_of_nothing_is_empty() {
    assert_eq!(build_markdown(vec![]), "");
}

#[test]
fn document_keeps_empty_pieces_as_blank_lines() {
    let pieces = vec![piece("custom", ""), piece("function", "# f\n")];
    assert_eq!(build_markdown(pieces), "# f\n\n\n");
}

#[test]
fn page_of_function_description_param_return() {
    let tags = vec![
        tag(TagKind::Function, "function", Some("foo"), None, ""),
        tag(TagKind::Description, "description", None, None, "does X"),
        param(Some("number"), "x the input"),
        tag(TagKind::Return, "returns", None, Some("number"), "the result"),
    ];
    let expected = format!(
        "# foo\n\ndoes X\n\n{}|  x  |  number  | the input  |\n\n{}|  number  | the result  |\n\n",
        PARAMS_HEADER, RETURN_HEADER
    );
    assert_eq!(render_tags(&tags), expected);
}

#[test]
fn page_with_untyped_return_has_no_returns_text() {
    let tags = vec![
        tag(TagKind::Function, "function", Some("foo"), None, ""),
        tag(TagKind::Return, "returns", None, None, "the result"),
    ];
    let got = render_tags(&tags);
    assert!(!got.contains("返回值"));
    assert!(!got.contains("the result"));
    assert_eq!(got, format!("# foo\n\n{}\n\n", PARAMS_HEADER));
}

#[test]
fn page_with_example_has_both_lines_in_order() {
    let tags = vec![tag(
        TagKind::Example,
        "example",
        None,
        None,
        "* doSomething(1)\n* doSomething(2)\n",
    )];
    let got = render_tags(&tags);
    assert_eq!(
        got,
        format!("{}\n#### 示例\n```ts\n  doSomething(1)\n  doSomething(2)\n\n```\n", PARAMS_HEADER)
    );
}

#[test]
fn rendering_twice_gives_the_same_bytes() {
    let tags = vec![
        tag(TagKind::Since, "since", None, None, "1.0"),
        param(Some("{number}"), "x the input"),
        tag(TagKind::Example, "example", None, None, "* f(1)\n"),
    ];
    let first = render_tags(&tags);
    let second = render_tags(&tags);
    assert_eq!(first.as_bytes(), second.as_bytes());
}

#[test]
fn tags_beyond_ascii_render_as_written() {
    let tags = vec![
        tag(TagKind::Function, "function", Some("求和"), None, ""),
        tag(TagKind::Description, "description", None, None, "把两个数相加"),
        param(Some("{number}"), "a 第一个数"),
        tag(TagKind::Return, "returns", None, Some("{number}"), "和"),
        tag(TagKind::Example, "example", None, None, "* 求和(1, 2)\n"),
    ];
    let expected = format!(
        "# 求和\n\n把两个数相加\n\n{}|  a  |  number  | 第一个数  |\n\n{}|  number  | 和  |\n\n#### 示例\n```ts\n  求和(1, 2)\n\n```\n",
        PARAMS_HEADER, RETURN_HEADER
    );
    assert_eq!(render_tags(&tags), expected);
}

#[test]
fn tag_written_with_another_name_keeps_its_place() {
    let tags = vec![
        tag(TagKind::Example, "example", None, None, "* f()\n"),
        tag(TagKind::Return, "return", None, Some("{number}"), "n"),
        tag(TagKind::Function, "func", Some("f"), None, ""),
    ];
    let expected = format!(
        "# f\n\n{}\n{}|  number  | n  |\n\n#### 示例\n```ts\n  f()\n\n```\n",
        PARAMS_HEADER, RETURN_HEADER
    );
    assert_eq!(render_tags(&tags), expected);
}
