use jsdoc_md::source::{read_tags, render_source, SourceError};
use jsdoc_md::tag::TagKind;
use jsdoc_md::task::process;
use jsdoc_md::utils::{output_path, search_pattern};

const COMMENT: &str = "*\n * @function foo\n * @description does X\n * @param {number} x the input\n * @returns {number} the result\n * @since 1.2.0\n * @category Math\n * @see other\n * @example\n * foo(1)\n * foo(2)\n";

#[test]
fn read_tags_finds_each_tag() {
    let tags = read_tags(COMMENT).unwrap();
    let kinds: Vec<TagKind> = tags.iter().map(|t| t.kind).collect();
    assert_eq!(
        kinds,
        vec![
            TagKind::Function,
            TagKind::Description,
            TagKind::Parameter,
            TagKind::Return,
            TagKind::Since,
            TagKind::Unknown,
            TagKind::Other,
            TagKind::Example,
        ]
    );
    let names: Vec<&str> = tags.iter().map(|t| t.tag_name.as_str()).collect();
    assert_eq!(
        names,
        vec!["function", "description", "param", "returns", "since", "category", "see", "example"]
    );
    assert_eq!(tags[0].name.as_deref(), Some("foo"));
    assert_eq!(tags[1].name, None);
    assert_eq!(tags[1].text, "does X");
    assert_eq!(tags[2].ty.as_deref(), Some("{number}"));
    assert_eq!(tags[2].text, "x the input");
    assert_eq!(tags[3].ty.as_deref(), Some("{number}"));
    assert_eq!(tags[3].text, "the result");
    assert_eq!(tags[4].ty, None);
    assert_eq!(tags[4].text, "1.2.0");
    assert_eq!(tags[5].text, "Math");
    assert_eq!(tags[6].text, "");
    assert_eq!(tags[7].text, "* foo(1)\n * foo(2)\n");
}

#[test]
fn read_tags_of_text_without_tags_is_empty() {
    assert_eq!(read_tags("just words\n").unwrap().len(), 0);
    assert_eq!(read_tags("").unwrap().len(), 0);
}

#[test]
fn read_tags_refuses_text_beyond_ascii() {
    assert_eq!(read_tags("* @description 描述\n").unwrap_err(), SourceError::NonAscii);
}

#[test]
fn read_tags_reports_a_parser_error() {
    assert_eq!(read_tags("* @access nobody\n").unwrap_err(), SourceError::Syntax);
}

#[test]
fn render_source_gives_the_document() {
    let expected = "# foo\n\ndoes X\n\n#### 引入版本\n`1.2.0`\n\n#### 分类\nMath\n\n#### 参数\n|  名称   | 类型  | 描述  |\n|  ----  | ----  | ----  |\n|  x  |  number  | the input  |\n\n#### 返回值\n| 类型  | 描述  |\n| ----  | ----  |\n|  number  | the result  |\n\n#### 示例\n```ts\n  foo(1)\n  foo(2)\n\n```\n\n";
    assert_eq!(render_source(COMMENT).unwrap(), expected);
}

#[test]
fn render_source_twice_is_the_same() {
    assert_eq!(render_source(COMMENT).unwrap().as_bytes(), render_source(COMMENT).unwrap().as_bytes());
}

#[test]
fn render_source_without_tags_has_the_parameters_header() {
    assert_eq!(
        render_source("").unwrap(),
        "#### 参数\n|  名称   | 类型  | 描述  |\n|  ----  | ----  | ----  |\n\n"
    );
}

#[test]
fn render_source_passes_errors_on() {
    assert_eq!(render_source("* @since 版本\n").unwrap_err(), SourceError::NonAscii);
    assert_eq!(render_source("* @kind nothing\n").unwrap_err(), SourceError::Syntax);
}

#[test]
fn search_pattern_joins_directory_and_extension() {
    assert_eq!(search_pattern("src", "js"), "src/**/*.js");
    assert_eq!(search_pattern("", ""), "/**/*.");
}

#[test]
fn output_path_moves_and_renames() {
    assert_eq!(output_path("src/a/b.js", "src", "docs"), "docs/a/b.md");
    assert_eq!(output_path("src/b.js", "src", "docs"), "docs/b.md");
}

#[test]
fn output_path_replaces_the_prefix_only() {
    assert_eq!(output_path("src/src/b.js", "src", "docs"), "docs/src/b.md");
}

#[test]
fn output_path_replaces_the_last_extension_only() {
    assert_eq!(output_path("src/a.test.js", "src", "out"), "out/a.test.md");
}

#[test]
fn output_path_keeps_names_without_extension() {
    assert_eq!(output_path("src/Makefile", "src", "out"), "out/Makefile.md");
    assert_eq!(output_path("src/.hidden", "src", "out"), "out/.hidden.md");
    assert_eq!(output_path("src/.hidden.js", "src", "out"), "out/.hidden.md");
}

#[test]
fn output_path_without_directory_goes_under_output_dir() {
    assert_eq!(output_path("b.js", "src", "docs"), "docs/b.md");
}

#[test]
fn output_path_outside_input_dir_stays_in_place() {
    assert_eq!(output_path("lib/x/b.js", "src", "docs"), "lib/x/b.md");
}

#[test]
fn output_path_ignores_dots_in_directories() {
    assert_eq!(output_path("src/v1.2/readme", "src", "docs"), "docs/v1.2/readme.md");
}

#[test]
fn process_pairs_document_and_path() {
    let unit = process("src/math/add.js", "* @function add\n * @since 0.1.0\n", "src", "docs").unwrap();
    assert_eq!(unit.path, "docs/math/add.md");
    assert_eq!(
        unit.document,
        "# add\n\n#### 引入版本\n`0.1.0`\n\n#### 参数\n|  名称   | 类型  | 描述  |\n|  ----  | ----  | ----  |\n\n"
    );
}

#[test]
fn process_twice_gives_the_same_unit() {
    let first = process("src/a.js", COMMENT, "src", "docs").unwrap();
    let second = process("src/a.js", COMMENT, "src", "docs").unwrap();
    assert_eq!(first.path.as_bytes(), second.path.as_bytes());
    assert_eq!(first.document.as_bytes(), second.document.as_bytes());
}

#[test]
fn process_reports_why_there_is_no_document() {
    assert_eq!(process("src/a.js", "* @param 名称\n", "src", "docs").unwrap_err(), SourceError::NonAscii);
    assert_eq!(process("src/a.js", "* @borrows a b\n", "src", "docs").unwrap_err(), SourceError::Syntax);
}

#[test]
fn read_tags_keeps_the_name_as_written() {
    let tags = read_tags("* @func f\n* @desc d\n* @return {T} r\n* @arg {T} a it\n").unwrap();
    let names: Vec<&str> = tags.iter().map(|t| t.tag_name.as_str()).collect();
    assert_eq!(names, vec!["func", "desc", "return", "arg"]);
    let kinds: Vec<TagKind> = tags.iter().map(|t| t.kind).collect();
    assert_eq!(
        kinds,
        vec![TagKind::Function, TagKind::Description, TagKind::Return, TagKind::Parameter]
    );
}

#[test]
fn read_tags_without_type_or_name() {
    let tags = read_tags("* @function \n* @param \n").unwrap();
    assert_eq!(tags.len(), 2);
    assert_eq!(tags[0].kind, TagKind::Function);
    assert_eq!(tags[0].name, None);
    assert_eq!(tags[1].kind, TagKind::Parameter);
    assert_eq!(tags[1].ty, None);
    assert_eq!(tags[1].text, "");
    assert_eq!(
        render_source("* @function \n* @param \n").unwrap(),
        "\n#### 参数\n|  名称   | 类型  | 描述  |\n|  ----  | ----  | ----  |\n\n"
    );
}

#[test]
fn read_tags_returns_on_generated_ascii_text() {
    let pieces = [
        "@abstract", "@access", "@alias", "@augments", "@author", "@borrows", "@callback",
        "@class", "@classdesc", "@const", "@constructs", "@copyright", "@default",
        "@deprecated", "@description", "@enum", "@event", "@example", "@exports", "@external",
        "@file", "@fires", "@function", "@generator", "@implements", "@interface", "@kind",
        "@lends", "@license", "@listens", "@member", "@memberof", "@memberof!", "@mixes",
        "@mixin", "@module", "@name", "@namespace", "@package", "@param", "@private",
        "@property", "@protected", "@requires", "@returns", "@see", "@since", "@summary",
        "@this", "@throws", "@todo", "@tutorial", "@type", "@typedef", "@variation",
        "@version", "@yields", "@custom", "@", " ", "  ", "\n", "\r", "\r\n", "\t", "*", "* ",
        "{", "}", "{number}", ".", "as", " as ", "private", "class", "x", "a.b", "<T>", "-", "1",
        "the input", "~", "\u{7f}", "\0",
    ];
    let mut state: u64 = 0x2545_f491_4f6c_dd1d;
    let mut texts = 0;
    while texts < 20000 {
        let mut text = String::new();
        state = state.wrapping_mul(6364136223846793005).wrapping_add(1442695040888963407);
        let count = (state >> 33) % 10;
        let mut k = 0;
        while k < count {
            state = state.wrapping_mul(6364136223846793005).wrapping_add(1442695040888963407);
            text.push_str(pieces[((state >> 33) % pieces.len() as u64) as usize]);
            k += 1;
        }
        assert!(text.is_ascii());
        match read_tags(&text) {
            Ok(_) => {}
            Err(e) => assert_eq!(e, SourceError::Syntax),
        }
        texts += 1;
    }
}
