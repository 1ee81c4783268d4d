use pug_html::{compile, is_void_element, CompileState, NodeKind, PugNode};

fn node(kind: NodeKind, start: usize, end: usize, children: Vec<PugNode>) -> PugNode {
    PugNode { kind, named: true, start, end, children }
}

fn leaf(kind: NodeKind, start: usize, end: usize) -> PugNode {
    node(kind, start, end, Vec::new())
}

fn html_of(state: &CompileState) -> String {
    String::from_utf8(state.html_text.clone()).unwrap()
}

/// The two global guarantees on every compilation: ranges are ordered,
/// non-overlapping and inside the buffer, and each range's HTML bytes are
/// verbatim the source bytes of its input span.
fn check_ranges(src: &[u8], state: &CompileState) {
    let mut prev_end = 0usize;
    for r in &state.ranges {
        assert!(r.html_start <= r.html_end);
        assert!(r.html_end <= state.html_text.len());
        assert!(r.pug_start <= r.pug_end);
        assert!(r.pug_end <= src.len());
        assert!(prev_end <= r.html_start);
        prev_end = r.html_end;
        assert_eq!(
            &state.html_text[r.html_start..r.html_end],
            &src[r.pug_start..r.pug_end]
        );
    }
}

#[test]
fn simple_tag_with_implicit_attribute() {
    // tag(attribute)
    let src = b"tag(attribute)".to_vec();
    let root = node(
        NodeKind::Tag,
        0,
        14,
        vec![
            leaf(NodeKind::TagName, 0, 3),
            node(
                NodeKind::Attributes,
                3,
                14,
                vec![node(
                    NodeKind::Other(b"attribute".to_vec()),
                    4,
                    13,
                    vec![leaf(NodeKind::AttributeName, 4, 13)],
                )],
            ),
        ],
    );
    let result = compile(&src, &root);
    assert_eq!(html_of(&result), "<tag attribute='attribute'></tag>");
    assert_eq!(result.ranges.len(), 3);
    // the tag name, the attribute name left of `=`, and the attribute
    // name again inside the quotes, each mapped to its exact source span
    let expected = [(1, 4, 0, 3), (5, 14, 4, 13), (16, 25, 4, 13)];
    for (r, e) in result.ranges.iter().zip(expected.iter()) {
        assert_eq!((r.html_start, r.html_end, r.pug_start, r.pug_end), *e);
    }
    check_ranges(&src, &result);
    assert!(result.diagnostics.is_empty());
}

#[test]
fn filter_uses_the_tag_algorithm() {
    // :md
    let src = b":md".to_vec();
    let root = node(
        NodeKind::Filter,
        0,
        3,
        vec![leaf(NodeKind::FilterName, 1, 3)],
    );
    let result = compile(&src, &root);
    assert_eq!(html_of(&result), "<md ></md>");
    check_ranges(&src, &result);
}

#[test]
fn include_renders_filename_as_link_start() {
    // include extra.pug
    let src = b"include extra.pug".to_vec();
    let root = node(
        NodeKind::Include,
        0,
        17,
        vec![leaf(NodeKind::Keyword, 0, 7), leaf(NodeKind::Filename, 8, 17)],
    );
    let result = compile(&src, &root);
    assert_eq!(html_of(&result), "<a href=\"extra.pug\">");
    check_ranges(&src, &result);
}

#[test]
fn unescaped_buffered_code_uses_expression_mode() {
    // != raw
    let src = b"!= raw".to_vec();
    let root = node(
        NodeKind::UnescapedBufferedCode,
        0,
        6,
        vec![leaf(NodeKind::Javascript, 3, 6)],
    );
    let result = compile(&src, &root);
    assert_eq!(html_of(&result), "<script>return raw;</script>");
    check_ranges(&src, &result);
}

#[test]
fn void_element_with_attribute() {
    // img(src="test")
    let src = b"img(src=\"test\")".to_vec();
    let root = node(
        NodeKind::Tag,
        0,
        15,
        vec![
            leaf(NodeKind::TagName, 0, 3),
            node(
                NodeKind::Attributes,
                3,
                15,
                vec![node(
                    NodeKind::Other(b"attribute".to_vec()),
                    4,
                    14,
                    vec![
                        leaf(NodeKind::AttributeName, 4, 7),
                        leaf(NodeKind::QuotedAttributeValue, 8, 14),
                    ],
                )],
            ),
        ],
    );
    let result = compile(&src, &root);
    assert_eq!(html_of(&result), "<img src=\"test\"/>");
    assert!(!html_of(&result).contains("</img>"));
    check_ranges(&src, &result);
}

#[test]
fn nested_tags() {
    // span
    //   div
    let src = b"span\n  div".to_vec();
    let root = node(
        NodeKind::Tag,
        0,
        10,
        vec![
            leaf(NodeKind::TagName, 0, 4),
            node(
                NodeKind::Children,
                7,
                10,
                vec![node(
                    NodeKind::Tag,
                    7,
                    10,
                    vec![leaf(NodeKind::TagName, 7, 10)],
                )],
            ),
        ],
    );
    let result = compile(&src, &root);
    assert_eq!(html_of(&result), "<span ><div ></div></span>");
    check_ranges(&src, &result);
}

#[test]
fn unknown_construct_reports_and_continues() {
    // an unrecognized kind contributes nothing but one diagnostic; the
    // rest of the tree still compiles
    let src = b"??\ndiv".to_vec();
    let root = node(
        NodeKind::SourceFile,
        0,
        6,
        vec![
            leaf(NodeKind::Other(b"mystery".to_vec()), 0, 2),
            node(NodeKind::Tag, 3, 6, vec![leaf(NodeKind::TagName, 3, 6)]),
        ],
    );
    let result = compile(&src, &root);
    assert_eq!(html_of(&result), "<div ></div>");
    assert_eq!(result.diagnostics.len(), 1);
    assert_eq!(result.diagnostics[0].node_kind, b"mystery".to_vec());
    check_ranges(&src, &result);
}

#[test]
fn class_shorthand_rendered_before_id() {
    // div#a.b — id written first in source, class still rendered first
    let src = b"div#a.b".to_vec();
    let root = node(
        NodeKind::Tag,
        0,
        7,
        vec![
            leaf(NodeKind::TagName, 0, 3),
            leaf(NodeKind::Id, 3, 5),
            leaf(NodeKind::Class, 5, 7),
        ],
    );
    let result = compile(&src, &root);
    let html = html_of(&result);
    assert_eq!(html, "<div class=\"b\" id=\"a\" ></div>");
    assert!(html.find("class=").unwrap() < html.find("id=").unwrap());
    check_ranges(&src, &result);
}

#[test]
fn class_and_id_order_in_source_does_not_matter() {
    // div.b#a produces the same normalized attribute order as div#a.b
    let src_a = b"div#a.b".to_vec();
    let root_a = node(
        NodeKind::Tag,
        0,
        7,
        vec![
            leaf(NodeKind::TagName, 0, 3),
            leaf(NodeKind::Id, 3, 5),
            leaf(NodeKind::Class, 5, 7),
        ],
    );
    let src_b = b"div.b#a".to_vec();
    let root_b = node(
        NodeKind::Tag,
        0,
        7,
        vec![
            leaf(NodeKind::TagName, 0, 3),
            leaf(NodeKind::Class, 3, 5),
            leaf(NodeKind::Id, 5, 7),
        ],
    );
    let result_a = compile(&src_a, &root_a);
    let result_b = compile(&src_b, &root_b);
    assert_eq!(html_of(&result_a), html_of(&result_b));
}

#[test]
fn several_classes_aggregate_into_one_attribute() {
    // div.a.b
    let src = b"div.a.b".to_vec();
    let root = node(
        NodeKind::Tag,
        0,
        7,
        vec![
            leaf(NodeKind::TagName, 0, 3),
            leaf(NodeKind::Class, 3, 5),
            leaf(NodeKind::Class, 5, 7),
        ],
    );
    let result = compile(&src, &root);
    assert_eq!(html_of(&result), "<div class=\"a b\" ></div>");
    check_ranges(&src, &result);
}

#[test]
fn boolean_attribute_expands_to_its_own_name() {
    // input(checked)
    let src = b"input(checked)".to_vec();
    let root = node(
        NodeKind::Tag,
        0,
        14,
        vec![
            leaf(NodeKind::TagName, 0, 5),
            node(
                NodeKind::Attributes,
                5,
                14,
                vec![node(
                    NodeKind::Other(b"attribute".to_vec()),
                    6,
                    13,
                    vec![leaf(NodeKind::AttributeName, 6, 13)],
                )],
            ),
        ],
    );
    let result = compile(&src, &root);
    assert_eq!(html_of(&result), "<input checked='checked'/>");
    check_ranges(&src, &result);
}

#[test]
fn two_attributes_separated_by_comma_space() {
    // a(x=1, y)
    let src = b"a(x=1+2,y)".to_vec();
    let root = node(
        NodeKind::Tag,
        0,
        10,
        vec![
            leaf(NodeKind::TagName, 0, 1),
            node(
                NodeKind::Attributes,
                1,
                10,
                vec![
                    node(
                        NodeKind::Other(b"attribute".to_vec()),
                        2,
                        7,
                        vec![
                            leaf(NodeKind::AttributeName, 2, 3),
                            leaf(NodeKind::Javascript, 4, 7),
                        ],
                    ),
                    node(
                        NodeKind::Other(b"attribute".to_vec()),
                        8,
                        9,
                        vec![leaf(NodeKind::AttributeName, 8, 9)],
                    ),
                ],
            ),
        ],
    );
    let result = compile(&src, &root);
    assert_eq!(html_of(&result), "<a x='1+2', y='y'></a>");
    check_ranges(&src, &result);
}

#[test]
fn void_element_children_are_ignored() {
    // img with a nested h1: no content, no closing tag
    let src = b"img\n  h1".to_vec();
    let root = node(
        NodeKind::Tag,
        0,
        8,
        vec![
            leaf(NodeKind::TagName, 0, 3),
            node(
                NodeKind::Children,
                6,
                8,
                vec![node(NodeKind::Tag, 6, 8, vec![leaf(NodeKind::TagName, 6, 8)])],
            ),
        ],
    );
    let result = compile(&src, &root);
    let html = html_of(&result);
    assert_eq!(html, "<img />");
    assert!(!html.contains("h1"));
    assert!(!html.contains("</img>"));
    check_ranges(&src, &result);
}

#[test]
fn all_void_elements_recognized() {
    for name in [
        "area", "base", "br", "col", "embed", "hr", "img", "input", "link", "meta", "param",
        "source", "track", "wbr",
    ] {
        assert!(is_void_element(name.as_bytes()), "{name}");
    }
    for name in ["div", "span", "BR", "b", "sources", "rea", ""] {
        assert!(!is_void_element(name.as_bytes()), "{name}");
    }
}

#[test]
fn content_maps_interpolation_before_enclosing_span() {
    // ab#{x}cd — the interpolation's narrow range appears in the list
    // before the enclosing content range, and their input spans overlap
    let src = b"ab#{x}cd".to_vec();
    let root = node(
        NodeKind::Content,
        0,
        8,
        vec![node(
            NodeKind::EscapedStringInterpolation,
            2,
            6,
            vec![leaf(NodeKind::Javascript, 4, 5)],
        )],
    );
    let result = compile(&src, &root);
    assert_eq!(html_of(&result), "<script>return x;</script>ab#{x}cd");
    assert_eq!(result.ranges.len(), 2);
    let narrow = &result.ranges[0];
    let wide = &result.ranges[1];
    assert_eq!((narrow.pug_start, narrow.pug_end), (4, 5));
    assert_eq!((wide.pug_start, wide.pug_end), (0, 8));
    assert!(narrow.html_start < wide.html_start);
    assert!(wide.pug_start < narrow.pug_start);
    check_ranges(&src, &result);
}

#[test]
fn conditional_wraps_condition_and_walks_body() {
    // if ok
    //   div
    let src = b"if ok\n  div".to_vec();
    let root = node(
        NodeKind::Conditional,
        0,
        11,
        vec![
            leaf(NodeKind::Keyword, 0, 2),
            leaf(NodeKind::Javascript, 3, 5),
            node(
                NodeKind::Children,
                8,
                11,
                vec![node(NodeKind::Tag, 8, 11, vec![leaf(NodeKind::TagName, 8, 11)])],
            ),
        ],
    );
    let result = compile(&src, &root);
    assert_eq!(html_of(&result), "<script>return ok;</script><div ></div>");
    check_ranges(&src, &result);
}

#[test]
fn conditional_without_condition_walks_body_only() {
    // else
    //   div
    let src = b"else\n  div".to_vec();
    let root = node(
        NodeKind::Conditional,
        0,
        10,
        vec![
            leaf(NodeKind::Keyword, 0, 4),
            node(
                NodeKind::Children,
                7,
                10,
                vec![node(NodeKind::Tag, 7, 10, vec![leaf(NodeKind::TagName, 7, 10)])],
            ),
        ],
    );
    let result = compile(&src, &root);
    assert_eq!(html_of(&result), "<div ></div>");
    check_ranges(&src, &result);
}

#[test]
fn when_wraps_discriminant_expression() {
    let src = b"when v\n  div".to_vec();
    let root = node(
        NodeKind::When,
        0,
        12,
        vec![
            leaf(NodeKind::Keyword, 0, 4),
            leaf(NodeKind::Javascript, 5, 6),
            node(
                NodeKind::Children,
                9,
                12,
                vec![node(NodeKind::Tag, 9, 12, vec![leaf(NodeKind::TagName, 9, 12)])],
            ),
        ],
    );
    let result = compile(&src, &root);
    assert_eq!(html_of(&result), "<script>return v;</script><div ></div>");
    check_ranges(&src, &result);
}

#[test]
fn unbuffered_code_uses_statement_mode() {
    // - i++
    let src = b"- i++".to_vec();
    let root = node(
        NodeKind::UnbufferedCode,
        0,
        5,
        vec![leaf(NodeKind::Javascript, 2, 5)],
    );
    let result = compile(&src, &root);
    assert_eq!(html_of(&result), "<script>i++;</script>");
    check_ranges(&src, &result);
}

#[test]
fn buffered_code_uses_expression_mode() {
    // = i+1
    let src = b"= i+1".to_vec();
    let root = node(
        NodeKind::BufferedCode,
        0,
        5,
        vec![leaf(NodeKind::Javascript, 2, 5)],
    );
    let result = compile(&src, &root);
    assert_eq!(html_of(&result), "<script>return i+1;</script>");
    check_ranges(&src, &result);
}

#[test]
fn script_block_uses_statement_mode() {
    let src = b"script.\n  go()".to_vec();
    let root = node(
        NodeKind::ScriptBlock,
        0,
        14,
        vec![leaf(NodeKind::Javascript, 10, 14)],
    );
    let result = compile(&src, &root);
    assert_eq!(html_of(&result), "<script>go();</script>");
    check_ranges(&src, &result);
}

#[test]
fn iteration_parts_use_expression_mode() {
    // each item in list
    let src = b"each item in list".to_vec();
    let root = node(
        NodeKind::Each,
        0,
        17,
        vec![
            leaf(NodeKind::Keyword, 0, 4),
            node(
                NodeKind::IterationVariable,
                5,
                9,
                vec![leaf(NodeKind::Javascript, 5, 9)],
            ),
            node(
                NodeKind::IterationIterator,
                13,
                17,
                vec![leaf(NodeKind::Javascript, 13, 17)],
            ),
        ],
    );
    let result = compile(&src, &root);
    assert_eq!(
        html_of(&result),
        "<script>return item;</script><script>return list;</script>"
    );
    check_ranges(&src, &result);
}

#[test]
fn javascript_attribute_value_is_single_quoted() {
    // a(x=1+2)
    let src = b"a(x=1+2)".to_vec();
    let root = node(
        NodeKind::Tag,
        0,
        8,
        vec![
            leaf(NodeKind::TagName, 0, 1),
            node(
                NodeKind::Attributes,
                1,
                8,
                vec![node(
                    NodeKind::Other(b"attribute".to_vec()),
                    2,
                    7,
                    vec![
                        leaf(NodeKind::AttributeName, 2, 3),
                        leaf(NodeKind::Javascript, 4, 7),
                    ],
                )],
            ),
        ],
    );
    let result = compile(&src, &root);
    assert_eq!(html_of(&result), "<a x='1+2'></a>");
    check_ranges(&src, &result);
}

#[test]
fn pipe_skips_its_marker_child() {
    let src = b"| hi".to_vec();
    let root = node(
        NodeKind::Pipe,
        0,
        4,
        vec![leaf(NodeKind::Content, 0, 1), leaf(NodeKind::Content, 2, 4)],
    );
    let result = compile(&src, &root);
    assert_eq!(html_of(&result), "hi");
    check_ranges(&src, &result);
}

#[test]
fn tag_interpolation_walks_children_of_second_child() {
    // #[em hi] — the holder node itself is not dispatched, only its children
    let src = b"#[em hi]".to_vec();
    let root = node(
        NodeKind::TagInterpolation,
        0,
        8,
        vec![
            leaf(NodeKind::Keyword, 0, 2),
            node(
                NodeKind::Content,
                2,
                7,
                vec![node(NodeKind::Tag, 2, 4, vec![leaf(NodeKind::TagName, 2, 4)])],
            ),
        ],
    );
    let result = compile(&src, &root);
    assert_eq!(html_of(&result), "<em ></em>");
    check_ranges(&src, &result);
}

#[test]
fn extends_renders_filename_as_link_start() {
    // extends layout.pug
    let src = b"extends layout.pug".to_vec();
    let root = node(
        NodeKind::Extends,
        0,
        18,
        vec![leaf(NodeKind::Keyword, 0, 7), leaf(NodeKind::Filename, 8, 18)],
    );
    let result = compile(&src, &root);
    assert_eq!(html_of(&result), "<a href=\"layout.pug\">");
    check_ranges(&src, &result);
}

#[test]
fn silent_kinds_emit_nothing() {
    let src = b"//- note".to_vec();
    let root = node(
        NodeKind::SourceFile,
        0,
        8,
        vec![
            leaf(NodeKind::Comment, 0, 8),
            leaf(NodeKind::Keyword, 0, 3),
            leaf(NodeKind::MixinAttributes, 0, 2),
            leaf(NodeKind::BlockName, 4, 8),
        ],
    );
    let result = compile(&src, &root);
    assert_eq!(html_of(&result), "");
    assert!(result.ranges.is_empty());
    assert!(result.diagnostics.is_empty());
}

#[test]
fn error_node_recovers_into_children() {
    let src = b"!!!div".to_vec();
    let root = node(
        NodeKind::Error,
        0,
        6,
        vec![node(NodeKind::Tag, 3, 6, vec![leaf(NodeKind::TagName, 3, 6)])],
    );
    let result = compile(&src, &root);
    assert_eq!(html_of(&result), "<div ></div>");
    check_ranges(&src, &result);
}

#[test]
fn unnamed_node_is_skipped() {
    let src = b"div".to_vec();
    let root = PugNode {
        kind: NodeKind::Tag,
        named: false,
        start: 0,
        end: 3,
        children: vec![leaf(NodeKind::TagName, 0, 3)],
    };
    let result = compile(&src, &root);
    assert_eq!(html_of(&result), "");
    assert!(result.ranges.is_empty());
}

#[test]
fn shorthand_dispatched_alone_reports_its_kind() {
    // class and id are only meaningful under a tag; dispatched directly
    // they fall to the unknown path and report their kind names
    let src = b".a#b".to_vec();
    let root = node(
        NodeKind::SourceFile,
        0,
        4,
        vec![leaf(NodeKind::Class, 0, 2), leaf(NodeKind::Id, 2, 4)],
    );
    let result = compile(&src, &root);
    assert_eq!(html_of(&result), "");
    assert_eq!(result.diagnostics.len(), 2);
    assert_eq!(result.diagnostics[0].node_kind, b"class".to_vec());
    assert_eq!(result.diagnostics[1].node_kind, b"id".to_vec());
}

#[test]
fn empty_source_file_compiles_to_nothing() {
    let src = Vec::new();
    let root = node(NodeKind::SourceFile, 0, 0, Vec::new());
    let result = compile(&src, &root);
    assert!(result.html_text.is_empty());
    assert!(result.ranges.is_empty());
    assert!(result.diagnostics.is_empty());
}

#[test]
fn tag_with_no_children_emits_nothing() {
    // a malformed tag without even a name child degrades to no output
    let src = b"?".to_vec();
    let root = node(NodeKind::Tag, 0, 1, Vec::new());
    let result = compile(&src, &root);
    assert_eq!(html_of(&result), "");
    assert!(result.ranges.is_empty());
}

#[test]
fn attribute_entry_without_children_contributes_nothing() {
    // a defensive case: an attribute with no name is skipped, but the
    // separator between entries is still synthesized
    let src = b"a(,y)".to_vec();
    let root = node(
        NodeKind::Tag,
        0,
        5,
        vec![
            leaf(NodeKind::TagName, 0, 1),
            node(
                NodeKind::Attributes,
                1,
                5,
                vec![
                    leaf(NodeKind::Other(b"attribute".to_vec()), 2, 2),
                    node(
                        NodeKind::Other(b"attribute".to_vec()),
                        3,
                        4,
                        vec![leaf(NodeKind::AttributeName, 3, 4)],
                    ),
                ],
            ),
        ],
    );
    let result = compile(&src, &root);
    assert_eq!(html_of(&result), "<a , y='y'></a>");
    check_ranges(&src, &result);
}

#[test]
fn mixin_and_block_definitions_pass_through() {
    let src = b"mixin m\n  div".to_vec();
    let root = node(
        NodeKind::MixinDefinition,
        0,
        13,
        vec![
            leaf(NodeKind::Keyword, 0, 5),
            node(
                NodeKind::Children,
                10,
                13,
                vec![node(NodeKind::Tag, 10, 13, vec![leaf(NodeKind::TagName, 10, 13)])],
            ),
        ],
    );
    let result = compile(&src, &root);
    assert_eq!(html_of(&result), "<div ></div>");
    check_ranges(&src, &result);
}

#[test]
fn deep_tree_keeps_ranges_ordered_and_verbatim() {
    // a composite document exercising several constructs at once
    let src = b"html\n  body#main.wide\n    img(src=\"x\")\n    | text".to_vec();
    let img = node(
        NodeKind::Tag,
        26,
        38,
        vec![
            leaf(NodeKind::TagName, 26, 29),
            node(
                NodeKind::Attributes,
                29,
                38,
                vec![node(
                    NodeKind::Other(b"attribute".to_vec()),
                    30,
                    37,
                    vec![
                        leaf(NodeKind::AttributeName, 30, 33),
                        leaf(NodeKind::QuotedAttributeValue, 34, 37),
                    ],
                )],
            ),
        ],
    );
    let pipe = node(
        NodeKind::Pipe,
        43,
        49,
        vec![leaf(NodeKind::Keyword, 43, 44), leaf(NodeKind::Content, 45, 49)],
    );
    let body = node(
        NodeKind::Tag,
        7,
        49,
        vec![
            leaf(NodeKind::TagName, 7, 11),
            leaf(NodeKind::Id, 11, 16),
            leaf(NodeKind::Class, 16, 21),
            node(NodeKind::Children, 26, 49, vec![img, pipe]),
        ],
    );
    let root = node(
        NodeKind::SourceFile,
        0,
        49,
        vec![node(
            NodeKind::Tag,
            0,
            49,
            vec![leaf(NodeKind::TagName, 0, 4), node(NodeKind::Children, 7, 49, vec![body])],
        )],
    );
    let result = compile(&src, &root);
    let html = html_of(&result);
    assert_eq!(
        html,
        "<html ><body class=\"wide\" id=\"main\" ><img src=\"x\"/>text</body></html>"
    );
    assert!(result.diagnostics.is_empty());
    check_ranges(&src, &result);
}
