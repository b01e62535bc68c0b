use askama_minify::css::minify_css;
use askama_minify::js::minify_js;
use askama_minify::markup::minify_html;

#[test]
fn test_minify_css_basic() {
    let css = "body { margin: 0; padding: 0; }";
    let result = minify_css(css);
    assert!(result.contains("margin"));
    assert!(result.len() < css.len());
}

#[test]
fn test_minify_js_basic() {
    let js = "function test() { return 42; }";
    let result = minify_js(js);
    assert!(result.contains("function"));
    assert!(result.len() <= js.len());
}

#[test]
fn test_minify_html_preserves_template_syntax() {
    let html = "<div>{{ title }}</div>";
    let result = minify_html(html);
    assert!(result.contains("{{ title }}"));
}

#[test]
fn test_minify_html_removes_whitespace() {
    let html = "<div>   <p>   text   </p>   </div>";
    let result = minify_html(html);
    assert_eq!(result, "<div> <p> text </p> </div>");
}

#[test]
fn test_minify_html_preserves_pre() {
    let html = "<pre>  code  \n  block  </pre>";
    let result = minify_html(html);
    assert!(result.contains("  code  \n  block  "));
}

#[test]
fn chevron_directive_preserved() {
    let html = "<ul>  {% for x in items %}  <li>{{ x }}</li>  {% endfor %}  </ul>";
    let result = minify_html(html);
    assert!(result.contains("{% for x in items %}"));
    assert!(result.contains("{% endfor %}"));
    assert!(result.contains("{{ x }}"));
}

#[test]
fn directive_inner_whitespace_kept() {
    let result = minify_html("a  {{  two  spaces  }}  b");
    assert!(result.contains("{{  two  spaces  }}"));
    assert_eq!(result, "a {{  two  spaces  }} b");
}

#[test]
fn plain_text_minify_is_idempotent() {
    let once = minify_html("a   b \t c\n\nd");
    assert_eq!(once, "a b c d");
    assert_eq!(minify_html(&once), once);
}

#[test]
fn textarea_content_verbatim() {
    let result = minify_html("<textarea>  a\n b </textarea>");
    assert_eq!(result, "<textarea>  a\n b </textarea>");
}

#[test]
fn comment_removed_entirely() {
    assert_eq!(minify_html("a<!-- hidden -->b"), "ab");
    // the comment vanishes; the whitespace on each side of it is handled by
    // the ordinary collapsing rule, whose run restarts after the comment
    assert_eq!(minify_html("a <!-- hidden --> b"), "a  b");
    assert!(!minify_html("x <!-- secret words --> y").contains("secret"));
}

#[test]
fn unterminated_comment_discarded() {
    assert_eq!(minify_html("a<!-- never closed"), "a");
}

#[test]
fn comment_inside_pre_is_content() {
    let result = minify_html("<pre><!-- keep --></pre>");
    assert!(result.contains("<!-- keep -->"));
}

#[test]
fn tag_names_fold_to_lowercase() {
    assert_eq!(minify_html("<DIV>x</DIV>"), "<div>x</div>");
    assert_eq!(minify_html("<PRE> k </PRE>"), "<pre> k </pre>");
}

#[test]
fn uppercase_script_element_still_recognized() {
    assert_eq!(minify_html("<SCRIPT> a = 1 </SCRIPT>"), "<script>a=1</script>");
}

#[test]
fn tag_interior_whitespace_collapses() {
    assert_eq!(minify_html("<a   href=\"x\"   id=\"y\">z</a>"), "<a href=\"x\" id=\"y\">z</a>");
}

#[test]
fn script_body_is_minified_before_closing_tag() {
    let result = minify_html("<script> var a = 1 ; </script>");
    assert_eq!(result, "<script>var a=1;</script>");
}

#[test]
fn lone_angle_bracket_in_script_is_content() {
    let result = minify_html("<script>if (a<b) { x(); }</script>");
    assert_eq!(result, "<script>if(a<b){x();}</script>");
}

#[test]
fn foreign_closing_tag_in_script_is_content() {
    // only the matching `</script` ends the body; `</b>` is script text
    let result = minify_html("<script>var s = \"</b>\";</script>");
    assert_eq!(result, "<script>var s=\"</b>\";</script>");
}

#[test]
fn whitespace_only_script_body_dropped() {
    assert_eq!(minify_html("<script>   </script>"), "<script></script>");
}

#[test]
fn style_body_is_minified_before_closing_tag() {
    let result = minify_html("<style> body { margin : 0 ; } </style>");
    assert!(result.starts_with("<style>"));
    assert!(result.ends_with("</style>"));
    assert!(result.contains("margin"));
    assert!(!result.contains(" margin"));
    assert!(result.len() < "<style> body { margin : 0 ; } </style>".len());
}

#[test]
fn js_string_content_untouched() {
    let js = "var s = \"a   b\";";
    let result = minify_js(js);
    assert!(result.contains("\"a   b\""));
    let tpl = "f(`x  y`)";
    assert!(minify_js(tpl).contains("`x  y`"));
}

#[test]
fn js_escaped_quote_stays_inside_string() {
    let js = "x=\"a\\\"  b\"";
    assert_eq!(minify_js(js), js);
}

#[test]
fn js_comments_removed() {
    assert_eq!(minify_js("a//c\nb"), "a b");
    assert_eq!(minify_js("a/*x*/b"), "a b");
    assert_eq!(minify_js("a /* x */ b"), "a b");
}

#[test]
fn unparsable_css_returned_unchanged() {
    let css = "}";
    assert_eq!(minify_css(css), css);
}

#[test]
fn empty_fragments_stay_empty() {
    assert_eq!(minify_css(""), "");
    assert_eq!(minify_js(""), "");
    assert_eq!(minify_html(""), "");
}

#[test]
fn output_never_longer_for_plain_documents() {
    let docs = [
        "<div>   <p>  x  </p> </div>",
        "a <!-- c --> b",
        "<script> var a = 1 ; </script>",
        "{{ keep  me }}   done",
        "<DIV  a=\"1\"  >text</DIV>",
    ];
    for doc in docs {
        assert!(minify_html(doc).len() <= doc.len());
    }
}
