use para_ssg::minify_css;
use para_ssg::minify_js;

#[test]
fn test_minify_css_basic() {
    let css = r#"
            body {
                margin: 0;
                padding: 0;
            }
        "#;
    let minified = minify_css(css);
    assert_eq!(minified, "body{margin:0;padding:0;}");
}

#[test]
fn test_minify_css_with_comments() {
    let css = r#"
            /* Comment */
            .class {
                color: red; /* inline comment */
            }
        "#;
    let minified = minify_css(css);
    assert_eq!(minified, ".class{color:red;}");
}

#[test]
fn test_minify_css_preserve_necessary_spaces() {
    let css = "div > span + a { margin: 10px 20px }";
    let minified = minify_css(css);
    assert_eq!(minified, "div>span+a{margin:10px 20px}");
}

#[test]
fn test_minify_js_basic() {
    let js = r#"
            function test() {
                return true;
            }
        "#;
    let minified = minify_js(js);
    assert_eq!(minified, "function test(){return true;}");
}

#[test]
fn test_minify_js_with_comments() {
    let js = r#"
            // Single line comment
            function test() {
                /* Multi line
                   comment */
                return true;
            }
        "#;
    let minified = minify_js(js);
    assert_eq!(minified, "\nfunction test(){return true;}");
}

#[test]
fn test_minify_js_preserve_strings() {
    let js = r#"const msg = "Hello /* not a comment */ world";"#;
    let minified = minify_js(js);
    assert_eq!(minified, r#"const msg="Hello /* not a comment */ world";"#);
}

#[test]
fn test_minify_js_preserve_necessary_spaces() {
    let js = "var foo = 123; return foo + bar";
    let minified = minify_js(js);
    assert_eq!(minified, "var foo=123;return foo+bar");
}
