use askama_minify::paths::{
    calculate_reduction_percent, generate_output_path, is_template_file, resolve_output_path,
};

#[test]
fn test_is_template_file() {
    assert!(is_template_file("test.html"));
    assert!(is_template_file("test.HTML"));
    assert!(is_template_file("test.htm"));
    assert!(!is_template_file("test.min.html"));
    assert!(!is_template_file("test.txt"));
}

#[test]
fn test_generate_output_path() {
    let path = "test.html";
    let output = generate_output_path(path, "min").unwrap();
    assert_eq!(output, "test.min.html");
}

#[test]
fn test_calculate_reduction_percent() {
    assert_eq!(calculate_reduction_percent(100, 50), 50);
    assert_eq!(calculate_reduction_percent(100, 0), 100);
    assert_eq!(calculate_reduction_percent(0, 0), 0);
}

#[test]
fn template_file_extensions() {
    assert!(is_template_file("a/b/page.svg"));
    assert!(is_template_file("x.SVG"));
    assert!(is_template_file("deep/dir/x.xml"));
    assert!(!is_template_file("noext"));
    assert!(!is_template_file(".html"));
    assert!(!is_template_file("archive/site.min.HTM"));
}

#[test]
fn output_path_keeps_directory() {
    assert_eq!(generate_output_path("www/pages/home.html", "min").unwrap(), "www/pages/home.min.html");
    assert_eq!(generate_output_path("/abs/x.htm", "opt").unwrap(), "/abs/x.opt.htm");
}

#[test]
fn output_path_without_extension_appends_suffix() {
    assert_eq!(generate_output_path("README", "min").unwrap(), "README.min");
    assert_eq!(generate_output_path(".bashrc", "min").unwrap(), ".bashrc.min");
}

#[test]
fn output_path_error_for_empty_file_name() {
    assert!(generate_output_path("", "min").is_err());
    assert!(generate_output_path("dir/", "min").is_err());
}

#[test]
fn resolve_prefers_explicit_output() {
    assert_eq!(resolve_output_path("in.html", Some("out.html"), Some("x")).unwrap(), "out.html");
    assert_eq!(resolve_output_path("in.html", None, None).unwrap(), "in.min.html");
    assert_eq!(resolve_output_path("in.html", None, Some("small")).unwrap(), "in.small.html");
}

#[test]
fn reduction_percent_rounds_toward_zero() {
    assert_eq!(calculate_reduction_percent(3, 2), 33);
    assert_eq!(calculate_reduction_percent(7, 7), 0);
    assert_eq!(calculate_reduction_percent(1000, 999), 0);
}
