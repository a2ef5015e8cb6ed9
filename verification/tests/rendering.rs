use athena_engine::template::{render_template, page_template_parser, TemplateVar};

struct FixedVar(&'static str);

impl TemplateVar for FixedVar {
    fn value(&self) -> String {
        self.0.to_string()
    }
}

#[test]
fn variable_tags_are_substituted() {
    let values = vec![("greet".to_string(), "Hello my var!".to_string())];
    let out = render_template("<p><#>var.greet</p>\r\n", &values);
    assert_eq!(out, "<p>Hello my var!</p>\r\n");
}

#[test]
fn input_without_root_tag_passes_through() {
    let values = vec![("greet".to_string(), "hi".to_string())];
    let out = render_template("<p>plain</p>\r\n", &values);
    assert_eq!(out, "<p>plain</p>\r\n");
}

#[test]
fn input_without_line_break_passes_through() {
    let values: Vec<(String, String)> = vec![];
    let out = render_template("<#>var.greet", &values);
    assert_eq!(out, "<#>var.greet");
}

#[test]
fn unbound_variable_tag_returns_pristine_input() {
    let values = vec![("other".to_string(), "hi".to_string())];
    let html = "<p><#>var.greet</p>\r\n";
    let out = render_template(html, &values);
    assert_eq!(out, html);
}

#[test]
fn for_block_repeats_body_three_times() {
    let values: Vec<(String, String)> = vec![];
    let out = render_template("<#>control.for 0,3\r\nX\r\n<#>control.for_end\r\n", &values);
    assert_eq!(out, "X\r\nX\r\nX\r\n");
    assert_eq!(out.matches("X\r\n").count(), 3);
}

#[test]
fn for_block_with_empty_range_vanishes() {
    let values: Vec<(String, String)> = vec![];
    let out = render_template("<#>control.for 0,0\r\nX\r\n<#>control.for_end\r\n", &values);
    assert_eq!(out, "");
}

#[test]
fn for_block_keeps_surrounding_text() {
    let values: Vec<(String, String)> = vec![];
    let out = render_template(
        "<a>\r\n<#>control.for 1,3\r\nB\r\n<#>control.for_end\r\n<z>\r\n",
        &values,
    );
    assert_eq!(out, "<a>\r\nB\r\nB\r\n<z>\r\n");
}

#[test]
fn for_tag_without_comma_returns_pristine_input() {
    let values: Vec<(String, String)> = vec![];
    let html = "<#>control.for 03\r\nX\r\n<#>control.for_end\r\n";
    let out = render_template(html, &values);
    assert_eq!(out, html);
}

#[test]
fn unparsable_bounds_count_as_zero() {
    let values: Vec<(String, String)> = vec![];
    let out = render_template("<#>control.for a,2\r\nX\r\n<#>control.for_end\r\n", &values);
    assert_eq!(out, "X\r\nX\r\n");
}

#[test]
fn rendering_twice_gives_identical_output() {
    let values = vec![("v".to_string(), "1".to_string())];
    let html = "<i><#>var.v</i>\r\n<#>control.for 0,2\r\nY\r\n<#>control.for_end\r\n";
    let first = render_template(html, &values);
    let second = render_template(html, &values);
    assert_eq!(first, second);
}

#[test]
fn bindings_are_drawn_and_substituted_once_each() {
    let var = vec![("variable_1".to_string(), FixedVar("Hello my var!"))];
    let out = page_template_parser("<p><#>var.variable_1</p>\r\n".to_string(), &var);
    assert_eq!(out, "<p>Hello my var!</p>\r\n");
}
