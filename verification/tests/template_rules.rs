use querysense::ingest::projection_statement;
use querysense::template::{Template, TemplateError};
use rusqlite::Connection;

fn compile(text: &str) -> Result<Template, TemplateError> {
    Template::try_from(text.to_string())
}

#[test]
fn template_with_two_fields() {
    let t = compile("name {{nombre}} lives in {{ciudad}}").unwrap();
    assert_eq!(t.template, "' name  ' || nombre || '  lives in  ' || ciudad");
    assert_eq!(t.fields, vec!["nombre".to_string(), "ciudad".to_string()]);
}

#[test]
fn template_unclosed_placeholder_is_malformed() {
    assert_eq!(compile("hello {{name").unwrap_err(), TemplateError::MalformedTemplate);
    assert_eq!(compile("{{a}} and {{b").unwrap_err(), TemplateError::MalformedTemplate);
    assert_eq!(compile("{{").unwrap_err(), TemplateError::MalformedTemplate);
    assert_eq!(compile("{{a}").unwrap_err(), TemplateError::MalformedTemplate);
}

#[test]
fn template_empty_is_malformed() {
    assert_eq!(compile("").unwrap_err(), TemplateError::MalformedTemplate);
}

#[test]
fn template_trailing_text_becomes_a_literal() {
    let t = compile("{{a}} years old").unwrap();
    assert_eq!(t.template, "'  ' || a || '  years old '");
    assert_eq!(t.fields, vec!["a".to_string()]);
}

#[test]
fn template_blank_tail_is_left_out() {
    let t = compile("age: {{edad}}  \n").unwrap();
    assert_eq!(t.template, "' age:  ' || edad");
    assert_eq!(t.fields, vec!["edad".to_string()]);
}

#[test]
fn template_fields_are_trimmed_and_labels_are_not() {
    let t = compile("{{ a }}{{b}}").unwrap();
    assert_eq!(t.template, "'  ' || a || '  ' || b");
    assert_eq!(t.fields, vec!["a".to_string(), "b".to_string()]);
}

#[test]
fn template_without_placeholders() {
    let t = compile("just text").unwrap();
    assert_eq!(t.template, "' just text '");
    assert!(t.fields.is_empty());
    let blank = compile("   ").unwrap();
    assert_eq!(blank.template, "");
    assert!(blank.fields.is_empty());
    let closing_only = compile("a }} b").unwrap();
    assert_eq!(closing_only.template, "' a }} b '");
}

#[test]
fn template_first_closing_mark_ends_the_field() {
    let t = compile("{{{a}}}").unwrap();
    assert_eq!(t.fields, vec!["{a".to_string()]);
    assert_eq!(t.template, "'  ' || {a || ' } '");
}

#[test]
fn template_expression_evaluates_to_the_template_text() {
    let t = compile("name {{nombre}} lives in {{ciudad}}").unwrap();
    let db = Connection::open_in_memory().unwrap();
    let sql = format!(
        "select {} from (select 'Ana' as nombre, 'Rosario' as ciudad)",
        t.template
    );
    let text: String = db.query_row(&sql, [], |row| row.get(0)).unwrap();
    assert_eq!(text, " name  Ana  lives in  Rosario");
}

#[test]
fn template_expression_with_tail_evaluates_to_the_template_text() {
    let t = compile("{{a}}-{{ b }}: done").unwrap();
    let db = Connection::open_in_memory().unwrap();
    let sql = format!("select {} from (select 'x y' as a, '' as b)", t.template);
    let text: String = db.query_row(&sql, [], |row| row.get(0)).unwrap();
    assert_eq!(text, "  x y -  : done ");
}

#[test]
fn projection_statement_wraps_the_expression() {
    let t = compile("n {{nombre}}").unwrap();
    assert_eq!(
        projection_statement(&t),
        "insert into record(email, province, city, age, sex, template_text) select email, provincia, ciudad, edad, sexo, ' n  ' || nombre from raw_record;"
    );
}
