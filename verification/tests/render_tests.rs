use query_engine::render::render_table_html;
use query_engine::value::StructuredValue;

#[test]
fn renders_header_and_body_fragments() {
    let columns = vec!["id".to_string(), "name".to_string()];
    let rows = vec![
        vec![StructuredValue::Int(1), StructuredValue::Text("ada".to_string())],
        vec![StructuredValue::Int(2), StructuredValue::Null],
    ];
    let (head, body) = render_table_html(&columns, &rows);
    assert_eq!(head, "<tr><th>id</th><th>name</th></tr>");
    assert_eq!(body, "<tr><td>1</td><td>ada</td></tr><tr><td>2</td><td>NULL</td></tr>");
}

#[test]
fn render_escapes_markup_characters() {
    let columns = vec!["a<b".to_string()];
    let rows = vec![vec![StructuredValue::Text("x&y\"z\">w".to_string())]];
    let (head, body) = render_table_html(&columns, &rows);
    assert_eq!(head, "<tr><th>a&lt;b</th></tr>");
    assert_eq!(body, "<tr><td>x&amp;y&quot;z&quot;&gt;w</td></tr>");
}

#[test]
fn render_shows_numbers_and_binary_text() {
    let columns = vec!["v".to_string()];
    let rows = vec![
        vec![StructuredValue::Int(-42)],
        vec![StructuredValue::UInt(7)],
        vec![StructuredValue::Float { bits: 2.5f64.to_bits(), text: "2.5".to_string() }],
        vec![StructuredValue::Bool(true)],
        vec![StructuredValue::Bytes("AQI=".to_string())],
    ];
    let (_head, body) = render_table_html(&columns, &rows);
    assert_eq!(
        body,
        "<tr><td>-42</td></tr><tr><td>7</td></tr><tr><td>2.5</td></tr><tr><td>true</td></tr><tr><td>AQI=</td></tr>"
    );
}

#[test]
fn render_of_empty_result_is_bare_header_row() {
    let columns: Vec<String> = Vec::new();
    let rows: Vec<Vec<StructuredValue>> = Vec::new();
    let (head, body) = render_table_html(&columns, &rows);
    assert_eq!(head, "<tr></tr>");
    assert_eq!(body, "");
}

#[test]
fn render_is_deterministic() {
    let columns = vec!["x".to_string(), "y".to_string()];
    let rows = vec![vec![
        StructuredValue::Text("a".to_string()),
        StructuredValue::Int(3),
    ]];
    let first = render_table_html(&columns, &rows);
    let second = render_table_html(&columns, &rows);
    assert_eq!(first.0, second.0);
    assert_eq!(first.1, second.1);
}
