use reql::{Database, Reql, Sequence};

fn name_michael() -> serde_json::Value {
    let mut m = serde_json::Map::new();
    m.insert(
        "name".to_string(),
        serde_json::Value::String("Michael".to_string()),
    );
    serde_json::Value::Object(m)
}

fn render<Q: reql::Reql>(q: &Q) -> String {
    serde_json::to_string(&q.as_json()).unwrap()
}

#[test]
fn render_database() {
    let q = Database::new("test".to_string());
    assert_eq!(render(&q), "[14,[\"test\"]]");
}

#[test]
fn render_table() {
    let q = Database::new("test".to_string()).table("t".to_string());
    assert_eq!(render(&q), "[15,[[14,[\"test\"]],\"t\"]]");
}

#[test]
fn render_is_deterministic() {
    let q = Database::new("test".to_string())
        .table("t".to_string())
        .filter(name_michael());
    let first = render(&q);
    let second = render(&q);
    assert_eq!(first, second);
}

#[test]
fn render_filter_chain() {
    let q = Database::new("test".to_string())
        .table("t".to_string())
        .filter(name_michael());
    assert_eq!(
        render(&q),
        "[39,[[15,[[14,[\"test\"]],\"t\"]],{\"name\":\"Michael\"}]]"
    );
}

#[test]
fn render_insert_consumes_and_orders_operands() {
    let table = Database::new("test".to_string()).table("table".to_string());
    let q = table.insert(name_michael());
    assert_eq!(
        render(&q),
        "[56,[[15,[[14,[\"test\"]],\"table\"]],{\"name\":\"Michael\"}]]"
    );
}

#[test]
fn envelope_wraps_term_with_type_and_options() {
    let term = Database::new("test".to_string()).as_json();
    let env = reql::make_envelope(term);
    assert_eq!(
        serde_json::to_string(&env).unwrap(),
        "[1,[14,[\"test\"]],{}]"
    );
}

#[test]
fn build_frame_is_token_length_payload() {
    let frame = reql::build_frame(1, vec![104, 105]);
    assert_eq!(
        frame,
        vec![1, 0, 0, 0, 0, 0, 0, 0, 2, 0, 0, 0, 104, 105]
    );
}
