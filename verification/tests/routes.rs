use gateway_core::routes::{default_rate_limit, GatewayConfig, RouteConfig, RouteError, RouteTable};

fn rule(path: &str, prefix: bool, methods: &[&str], target: &str) -> RouteConfig {
    RouteConfig {
        path: path.to_string(),
        prefix,
        target: target.to_string(),
        methods: methods.iter().map(|m| m.to_string()).collect(),
        rate_limit: None,
        auth_required: false,
        validation_schema: None,
    }
}

#[test]
fn route_dispatch() {
    let table = RouteTable::new(vec![rule("/api/users", false, &["GET", "POST"], "A")]);
    let served = table.lookup("GET", "/api/users").unwrap();
    assert_eq!(served.target, "A");
    assert_eq!(table.resolve("GET", "/api/users"), Ok(0));
    assert_eq!(table.resolve("POST", "/api/users"), Ok(0));
    assert_eq!(table.resolve("PUT", "/api/users"), Err(RouteError::MethodNotAllowed));
    assert_eq!(table.resolve("GET", "/api/orders"), Err(RouteError::NotFound));
}

#[test]
fn empty_table_finds_nothing() {
    let table = RouteTable::new(Vec::new());
    assert_eq!(table.len(), 0);
    assert_eq!(table.resolve("GET", "/"), Err(RouteError::NotFound));
    assert!(table.rule(0).is_none());
}

#[test]
fn earlier_rule_wins_where_patterns_overlap() {
    let table = RouteTable::new(vec![
        rule("/api", true, &[], "wide"),
        rule("/api/users", false, &["GET"], "narrow"),
    ]);
    assert_eq!(table.resolve("GET", "/api/users"), Ok(0));
    assert_eq!(table.lookup("GET", "/api/users").unwrap().target, "wide");

    let table = RouteTable::new(vec![
        rule("/api/users", false, &["GET"], "narrow"),
        rule("/api", true, &[], "wide"),
    ]);
    assert_eq!(table.resolve("GET", "/api/users"), Ok(0));
    assert_eq!(table.resolve("GET", "/api/orders"), Ok(1));
    assert_eq!(table.resolve("DELETE", "/api/users"), Ok(1));
}

#[test]
fn identical_rules_resolve_to_the_first() {
    let table = RouteTable::new(vec![
        rule("/x", false, &["GET"], "one"),
        rule("/x", false, &["GET"], "two"),
    ]);
    assert_eq!(table.resolve("GET", "/x"), Ok(0));
    assert_eq!(table.lookup("GET", "/x").unwrap().target, "one");
}

#[test]
fn method_is_sought_in_every_rule_of_the_path() {
    let table = RouteTable::new(vec![
        rule("/items", false, &["GET"], "read"),
        rule("/other", false, &["PATCH"], "other"),
        rule("/items", false, &["POST", "PUT"], "write"),
    ]);
    assert_eq!(table.resolve("GET", "/items"), Ok(0));
    assert_eq!(table.resolve("PUT", "/items"), Ok(2));
    assert_eq!(table.resolve("PATCH", "/items"), Err(RouteError::MethodNotAllowed));
    assert_eq!(table.resolve("PATCH", "/nowhere"), Err(RouteError::NotFound));
}

#[test]
fn no_methods_listed_means_all_methods() {
    let table = RouteTable::new(vec![rule("/any", false, &[], "T")]);
    for method in ["GET", "POST", "PUT", "DELETE", "PATCH", "OPTIONS", "brew"] {
        assert_eq!(table.resolve(method, "/any"), Ok(0));
    }
}

#[test]
fn methods_are_compared_letter_for_letter() {
    let table = RouteTable::new(vec![rule("/a", false, &["GET"], "T")]);
    assert_eq!(table.resolve("get", "/a"), Err(RouteError::MethodNotAllowed));
    assert_eq!(table.resolve("GE", "/a"), Err(RouteError::MethodNotAllowed));
    assert_eq!(table.resolve("GETS", "/a"), Err(RouteError::MethodNotAllowed));
    assert_eq!(table.resolve("", "/a"), Err(RouteError::MethodNotAllowed));
}

#[test]
fn exact_pattern_matches_the_whole_path_only() {
    let table = RouteTable::new(vec![rule("/api/users", false, &[], "T")]);
    assert_eq!(table.resolve("GET", "/api/users/7"), Err(RouteError::NotFound));
    assert_eq!(table.resolve("GET", "/api/user"), Err(RouteError::NotFound));
    assert_eq!(table.resolve("GET", "/api/users/"), Err(RouteError::NotFound));
    assert_eq!(table.resolve("GET", ""), Err(RouteError::NotFound));
}

#[test]
fn prefix_pattern_matches_what_begins_with_it() {
    let table = RouteTable::new(vec![rule("/api/", true, &["GET"], "T")]);
    assert_eq!(table.resolve("GET", "/api/"), Ok(0));
    assert_eq!(table.resolve("GET", "/api/users/7"), Ok(0));
    assert_eq!(table.resolve("GET", "/api"), Err(RouteError::NotFound));
    assert_eq!(table.resolve("GET", "/apx/users"), Err(RouteError::NotFound));
    assert_eq!(table.resolve("POST", "/api/users"), Err(RouteError::MethodNotAllowed));
}

#[test]
fn empty_prefix_matches_every_path() {
    let table = RouteTable::new(vec![rule("", true, &[], "all")]);
    assert_eq!(table.resolve("GET", ""), Ok(0));
    assert_eq!(table.resolve("GET", "/anything"), Ok(0));
}

#[test]
fn paths_beyond_ascii_are_compared_by_character() {
    let table = RouteTable::new(vec![
        rule("/caf\u{e9}", false, &[], "exact"),
        rule("/\u{65e5}\u{672c}", true, &[], "prefix"),
    ]);
    assert_eq!(table.resolve("GET", "/caf\u{e9}"), Ok(0));
    assert_eq!(table.resolve("GET", "/cafe"), Err(RouteError::NotFound));
    assert_eq!(table.resolve("GET", "/\u{65e5}\u{672c}\u{8a9e}"), Ok(1));
    assert_eq!(table.resolve("GET", "/\u{65e5}"), Err(RouteError::NotFound));
}

#[test]
fn rule_is_handed_out_by_index() {
    let table = RouteTable::new(vec![rule("/a", false, &[], "A"), rule("/b", false, &[], "B")]);
    assert_eq!(table.len(), 2);
    assert_eq!(table.rule(1).unwrap().target, "B");
    assert!(table.rule(2).is_none());
}

#[test]
fn rule_answers_for_itself() {
    let one = rule("/files", true, &["GET", "HEAD"], "T");
    assert!(one.matches_path("/files/a.txt"));
    assert!(!one.matches_path("/file"));
    assert!(one.allows("HEAD"));
    assert!(!one.allows("POST"));
    assert!(one.matches("GET", "/files"));
    assert!(!one.matches("POST", "/files"));
    assert!(!one.matches("GET", "/else"));
}

#[test]
fn route_limit_replaces_the_default() {
    let mut limited = rule("/slow", false, &[], "T");
    limited.rate_limit = Some(3);
    let table = RouteTable::new(vec![limited, rule("/fast", false, &["GET"], "T")]);
    assert_eq!(table.rule(0).unwrap().limit_or(50), 3);
    assert_eq!(table.rule(1).unwrap().limit_or(50), 50);
    assert_eq!(table.effective_limit(50, "GET", "/slow"), 3);
    assert_eq!(table.effective_limit(50, "GET", "/fast"), 50);
    assert_eq!(table.effective_limit(50, "POST", "/fast"), 50);
    assert_eq!(table.effective_limit(50, "GET", "/none"), 50);
}

#[test]
fn default_rate_limit_is_one_hundred() {
    assert_eq!(default_rate_limit(), 100);
}

#[test]
fn configuration_wants_positive_limits() {
    let mut config = GatewayConfig {
        listen_address: "127.0.0.1:8080".to_string(),
        jwt_secret: "s".to_string(),
        default_rate_limit: default_rate_limit(),
        routes: vec![rule("/a", false, &[], "A"), rule("/b", false, &[], "B")],
    };
    assert!(config.is_valid());
    config.routes[1].rate_limit = Some(1);
    assert!(config.is_valid());
    config.routes[1].rate_limit = Some(0);
    assert!(!config.is_valid());
    config.routes[1].rate_limit = None;
    config.default_rate_limit = 0;
    assert!(!config.is_valid());
}

#[test]
fn schema_is_carried_untouched() {
    let mut with_schema = rule("/a", false, &[], "A");
    let mut schema = serde_json::Map::new();
    schema.insert("type".to_string(), serde_json::Value::from("object"));
    with_schema.validation_schema = Some(serde_json::Value::Object(schema.clone()));
    let table = RouteTable::new(vec![with_schema]);
    assert_eq!(table.rule(0).unwrap().validation_schema, Some(serde_json::Value::Object(schema)));
}
