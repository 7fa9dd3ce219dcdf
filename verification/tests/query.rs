use workingdb::query::executor::{
    compile_expression, copy_expr, execute_plan, CompiledExpression, ComparisonOp, ExecutionPlan,
    ExecutionStep,
};
use workingdb::query::parser::{
    parse_query, split, BinaryOperator, Expr, Literal, ParsedQuery, UnaryOperator, WhereClause,
};
use workingdb::query::{QueryError, QueryProcessor, QueryResult, Value};

fn column(name: &str) -> Box<Expr> {
    Box::new(Expr::Column(name.to_string()))
}

fn integer(n: i64) -> Box<Expr> {
    Box::new(Expr::Literal(Literal::Integer(n)))
}

fn binary(left: Box<Expr>, op: BinaryOperator, right: Box<Expr>) -> Expr {
    Expr::BinaryOp { left, op, right }
}

#[test]
fn test_parse_select() {
    let query = "SELECT id, name FROM users";
    let result = parse_query(query);

    assert!(result.is_ok(), "Failed to parse valid SELECT query");

    if let Ok(ParsedQuery::Select { columns, table, .. }) = result {
        assert_eq!(columns, vec!["id".to_string(), "name".to_string()]);
        assert_eq!(table, "users".to_string());
    } else {
        panic!("Expected SELECT query");
    }
}

#[test]
fn test_execution_plan() {
    // Create a simple SELECT query
    let query = ParsedQuery::Select {
        columns: vec!["id".to_string(), "name".to_string()],
        table: "users".to_string(),
        where_clause: None,
        limit: None,
    };

    // Create execution plan
    let plan = ExecutionPlan::from_parsed_query(query);

    // Verify plan structure
    assert_eq!(plan.output_columns, vec!["id".to_string(), "name".to_string()]);
    assert_eq!(plan.steps.len(), 2);

    // Check steps
    match &plan.steps[0] {
        ExecutionStep::Scan { table, filter } => {
            assert_eq!(table, "users");
            assert!(filter.is_none());
        }
        _ => panic!("Expected Scan step"),
    }

    match &plan.steps[1] {
        ExecutionStep::Project { columns } => {
            assert_eq!(columns, &vec!["id".to_string(), "name".to_string()]);
        }
        _ => panic!("Expected Project step"),
    }
}

#[test]
fn query_select_is_trimmed_and_lowered() {
    match parse_query("  \n SELECT  Id ,Name,  \tAge  FROM   Users \t\n") {
        Ok(ParsedQuery::Select { columns, table, where_clause: None, limit: None }) => {
            assert_eq!(columns, vec!["id", "name", "age"]);
            assert_eq!(table, "users");
        }
        other => panic!("{:?}", other),
    }
    // No column at all is one column without a name.
    match parse_query("select from t") {
        Ok(ParsedQuery::Select { columns, table, .. }) => {
            assert_eq!(columns, vec![""]);
            assert_eq!(table, "t");
        }
        other => panic!("{:?}", other),
    }
    // `from` is looked for anywhere, in names too.
    match parse_query("selectfrom") {
        Ok(ParsedQuery::Select { columns, table, .. }) => {
            assert_eq!(columns, vec![""]);
            assert_eq!(table, "");
        }
        other => panic!("{:?}", other),
    }
    match parse_query("SELECT NAME FROM Ünïcode") {
        Ok(ParsedQuery::Select { columns, table, .. }) => {
            assert_eq!(columns, vec!["name"]);
            assert_eq!(table, "ünïcode");
        }
        other => panic!("{:?}", other),
    }
}

#[test]
fn query_select_needs_from_exactly_once() {
    assert_eq!(parse_query("select a").err(), Some("Invalid SELECT query".to_string()));
    assert_eq!(
        parse_query("select a from b from c").err(),
        Some("Invalid SELECT query".to_string())
    );
    assert_eq!(
        parse_query("select a_from_x from t").err(),
        Some("Invalid SELECT query".to_string())
    );
}

#[test]
fn query_other_statements_are_not_parsed() {
    assert_eq!(
        parse_query("INSERT INTO t VALUES (1)").err(),
        Some("INSERT parsing not implemented".to_string())
    );
    assert_eq!(
        parse_query("update t set a = 1").err(),
        Some("UPDATE parsing not implemented".to_string())
    );
    assert_eq!(
        parse_query("Delete From t").err(),
        Some("DELETE parsing not implemented".to_string())
    );
    assert_eq!(
        parse_query("create table t (a int)").err(),
        Some("CREATE TABLE parsing not implemented".to_string())
    );
    assert_eq!(
        parse_query("  DROP Table T ").err(),
        Some("Unsupported query type: drop table t".to_string())
    );
    assert_eq!(parse_query("").err(), Some("Unsupported query type: ".to_string()));
    assert_eq!(
        parse_query("create  table t").err(),
        Some("Unsupported query type: create  table t".to_string())
    );
}

#[test]
fn query_text_is_parted_like_the_standard_library_parts_it() {
    for (text, pattern) in [
        ("a,b,c", ","),
        ("", ","),
        (",", ","),
        (",,", ","),
        ("a,", ","),
        (",a", ","),
        ("select a from b", "from"),
        ("fromfrom", "from"),
        ("frofrom", "from"),
        ("ffrom", "from"),
        ("aaa", "aa"),
        ("aaaa", "aa"),
        ("abc", "abcd"),
        ("abc", "abc"),
    ] {
        let expected: Vec<Vec<u8>> = text.split(pattern).map(|p| p.as_bytes().to_vec()).collect();
        assert_eq!(split(text.as_bytes(), pattern.as_bytes()), expected, "{:?} {:?}", text, pattern);
    }
    assert_eq!(split(b"abc", b""), vec![b"abc".to_vec()]);
}

#[test]
fn query_constants_are_compiled() {
    assert!(matches!(compile_expression(&integer(1)), CompiledExpression::Constant(true)));
    assert!(matches!(compile_expression(&integer(0)), CompiledExpression::Constant(false)));
    assert!(matches!(
        compile_expression(&integer(2)),
        CompiledExpression::Complex { expr: Expr::Literal(Literal::Integer(2)) }
    ));
    assert!(matches!(
        compile_expression(&Expr::Literal(Literal::Null)),
        CompiledExpression::Complex { expr: Expr::Literal(Literal::Null) }
    ));
    assert!(matches!(
        compile_expression(&Expr::Column("c".to_string())),
        CompiledExpression::Complex { expr: Expr::Column(c) } if c == "c"
    ));
}

#[test]
fn query_column_against_literal_is_compiled() {
    assert!(matches!(
        compile_expression(&binary(column("age"), BinaryOperator::Equal, integer(7))),
        CompiledExpression::ColumnEqValue { column, value: Literal::Integer(7) } if column == "age"
    ));
    for (op, cmp) in [
        (BinaryOperator::NotEqual, ComparisonOp::Ne),
        (BinaryOperator::LessThan, ComparisonOp::Lt),
        (BinaryOperator::LessThanOrEqual, ComparisonOp::Lte),
        (BinaryOperator::GreaterThan, ComparisonOp::Gt),
        (BinaryOperator::GreaterThanOrEqual, ComparisonOp::Gte),
    ] {
        match compile_expression(&binary(column("age"), op, integer(1))) {
            CompiledExpression::ColumnCompare { column, op, value: Literal::Integer(1) } => {
                assert_eq!(column, "age");
                assert_eq!(op, cmp);
            }
            other => panic!("{:?}", other),
        }
    }
    // Under any other operator the expression stays as it stands, `AND` and `OR` too.
    for op in [BinaryOperator::Add, BinaryOperator::Divide, BinaryOperator::And, BinaryOperator::Or] {
        assert!(matches!(
            compile_expression(&binary(column("a"), op, integer(1))),
            CompiledExpression::Complex { expr: Expr::BinaryOp { .. } }
        ));
    }
    // A literal against a column is no comparison.
    assert!(matches!(
        compile_expression(&binary(integer(1), BinaryOperator::Equal, column("a"))),
        CompiledExpression::Complex { .. }
    ));
}

#[test]
fn query_and_and_or_are_compiled_side_by_side() {
    let both = binary(
        Box::new(binary(column("a"), BinaryOperator::Equal, integer(1))),
        BinaryOperator::And,
        Box::new(binary(
            integer(1),
            BinaryOperator::Or,
            Box::new(Expr::UnaryOp { op: UnaryOperator::Not, expr: column("b") }),
        )),
    );
    match compile_expression(&both) {
        CompiledExpression::And { left, right } => {
            assert!(matches!(*left, CompiledExpression::ColumnEqValue { .. }));
            match *right {
                CompiledExpression::Or { left, right } => {
                    assert!(matches!(*left, CompiledExpression::Constant(true)));
                    assert!(matches!(
                        *right,
                        CompiledExpression::Complex { expr: Expr::UnaryOp { .. } }
                    ));
                }
                other => panic!("{:?}", other),
            }
        }
        other => panic!("{:?}", other),
    }
}

#[test]
fn query_expressions_are_copied_whole() {
    let call = Expr::Function {
        name: "coalesce".to_string(),
        args: vec![
            Expr::Column("a".to_string()),
            Expr::Literal(Literal::String("none".to_string())),
            Expr::Literal(Literal::Float(1.5f64.to_bits())),
            binary(column("b"), BinaryOperator::Multiply, integer(2)),
        ],
    };
    assert_eq!(format!("{:?}", copy_expr(&call)), format!("{:?}", call));
}

#[test]
fn query_plans() {
    let filter = || Some(WhereClause { expr: binary(column("id"), BinaryOperator::Equal, integer(3)) });

    let select = ExecutionPlan::from_parsed_query(ParsedQuery::Select {
        columns: vec!["a".to_string()],
        table: "t".to_string(),
        where_clause: filter(),
        limit: Some(10),
    });
    assert_eq!(select.output_columns, vec!["a"]);
    assert_eq!(select.steps.len(), 3);
    assert!(matches!(
        &select.steps[0],
        ExecutionStep::Scan { table, filter: Some(CompiledExpression::ColumnEqValue { .. }) } if table == "t"
    ));
    assert!(matches!(&select.steps[1], ExecutionStep::Project { columns } if columns == &vec!["a"]));
    assert!(matches!(&select.steps[2], ExecutionStep::Limit { count: 10 }));

    let insert = ExecutionPlan::from_parsed_query(ParsedQuery::Insert {
        table: "t".to_string(),
        columns: vec!["a".to_string()],
        values: vec![vec![Literal::Integer(1)]],
    });
    assert_eq!(insert.output_columns, vec!["affected_rows"]);
    assert_eq!(insert.steps.len(), 1);
    assert!(matches!(&insert.steps[0], ExecutionStep::Insert { table, .. } if table == "t"));

    let update = ExecutionPlan::from_parsed_query(ParsedQuery::Update {
        table: "t".to_string(),
        assignments: vec![("a".to_string(), Literal::Null)],
        where_clause: filter(),
    });
    assert_eq!(update.output_columns, vec!["affected_rows"]);
    assert_eq!(update.steps.len(), 2);
    assert!(matches!(&update.steps[0], ExecutionStep::Scan { table, filter: Some(_) } if table == "t"));
    assert!(matches!(&update.steps[1], ExecutionStep::Update { table, .. } if table == "t"));

    let delete = ExecutionPlan::from_parsed_query(ParsedQuery::Delete {
        table: "t".to_string(),
        where_clause: None,
    });
    assert_eq!(delete.output_columns, vec!["affected_rows"]);
    assert_eq!(delete.steps.len(), 2);
    assert!(matches!(&delete.steps[0], ExecutionStep::Scan { table, filter: None } if table == "t"));
    assert!(matches!(&delete.steps[1], ExecutionStep::Delete { table } if table == "t"));

    let create = ExecutionPlan::from_parsed_query(ParsedQuery::CreateTable {
        table: "t".to_string(),
        columns: vec![],
    });
    assert!(create.steps.is_empty());
    assert!(create.output_columns.is_empty());
}

#[test]
fn query_results() {
    let select = ExecutionPlan::from_parsed_query(ParsedQuery::Select {
        columns: vec!["id".to_string(), "name".to_string()],
        table: "users".to_string(),
        where_clause: None,
        limit: None,
    });
    match execute_plan(select) {
        Ok(QueryResult::Rows { columns, rows, affected_rows: 1 }) => {
            assert_eq!(columns, vec!["id", "name"]);
            assert_eq!(rows.len(), 1);
            assert!(matches!(&rows[0][..], [Value::Text(a), Value::Text(b)]
                if a == "Value for id" && b == "Value for name"));
        }
        _ => panic!("rows were expected"),
    }
    let delete = ExecutionPlan::from_parsed_query(ParsedQuery::Delete {
        table: "t".to_string(),
        where_clause: None,
    });
    assert!(matches!(execute_plan(delete), Ok(QueryResult::Modified { affected_rows: 1 })));
    let create = ExecutionPlan::from_parsed_query(ParsedQuery::CreateTable {
        table: "t".to_string(),
        columns: vec![],
    });
    assert!(matches!(execute_plan(create), Ok(QueryResult::Modified { affected_rows: 1 })));
}

#[test]
fn query_processor_runs_a_query() {
    let processor = QueryProcessor::new();
    match processor.execute("SELECT id FROM users") {
        Ok(QueryResult::Rows { columns, rows, .. }) => {
            assert_eq!(columns, vec!["id"]);
            assert!(matches!(&rows[0][..], [Value::Text(a)] if a == "Value for id"));
        }
        _ => panic!("rows were expected"),
    }
    match processor.execute("explain everything") {
        Err(e @ QueryError::ParseError(_)) => {
            assert_eq!(e.message(), "Parse error: Unsupported query type: explain everything");
        }
        _ => panic!("a parse error was expected"),
    }
}

#[test]
fn query_errors_in_words() {
    assert_eq!(QueryError::ParseError("a".to_string()).message(), "Parse error: a");
    assert_eq!(QueryError::PlanningError("b".to_string()).message(), "Planning error: b");
    assert_eq!(QueryError::ExecutionError("c".to_string()).message(), "Execution error: c");
    assert_eq!(QueryError::StorageError("d".to_string()).message(), "Storage error: d");
}
