use cobertura_rs::{BasicEvent, Coverage, FilteredEvent, Parser, ParserError, Poll, Tag};

fn tag(name: &str, attrs: &[(&str, &str)]) -> FilteredEvent {
    FilteredEvent::Start(Tag {
        name: name.to_string(),
        attrs: attrs.iter().map(|(k, v)| (k.to_string(), v.to_string())).collect(),
    })
}

fn empty_tag(name: &str, attrs: &[(&str, &str)]) -> FilteredEvent {
    FilteredEvent::AttributesOnly(Tag {
        name: name.to_string(),
        attrs: attrs.iter().map(|(k, v)| (k.to_string(), v.to_string())).collect(),
    })
}

fn end(name: &str) -> FilteredEvent {
    FilteredEvent::End(name.to_string())
}

fn text(payload: &str) -> FilteredEvent {
    FilteredEvent::Text(payload.to_string())
}

fn root_attrs() -> Vec<(&'static str, &'static str)> {
    vec![
        ("line-rate", "0.5"),
        ("branch-rate", "0.25"),
        ("lines-covered", "10"),
        ("lines-valid", "20"),
        ("branches-covered", "1"),
        ("branches-valid", "4"),
        ("complexity", "0.0"),
        ("version", "2.0.3"),
        ("timestamp", "1700000000"),
    ]
}

fn package_attrs(name: &str) -> Vec<(String, String)> {
    vec![
        ("name".to_string(), name.to_string()),
        ("line-rate".to_string(), "1.0".to_string()),
        ("branch-rate".to_string(), "1.0".to_string()),
        ("complexity".to_string(), "0.0".to_string()),
    ]
}

fn package_tag(name: &str) -> FilteredEvent {
    FilteredEvent::Start(Tag { name: "package".to_string(), attrs: package_attrs(name) })
}

fn class_tag(name: &str) -> FilteredEvent {
    tag(
        "class",
        &[
            ("name", name),
            ("filename", "src/a.rs"),
            ("line-rate", "1.0"),
            ("branch-rate", "1.0"),
            ("complexity", "0.0"),
        ],
    )
}

fn feed(parser: &mut Parser, events: &[FilteredEvent]) -> Poll<Result<Coverage, ParserError>> {
    let mut last = Poll::Pending;
    for event in events {
        last = parser.consume_event(event);
    }
    last
}

fn expect_done(result: Poll<Result<Coverage, ParserError>>) -> Coverage {
    match result {
        Poll::Ready(Ok(doc)) => doc,
        other => panic!("expected a completed document, got {:?}", other),
    }
}

fn expect_error(result: Poll<Result<Coverage, ParserError>>) -> ParserError {
    match result {
        Poll::Ready(Err(e)) => e,
        other => panic!("expected a parse error, got {:?}", other),
    }
}

fn minimal_events() -> Vec<FilteredEvent> {
    vec![tag("coverage", &root_attrs()), empty_tag("packages", &[]), end("coverage")]
}

#[test]
fn minimal_document_parses_empty() {
    let mut parser = Parser::new();
    let doc = expect_done(feed(&mut parser, &minimal_events()));
    assert_eq!(doc.packages.len(), 0);
    assert_eq!(doc.sources.len(), 0);
    assert_eq!(doc.line_rate, "0.5");
    assert_eq!(doc.branch_rate, "0.25");
    assert_eq!(doc.lines_covered, 10);
    assert_eq!(doc.lines_valid, 20);
    assert_eq!(doc.branches_covered, 1);
    assert_eq!(doc.branches_valid, 4);
    assert_eq!(doc.complexity, "0.0");
    assert_eq!(doc.version, "2.0.3");
    assert_eq!(doc.timestamp, 1700000000);
}

#[test]
fn same_events_two_instances_equal_documents() {
    let events = vec![
        tag("coverage", &root_attrs()),
        tag("packages", &[]),
        package_tag("p1"),
        empty_tag("classes", &[]),
        end("package"),
        end("packages"),
        end("coverage"),
    ];
    let mut first = Parser::new();
    let mut second = Parser::new();
    let doc1 = expect_done(feed(&mut first, &events));
    let doc2 = expect_done(feed(&mut second, &events));
    assert_eq!(doc1, doc2);
}

#[test]
fn packages_keep_source_order() {
    let events = vec![
        tag("coverage", &root_attrs()),
        tag("packages", &[]),
        package_tag("p1"),
        tag("classes", &[]),
        class_tag("c1"),
        end("class"),
        end("classes"),
        end("package"),
        package_tag("p2"),
        tag("classes", &[]),
        class_tag("c2"),
        end("class"),
        end("classes"),
        end("package"),
        end("packages"),
        end("coverage"),
    ];
    let mut parser = Parser::new();
    let doc = expect_done(feed(&mut parser, &events));
    assert_eq!(doc.packages.len(), 2);
    assert_eq!(doc.packages[0].name, "p1");
    assert_eq!(doc.packages[1].name, "p2");
    assert_eq!(doc.packages[0].classes.len(), 1);
    assert_eq!(doc.packages[0].classes[0].name, "c1");
    assert_eq!(doc.packages[1].classes[0].name, "c2");
}

#[test]
fn line_finalization_yields_two_lines() {
    let events = vec![
        tag("coverage", &root_attrs()),
        tag("packages", &[]),
        package_tag("p"),
        tag("classes", &[]),
        class_tag("c"),
        tag("lines", &[]),
        empty_tag("line", &[("number", "1"), ("hits", "3")]),
        tag("line", &[("number", "2"), ("hits", "0")]),
        tag("conditions", &[]),
        empty_tag("condition", &[("type", "jump"), ("coverage", "50%")]),
        end("conditions"),
        end("line"),
        end("lines"),
        end("class"),
        end("classes"),
        end("package"),
        end("packages"),
        end("coverage"),
    ];
    let mut parser = Parser::new();
    let doc = expect_done(feed(&mut parser, &events));
    let class = &doc.packages[0].classes[0];
    assert_eq!(class.lines.len(), 2);
    assert_eq!(class.lines[0].number, 1);
    assert_eq!(class.lines[0].hits, 3);
    assert!(!class.lines[0].branch);
    assert_eq!(class.lines[0].conditions.len(), 0);
    assert_eq!(class.lines[1].number, 2);
    assert_eq!(class.lines[1].hits, 0);
    assert_eq!(class.lines[1].conditions.len(), 1);
    assert_eq!(class.lines[1].conditions[0].type_, "jump");
    assert_eq!(class.lines[1].conditions[0].coverage, "50%");
    assert_eq!(class.lines[1].conditions[0].number, 0);
}

#[test]
fn self_closed_classes_equals_absent_classes() {
    let with_self_closed = vec![
        tag("coverage", &root_attrs()),
        tag("packages", &[]),
        package_tag("a"),
        empty_tag("classes", &[]),
        end("package"),
        end("packages"),
        end("coverage"),
    ];
    let without_classes = vec![
        tag("coverage", &root_attrs()),
        tag("packages", &[]),
        package_tag("a"),
        end("package"),
        end("packages"),
        end("coverage"),
    ];
    let mut first = Parser::new();
    let mut second = Parser::new();
    let doc1 = expect_done(feed(&mut first, &with_self_closed));
    let doc2 = expect_done(feed(&mut second, &without_classes));
    assert_eq!(doc1, doc2);
    assert_eq!(doc1.packages[0].classes.len(), 0);
}

#[test]
fn self_closed_package_is_rejected() {
    let mut parser = Parser::new();
    let events = vec![
        tag("coverage", &root_attrs()),
        tag("packages", &[]),
        FilteredEvent::AttributesOnly(Tag {
            name: "package".to_string(),
            attrs: package_attrs("a"),
        }),
    ];
    let err = expect_error(feed(&mut parser, &events));
    match err {
        ParserError::ExpectedStartOrEnd { got, expected_starts, expected_ends } => {
            assert_eq!(got, BasicEvent::Start("package".to_string()));
            assert_eq!(expected_starts, vec!["package".to_string()]);
            assert_eq!(expected_ends, vec!["packages".to_string()]);
        }
        other => panic!("unexpected error {:?}", other),
    }
}

#[test]
fn bogus_child_of_coverage_names_alternatives() {
    let mut parser = Parser::new();
    let events = vec![tag("coverage", &root_attrs()), tag("bogus", &[])];
    let err = expect_error(feed(&mut parser, &events));
    match err {
        ParserError::ExpectedStart { got, expected } => {
            assert_eq!(got, BasicEvent::Start("bogus".to_string()));
            assert_eq!(expected, vec!["sources".to_string(), "packages".to_string()]);
        }
        other => panic!("unexpected error {:?}", other),
    }
    // No partial document leaks: the parser is unstarted again and a
    // fresh document can start at once.
    let doc = expect_done(feed(&mut parser, &minimal_events()));
    assert_eq!(doc.packages.len(), 0);
}

#[test]
fn missing_required_attribute_is_named_per_element() {
    let cases: Vec<(Vec<FilteredEvent>, &str)> = vec![
        (
            vec![tag(
                "coverage",
                &[
                    ("line-rate", "0.5"),
                    ("branch-rate", "0.25"),
                    ("lines-covered", "10"),
                    ("lines-valid", "20"),
                    ("branches-covered", "1"),
                    ("branches-valid", "4"),
                    ("complexity", "0.0"),
                    ("timestamp", "1700000000"),
                ],
            )],
            "version",
        ),
        (
            vec![
                tag("coverage", &root_attrs()),
                tag("packages", &[]),
                tag(
                    "package",
                    &[("line-rate", "1.0"), ("branch-rate", "1.0"), ("complexity", "0.0")],
                ),
            ],
            "name",
        ),
        (
            vec![
                tag("coverage", &root_attrs()),
                tag("packages", &[]),
                package_tag("p"),
                tag("classes", &[]),
                tag(
                    "class",
                    &[
                        ("name", "c"),
                        ("line-rate", "1.0"),
                        ("branch-rate", "1.0"),
                        ("complexity", "0.0"),
                    ],
                ),
            ],
            "filename",
        ),
        (
            vec![
                tag("coverage", &root_attrs()),
                tag("packages", &[]),
                package_tag("p"),
                tag("classes", &[]),
                class_tag("c"),
                tag("methods", &[]),
                tag("method", &[("name", "m"), ("line-rate", "1.0"), ("branch-rate", "1.0")]),
            ],
            "signature",
        ),
        (
            vec![
                tag("coverage", &root_attrs()),
                tag("packages", &[]),
                package_tag("p"),
                tag("classes", &[]),
                class_tag("c"),
                tag("lines", &[]),
                empty_tag("line", &[("number", "1")]),
            ],
            "hits",
        ),
        (
            vec![
                tag("coverage", &root_attrs()),
                tag("packages", &[]),
                package_tag("p"),
                tag("classes", &[]),
                class_tag("c"),
                tag("lines", &[]),
                tag("line", &[("number", "1"), ("hits", "0")]),
                tag("conditions", &[]),
                empty_tag("condition", &[("type", "jump")]),
            ],
            "coverage",
        ),
    ];
    for (events, name) in cases {
        let mut parser = Parser::new();
        let err = expect_error(feed(&mut parser, &events));
        assert_eq!(err, ParserError::MissingRequiredAttribute(name.to_string()));
    }
}

#[test]
fn unparsable_attribute_value_is_named() {
    let mut parser = Parser::new();
    let events = vec![tag(
        "coverage",
        &[
            ("line-rate", "abc"),
            ("branch-rate", "0.25"),
            ("lines-covered", "10"),
            ("lines-valid", "20"),
            ("branches-covered", "1"),
            ("branches-valid", "4"),
            ("complexity", "0.0"),
            ("version", "2.0.3"),
            ("timestamp", "1700000000"),
        ],
    )];
    let err = expect_error(feed(&mut parser, &events));
    assert_eq!(err, ParserError::InvalidValueForAttribute("line-rate".to_string()));
    // The failed start leaves the parser unstarted.
    let doc = expect_done(feed(&mut parser, &minimal_events()));
    assert_eq!(doc.packages.len(), 0);
}

#[test]
fn unparsable_line_attributes_are_named() {
    let prefix = vec![
        tag("coverage", &root_attrs()),
        tag("packages", &[]),
        package_tag("p"),
        tag("classes", &[]),
        class_tag("c"),
        tag("lines", &[]),
    ];
    let cases: Vec<(FilteredEvent, &str)> = vec![
        (empty_tag("line", &[("number", "x"), ("hits", "0")]), "number"),
        (empty_tag("line", &[("number", "1"), ("hits", "-1")]), "hits"),
        (empty_tag("line", &[("number", "1"), ("hits", "0"), ("branch", "maybe")]), "branch"),
        (
            empty_tag(
                "line",
                &[("number", "99999999999999999999999999"), ("hits", "0")],
            ),
            "number",
        ),
    ];
    for (line_event, name) in cases {
        let mut parser = Parser::new();
        let mut events = prefix.clone();
        events.push(line_event);
        let err = expect_error(feed(&mut parser, &events));
        assert_eq!(err, ParserError::InvalidValueForAttribute(name.to_string()));
    }
}

#[test]
fn branch_and_condition_coverage_attributes_bind() {
    let events = vec![
        tag("coverage", &root_attrs()),
        tag("packages", &[]),
        package_tag("p"),
        tag("classes", &[]),
        class_tag("c"),
        tag("lines", &[]),
        empty_tag(
            "line",
            &[
                ("number", "7"),
                ("hits", "+2"),
                ("branch", "true"),
                ("condition-coverage", "50% (1/2)"),
            ],
        ),
        end("lines"),
        end("class"),
        end("classes"),
        end("package"),
        end("packages"),
        end("coverage"),
    ];
    let mut parser = Parser::new();
    let doc = expect_done(feed(&mut parser, &events));
    let line = &doc.packages[0].classes[0].lines[0];
    assert_eq!(line.number, 7);
    assert_eq!(line.hits, 2);
    assert!(line.branch);
    assert_eq!(line.condition_coverage.as_deref(), Some("50% (1/2)"));
}

#[test]
fn duplicate_attribute_keeps_last_value() {
    let events = vec![
        tag("coverage", &root_attrs()),
        tag("packages", &[]),
        FilteredEvent::Start(Tag {
            name: "package".to_string(),
            attrs: vec![
                ("name".to_string(), "first".to_string()),
                ("line-rate".to_string(), "1.0".to_string()),
                ("branch-rate".to_string(), "1.0".to_string()),
                ("complexity".to_string(), "0.0".to_string()),
                ("name".to_string(), "second".to_string()),
            ],
        }),
        empty_tag("classes", &[]),
        end("package"),
        end("packages"),
        end("coverage"),
    ];
    let mut parser = Parser::new();
    let doc = expect_done(feed(&mut parser, &events));
    assert_eq!(doc.packages[0].name, "second");
}

#[test]
fn unknown_attributes_are_ignored() {
    let mut attrs = root_attrs();
    attrs.push(("unrelated", "whatever"));
    let events = vec![tag("coverage", &attrs), empty_tag("packages", &[]), end("coverage")];
    let mut parser = Parser::new();
    let doc = expect_done(feed(&mut parser, &events));
    assert_eq!(doc.version, "2.0.3");
}

#[test]
fn method_lines_attach_to_method() {
    let events = vec![
        tag("coverage", &root_attrs()),
        tag("packages", &[]),
        package_tag("p"),
        tag("classes", &[]),
        class_tag("c"),
        tag("methods", &[]),
        tag(
            "method",
            &[
                ("name", "run"),
                ("signature", "()V"),
                ("line-rate", "1.0"),
                ("branch-rate", "1.0"),
            ],
        ),
        tag("lines", &[]),
        empty_tag("line", &[("number", "3"), ("hits", "5")]),
        end("lines"),
        end("method"),
        end("methods"),
        end("class"),
        end("classes"),
        end("package"),
        end("packages"),
        end("coverage"),
    ];
    let mut parser = Parser::new();
    let doc = expect_done(feed(&mut parser, &events));
    let class = &doc.packages[0].classes[0];
    assert_eq!(class.methods.len(), 1);
    assert_eq!(class.methods[0].name, "run");
    assert_eq!(class.methods[0].signature, "()V");
    assert_eq!(class.methods[0].lines.len(), 1);
    assert_eq!(class.methods[0].lines[0].number, 3);
    assert_eq!(class.methods[0].lines[0].hits, 5);
    assert_eq!(class.lines.len(), 0);
}

#[test]
fn sources_collect_text_entries() {
    let events = vec![
        tag("coverage", &root_attrs()),
        tag("sources", &[]),
        tag("source", &[]),
        text("/workspace/src"),
        end("source"),
        end("sources"),
        empty_tag("packages", &[]),
        end("coverage"),
    ];
    let mut parser = Parser::new();
    let doc = expect_done(feed(&mut parser, &events));
    assert_eq!(doc.sources.len(), 1);
    assert_eq!(doc.sources[0].data, "/workspace/src");
}

#[test]
fn text_outside_source_is_rejected() {
    let mut parser = Parser::new();
    let events = vec![tag("coverage", &root_attrs()), text("stray")];
    let err = expect_error(feed(&mut parser, &events));
    match err {
        ParserError::ExpectedStartOrEnd { got, expected_starts, expected_ends } => {
            assert_eq!(got, BasicEvent::Text);
            assert_eq!(expected_starts, vec!["sources".to_string(), "packages".to_string()]);
            assert_eq!(expected_ends, vec!["coverage".to_string()]);
        }
        other => panic!("unexpected error {:?}", other),
    }
}

#[test]
fn wrong_end_tag_is_an_expected_end_error() {
    let mut parser = Parser::new();
    let events = vec![
        tag("coverage", &root_attrs()),
        tag("packages", &[]),
        package_tag("p"),
        tag("classes", &[]),
        class_tag("c"),
        tag("lines", &[]),
        end("package"),
    ];
    let err = expect_error(feed(&mut parser, &events));
    match err {
        ParserError::ExpectedEnd { got, expected } => {
            assert_eq!(got, BasicEvent::End("package".to_string()));
            assert_eq!(expected, vec!["lines".to_string()]);
        }
        other => panic!("unexpected error {:?}", other),
    }
}

#[test]
fn first_event_must_be_coverage_start() {
    let mut parser = Parser::new();
    let err = expect_error(feed(&mut parser, &[tag("packages", &[])]));
    match err {
        ParserError::ExpectedStart { got, expected } => {
            assert_eq!(got, BasicEvent::Start("packages".to_string()));
            assert_eq!(expected, vec!["coverage".to_string()]);
        }
        other => panic!("unexpected error {:?}", other),
    }
}

#[test]
fn facade_is_reusable_after_completion() {
    let mut parser = Parser::new();
    let doc1 = expect_done(feed(&mut parser, &minimal_events()));
    let doc2 = expect_done(feed(&mut parser, &minimal_events()));
    assert_eq!(doc1, doc2);
}

#[test]
fn reset_discards_in_progress_state() {
    let mut parser = Parser::new();
    assert_eq!(feed(&mut parser, &[tag("coverage", &root_attrs())]), Poll::Pending);
    parser.reset();
    let doc = expect_done(feed(&mut parser, &minimal_events()));
    assert_eq!(doc.packages.len(), 0);
}

#[test]
fn collected_lines_span_packages_in_order() {
    let events = vec![
        tag("coverage", &root_attrs()),
        tag("packages", &[]),
        package_tag("p1"),
        tag("classes", &[]),
        class_tag("c1"),
        tag("lines", &[]),
        empty_tag("line", &[("number", "1"), ("hits", "1")]),
        empty_tag("line", &[("number", "2"), ("hits", "0")]),
        end("lines"),
        end("class"),
        end("classes"),
        end("package"),
        package_tag("p2"),
        tag("classes", &[]),
        class_tag("c2"),
        tag("lines", &[]),
        empty_tag("line", &[("number", "9"), ("hits", "4")]),
        end("lines"),
        end("class"),
        end("classes"),
        end("package"),
        end("packages"),
        end("coverage"),
    ];
    let mut parser = Parser::new();
    let doc = expect_done(feed(&mut parser, &events));
    let lines = doc.lines();
    let numbers: Vec<usize> = lines.iter().map(|l| l.number).collect();
    assert_eq!(numbers, vec![1, 2, 9]);
}

#[test]
fn error_constructors_carry_their_context() {
    let e = ParserError::start(BasicEvent::Text, vec!["coverage".to_string()]);
    assert_eq!(
        e,
        ParserError::ExpectedStart {
            got: BasicEvent::Text,
            expected: vec!["coverage".to_string()],
        }
    );
    let e = ParserError::end(BasicEvent::End("x".to_string()), vec!["lines".to_string()]);
    assert_eq!(
        e,
        ParserError::ExpectedEnd {
            got: BasicEvent::End("x".to_string()),
            expected: vec!["lines".to_string()],
        }
    );
    let e = ParserError::start_end(
        BasicEvent::Empty("y".to_string()),
        vec!["line".to_string()],
        vec!["lines".to_string()],
    );
    assert_eq!(
        e,
        ParserError::ExpectedStartOrEnd {
            got: BasicEvent::Empty("y".to_string()),
            expected_starts: vec!["line".to_string()],
            expected_ends: vec!["lines".to_string()],
        }
    );
}
