use parsable::attributes::{FieldAttributes, RootAttributes};
use parsable::reader::{Expected, Reader};
use parsable::schema::{
    FieldSchema, FieldShape, RecordSchema, Schema, UnionSchema, Value, VariantSchema,
};

fn text_field(name: &str, pattern: &str) -> FieldSchema {
    let mut attrs = FieldAttributes::new();
    attrs.regex = Some(pattern.to_string());
    FieldSchema { name: name.to_string(), attributes: attrs, shape: FieldShape::Text }
}

fn literal_field(name: &str, lit: &str) -> FieldSchema {
    let mut attrs = FieldAttributes::new();
    attrs.value = Some(lit.to_string());
    FieldSchema { name: name.to_string(), attributes: attrs, shape: FieldShape::Text }
}

fn record(fields: Vec<FieldSchema>) -> RecordSchema {
    RecordSchema {
        item_name: "TestRecord".to_string(),
        attributes: RootAttributes::new(),
        fields,
    }
}

fn unit_variant(name: &str, token: &str) -> VariantSchema {
    VariantSchema {
        name: name.to_string(),
        attributes: FieldAttributes::new(),
        token: Some(token.to_string()),
        fields: Vec::new(),
    }
}

fn union(variants: Vec<VariantSchema>) -> UnionSchema {
    UnionSchema {
        item_name: "TestUnion".to_string(),
        attributes: RootAttributes::new(),
        variants,
    }
}

fn text_of(v: &Value) -> String {
    match v {
        Value::Text(t) => t.clone(),
        other => panic!("expected a text value, got {:?}", other),
    }
}

fn record_fields(v: &Value) -> &Vec<Value> {
    match v {
        Value::Record(rv) => &rv.fields,
        other => panic!("expected a record value, got {:?}", other),
    }
}

#[test]
fn token_schema_consumes_exact_literal() {
    let schema = Schema::Token("hello".to_string());
    let mut r = Reader::from_text("hello world");
    let out = schema.parse(&mut r);
    assert_eq!(out, Some(Value::Text("hello".to_string())));
    assert_eq!(r.get_index(), 5);

    let mut r2 = Reader::from_text("help");
    assert_eq!(schema.parse(&mut r2), None);
    assert_eq!(r2.get_index(), 0);
}

#[test]
fn pattern_schema_matches_anchored_prefix() {
    let schema = Schema::Pattern("[0-9]+".to_string());
    let mut r = Reader::from_text("123abc");
    let out = schema.parse(&mut r);
    assert_eq!(out, Some(Value::Text("123".to_string())));
    assert_eq!(r.get_index(), 3);

    // The pattern matches later in the input but not at the cursor: an
    // anchored match must fail without consuming anything.
    let mut r2 = Reader::from_text("abc123");
    assert_eq!(schema.parse(&mut r2), None);
    assert_eq!(r2.get_index(), 0);
}

#[test]
fn location_span_covers_consumed_input() {
    let mut rs = record(vec![literal_field("a", "one"), literal_field("b", "two")]);
    rs.attributes.located = true;
    let mut r = Reader::from_text("one two rest");
    let out = Schema::Record(rs).parse(&mut r).expect("parse should succeed");
    let loc = out.location().expect("a located record carries its span");
    assert_eq!(loc.start, 0);
    assert_eq!(loc.end, r.get_index());
    assert_eq!(loc.end, 8); // "one two " — the trailing space is consumed
}

#[test]
fn failed_parse_restores_cursor_exactly() {
    // The first field consumes input before the second fails: the abort must
    // rewind everything.
    let rs = record(vec![literal_field("a", "one"), literal_field("b", "two")]);
    let mut r = Reader::from_text("one three");
    assert_eq!(Schema::Record(rs).parse(&mut r), None);
    assert_eq!(r.get_index(), 0);
}

#[test]
fn marker_declarations_are_retracted_on_success_and_failure() {
    let mut good = record(vec![literal_field("a", "x")]);
    good.attributes.declared_markers.push("scope".to_string());
    let mut f = literal_field("a", "x");
    f.attributes.declared_markers.push("inner".to_string());
    good.fields = vec![f];

    let mut r = Reader::from_text("x");
    assert!(Schema::Record(good).parse(&mut r).is_some());
    assert_eq!(r.markers.len(), 0);

    let mut bad = record(vec![literal_field("a", "x")]);
    bad.attributes.declared_markers.push("scope".to_string());
    let mut r2 = Reader::from_text("y");
    assert!(Schema::Record(bad).parse(&mut r2).is_none());
    assert_eq!(r2.markers.len(), 0);
}

#[test]
fn marker_overrides_restored_on_failure_only() {
    // Field `a` overrides the marker; field `b` then fails, aborting the
    // record: the prior value must be back.
    let mut a = literal_field("a", "x");
    a.attributes.set_markers.push("flag".to_string());
    let b = literal_field("b", "y");
    let rs = record(vec![a, b]);

    let mut r = Reader::from_text("x z");
    assert_eq!(Schema::Record(rs).parse(&mut r), None);
    assert!(!r.get_marker("flag"));
    assert_eq!(r.markers.len(), 0);

    // On success the override persists into the surrounding scope.
    let mut a2 = literal_field("a", "x");
    a2.attributes.set_markers.push("flag".to_string());
    let b2 = literal_field("b", "y");
    let rs2 = record(vec![a2, b2]);
    let mut r2 = Reader::from_text("x y");
    assert!(Schema::Record(rs2).parse(&mut r2).is_some());
    assert!(r2.get_marker("flag"));
}

#[test]
fn cascade_forces_later_optional_fields_to_default() {
    // Optional field `a` has a prefix that is absent; cascading optional
    // field `b` would match at the cursor but must default without consuming.
    let mut a = text_field("a", "[a-z]+");
    a.attributes.prefix = Some("[".to_string());
    a.attributes.optional = Some(true);
    let mut b = text_field("b", "[0-9]+");
    b.attributes.optional = Some(true);
    let mut rs = record(vec![a, b]);
    rs.attributes.cascade = true;
    rs.attributes.located = false;

    let mut r = Reader::from_text("123");
    let out = Schema::Record(rs).parse(&mut r).expect("all fields default");
    let fields = record_fields(&out).iter().map(text_of).collect::<Vec<_>>();
    assert_eq!(fields, vec!["".to_string(), "".to_string()]);
    assert_eq!(r.get_index(), 0);

    // Without cascading, `b` parses the digits that are there.
    let mut a2 = text_field("a", "[a-z]+");
    a2.attributes.prefix = Some("[".to_string());
    a2.attributes.optional = Some(true);
    let mut b2 = text_field("b", "[0-9]+");
    b2.attributes.optional = Some(true);
    let rs2 = record(vec![a2, b2]);
    let mut r2 = Reader::from_text("123");
    let out2 = Schema::Record(rs2).parse(&mut r2).expect("b should parse");
    let fields2 = record_fields(&out2).iter().map(text_of).collect::<Vec<_>>();
    assert_eq!(fields2, vec!["".to_string(), "123".to_string()]);
    assert_eq!(r2.get_index(), 3);
}

#[test]
fn variant_alternation_is_order_sensitive() {
    // "a" is declared before "ab": input "ab" matches the first declared
    // prefix variant, not the longer one.
    let us = union(vec![unit_variant("Short", "a"), unit_variant("Long", "ab")]);
    let mut r = Reader::from_text("ab");
    let out = Schema::Union(us).parse(&mut r).expect("a variant matches");
    assert_eq!(out, Value::Variant(0, Vec::new()));
    assert_eq!(r.get_index(), 1);

    let us2 = union(vec![unit_variant("Long", "ab"), unit_variant("Short", "a")]);
    let mut r2 = Reader::from_text("ab");
    let out2 = Schema::Union(us2).parse(&mut r2).expect("a variant matches");
    assert_eq!(out2, Value::Variant(0, Vec::new()));
    assert_eq!(r2.get_index(), 2);
}

#[test]
fn repeated_field_with_separator_and_min() {
    let mut f = FieldSchema {
        name: "items".to_string(),
        attributes: FieldAttributes::new(),
        shape: FieldShape::VecItem(Box::new(Schema::Pattern("[0-9]+".to_string()))),
    };
    f.attributes.separator = Some(",".to_string());
    f.attributes.min = Some(1);
    let mut rs = record(vec![f]);
    rs.attributes.located = false;

    let mut r = Reader::from_text("1,2,3");
    let out = Schema::Record(rs).parse(&mut r).expect("three items");
    match &record_fields(&out)[0] {
        Value::List(items) => {
            assert_eq!(items.len(), 3);
            assert_eq!(text_of(&items[0]), "1");
            assert_eq!(text_of(&items[2]), "3");
        },
        other => panic!("expected a list, got {:?}", other),
    }
    assert_eq!(r.get_index(), 5);
}

#[test]
fn repeated_field_empty_after_committed_prefix_fails() {
    let mut f = FieldSchema {
        name: "items".to_string(),
        attributes: FieldAttributes::new(),
        shape: FieldShape::VecItem(Box::new(Schema::Pattern("[0-9]+".to_string()))),
    };
    f.attributes.separator = Some(",".to_string());
    f.attributes.min = Some(1);
    f.attributes.prefix = Some("(".to_string());
    let rs = record(vec![f]);

    let mut r = Reader::from_text("(");
    assert_eq!(Schema::Record(rs).parse(&mut r), None);
    assert_eq!(r.get_index(), 0);
}

#[test]
fn round_trip_label_reproduces_literal_token() {
    let us = union(vec![unit_variant("Foo", "foo"), unit_variant("Bar", "bar")]);
    let mut r = Reader::from_text("bar baz");
    let out = Schema::Union(union(vec![
        unit_variant("Foo", "foo"),
        unit_variant("Bar", "bar"),
    ]))
    .parse(&mut r)
    .expect("bar matches");
    assert_eq!(out, Value::Variant(1, Vec::new()));
    let label = us.as_str(&out);
    assert_eq!(label, "bar");
    assert_eq!(&"bar baz"[0..label.len()], label.as_str());
}

#[test]
fn completion_suggestions_list_unit_tokens_in_order() {
    let mut vs = vec![unit_variant("A", "alpha"), unit_variant("B", "beta")];
    vs.push(VariantSchema {
        name: "C".to_string(),
        attributes: FieldAttributes::new(),
        token: None,
        fields: vec![Schema::Pattern("[0-9]+".to_string())],
    });
    let us = union(vs);
    let got = us.get_completion_suggestions();
    assert_eq!(got, vec!["alpha".to_string(), "beta".to_string()]);
}

#[test]
fn item_name_prefers_explicit_name_then_quoted_token() {
    let mut rs = record(vec![]);
    rs.attributes.name = Some("statement".to_string());
    assert_eq!(rs.get_item_name(), "statement");

    let mut rs2 = record(vec![]);
    rs2.attributes.token = Some("let".to_string());
    assert_eq!(rs2.get_item_name(), "\"let\"");

    let rs3 = record(vec![]);
    assert_eq!(rs3.get_item_name(), "TestRecord");

    assert_eq!(Schema::Token("if".to_string()).get_item_name(), "\"if\"");
}

#[test]
fn marker_gating_skips_variants() {
    let mut gated = unit_variant("Gated", "go");
    gated.attributes.ignore_if_not_marker.push("enabled".to_string());
    let us = union(vec![gated, unit_variant("Fallback", "go")]);
    let schema = Schema::Union(us);

    let mut r = Reader::from_text("go");
    let out = schema.parse(&mut r).expect("fallback matches");
    assert_eq!(out, Value::Variant(1, Vec::new()));

    let mut r2 = Reader::from_text("go");
    r2.set_marker("enabled", true);
    let out2 = schema.parse(&mut r2).expect("gated variant matches");
    assert_eq!(out2, Value::Variant(0, Vec::new()));
}

#[test]
fn declared_marker_shadows_and_retracts() {
    let mut r = Reader::from_text("");
    r.set_marker("m", true);
    let h = r.declare_marker("m");
    assert!(!r.get_marker("m")); // fresh declaration shadows the outer entry
    let prev = r.set_marker("m", true);
    assert_eq!(prev, Some(false));
    r.restore_marker("m", prev);
    assert!(!r.get_marker("m"));
    r.remove_marker(h);
    assert!(r.get_marker("m")); // the outer entry is visible again
}

#[test]
fn override_of_absent_marker_restores_to_absent() {
    let mut r = Reader::from_text("");
    let prev = r.set_marker("fresh", true);
    assert_eq!(prev, None);
    assert!(r.get_marker("fresh"));
    r.restore_marker("fresh", prev);
    assert!(!r.get_marker("fresh"));
    assert_eq!(r.markers.len(), 0);
}

#[test]
fn optional_field_with_suffix_defaults_on_suffix_mismatch() {
    let mut f = text_field("a", "[a-z]+");
    f.attributes.optional = Some(true);
    f.attributes.suffix = Some(";".to_string());
    let mut rs = record(vec![f]);
    rs.attributes.located = false;

    let mut r = Reader::from_text("abc,");
    let out = Schema::Record(rs).parse(&mut r).expect("field defaults");
    assert_eq!(text_of(&record_fields(&out)[0]), "");
    assert_eq!(r.get_index(), 0);
}

#[test]
fn exclude_pattern_rejects_without_consuming() {
    let mut f = text_field("word", "[a-z]+");
    f.attributes.exclude = Some("let".to_string());
    let rs = record(vec![f]);
    let schema = Schema::Record(rs);

    let mut r = Reader::from_text("letx");
    assert_eq!(schema.parse(&mut r), None);
    assert_eq!(r.get_index(), 0);

    let mut r2 = Reader::from_text("other");
    assert!(schema.parse(&mut r2).is_some());
}

#[test]
fn lookahead_constraints_do_not_consume() {
    let mut f = text_field("num", "[0-9]+");
    f.attributes.followed_by = Some(";".to_string());
    let mut rs = record(vec![f]);
    rs.attributes.located = false;
    let schema = Schema::Record(rs);

    let mut r = Reader::from_text("42;");
    let out = schema.parse(&mut r).expect("followed by ; holds");
    assert_eq!(text_of(&record_fields(&out)[0]), "42");
    assert_eq!(r.get_index(), 2); // the lookahead itself is not consumed

    let mut r2 = Reader::from_text("42,");
    assert_eq!(schema.parse(&mut r2), None);
    assert_eq!(r2.get_index(), 0);

    let mut g = text_field("num", "[0-9]+");
    g.attributes.not_followed_by = Some("\\.".to_string());
    let rs2 = record(vec![g]);
    let schema2 = Schema::Record(rs2);
    let mut r3 = Reader::from_text("42.5");
    assert_eq!(schema2.parse(&mut r3), None);
    let mut r4 = Reader::from_text("42;");
    assert!(schema2.parse(&mut r4).is_some());
}

#[test]
fn expectation_is_kept_at_furthest_position() {
    // The record consumes "one " and then misses "two": the expectation
    // reported must be the missing token at position 4, not anything earlier.
    let rs = record(vec![literal_field("a", "one"), literal_field("b", "two")]);
    let mut r = Reader::from_text("one three");
    assert_eq!(Schema::Record(rs).parse(&mut r), None);
    assert_eq!(r.expected_index, 4);
    assert_eq!(r.expected, vec![Expected::Token("two".to_string())]);
}

#[test]
fn optional_nested_item_defaults_to_absent() {
    let inner = record(vec![literal_field("kw", "let")]);
    let f = FieldSchema {
        name: "opt".to_string(),
        attributes: FieldAttributes::new(),
        shape: FieldShape::OptionItem(Box::new(Schema::Record(inner))),
    };
    let mut rs = record(vec![f]);
    rs.attributes.located = false;
    let schema = Schema::Record(rs);

    let mut r = Reader::from_text("other");
    let out = schema.parse(&mut r).expect("optional nested parse defaults");
    assert_eq!(record_fields(&out)[0], Value::Maybe(None));
    assert_eq!(r.get_index(), 0);

    let mut r2 = Reader::from_text("let");
    let out2 = schema.parse(&mut r2).expect("nested parse succeeds");
    match &record_fields(&out2)[0] {
        Value::Maybe(Some(_)) => {},
        other => panic!("expected a present optional value, got {:?}", other),
    }
}

#[test]
fn consume_spaces_can_be_switched_off() {
    let mut a = literal_field("a", "one");
    a.attributes.consume_spaces = Some(false);
    let b = literal_field("b", "two");
    let rs = record(vec![a, b]);
    let schema = Schema::Record(rs);

    let mut r = Reader::from_text("one two");
    assert_eq!(schema.parse(&mut r), None);

    let mut r2 = Reader::from_text("onetwo");
    assert!(schema.parse(&mut r2).is_some());
}

#[test]
fn validate_rejects_malformed_directive_combinations() {
    // A separator on a non-repeated field is malformed.
    let mut f = text_field("a", "[a-z]+");
    f.attributes.separator = Some(",".to_string());
    assert!(!Schema::Record(record(vec![f])).validate());

    // A unit variant without a literal token would be unreachable.
    let nameless = VariantSchema {
        name: "Empty".to_string(),
        attributes: FieldAttributes::new(),
        token: None,
        fields: Vec::new(),
    };
    assert!(!Schema::Union(union(vec![nameless])).validate());

    // A field whose value nothing determines is malformed.
    let bare = FieldSchema {
        name: "bare".to_string(),
        attributes: FieldAttributes::new(),
        shape: FieldShape::Text,
    };
    assert!(!Schema::Record(record(vec![bare])).validate());

    let good = record(vec![literal_field("kw", "let"), text_field("name", "[a-z]+")]);
    assert!(Schema::Record(good).validate());
}

#[test]
fn tuple_variant_parses_payload_and_backtracks() {
    let payload = VariantSchema {
        name: "Num".to_string(),
        attributes: FieldAttributes::new(),
        token: None,
        fields: vec![Schema::Pattern("[0-9]+".to_string())],
    };
    let us = union(vec![payload, unit_variant("Word", "abc")]);
    let schema = Schema::Union(us);

    let mut r = Reader::from_text("42");
    let out = schema.parse(&mut r).expect("payload variant matches");
    match out {
        Value::Variant(0, vals) => assert_eq!(text_of(&vals[0]), "42"),
        other => panic!("expected the first variant, got {:?}", other),
    }

    // The first variant fails and must restore the cursor before the second
    // is tried.
    let mut r2 = Reader::from_text("abc");
    let out2 = schema.parse(&mut r2).expect("fallback matches");
    assert_eq!(out2, Value::Variant(1, Vec::new()));
}

#[test]
fn successful_variant_keeps_its_marker_overrides() {
    // The matched variant's override persists into the surrounding scope; a
    // variant tried and failed before it leaves no trace.
    let mut first = unit_variant("First", "no");
    first.attributes.set_markers.push("tried".to_string());
    let mut second = unit_variant("Second", "yes");
    second.attributes.set_markers.push("committed".to_string());
    let us = union(vec![first, second]);

    let mut r = Reader::from_text("yes");
    let out = Schema::Union(us).parse(&mut r).expect("second matches");
    assert_eq!(out, Value::Variant(1, Vec::new()));
    assert!(!r.get_marker("tried")); // restored when the first variant failed
    assert!(r.get_marker("committed")); // persists after success
}

#[test]
fn variant_with_single_payload_borrows_its_location() {
    let mut inner = record(vec![literal_field("kw", "let")]);
    inner.attributes.located = true;
    let payload = VariantSchema {
        name: "Stmt".to_string(),
        attributes: FieldAttributes::new(),
        token: None,
        fields: vec![Schema::Record(inner)],
    };
    let us = union(vec![payload]);
    let mut r = Reader::from_text("let");
    let out = Schema::Union(us).parse(&mut r).expect("payload parses");
    let loc = out.location().expect("single-payload variant has a location");
    assert_eq!((loc.start, loc.end), (0, 3));

    // A unit variant has no well-defined location.
    let us2 = union(vec![unit_variant("U", "x")]);
    let mut r2 = Reader::from_text("x");
    let out2 = Schema::Union(us2).parse(&mut r2).unwrap();
    assert_eq!(out2.location(), None);
}

#[test]
fn invalid_pattern_matches_nothing() {
    let schema = Schema::Pattern("[unclosed".to_string());
    let mut r = Reader::from_text("anything");
    assert_eq!(schema.parse(&mut r), None);
    assert_eq!(r.get_index(), 0);
}

#[test]
fn empty_input_edge_cases() {
    let mut r = Reader::from_text("");
    assert_eq!(Schema::Token("x".to_string()).parse(&mut r), None);
    assert_eq!(r.get_index(), 0);

    // A record of only optional fields succeeds on empty input with defaults.
    let mut f = text_field("a", "[a-z]+");
    f.attributes.optional = Some(true);
    let mut rs = record(vec![f]);
    rs.attributes.located = true;
    let mut r2 = Reader::from_text("");
    let out = Schema::Record(rs).parse(&mut r2).expect("defaults");
    let loc = out.location().unwrap();
    assert_eq!((loc.start, loc.end), (0, 0));
}

#[test]
fn single_literal_field_promotes_its_token() {
    // A record of exactly one fixed-literal field is named by that literal in
    // diagnostics, quoted, unless a token was already given.
    let rs = RecordSchema::new("Keyword", RootAttributes::new(), vec![literal_field("kw", "let")]);
    assert_eq!(rs.attributes.token, Some("let".to_string()));
    assert_eq!(rs.get_item_name(), "\"let\"");

    // Two fields: no promotion.
    let rs2 = RecordSchema::new(
        "Pair",
        RootAttributes::new(),
        vec![literal_field("a", "x"), literal_field("b", "y")],
    );
    assert_eq!(rs2.attributes.token, None);
    assert_eq!(rs2.get_item_name(), "Pair");
}

#[test]
fn validate_rejects_separator_on_a_variant() {
    let mut v = unit_variant("Sep", "x");
    v.attributes.separator = Some(",".to_string());
    assert!(!Schema::Union(union(vec![v])).validate());
}
