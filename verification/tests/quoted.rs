use hudi::text::{push_quoted_list, quote_all};
use hudi::{filter_text_from_quoted, render_filter, render_spec, spec_text_from_quoted, FilterJson, ScanSpecJson};

fn node(name: &str, filter: Option<FilterJson>, children: Vec<ScanSpecJson>) -> ScanSpecJson {
    ScanSpecJson {
        name: name.to_string(),
        subscript: 7,
        channel: -3,
        project_out: true,
        filter_disabled: true,
        column_type: "map".to_string(),
        filter,
        children,
    }
}

#[test]
fn spec_text_uses_the_given_quoted_name() {
    let s = node("<root>", None, vec![]);
    assert_eq!(
        spec_text_from_quoted(&s, "\"<root>\""),
        "spec name=\"<root>\" subscript=7 channel=-3 projectOut=true filterDisabled=true columnType=map"
    );
    assert_eq!(
        spec_text_from_quoted(&s, "Q"),
        "spec name=Q subscript=7 channel=-3 projectOut=true filterDisabled=true columnType=map"
    );
}

#[test]
fn filter_text_uses_the_given_quoted_strings() {
    let f = FilterJson::BytesRange {
        null_allowed: false,
        lower: "a".to_string(),
        upper: "z".to_string(),
        lower_unbounded: true,
        upper_unbounded: false,
        lower_exclusive: false,
        upper_exclusive: true,
    };
    assert_eq!(
        filter_text_from_quoted(&f, &vec!["<a>".to_string(), "<z>".to_string()]),
        "bytesRange lower=<a> upper=<z> lowerUnbounded=true upperUnbounded=false lowerExclusive=false upperExclusive=true nullAllowed=false"
    );
    let v = FilterJson::NegatedBytesValues { null_allowed: true, values: vec!["a".to_string(), "b".to_string()] };
    assert_eq!(
        filter_text_from_quoted(&v, &vec!["1".to_string(), "2".to_string()]),
        "negatedBytesValues values=[1, 2] nullAllowed=true"
    );
    let b = FilterJson::BigintRange { null_allowed: true, lower: 1, upper: 2 };
    assert_eq!(filter_text_from_quoted(&b, &vec![]), "bigintRange lower=1 upper=2 nullAllowed=true");
}

#[test]
fn quoting_matches_std_debug() {
    let values = vec!["x\"y".to_string(), "tab\t".to_string(), "é".to_string()];
    let quoted = quote_all(&values);
    let expected: Vec<String> = values.iter().map(|s| format!("{s:?}")).collect();
    assert_eq!(quoted, expected);
    assert_ne!(quoted, values);
    let mut out = String::from(">");
    push_quoted_list(&mut out, &quoted);
    assert_eq!(out, format!(">{values:?}"));
}

#[test]
fn one_spec_line_per_node_in_preorder() {
    let tree = node(
        "r",
        Some(FilterJson::MultiRange {
            null_allowed: false,
            subfilters: vec![FilterJson::IsNull { null_allowed: true }, FilterJson::IsNotNull { null_allowed: false }],
        }),
        vec![
            node("a", None, vec![node("a1", None, vec![])]),
            node("b", Some(FilterJson::AlwaysTrue { null_allowed: true }), vec![]),
        ],
    );
    let lines = render_spec(&tree, 0);
    let headers: Vec<&String> = lines
        .iter()
        .filter(|l| l["[SCANSPEC-FFI] ".len()..].trim_start().starts_with("spec name="))
        .collect();
    assert_eq!(headers.len(), 4);
    assert!(headers[0].starts_with("[SCANSPEC-FFI] spec name=\"r\""));
    assert!(headers[1].starts_with("[SCANSPEC-FFI]   spec name=\"a\""));
    assert!(headers[2].starts_with("[SCANSPEC-FFI]     spec name=\"a1\""));
    assert!(headers[3].starts_with("[SCANSPEC-FFI]   spec name=\"b\""));
    // r: 1 + 3 filters; a: 1 + 1; a1: 1 + 1; b: 1 + 1.
    assert_eq!(lines.len(), 4 + 2 + 2 + 2);
    let f = FilterJson::BigintMultiRange {
        null_allowed: false,
        ranges: vec![
            FilterJson::MultiRange { null_allowed: true, subfilters: vec![FilterJson::IsNull { null_allowed: true }] },
            FilterJson::AlwaysFalse { null_allowed: false },
        ],
    };
    assert_eq!(render_filter(&f, 0).len(), 4);
}
