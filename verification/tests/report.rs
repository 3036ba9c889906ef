use hudi::{
    check_version, parse_error_message, render_filter, render_spec, scan_spec_report, FilterJson,
    ScanSpecJson, ScanSpecRootJson, SCAN_SPEC_JSON_VERSION,
};

fn leaf(name: &str, subscript: i64, channel: i64, filter: Option<FilterJson>) -> ScanSpecJson {
    ScanSpecJson {
        name: name.to_string(),
        subscript,
        channel,
        project_out: true,
        filter_disabled: false,
        column_type: "regular".to_string(),
        filter,
        children: vec![],
    }
}

fn minimal_root(v: i32) -> ScanSpecRootJson {
    ScanSpecRootJson {
        v,
        spec: ScanSpecJson {
            name: "<root>".to_string(),
            subscript: -1,
            channel: -1,
            project_out: false,
            filter_disabled: false,
            column_type: "regular".to_string(),
            filter: None,
            children: vec![],
        },
    }
}

#[test]
fn report_of_minimal_root() {
    let lines = scan_spec_report(&minimal_root(1)).expect("minimal root should render");
    assert_eq!(
        lines,
        vec![
            "[SCANSPEC-FFI] BEGIN v=1".to_string(),
            "[SCANSPEC-FFI] spec name=\"<root>\" subscript=-1 channel=-1 projectOut=false filterDisabled=false columnType=regular".to_string(),
            "[SCANSPEC-FFI]   filter=<none>".to_string(),
            "[SCANSPEC-FFI] END".to_string(),
        ]
    );
}

#[test]
fn report_of_bigint_range_root() {
    let root = ScanSpecRootJson {
        v: 1,
        spec: leaf(
            "id",
            0,
            0,
            Some(FilterJson::BigintRange { null_allowed: false, lower: 9, upper: 9 }),
        ),
    };
    let lines = scan_spec_report(&root).expect("bigintRange should render");
    assert_eq!(
        lines,
        vec![
            "[SCANSPEC-FFI] BEGIN v=1".to_string(),
            "[SCANSPEC-FFI] spec name=\"id\" subscript=0 channel=0 projectOut=true filterDisabled=false columnType=regular".to_string(),
            "[SCANSPEC-FFI]   filter kind=bigintRange lower=9 upper=9 nullAllowed=false".to_string(),
            "[SCANSPEC-FFI] END".to_string(),
        ]
    );
}

#[test]
fn report_rejects_unknown_version() {
    let err = scan_spec_report(&minimal_root(99)).expect_err("v=99 should be rejected");
    assert!(err.contains("unsupported version 99"), "unexpected error: {err}");
    assert_eq!(err, "scan_spec_ffi: unsupported version 99 (expected 1)");
}

#[test]
fn check_version_accepts_only_current() {
    assert_eq!(SCAN_SPEC_JSON_VERSION, 1);
    assert!(check_version(1).is_ok());
    assert_eq!(check_version(0).unwrap_err(), "scan_spec_ffi: unsupported version 0 (expected 1)");
    assert_eq!(
        check_version(-2147483648).unwrap_err(),
        "scan_spec_ffi: unsupported version -2147483648 (expected 1)"
    );
    assert_eq!(
        check_version(2147483647).unwrap_err(),
        "scan_spec_ffi: unsupported version 2147483647 (expected 1)"
    );
}

#[test]
fn parse_error_message_names_parse_error() {
    let msg = parse_error_message("expected value at line 1 column 1");
    assert!(msg.contains("parse error"), "unexpected error: {msg}");
    assert_eq!(msg, "scan_spec_ffi: parse error: expected value at line 1 column 1");
}

#[test]
fn nested_children_and_multi_range() {
    let child = leaf(
        "a",
        1,
        2,
        Some(FilterJson::MultiRange {
            null_allowed: true,
            subfilters: vec![
                FilterJson::IsNull { null_allowed: true },
                FilterJson::BigintMultiRange {
                    null_allowed: false,
                    ranges: vec![FilterJson::BigintRange {
                        null_allowed: false,
                        lower: i64::MIN,
                        upper: i64::MAX,
                    }],
                },
            ],
        }),
    );
    let root = ScanSpecJson {
        name: "<root>".to_string(),
        subscript: -1,
        channel: -1,
        project_out: false,
        filter_disabled: true,
        column_type: "row".to_string(),
        filter: None,
        children: vec![child, leaf("b", 3, 4, None)],
    };
    let lines = render_spec(&root, 0);
    assert_eq!(
        lines,
        vec![
            "[SCANSPEC-FFI] spec name=\"<root>\" subscript=-1 channel=-1 projectOut=false filterDisabled=true columnType=row".to_string(),
            "[SCANSPEC-FFI]   filter=<none>".to_string(),
            "[SCANSPEC-FFI]   spec name=\"a\" subscript=1 channel=2 projectOut=true filterDisabled=false columnType=regular".to_string(),
            "[SCANSPEC-FFI]     filter kind=multiRange n=2 nullAllowed=true".to_string(),
            "[SCANSPEC-FFI]       filter kind=isNull nullAllowed=true".to_string(),
            "[SCANSPEC-FFI]       filter kind=bigintMultiRange n=1 nullAllowed=false".to_string(),
            "[SCANSPEC-FFI]         filter kind=bigintRange lower=-9223372036854775808 upper=9223372036854775807 nullAllowed=false".to_string(),
            "[SCANSPEC-FFI]   spec name=\"b\" subscript=3 channel=4 projectOut=true filterDisabled=false columnType=regular".to_string(),
            "[SCANSPEC-FFI]     filter=<none>".to_string(),
        ]
    );
}

#[test]
fn every_report_line_is_tagged_and_framed() {
    let mut root = minimal_root(1);
    root.spec.children.push(leaf("x", 0, 1, Some(FilterJson::AlwaysTrue { null_allowed: true })));
    let lines = scan_spec_report(&root).unwrap();
    assert!(lines.iter().all(|l| l.starts_with("[SCANSPEC-FFI] ")));
    assert_eq!(lines.first().unwrap(), "[SCANSPEC-FFI] BEGIN v=1");
    assert_eq!(lines.last().unwrap(), "[SCANSPEC-FFI] END");
    assert_eq!(&lines[1..lines.len() - 1], &render_spec(&root.spec, 0)[..]);
}

#[test]
fn deeper_rendering_only_indents() {
    let mut root = minimal_root(1).spec;
    root.children.push(leaf("x", 0, 1, Some(FilterJson::AlwaysFalse { null_allowed: false })));
    let shallow = render_spec(&root, 0);
    let deep = render_spec(&root, 3);
    assert_eq!(shallow.len(), deep.len());
    for (s, d) in shallow.iter().zip(deep.iter()) {
        let rest = &s["[SCANSPEC-FFI] ".len()..];
        assert_eq!(d, &format!("[SCANSPEC-FFI]       {rest}"));
    }
    let f = FilterJson::IsNotNull { null_allowed: true };
    assert_eq!(render_filter(&f, 2), vec!["[SCANSPEC-FFI]     filter kind=isNotNull nullAllowed=true".to_string()]);
}

#[test]
fn names_and_bytes_use_debug_quoting() {
    let s = leaf("a\"b\\c\n", 0, 0, None);
    let lines = render_spec(&s, 0);
    assert_eq!(
        lines[0],
        "[SCANSPEC-FFI] spec name=\"a\\\"b\\\\c\\n\" subscript=0 channel=0 projectOut=true filterDisabled=false columnType=regular"
    );
}
