use hudi::{render_filter, FilterJson};

fn line(f: FilterJson) -> String {
    let lines = render_filter(&f, 1);
    assert_eq!(lines.len(), 1);
    lines.into_iter().next().unwrap()
}

const INDENT: &str = "  ";

#[test]
fn simple_kinds() {
    for (mk, kind) in [
        (FilterJson::AlwaysTrue { null_allowed: true }, "alwaysTrue"),
        (FilterJson::AlwaysFalse { null_allowed: true }, "alwaysFalse"),
        (FilterJson::IsNull { null_allowed: true }, "isNull"),
        (FilterJson::IsNotNull { null_allowed: true }, "isNotNull"),
    ] {
        assert_eq!(line(mk), format!("[SCANSPEC-FFI] {INDENT}filter kind={kind} nullAllowed=true"));
    }
    assert_eq!(
        line(FilterJson::BoolValue { null_allowed: false, value: true }),
        format!("[SCANSPEC-FFI] {INDENT}filter kind=boolValue value=true nullAllowed=false")
    );
}

#[test]
fn bigint_ranges() {
    assert_eq!(
        line(FilterJson::BigintRange { null_allowed: true, lower: -5, upper: 120 }),
        "[SCANSPEC-FFI]   filter kind=bigintRange lower=-5 upper=120 nullAllowed=true"
    );
    assert_eq!(
        line(FilterJson::NegatedBigintRange { null_allowed: false, lower: 0, upper: 10 }),
        "[SCANSPEC-FFI]   filter kind=negatedBigintRange lower=0 upper=10 nullAllowed=false"
    );
}

#[test]
fn bigint_value_lists_match_std_debug() {
    let values: Vec<i64> = vec![-3, 0, 42, i64::MIN, i64::MAX];
    let cases = [
        (FilterJson::BigintValuesUsingHashTable { null_allowed: true, min: -3, max: 42, values: values.clone() }, "bigintValuesUsingHashTable"),
        (FilterJson::BigintValuesUsingBitmask { null_allowed: true, min: -3, max: 42, values: values.clone() }, "bigintValuesUsingBitmask"),
        (FilterJson::NegatedBigintValuesUsingHashTable { null_allowed: true, min: -3, max: 42, values: values.clone() }, "negatedBigintValuesUsingHashTable"),
        (FilterJson::NegatedBigintValuesUsingBitmask { null_allowed: true, min: -3, max: 42, values: values.clone() }, "negatedBigintValuesUsingBitmask"),
    ];
    for (f, kind) in cases {
        let (min, max) = (-3, 42);
        assert_eq!(
            line(f),
            format!("[SCANSPEC-FFI] {INDENT}filter kind={kind} min={min} max={max} values={values:?} nullAllowed=true")
        );
    }
    assert_eq!(
        line(FilterJson::BigintValuesUsingBitmask { null_allowed: false, min: 1, max: 1, values: vec![] }),
        "[SCANSPEC-FFI]   filter kind=bigintValuesUsingBitmask min=1 max=1 values=[] nullAllowed=false"
    );
    assert_eq!(
        line(FilterJson::BigintValuesUsingBitmask { null_allowed: false, min: 1, max: 2, values: vec![1, 2] }),
        "[SCANSPEC-FFI]   filter kind=bigintValuesUsingBitmask min=1 max=2 values=[1, 2] nullAllowed=false"
    );
}

#[test]
fn floating_ranges_print_the_bound_text() {
    let lower: f64 = -1.5;
    let upper: f64 = 1e21;
    let f = FilterJson::DoubleRange {
        null_allowed: true,
        lower: lower.to_string(),
        upper: upper.to_string(),
        lower_unbounded: false,
        upper_unbounded: true,
        lower_exclusive: true,
        upper_exclusive: false,
    };
    assert_eq!(
        line(f),
        format!("[SCANSPEC-FFI] {INDENT}filter kind=doubleRange lower={lower} upper={upper} lowerUnbounded=false upperUnbounded=true lowerExclusive=true upperExclusive=false nullAllowed=true")
    );
    let f = FilterJson::FloatRange {
        null_allowed: false,
        lower: "0".to_string(),
        upper: "2.25".to_string(),
        lower_unbounded: true,
        upper_unbounded: false,
        lower_exclusive: false,
        upper_exclusive: true,
    };
    assert_eq!(
        line(f),
        "[SCANSPEC-FFI]   filter kind=floatRange lower=0 upper=2.25 lowerUnbounded=true upperUnbounded=false lowerExclusive=false upperExclusive=true nullAllowed=false"
    );
}

#[test]
fn bytes_ranges_quote_bounds() {
    let (lower, upper) = ("a\"b".to_string(), "z\tq".to_string());
    let f = FilterJson::BytesRange {
        null_allowed: true,
        lower: lower.clone(),
        upper: upper.clone(),
        lower_unbounded: false,
        upper_unbounded: false,
        lower_exclusive: false,
        upper_exclusive: false,
    };
    let expected = format!("[SCANSPEC-FFI] {INDENT}filter kind=bytesRange lower={lower:?} upper={upper:?} lowerUnbounded=false upperUnbounded=false lowerExclusive=false upperExclusive=false nullAllowed=true");
    assert_eq!(line(f), expected);
    assert!(expected.contains("lower=\"a\\\"b\" upper=\"z\\tq\""));
    let f = FilterJson::NegatedBytesRange {
        null_allowed: false,
        lower: "abc".to_string(),
        upper: "abd".to_string(),
        lower_unbounded: false,
        upper_unbounded: true,
        lower_exclusive: true,
        upper_exclusive: true,
    };
    assert_eq!(
        line(f),
        "[SCANSPEC-FFI]   filter kind=negatedBytesRange lower=\"abc\" upper=\"abd\" lowerUnbounded=false upperUnbounded=true lowerExclusive=true upperExclusive=true nullAllowed=false"
    );
}

#[test]
fn bytes_values_match_std_debug() {
    let values = vec!["x".to_string(), "y\"z".to_string(), String::new()];
    assert_eq!(
        line(FilterJson::BytesValues { null_allowed: true, values: values.clone() }),
        format!("[SCANSPEC-FFI] {INDENT}filter kind=bytesValues values={values:?} nullAllowed=true")
    );
    assert_eq!(
        line(FilterJson::NegatedBytesValues { null_allowed: false, values: vec!["a".to_string(), "b".to_string()] }),
        "[SCANSPEC-FFI]   filter kind=negatedBytesValues values=[\"a\", \"b\"] nullAllowed=false"
    );
}

#[test]
fn hugeint_and_timestamp_kinds() {
    assert_eq!(
        line(FilterJson::HugeintRange { null_allowed: true, lower_hi: -1, lower_lo: 2, upper_hi: 3, upper_lo: -4 }),
        "[SCANSPEC-FFI]   filter kind=hugeintRange lowerHi=-1 lowerLo=2 upperHi=3 upperLo=-4 nullAllowed=true"
    );
    assert_eq!(
        line(FilterJson::HugeintValuesUsingHashTable {
            null_allowed: false,
            min_hi: 0,
            min_lo: 1,
            max_hi: 2,
            max_lo: 3,
            values_hi: vec![0, 2],
            values_lo: vec![1, 3],
        }),
        "[SCANSPEC-FFI]   filter kind=hugeintValuesUsingHashTable minHi=0 minLo=1 maxHi=2 maxLo=3 valuesHi=[0, 2] valuesLo=[1, 3] nullAllowed=false"
    );
    assert_eq!(
        line(FilterJson::TimestampRange { null_allowed: true, lower_sec: 100, lower_nanos: 5, upper_sec: 200, upper_nanos: 999999999 }),
        "[SCANSPEC-FFI]   filter kind=timestampRange lowerSec=100 lowerNanos=5 upperSec=200 upperNanos=999999999 nullAllowed=true"
    );
}

#[test]
fn multi_ranges_count_and_nest() {
    let f = FilterJson::BigintMultiRange {
        null_allowed: true,
        ranges: vec![
            FilterJson::BigintRange { null_allowed: false, lower: 1, upper: 2 },
            FilterJson::BigintRange { null_allowed: false, lower: 5, upper: 6 },
        ],
    };
    assert_eq!(
        render_filter(&f, 0),
        vec![
            "[SCANSPEC-FFI] filter kind=bigintMultiRange n=2 nullAllowed=true".to_string(),
            "[SCANSPEC-FFI]   filter kind=bigintRange lower=1 upper=2 nullAllowed=false".to_string(),
            "[SCANSPEC-FFI]   filter kind=bigintRange lower=5 upper=6 nullAllowed=false".to_string(),
        ]
    );
    let empty = FilterJson::MultiRange { null_allowed: false, subfilters: vec![] };
    assert_eq!(
        render_filter(&empty, 0),
        vec!["[SCANSPEC-FFI] filter kind=multiRange n=0 nullAllowed=false".to_string()]
    );
}
