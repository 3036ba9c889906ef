//! The scan-spec tree: a versioned root around nested column specs, each with an
//! optional filter.

use vstd::prelude::*;

verus! {

/// The only version of the scan-spec layout that this library accepts.
pub const SCAN_SPEC_JSON_VERSION: i32 = 1;

/// Top-level shape: a versioned envelope around a `ScanSpecJson` tree.
/// Only the root carries `v`; nested specs are bare `ScanSpecJson`s.
#[derive(Debug)]
pub struct ScanSpecRootJson {
    pub v: i32,
    pub spec: ScanSpecJson,
}

/// One node of the scan-spec tree: a column (or the root) with its filter and children.
#[derive(Debug)]
pub struct ScanSpecJson {
    pub name: String,
    pub subscript: i64,
    pub channel: i64,
    pub project_out: bool,
    pub filter_disabled: bool,
    pub column_type: String,
    pub filter: Option<FilterJson>,
    pub children: Vec<ScanSpecJson>,
}

/// A column filter. The bounds of `DoubleRange` and `FloatRange` are held as the
/// decimal text of the floating-point value (as `{}` formats an `f64`), which is all
/// that the report reads of them.
#[derive(Debug)]
#[allow(inconsistent_fields)]
pub enum FilterJson {
    AlwaysTrue { null_allowed: bool },
    AlwaysFalse { null_allowed: bool },
    IsNull { null_allowed: bool },
    IsNotNull { null_allowed: bool },
    BoolValue { null_allowed: bool, value: bool },
    BigintRange { null_allowed: bool, lower: i64, upper: i64 },
    NegatedBigintRange { null_allowed: bool, lower: i64, upper: i64 },
    BigintValuesUsingHashTable { null_allowed: bool, min: i64, max: i64, values: Vec<i64> },
    BigintValuesUsingBitmask { null_allowed: bool, min: i64, max: i64, values: Vec<i64> },
    NegatedBigintValuesUsingHashTable { null_allowed: bool, min: i64, max: i64, values: Vec<i64> },
    NegatedBigintValuesUsingBitmask { null_allowed: bool, min: i64, max: i64, values: Vec<i64> },
    DoubleRange {
        null_allowed: bool,
        lower: String,
        upper: String,
        lower_unbounded: bool,
        upper_unbounded: bool,
        lower_exclusive: bool,
        upper_exclusive: bool,
    },
    FloatRange {
        null_allowed: bool,
        lower: String,
        upper: String,
        lower_unbounded: bool,
        upper_unbounded: bool,
        lower_exclusive: bool,
        upper_exclusive: bool,
    },
    BytesRange {
        null_allowed: bool,
        lower: String,
        upper: String,
        lower_unbounded: bool,
        upper_unbounded: bool,
        lower_exclusive: bool,
        upper_exclusive: bool,
    },
    NegatedBytesRange {
        null_allowed: bool,
        lower: String,
        upper: String,
        lower_unbounded: bool,
        upper_unbounded: bool,
        lower_exclusive: bool,
        upper_exclusive: bool,
    },
    BytesValues { null_allowed: bool, values: Vec<String> },
    NegatedBytesValues { null_allowed: bool, values: Vec<String> },
    HugeintRange { null_allowed: bool, lower_hi: i64, lower_lo: i64, upper_hi: i64, upper_lo: i64 },
    HugeintValuesUsingHashTable {
        null_allowed: bool,
        min_hi: i64,
        min_lo: i64,
        max_hi: i64,
        max_lo: i64,
        values_hi: Vec<i64>,
        values_lo: Vec<i64>,
    },
    TimestampRange {
        null_allowed: bool,
        lower_sec: i64,
        lower_nanos: i64,
        upper_sec: i64,
        upper_nanos: i64,
    },
    BigintMultiRange { null_allowed: bool, ranges: Vec<FilterJson> },
    MultiRange { null_allowed: bool, subfilters: Vec<FilterJson> },
}

} // verus!
