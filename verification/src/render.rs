//! Rendering of a scan-spec tree into the lines of the `[SCANSPEC-FFI]` block.

use vstd::prelude::*;
use vstd::string::StringExecFns;
use crate::model::{FilterJson, ScanSpecJson, ScanSpecRootJson, SCAN_SPEC_JSON_VERSION};
use crate::text::{
    bool_text, quote_str, quoted_text, dec, i64_list, indent, make_indent, push_bool, push_i64,
    push_field_name, push_i64_list, push_quoted_list, push_usize, quote_all, quoted_list, texts, field_name,
};

verus! {

/// The tag that starts every line of the report.
pub open spec fn tag() -> Seq<char> {
    "[SCANSPEC-FFI] "@
}

/// The start of every report line at nesting level `depth`: the tag and the indentation.
pub open spec fn line_prefix(depth: nat) -> Seq<char> {
    tag() + indent(depth)
}

/// The strings of a filter that the report writes quoted, in the order they appear:
/// the two bounds of a bytes range, the values of a bytes-values filter, else none.
pub open spec fn quoted_strings(f: FilterJson) -> Seq<Seq<char>> {
    match f {
        FilterJson::BytesRange { lower, upper, .. } => seq![lower@, upper@],
        FilterJson::NegatedBytesRange { lower, upper, .. } => seq![lower@, upper@],
        FilterJson::BytesValues { values, .. } => texts(values@),
        FilterJson::NegatedBytesValues { values, .. } => texts(values@),
        _ => Seq::empty(),
    }
}

/// What follows `filter kind=` on the line of a filter: its kind and its fields.
pub open spec fn filter_text(f: FilterJson) -> Seq<char> {
    filter_text_quoted(f, quoted_strings(f).map_values(|t: Seq<char>| quoted_text(t)))
}

/// What follows `filter kind=` on the line of a filter, where `quoted` holds the quoted
/// text of each of the filter's `quoted_strings`, in the same order.
pub open spec fn filter_text_quoted(f: FilterJson, quoted: Seq<Seq<char>>) -> Seq<char> {
    match f {
        FilterJson::AlwaysTrue { null_allowed } =>
            "alwaysTrue"@
            + field_name("nullAllowed"@) + bool_text(null_allowed),
        FilterJson::AlwaysFalse { null_allowed } =>
            "alwaysFalse"@
            + field_name("nullAllowed"@) + bool_text(null_allowed),
        FilterJson::IsNull { null_allowed } =>
            "isNull"@
            + field_name("nullAllowed"@) + bool_text(null_allowed),
        FilterJson::IsNotNull { null_allowed } =>
            "isNotNull"@
            + field_name("nullAllowed"@) + bool_text(null_allowed),
        FilterJson::BoolValue { value, null_allowed } =>
            "boolValue"@
            + field_name("value"@) + bool_text(value)
            + field_name("nullAllowed"@) + bool_text(null_allowed),
        FilterJson::BigintRange { lower, upper, null_allowed } =>
            "bigintRange"@
            + field_name("lower"@) + dec(lower as int)
            + field_name("upper"@) + dec(upper as int)
            + field_name("nullAllowed"@) + bool_text(null_allowed),
        FilterJson::NegatedBigintRange { lower, upper, null_allowed } =>
            "negatedBigintRange"@
            + field_name("lower"@) + dec(lower as int)
            + field_name("upper"@) + dec(upper as int)
            + field_name("nullAllowed"@) + bool_text(null_allowed),
        FilterJson::BigintValuesUsingHashTable { min, max, values, null_allowed } =>
            "bigintValuesUsingHashTable"@
            + field_name("min"@) + dec(min as int)
            + field_name("max"@) + dec(max as int)
            + field_name("values"@) + i64_list(values@)
            + field_name("nullAllowed"@) + bool_text(null_allowed),
        FilterJson::BigintValuesUsingBitmask { min, max, values, null_allowed } =>
            "bigintValuesUsingBitmask"@
            + field_name("min"@) + dec(min as int)
            + field_name("max"@) + dec(max as int)
            + field_name("values"@) + i64_list(values@)
            + field_name("nullAllowed"@) + bool_text(null_allowed),
        FilterJson::NegatedBigintValuesUsingHashTable { min, max, values, null_allowed } =>
            "negatedBigintValuesUsingHashTable"@
            + field_name("min"@) + dec(min as int)
            + field_name("max"@) + dec(max as int)
            + field_name("values"@) + i64_list(values@)
            + field_name("nullAllowed"@) + bool_text(null_allowed),
        FilterJson::NegatedBigintValuesUsingBitmask { min, max, values, null_allowed } =>
            "negatedBigintValuesUsingBitmask"@
            + field_name("min"@) + dec(min as int)
            + field_name("max"@) + dec(max as int)
            + field_name("values"@) + i64_list(values@)
            + field_name("nullAllowed"@) + bool_text(null_allowed),
        FilterJson::DoubleRange { lower, upper, lower_unbounded, upper_unbounded, lower_exclusive, upper_exclusive, null_allowed } =>
            "doubleRange"@
            + field_name("lower"@) + lower@
            + field_name("upper"@) + upper@
            + field_name("lowerUnbounded"@) + bool_text(lower_unbounded)
            + field_name("upperUnbounded"@) + bool_text(upper_unbounded)
            + field_name("lowerExclusive"@) + bool_text(lower_exclusive)
            + field_name("upperExclusive"@) + bool_text(upper_exclusive)
            + field_name("nullAllowed"@) + bool_text(null_allowed),
        FilterJson::FloatRange { lower, upper, lower_unbounded, upper_unbounded, lower_exclusive, upper_exclusive, null_allowed } =>
            "floatRange"@
            + field_name("lower"@) + lower@
            + field_name("upper"@) + upper@
            + field_name("lowerUnbounded"@) + bool_text(lower_unbounded)
            + field_name("upperUnbounded"@) + bool_text(upper_unbounded)
            + field_name("lowerExclusive"@) + bool_text(lower_exclusive)
            + field_name("upperExclusive"@) + bool_text(upper_exclusive)
            + field_name("nullAllowed"@) + bool_text(null_allowed),
        FilterJson::BytesRange { lower, upper, lower_unbounded, upper_unbounded, lower_exclusive, upper_exclusive, null_allowed } =>
            "bytesRange"@
            + field_name("lower"@) + quoted[0]
            + field_name("upper"@) + quoted[1]
            + field_name("lowerUnbounded"@) + bool_text(lower_unbounded)
            + field_name("upperUnbounded"@) + bool_text(upper_unbounded)
            + field_name("lowerExclusive"@) + bool_text(lower_exclusive)
            + field_name("upperExclusive"@) + bool_text(upper_exclusive)
            + field_name("nullAllowed"@) + bool_text(null_allowed),
        FilterJson::NegatedBytesRange { lower, upper, lower_unbounded, upper_unbounded, lower_exclusive, upper_exclusive, null_allowed } =>
            "negatedBytesRange"@
            + field_name("lower"@) + quoted[0]
            + field_name("upper"@) + quoted[1]
            + field_name("lowerUnbounded"@) + bool_text(lower_unbounded)
            + field_name("upperUnbounded"@) + bool_text(upper_unbounded)
            + field_name("lowerExclusive"@) + bool_text(lower_exclusive)
            + field_name("upperExclusive"@) + bool_text(upper_exclusive)
            + field_name("nullAllowed"@) + bool_text(null_allowed),
        FilterJson::BytesValues { values, null_allowed } =>
            "bytesValues"@
            + field_name("values"@) + quoted_list(quoted)
            + field_name("nullAllowed"@) + bool_text(null_allowed),
        FilterJson::NegatedBytesValues { values, null_allowed } =>
            "negatedBytesValues"@
            + field_name("values"@) + quoted_list(quoted)
            + field_name("nullAllowed"@) + bool_text(null_allowed),
        FilterJson::HugeintRange { lower_hi, lower_lo, upper_hi, upper_lo, null_allowed } =>
            "hugeintRange"@
            + field_name("lowerHi"@) + dec(lower_hi as int)
            + field_name("lowerLo"@) + dec(lower_lo as int)
            + field_name("upperHi"@) + dec(upper_hi as int)
            + field_name("upperLo"@) + dec(upper_lo as int)
            + field_name("nullAllowed"@) + bool_text(null_allowed),
        FilterJson::HugeintValuesUsingHashTable { min_hi, min_lo, max_hi, max_lo, values_hi, values_lo, null_allowed } =>
            "hugeintValuesUsingHashTable"@
            + field_name("minHi"@) + dec(min_hi as int)
            + field_name("minLo"@) + dec(min_lo as int)
            + field_name("maxHi"@) + dec(max_hi as int)
            + field_name("maxLo"@) + dec(max_lo as int)
            + field_name("valuesHi"@) + i64_list(values_hi@)
            + field_name("valuesLo"@) + i64_list(values_lo@)
            + field_name("nullAllowed"@) + bool_text(null_allowed),
        FilterJson::TimestampRange { lower_sec, lower_nanos, upper_sec, upper_nanos, null_allowed } =>
            "timestampRange"@
            + field_name("lowerSec"@) + dec(lower_sec as int)
            + field_name("lowerNanos"@) + dec(lower_nanos as int)
            + field_name("upperSec"@) + dec(upper_sec as int)
            + field_name("upperNanos"@) + dec(upper_nanos as int)
            + field_name("nullAllowed"@) + bool_text(null_allowed),
        FilterJson::BigintMultiRange { ranges, null_allowed } =>
            "bigintMultiRange"@
            + field_name("n"@) + dec(ranges.len() as int)
            + field_name("nullAllowed"@) + bool_text(null_allowed),
        FilterJson::MultiRange { subfilters, null_allowed } =>
            "multiRange"@
            + field_name("n"@) + dec(subfilters.len() as int)
            + field_name("nullAllowed"@) + bool_text(null_allowed),
    }
}

/// The line of a filter at nesting level `depth`.
pub open spec fn filter_header(f: FilterJson, depth: nat) -> Seq<char> {
    line_prefix(depth) + "filter kind="@ + filter_text(f)
}



/// The lines of filter `f` at nesting level `depth`: its own line, then the lines of its
/// sub-filters (for the multi-range kinds) one level deeper, in order.
pub open spec fn filter_lines(f: FilterJson, depth: nat) -> Seq<Seq<char>>
    decreases f, 1nat,
{
    seq![filter_header(f, depth)] + match f {
        FilterJson::BigintMultiRange { ranges, .. } => filters_lines(ranges@, depth + 1),
        FilterJson::MultiRange { subfilters, .. } => filters_lines(subfilters@, depth + 1),
        _ => Seq::empty(),
    }
}

/// The lines of the filters `fs`, one after the other, each at nesting level `depth`.
pub open spec fn filters_lines(fs: Seq<FilterJson>, depth: nat) -> Seq<Seq<char>>
    decreases fs, 0nat,
{
    if fs.len() == 0 {
        Seq::empty()
    } else {
        filters_lines(fs.subrange(0, fs.len() - 1), depth) + filter_lines(fs[fs.len() - 1], depth)
    }
}

/// The line of spec node `s` at nesting level `depth`.
pub open spec fn spec_header(s: ScanSpecJson, depth: nat) -> Seq<char> {
    line_prefix(depth) + spec_text(s, quoted_text(s.name@))
}

/// What follows the indentation on the line of spec node `s`, where `quoted_name` is the
/// quoted text of its name.
pub open spec fn spec_text(s: ScanSpecJson, quoted_name: Seq<char>) -> Seq<char> {
    "spec name="@ + quoted_name
        + field_name("subscript"@) + dec(s.subscript as int)
        + field_name("channel"@) + dec(s.channel as int)
        + field_name("projectOut"@) + bool_text(s.project_out)
        + field_name("filterDisabled"@) + bool_text(s.filter_disabled)
        + field_name("columnType"@) + s.column_type@
}

/// The line that stands for a missing filter at nesting level `depth`.
pub open spec fn no_filter_line(depth: nat) -> Seq<char> {
    line_prefix(depth) + "filter=<none>"@
}

/// The lines of spec node `s` at nesting level `depth`: its own line; one level deeper,
/// the lines of its filter (or the line for a missing one); then the lines of its
/// children, in order, one level deeper.
pub open spec fn spec_lines(s: ScanSpecJson, depth: nat) -> Seq<Seq<char>>
    decreases s, 1nat,
{
    seq![spec_header(s, depth)] + match s.filter {
        Some(f) => filter_lines(f, depth + 1),
        None => seq![no_filter_line(depth + 1)],
    } + specs_lines(s.children@, depth + 1)
}

/// The lines of the spec nodes `ss`, one after the other, each at nesting level `depth`.
pub open spec fn specs_lines(ss: Seq<ScanSpecJson>, depth: nat) -> Seq<Seq<char>>
    decreases ss, 0nat,
{
    if ss.len() == 0 {
        Seq::empty()
    } else {
        specs_lines(ss.subrange(0, ss.len() - 1), depth) + spec_lines(ss[ss.len() - 1], depth)
    }
}

/// The first line of the report of a root with version `v`.
pub open spec fn begin_line(v: i32) -> Seq<char> {
    "[SCANSPEC-FFI] BEGIN v="@ + dec(v as int)
}

/// The last line of the report.
pub open spec fn end_line() -> Seq<char> {
    "[SCANSPEC-FFI] END"@
}

/// The whole report of a root whose version is accepted: the first line, the lines of
/// the spec tree from nesting level 0, and the last line.
pub open spec fn report_lines(root: ScanSpecRootJson) -> Seq<Seq<char>> {
    seq![begin_line(root.v)] + spec_lines(root.spec, 0) + seq![end_line()]
}

/// The message for a root whose version `v` is not the accepted one.
pub open spec fn version_error(v: i32) -> Seq<char> {
    "scan_spec_ffi: unsupported version "@ + dec(v as int) + " (expected "@
        + dec(SCAN_SPEC_JSON_VERSION as int) + ")"@
}

/// The message for input that could not be read as a scan spec; `detail` says why.
pub open spec fn parse_error(detail: Seq<char>) -> Seq<char> {
    "scan_spec_ffi: parse error: "@ + detail
}

/// The text that follows `filter kind=` on the line of `f`, given the quoted text of
/// each of its `quoted_strings` in `quoted`.
pub fn filter_text_from_quoted(f: &FilterJson, quoted: &Vec<String>) -> (out: String)
    requires
        quoted@.len() == quoted_strings(*f).len(),
    ensures
        out@ == filter_text_quoted(*f, texts(quoted@)),
{
    let ghost q = texts(quoted@);
    match f {
        FilterJson::AlwaysTrue { null_allowed } => {
            let mut out = String::from_str("alwaysTrue");
            push_field_name(&mut out, "nullAllowed");
            push_bool(&mut out, *null_allowed);
            assert(out@ == filter_text_quoted(*f, q));
            out
        }
        FilterJson::AlwaysFalse { null_allowed } => {
            let mut out = String::from_str("alwaysFalse");
            push_field_name(&mut out, "nullAllowed");
            push_bool(&mut out, *null_allowed);
            assert(out@ == filter_text_quoted(*f, q));
            out
        }
        FilterJson::IsNull { null_allowed } => {
            let mut out = String::from_str("isNull");
            push_field_name(&mut out, "nullAllowed");
            push_bool(&mut out, *null_allowed);
            assert(out@ == filter_text_quoted(*f, q));
            out
        }
        FilterJson::IsNotNull { null_allowed } => {
            let mut out = String::from_str("isNotNull");
            push_field_name(&mut out, "nullAllowed");
            push_bool(&mut out, *null_allowed);
            assert(out@ == filter_text_quoted(*f, q));
            out
        }
        FilterJson::BoolValue { value, null_allowed } => {
            let mut out = String::from_str("boolValue");
            push_field_name(&mut out, "value");
            push_bool(&mut out, *value);
            push_field_name(&mut out, "nullAllowed");
            push_bool(&mut out, *null_allowed);
            assert(out@ == filter_text_quoted(*f, q));
            out
        }
        FilterJson::BigintRange { lower, upper, null_allowed } => {
            let mut out = String::from_str("bigintRange");
            push_field_name(&mut out, "lower");
            push_i64(&mut out, *lower);
            push_field_name(&mut out, "upper");
            push_i64(&mut out, *upper);
            push_field_name(&mut out, "nullAllowed");
            push_bool(&mut out, *null_allowed);
            assert(out@ == filter_text_quoted(*f, q));
            out
        }
        FilterJson::NegatedBigintRange { lower, upper, null_allowed } => {
            let mut out = String::from_str("negatedBigintRange");
            push_field_name(&mut out, "lower");
            push_i64(&mut out, *lower);
            push_field_name(&mut out, "upper");
            push_i64(&mut out, *upper);
            push_field_name(&mut out, "nullAllowed");
            push_bool(&mut out, *null_allowed);
            assert(out@ == filter_text_quoted(*f, q));
            out
        }
        FilterJson::BigintValuesUsingHashTable { min, max, values, null_allowed } => {
            let mut out = String::from_str("bigintValuesUsingHashTable");
            push_field_name(&mut out, "min");
            push_i64(&mut out, *min);
            push_field_name(&mut out, "max");
            push_i64(&mut out, *max);
            push_field_name(&mut out, "values");
            push_i64_list(&mut out, values);
            push_field_name(&mut out, "nullAllowed");
            push_bool(&mut out, *null_allowed);
            assert(out@ == filter_text_quoted(*f, q));
            out
        }
        FilterJson::BigintValuesUsingBitmask { min, max, values, null_allowed } => {
            let mut out = String::from_str("bigintValuesUsingBitmask");
            push_field_name(&mut out, "min");
            push_i64(&mut out, *min);
            push_field_name(&mut out, "max");
            push_i64(&mut out, *max);
            push_field_name(&mut out, "values");
            push_i64_list(&mut out, values);
            push_field_name(&mut out, "nullAllowed");
            push_bool(&mut out, *null_allowed);
            assert(out@ == filter_text_quoted(*f, q));
            out
        }
        FilterJson::NegatedBigintValuesUsingHashTable { min, max, values, null_allowed } => {
            let mut out = String::from_str("negatedBigintValuesUsingHashTable");
            push_field_name(&mut out, "min");
            push_i64(&mut out, *min);
            push_field_name(&mut out, "max");
            push_i64(&mut out, *max);
            push_field_name(&mut out, "values");
            push_i64_list(&mut out, values);
            push_field_name(&mut out, "nullAllowed");
            push_bool(&mut out, *null_allowed);
            assert(out@ == filter_text_quoted(*f, q));
            out
        }
        FilterJson::NegatedBigintValuesUsingBitmask { min, max, values, null_allowed } => {
            let mut out = String::from_str("negatedBigintValuesUsingBitmask");
            push_field_name(&mut out, "min");
            push_i64(&mut out, *min);
            push_field_name(&mut out, "max");
            push_i64(&mut out, *max);
            push_field_name(&mut out, "values");
            push_i64_list(&mut out, values);
            push_field_name(&mut out, "nullAllowed");
            push_bool(&mut out, *null_allowed);
            assert(out@ == filter_text_quoted(*f, q));
            out
        }
        FilterJson::DoubleRange { lower, upper, lower_unbounded, upper_unbounded, lower_exclusive, upper_exclusive, null_allowed } => {
            let mut out = String::from_str("doubleRange");
            push_field_name(&mut out, "lower");
            out.append(lower.as_str());
            push_field_name(&mut out, "upper");
            out.append(upper.as_str());
            push_field_name(&mut out, "lowerUnbounded");
            push_bool(&mut out, *lower_unbounded);
            push_field_name(&mut out, "upperUnbounded");
            push_bool(&mut out, *upper_unbounded);
            push_field_name(&mut out, "lowerExclusive");
            push_bool(&mut out, *lower_exclusive);
            push_field_name(&mut out, "upperExclusive");
            push_bool(&mut out, *upper_exclusive);
            push_field_name(&mut out, "nullAllowed");
            push_bool(&mut out, *null_allowed);
            assert(out@ == filter_text_quoted(*f, q));
            out
        }
        FilterJson::FloatRange { lower, upper, lower_unbounded, upper_unbounded, lower_exclusive, upper_exclusive, null_allowed } => {
            let mut out = String::from_str("floatRange");
            push_field_name(&mut out, "lower");
            out.append(lower.as_str());
            push_field_name(&mut out, "upper");
            out.append(upper.as_str());
            push_field_name(&mut out, "lowerUnbounded");
            push_bool(&mut out, *lower_unbounded);
            push_field_name(&mut out, "upperUnbounded");
            push_bool(&mut out, *upper_unbounded);
            push_field_name(&mut out, "lowerExclusive");
            push_bool(&mut out, *lower_exclusive);
            push_field_name(&mut out, "upperExclusive");
            push_bool(&mut out, *upper_exclusive);
            push_field_name(&mut out, "nullAllowed");
            push_bool(&mut out, *null_allowed);
            assert(out@ == filter_text_quoted(*f, q));
            out
        }
        FilterJson::BytesRange { lower, upper, lower_unbounded, upper_unbounded, lower_exclusive, upper_exclusive, null_allowed } => {
            let mut out = String::from_str("bytesRange");
            push_field_name(&mut out, "lower");
            out.append(quoted[0].as_str());
            push_field_name(&mut out, "upper");
            out.append(quoted[1].as_str());
            push_field_name(&mut out, "lowerUnbounded");
            push_bool(&mut out, *lower_unbounded);
            push_field_name(&mut out, "upperUnbounded");
            push_bool(&mut out, *upper_unbounded);
            push_field_name(&mut out, "lowerExclusive");
            push_bool(&mut out, *lower_exclusive);
            push_field_name(&mut out, "upperExclusive");
            push_bool(&mut out, *upper_exclusive);
            push_field_name(&mut out, "nullAllowed");
            push_bool(&mut out, *null_allowed);
            assert(out@ == filter_text_quoted(*f, q));
            out
        }
        FilterJson::NegatedBytesRange { lower, upper, lower_unbounded, upper_unbounded, lower_exclusive, upper_exclusive, null_allowed } => {
            let mut out = String::from_str("negatedBytesRange");
            push_field_name(&mut out, "lower");
            out.append(quoted[0].as_str());
            push_field_name(&mut out, "upper");
            out.append(quoted[1].as_str());
            push_field_name(&mut out, "lowerUnbounded");
            push_bool(&mut out, *lower_unbounded);
            push_field_name(&mut out, "upperUnbounded");
            push_bool(&mut out, *upper_unbounded);
            push_field_name(&mut out, "lowerExclusive");
            push_bool(&mut out, *lower_exclusive);
            push_field_name(&mut out, "upperExclusive");
            push_bool(&mut out, *upper_exclusive);
            push_field_name(&mut out, "nullAllowed");
            push_bool(&mut out, *null_allowed);
            assert(out@ == filter_text_quoted(*f, q));
            out
        }
        FilterJson::BytesValues { values, null_allowed } => {
            let mut out = String::from_str("bytesValues");
            push_field_name(&mut out, "values");
            push_quoted_list(&mut out, quoted);
            push_field_name(&mut out, "nullAllowed");
            push_bool(&mut out, *null_allowed);
            assert(out@ == filter_text_quoted(*f, q));
            out
        }
        FilterJson::NegatedBytesValues { values, null_allowed } => {
            let mut out = String::from_str("negatedBytesValues");
            push_field_name(&mut out, "values");
            push_quoted_list(&mut out, quoted);
            push_field_name(&mut out, "nullAllowed");
            push_bool(&mut out, *null_allowed);
            assert(out@ == filter_text_quoted(*f, q));
            out
        }
        FilterJson::HugeintRange { lower_hi, lower_lo, upper_hi, upper_lo, null_allowed } => {
            let mut out = String::from_str("hugeintRange");
            push_field_name(&mut out, "lowerHi");
            push_i64(&mut out, *lower_hi);
            push_field_name(&mut out, "lowerLo");
            push_i64(&mut out, *lower_lo);
            push_field_name(&mut out, "upperHi");
            push_i64(&mut out, *upper_hi);
            push_field_name(&mut out, "upperLo");
            push_i64(&mut out, *upper_lo);
            push_field_name(&mut out, "nullAllowed");
            push_bool(&mut out, *null_allowed);
            assert(out@ == filter_text_quoted(*f, q));
            out
        }
        FilterJson::HugeintValuesUsingHashTable { min_hi, min_lo, max_hi, max_lo, values_hi, values_lo, null_allowed } => {
            let mut out = String::from_str("hugeintValuesUsingHashTable");
            push_field_name(&mut out, "minHi");
            push_i64(&mut out, *min_hi);
            push_field_name(&mut out, "minLo");
            push_i64(&mut out, *min_lo);
            push_field_name(&mut out, "maxHi");
            push_i64(&mut out, *max_hi);
            push_field_name(&mut out, "maxLo");
            push_i64(&mut out, *max_lo);
            push_field_name(&mut out, "valuesHi");
            push_i64_list(&mut out, values_hi);
            push_field_name(&mut out, "valuesLo");
            push_i64_list(&mut out, values_lo);
            push_field_name(&mut out, "nullAllowed");
            push_bool(&mut out, *null_allowed);
            assert(out@ == filter_text_quoted(*f, q));
            out
        }
        FilterJson::TimestampRange { lower_sec, lower_nanos, upper_sec, upper_nanos, null_allowed } => {
            let mut out = String::from_str("timestampRange");
            push_field_name(&mut out, "lowerSec");
            push_i64(&mut out, *lower_sec);
            push_field_name(&mut out, "lowerNanos");
            push_i64(&mut out, *lower_nanos);
            push_field_name(&mut out, "upperSec");
            push_i64(&mut out, *upper_sec);
            push_field_name(&mut out, "upperNanos");
            push_i64(&mut out, *upper_nanos);
            push_field_name(&mut out, "nullAllowed");
            push_bool(&mut out, *null_allowed);
            assert(out@ == filter_text_quoted(*f, q));
            out
        }
        FilterJson::BigintMultiRange { ranges, null_allowed } => {
            let mut out = String::from_str("bigintMultiRange");
            push_field_name(&mut out, "n");
            push_usize(&mut out, ranges.len());
            push_field_name(&mut out, "nullAllowed");
            push_bool(&mut out, *null_allowed);
            assert(out@ == filter_text_quoted(*f, q));
            out
        }
        FilterJson::MultiRange { subfilters, null_allowed } => {
            let mut out = String::from_str("multiRange");
            push_field_name(&mut out, "n");
            push_usize(&mut out, subfilters.len());
            push_field_name(&mut out, "nullAllowed");
            push_bool(&mut out, *null_allowed);
            assert(out@ == filter_text_quoted(*f, q));
            out
        }
    }
}

/// The quoted text of each of the `quoted_strings` of `f`, in order.
fn quote_filter_strings(f: &FilterJson) -> (q: Vec<String>)
    ensures
        texts(q@) == quoted_strings(*f).map_values(|t: Seq<char>| quoted_text(t)),
{
    match f {
        FilterJson::BytesRange { lower, upper, .. } | FilterJson::NegatedBytesRange {
            lower,
            upper,
            ..
        } => {
            let mut q: Vec<String> = Vec::new();
            q.push(quote_str(lower.as_str()));
            q.push(quote_str(upper.as_str()));
            assert(texts(q@) =~= quoted_strings(*f).map_values(|t: Seq<char>| quoted_text(t)));
            q
        },
        FilterJson::BytesValues { values, .. } | FilterJson::NegatedBytesValues { values, .. } => {
            quote_all(values)
        },
        _ => {
            let q: Vec<String> = Vec::new();
            assert(texts(q@) =~= quoted_strings(*f).map_values(|t: Seq<char>| quoted_text(t)));
            q
        },
    }
}

/// The line of filter `f` at the nesting level whose indentation is `ind`.
fn filter_header_line(f: &FilterJson, ind: &String, Ghost(depth): Ghost<nat>) -> (r: String)
    requires
        ind@ == indent(depth),
    ensures
        r@ == filter_header(*f, depth),
{
    let mut out = String::new();
    out.append("[SCANSPEC-FFI] ");
    out.append(ind.as_str());
    out.append("filter kind=");
    let q = quote_filter_strings(f);
    assert(texts(q@).len() == q@.len());
    let t = filter_text_from_quoted(f, &q);
    out.append(t.as_str());
    assert(out@ =~= filter_header(*f, depth));
    out
}


/// Appends to `out` the lines of the filters `fs` at the level whose indentation is `ind`.
fn push_filters_lines(fs: &Vec<FilterJson>, ind: &String, Ghost(depth): Ghost<nat>, out: &mut Vec<String>)
    requires
        ind@ == indent(depth),
    ensures
        texts(final(out)@) == texts(old(out)@) + filters_lines(fs@, depth),
    decreases fs@, 0nat,
{
    let ghost start = texts(out@);
    let mut i: usize = 0;
    while i < fs.len()
        invariant
            i <= fs.len(),
            ind@ == indent(depth),
            texts(out@) == start + filters_lines(fs@.subrange(0, i as int), depth),
        decreases fs.len() - i,
    {
        push_filter_lines(&fs[i], ind, Ghost(depth), out);
        assert(fs@.subrange(0, i + 1).subrange(0, i as int) =~= fs@.subrange(0, i as int));
        assert(texts(out@) =~= start + filters_lines(fs@.subrange(0, i + 1), depth));
        i = i + 1;
    }
    assert(fs@.subrange(0, fs.len() as int) =~= fs@);
}

/// Appends to `out` the lines of filter `f` at the level whose indentation is `ind`.
fn push_filter_lines(f: &FilterJson, ind: &String, Ghost(depth): Ghost<nat>, out: &mut Vec<String>)
    requires
        ind@ == indent(depth),
    ensures
        texts(final(out)@) == texts(old(out)@) + filter_lines(*f, depth),
    decreases *f, 1nat,
{
    let ghost start = texts(out@);
    let line = filter_header_line(f, ind, Ghost(depth));
    out.push(line);
    assert(texts(out@) =~= start + seq![filter_header(*f, depth)]);
    let mut child = ind.clone();
    child.append("  ");
    match f {
        FilterJson::BigintMultiRange { ranges, .. } => {
            push_filters_lines(ranges, &child, Ghost(depth + 1), out);
        }
        FilterJson::MultiRange { subfilters, .. } => {
            push_filters_lines(subfilters, &child, Ghost(depth + 1), out);
        }
        _ => {}
    }
    assert(texts(out@) =~= start + filter_lines(*f, depth));
}


/// What follows the indentation on the line of spec node `s`, given the quoted text
/// of its name in `quoted_name`.
pub fn spec_text_from_quoted(s: &ScanSpecJson, quoted_name: &str) -> (out: String)
    ensures
        out@ == spec_text(*s, quoted_name@),
{
    let mut out = String::from_str("spec name=");
    out.append(quoted_name);
    push_field_name(&mut out, "subscript");
    push_i64(&mut out, s.subscript);
    push_field_name(&mut out, "channel");
    push_i64(&mut out, s.channel);
    push_field_name(&mut out, "projectOut");
    push_bool(&mut out, s.project_out);
    push_field_name(&mut out, "filterDisabled");
    push_bool(&mut out, s.filter_disabled);
    push_field_name(&mut out, "columnType");
    out.append(s.column_type.as_str());
    out
}

/// The line of spec node `s` at the nesting level whose indentation is `ind`.
fn spec_header_line(s: &ScanSpecJson, ind: &String, Ghost(depth): Ghost<nat>) -> (r: String)
    requires
        ind@ == indent(depth),
    ensures
        r@ == spec_header(*s, depth),
{
    let quoted_name = quote_str(s.name.as_str());
    let t = spec_text_from_quoted(s, quoted_name.as_str());
    let mut out = String::from_str("[SCANSPEC-FFI] ");
    out.append(ind.as_str());
    out.append(t.as_str());
    out
}

/// Appends to `out` the lines of the spec nodes `ss` at the level whose indentation is `ind`.
fn push_specs_lines(ss: &Vec<ScanSpecJson>, ind: &String, Ghost(depth): Ghost<nat>, out: &mut Vec<String>)
    requires
        ind@ == indent(depth),
    ensures
        texts(final(out)@) == texts(old(out)@) + specs_lines(ss@, depth),
    decreases ss@, 0nat,
{
    let ghost start = texts(out@);
    let mut i: usize = 0;
    while i < ss.len()
        invariant
            i <= ss.len(),
            ind@ == indent(depth),
            texts(out@) == start + specs_lines(ss@.subrange(0, i as int), depth),
        decreases ss.len() - i,
    {
        push_spec_lines(&ss[i], ind, Ghost(depth), out);
        assert(ss@.subrange(0, i + 1).subrange(0, i as int) =~= ss@.subrange(0, i as int));
        assert(texts(out@) =~= start + specs_lines(ss@.subrange(0, i + 1), depth));
        i = i + 1;
    }
    assert(ss@.subrange(0, ss.len() as int) =~= ss@);
}

/// Appends to `out` the lines of spec node `s` at the level whose indentation is `ind`.
fn push_spec_lines(s: &ScanSpecJson, ind: &String, Ghost(depth): Ghost<nat>, out: &mut Vec<String>)
    requires
        ind@ == indent(depth),
    ensures
        texts(final(out)@) == texts(old(out)@) + spec_lines(*s, depth),
    decreases *s, 1nat,
{
    let ghost start = texts(out@);
    let line = spec_header_line(s, ind, Ghost(depth));
    out.push(line);
    assert(texts(out@) =~= start + seq![spec_header(*s, depth)]);
    let mut child = ind.clone();
    child.append("  ");
    let ghost mid = texts(out@);
    match &s.filter {
        Some(f) => {
            push_filter_lines(f, &child, Ghost(depth + 1), out);
        }
        None => {
            let mut line = String::from_str("[SCANSPEC-FFI] ");
            line.append(child.as_str());
            line.append("filter=<none>");
            out.push(line);
            assert(texts(out@) =~= mid + seq![no_filter_line(depth + 1)]);
        }
    }
    push_specs_lines(&s.children, &child, Ghost(depth + 1), out);
    assert(texts(out@) =~= start + spec_lines(*s, depth));
}

/// The lines of spec node `s` rendered at nesting level `depth`.
pub fn render_spec(s: &ScanSpecJson, depth: usize) -> (lines: Vec<String>)
    ensures
        texts(lines@) == spec_lines(*s, depth as nat),
{
    let ind = make_indent(depth);
    let mut lines: Vec<String> = Vec::new();
    push_spec_lines(s, &ind, Ghost(depth as nat), &mut lines);
    assert(texts(lines@) =~= Seq::empty() + spec_lines(*s, depth as nat));
    lines
}

/// The lines of filter `f` rendered at nesting level `depth`.
pub fn render_filter(f: &FilterJson, depth: usize) -> (lines: Vec<String>)
    ensures
        texts(lines@) == filter_lines(*f, depth as nat),
{
    let ind = make_indent(depth);
    let mut lines: Vec<String> = Vec::new();
    push_filter_lines(f, &ind, Ghost(depth as nat), &mut lines);
    assert(texts(lines@) =~= Seq::empty() + filter_lines(*f, depth as nat));
    lines
}

/// Checks the version of a root: `Ok` exactly when it is the accepted one, else the
/// message that names both versions.
pub fn check_version(v: i32) -> (r: Result<(), String>)
    ensures
        r is Ok <==> v == SCAN_SPEC_JSON_VERSION,
        r matches Err(e) ==> e@ == version_error(v),
{
    if v != SCAN_SPEC_JSON_VERSION {
        let mut e = String::from_str("scan_spec_ffi: unsupported version ");
        push_i64(&mut e, v as i64);
        e.append(" (expected ");
        push_i64(&mut e, SCAN_SPEC_JSON_VERSION as i64);
        e.append(")");
        Err(e)
    } else {
        Ok(())
    }
}

/// The report of a scan-spec root: the lines of the `[SCANSPEC-FFI]` block when its
/// version is the accepted one, else the version error.
pub fn scan_spec_report(root: &ScanSpecRootJson) -> (r: Result<Vec<String>, String>)
    ensures
        r is Ok <==> root.v == SCAN_SPEC_JSON_VERSION,
        r matches Ok(lines) ==> texts(lines@) == report_lines(*root),
        r matches Err(e) ==> e@ == version_error(root.v),
{
    match check_version(root.v) {
        Err(e) => Err(e),
        Ok(()) => {
            let mut lines: Vec<String> = Vec::new();
            let mut first = String::from_str("[SCANSPEC-FFI] BEGIN v=");
            push_i64(&mut first, root.v as i64);
            lines.push(first);
            let ghost head = texts(lines@);
            assert(head =~= seq![begin_line(root.v)]);
            let ind = String::new();
            push_spec_lines(&root.spec, &ind, Ghost(0nat), &mut lines);
            let ghost body = texts(lines@);
            lines.push(String::from_str("[SCANSPEC-FFI] END"));
            assert(texts(lines@) =~= body + seq![end_line()]);
            assert(texts(lines@) =~= report_lines(*root));
            Ok(lines)
        }
    }
}

/// The message for input that could not be read as a scan spec, with `detail` saying why.
pub fn parse_error_message(detail: &str) -> (r: String)
    ensures
        r@ == parse_error(detail@),
{
    let mut r = String::from_str("scan_spec_ffi: parse error: ");
    r.append(detail);
    r
}

} // verus!
