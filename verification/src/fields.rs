//! Laws on the fields of a report line: each field is shown under its own name with the
//! text of its own value, taken from the input alone.

use vstd::prelude::*;
use crate::model::{FilterJson, ScanSpecJson};
use crate::render::{filter_header, filter_text, line_prefix, quoted_strings, spec_header, spec_text};
use crate::text::{bool_text, dec, field_name, i64_list, is_plain, quoted_list, quoted_text, texts};

verus! {

/// `line` shows field `name` with value text `value`: somewhere in it stands a space,
/// `name`, `=` and `value`, followed by the end of the line or by a space.
#[verifier::opaque]
pub open spec fn shows_field(line: Seq<char>, name: Seq<char>, value: Seq<char>) -> bool {
    exists|a: Seq<char>, b: Seq<char>|
        #![trigger a + field_name(name) + value + b]
        line == a + field_name(name) + value + b && (b.len() == 0 || b[0] == ' ')
}

/// `line` starts with `head`, and a space follows it.
#[verifier::opaque]
pub open spec fn starts_with_then_space(line: Seq<char>, head: Seq<char>) -> bool {
    exists|b: Seq<char>| #![trigger head + b] line == head + b && b.len() > 0 && b[0] == ' '
}

/// `line` ends with `tail`.
#[verifier::opaque]
pub open spec fn ends_with(line: Seq<char>, tail: Seq<char>) -> bool {
    exists|a: Seq<char>| #![trigger a + tail] line == a + tail
}

/// The kind name that a filter's line shows after `filter kind=`.
pub open spec fn kind_name(f: FilterJson) -> Seq<char> {
    match f {
        FilterJson::AlwaysTrue { .. } => "alwaysTrue"@,
        FilterJson::AlwaysFalse { .. } => "alwaysFalse"@,
        FilterJson::IsNull { .. } => "isNull"@,
        FilterJson::IsNotNull { .. } => "isNotNull"@,
        FilterJson::BoolValue { .. } => "boolValue"@,
        FilterJson::BigintRange { .. } => "bigintRange"@,
        FilterJson::NegatedBigintRange { .. } => "negatedBigintRange"@,
        FilterJson::BigintValuesUsingHashTable { .. } => "bigintValuesUsingHashTable"@,
        FilterJson::BigintValuesUsingBitmask { .. } => "bigintValuesUsingBitmask"@,
        FilterJson::NegatedBigintValuesUsingHashTable { .. } => "negatedBigintValuesUsingHashTable"@,
        FilterJson::NegatedBigintValuesUsingBitmask { .. } => "negatedBigintValuesUsingBitmask"@,
        FilterJson::DoubleRange { .. } => "doubleRange"@,
        FilterJson::FloatRange { .. } => "floatRange"@,
        FilterJson::BytesRange { .. } => "bytesRange"@,
        FilterJson::NegatedBytesRange { .. } => "negatedBytesRange"@,
        FilterJson::BytesValues { .. } => "bytesValues"@,
        FilterJson::NegatedBytesValues { .. } => "negatedBytesValues"@,
        FilterJson::HugeintRange { .. } => "hugeintRange"@,
        FilterJson::HugeintValuesUsingHashTable { .. } => "hugeintValuesUsingHashTable"@,
        FilterJson::TimestampRange { .. } => "timestampRange"@,
        FilterJson::BigintMultiRange { .. } => "bigintMultiRange"@,
        FilterJson::MultiRange { .. } => "multiRange"@,
    }
}

/// Whether a filter lets nulls through.
pub open spec fn null_allowed_of(f: FilterJson) -> bool {
    match f {
        FilterJson::AlwaysTrue { null_allowed, .. } => null_allowed,
        FilterJson::AlwaysFalse { null_allowed, .. } => null_allowed,
        FilterJson::IsNull { null_allowed, .. } => null_allowed,
        FilterJson::IsNotNull { null_allowed, .. } => null_allowed,
        FilterJson::BoolValue { null_allowed, .. } => null_allowed,
        FilterJson::BigintRange { null_allowed, .. } => null_allowed,
        FilterJson::NegatedBigintRange { null_allowed, .. } => null_allowed,
        FilterJson::BigintValuesUsingHashTable { null_allowed, .. } => null_allowed,
        FilterJson::BigintValuesUsingBitmask { null_allowed, .. } => null_allowed,
        FilterJson::NegatedBigintValuesUsingHashTable { null_allowed, .. } => null_allowed,
        FilterJson::NegatedBigintValuesUsingBitmask { null_allowed, .. } => null_allowed,
        FilterJson::DoubleRange { null_allowed, .. } => null_allowed,
        FilterJson::FloatRange { null_allowed, .. } => null_allowed,
        FilterJson::BytesRange { null_allowed, .. } => null_allowed,
        FilterJson::NegatedBytesRange { null_allowed, .. } => null_allowed,
        FilterJson::BytesValues { null_allowed, .. } => null_allowed,
        FilterJson::NegatedBytesValues { null_allowed, .. } => null_allowed,
        FilterJson::HugeintRange { null_allowed, .. } => null_allowed,
        FilterJson::HugeintValuesUsingHashTable { null_allowed, .. } => null_allowed,
        FilterJson::TimestampRange { null_allowed, .. } => null_allowed,
        FilterJson::BigintMultiRange { null_allowed, .. } => null_allowed,
        FilterJson::MultiRange { null_allowed, .. } => null_allowed,
    }
}

/// Every field of filter `f` is shown on `line` under its own name with the text of its
/// own value: integers in decimal, flags as `true`/`false`, floating-point bounds as their
/// text, byte strings quoted, lists as `{:?}` writes them, sub-filter lists by their count.
pub open spec fn filter_fields_shown(f: FilterJson, line: Seq<char>) -> bool {
    match f {
        FilterJson::AlwaysTrue { null_allowed } =>
            shows_field(line, "nullAllowed"@, bool_text(null_allowed)),
        FilterJson::AlwaysFalse { null_allowed } =>
            shows_field(line, "nullAllowed"@, bool_text(null_allowed)),
        FilterJson::IsNull { null_allowed } =>
            shows_field(line, "nullAllowed"@, bool_text(null_allowed)),
        FilterJson::IsNotNull { null_allowed } =>
            shows_field(line, "nullAllowed"@, bool_text(null_allowed)),
        FilterJson::BoolValue { value, null_allowed } =>
            shows_field(line, "value"@, bool_text(value)) && shows_field(line, "nullAllowed"@, bool_text(null_allowed)),
        FilterJson::BigintRange { lower, upper, null_allowed } =>
            shows_field(line, "lower"@, dec(lower as int)) && shows_field(line, "upper"@, dec(upper as int)) && shows_field(line, "nullAllowed"@, bool_text(null_allowed)),
        FilterJson::NegatedBigintRange { lower, upper, null_allowed } =>
            shows_field(line, "lower"@, dec(lower as int)) && shows_field(line, "upper"@, dec(upper as int)) && shows_field(line, "nullAllowed"@, bool_text(null_allowed)),
        FilterJson::BigintValuesUsingHashTable { min, max, values, null_allowed } =>
            shows_field(line, "min"@, dec(min as int)) && shows_field(line, "max"@, dec(max as int)) && shows_field(line, "values"@, i64_list(values@)) && shows_field(line, "nullAllowed"@, bool_text(null_allowed)),
        FilterJson::BigintValuesUsingBitmask { min, max, values, null_allowed } =>
            shows_field(line, "min"@, dec(min as int)) && shows_field(line, "max"@, dec(max as int)) && shows_field(line, "values"@, i64_list(values@)) && shows_field(line, "nullAllowed"@, bool_text(null_allowed)),
        FilterJson::NegatedBigintValuesUsingHashTable { min, max, values, null_allowed } =>
            shows_field(line, "min"@, dec(min as int)) && shows_field(line, "max"@, dec(max as int)) && shows_field(line, "values"@, i64_list(values@)) && shows_field(line, "nullAllowed"@, bool_text(null_allowed)),
        FilterJson::NegatedBigintValuesUsingBitmask { min, max, values, null_allowed } =>
            shows_field(line, "min"@, dec(min as int)) && shows_field(line, "max"@, dec(max as int)) && shows_field(line, "values"@, i64_list(values@)) && shows_field(line, "nullAllowed"@, bool_text(null_allowed)),
        FilterJson::DoubleRange { lower, upper, lower_unbounded, upper_unbounded, lower_exclusive, upper_exclusive, null_allowed } =>
            shows_field(line, "lower"@, lower@) && shows_field(line, "upper"@, upper@) && shows_field(line, "lowerUnbounded"@, bool_text(lower_unbounded)) && shows_field(line, "upperUnbounded"@, bool_text(upper_unbounded)) && shows_field(line, "lowerExclusive"@, bool_text(lower_exclusive)) && shows_field(line, "upperExclusive"@, bool_text(upper_exclusive)) && shows_field(line, "nullAllowed"@, bool_text(null_allowed)),
        FilterJson::FloatRange { lower, upper, lower_unbounded, upper_unbounded, lower_exclusive, upper_exclusive, null_allowed } =>
            shows_field(line, "lower"@, lower@) && shows_field(line, "upper"@, upper@) && shows_field(line, "lowerUnbounded"@, bool_text(lower_unbounded)) && shows_field(line, "upperUnbounded"@, bool_text(upper_unbounded)) && shows_field(line, "lowerExclusive"@, bool_text(lower_exclusive)) && shows_field(line, "upperExclusive"@, bool_text(upper_exclusive)) && shows_field(line, "nullAllowed"@, bool_text(null_allowed)),
        FilterJson::BytesRange { lower, upper, lower_unbounded, upper_unbounded, lower_exclusive, upper_exclusive, null_allowed } =>
            shows_field(line, "lower"@, quoted_text(lower@)) && shows_field(line, "upper"@, quoted_text(upper@)) && shows_field(line, "lowerUnbounded"@, bool_text(lower_unbounded)) && shows_field(line, "upperUnbounded"@, bool_text(upper_unbounded)) && shows_field(line, "lowerExclusive"@, bool_text(lower_exclusive)) && shows_field(line, "upperExclusive"@, bool_text(upper_exclusive)) && shows_field(line, "nullAllowed"@, bool_text(null_allowed)),
        FilterJson::NegatedBytesRange { lower, upper, lower_unbounded, upper_unbounded, lower_exclusive, upper_exclusive, null_allowed } =>
            shows_field(line, "lower"@, quoted_text(lower@)) && shows_field(line, "upper"@, quoted_text(upper@)) && shows_field(line, "lowerUnbounded"@, bool_text(lower_unbounded)) && shows_field(line, "upperUnbounded"@, bool_text(upper_unbounded)) && shows_field(line, "lowerExclusive"@, bool_text(lower_exclusive)) && shows_field(line, "upperExclusive"@, bool_text(upper_exclusive)) && shows_field(line, "nullAllowed"@, bool_text(null_allowed)),
        FilterJson::BytesValues { values, null_allowed } =>
            shows_field(line, "values"@, quoted_list(texts(values@).map_values(|t: Seq<char>| quoted_text(t)))) && shows_field(line, "nullAllowed"@, bool_text(null_allowed)),
        FilterJson::NegatedBytesValues { values, null_allowed } =>
            shows_field(line, "values"@, quoted_list(texts(values@).map_values(|t: Seq<char>| quoted_text(t)))) && shows_field(line, "nullAllowed"@, bool_text(null_allowed)),
        FilterJson::HugeintRange { lower_hi, lower_lo, upper_hi, upper_lo, null_allowed } =>
            shows_field(line, "lowerHi"@, dec(lower_hi as int)) && shows_field(line, "lowerLo"@, dec(lower_lo as int)) && shows_field(line, "upperHi"@, dec(upper_hi as int)) && shows_field(line, "upperLo"@, dec(upper_lo as int)) && shows_field(line, "nullAllowed"@, bool_text(null_allowed)),
        FilterJson::HugeintValuesUsingHashTable { min_hi, min_lo, max_hi, max_lo, values_hi, values_lo, null_allowed } =>
            shows_field(line, "minHi"@, dec(min_hi as int)) && shows_field(line, "minLo"@, dec(min_lo as int)) && shows_field(line, "maxHi"@, dec(max_hi as int)) && shows_field(line, "maxLo"@, dec(max_lo as int)) && shows_field(line, "valuesHi"@, i64_list(values_hi@)) && shows_field(line, "valuesLo"@, i64_list(values_lo@)) && shows_field(line, "nullAllowed"@, bool_text(null_allowed)),
        FilterJson::TimestampRange { lower_sec, lower_nanos, upper_sec, upper_nanos, null_allowed } =>
            shows_field(line, "lowerSec"@, dec(lower_sec as int)) && shows_field(line, "lowerNanos"@, dec(lower_nanos as int)) && shows_field(line, "upperSec"@, dec(upper_sec as int)) && shows_field(line, "upperNanos"@, dec(upper_nanos as int)) && shows_field(line, "nullAllowed"@, bool_text(null_allowed)),
        FilterJson::BigintMultiRange { ranges, null_allowed } =>
            shows_field(line, "n"@, dec(ranges.len() as int)) && shows_field(line, "nullAllowed"@, bool_text(null_allowed)),
        FilterJson::MultiRange { subfilters, null_allowed } =>
            shows_field(line, "n"@, dec(subfilters.len() as int)) && shows_field(line, "nullAllowed"@, bool_text(null_allowed)),
    }
}

proof fn lemma_starts(line: Seq<char>, head: Seq<char>, b: Seq<char>)
    requires
        line == head + b,
        b.len() > 0,
        b[0] == ' ',
    ensures
        starts_with_then_space(line, head),
{
    reveal(starts_with_then_space);
}

proof fn lemma_starts_base(head: Seq<char>, name: Seq<char>, value: Seq<char>)
    ensures
        starts_with_then_space(head + field_name(name) + value, head),
{
    lemma_field_name_first(name);
    let b = field_name(name) + value;
    assert(head + field_name(name) + value =~= head + b);
    lemma_starts(head + field_name(name) + value, head, b);
}

proof fn lemma_starts_extend(line: Seq<char>, head: Seq<char>, name: Seq<char>, value: Seq<char>)
    requires
        starts_with_then_space(line, head),
    ensures
        starts_with_then_space(line + field_name(name) + value, head),
{
    reveal(starts_with_then_space);
    let b = choose|b: Seq<char>| #![trigger head + b] line == head + b && b.len() > 0 && b[0] == ' ';
    let b2 = b + field_name(name) + value;
    assert(line + field_name(name) + value =~= head + b2);
    assert(b2[0] == b[0]);
}

proof fn lemma_starts_after(x: Seq<char>, line: Seq<char>, head: Seq<char>)
    requires
        starts_with_then_space(line, head),
    ensures
        starts_with_then_space(x + line, x + head),
{
    reveal(starts_with_then_space);
    let b = choose|b: Seq<char>| #![trigger head + b] line == head + b && b.len() > 0 && b[0] == ' ';
    assert(x + line =~= (x + head) + b);
}

proof fn lemma_ends_last(x: Seq<char>, name: Seq<char>, value: Seq<char>, y: Seq<char>)
    requires
        y == x + field_name(name) + value,
    ensures
        ends_with(y, field_name(name) + value),
{
    reveal(ends_with);
    assert(y =~= x + (field_name(name) + value));
}

proof fn lemma_ends_after(x: Seq<char>, line: Seq<char>, tail: Seq<char>)
    requires
        ends_with(line, tail),
    ensures
        ends_with(x + line, tail),
{
    reveal(ends_with);
    let a = choose|a: Seq<char>| #![trigger a + tail] line == a + tail;
    assert(x + line =~= (x + a) + tail);
}

proof fn lemma_field_name_first(name: Seq<char>)
    ensures
        field_name(name).len() > 0,
        field_name(name)[0] == ' ',
{
    reveal_strlit(" ");
}

proof fn lemma_shows_last(x: Seq<char>, name: Seq<char>, value: Seq<char>)
    ensures
        shows_field(x + field_name(name) + value, name, value),
{
    reveal(shows_field);
    let e = Seq::<char>::empty();
    assert(x + field_name(name) + value == x + field_name(name) + value + e);
}

proof fn lemma_shows_extend(
    line: Seq<char>,
    name: Seq<char>,
    value: Seq<char>,
    name2: Seq<char>,
    value2: Seq<char>,
)
    requires
        shows_field(line, name, value),
    ensures
        shows_field(line + field_name(name2) + value2, name, value),
{
    reveal(shows_field);
    let (a, b) = choose|a: Seq<char>, b: Seq<char>|
        #![trigger a + field_name(name) + value + b]
        line == a + field_name(name) + value + b && (b.len() == 0 || b[0] == ' ');
    let b2 = b + field_name(name2) + value2;
    lemma_field_name_first(name2);
    assert(line + field_name(name2) + value2 =~= a + field_name(name) + value + b2);
    assert(b2[0] == ' ');
}

proof fn lemma_shows_after(x: Seq<char>, line: Seq<char>, name: Seq<char>, value: Seq<char>)
    requires
        shows_field(line, name, value),
    ensures
        shows_field(x + line, name, value),
{
    reveal(shows_field);
    let (a, b) = choose|a: Seq<char>, b: Seq<char>|
        #![trigger a + field_name(name) + value + b]
        line == a + field_name(name) + value + b && (b.len() == 0 || b[0] == ' ');
    assert(x + line =~= (x + a) + field_name(name) + value + b);
}

proof fn lemma_fields_always_true(f: FilterJson, depth: nat)
    requires
        f is AlwaysTrue,
    ensures
        starts_with_then_space(filter_header(f, depth), line_prefix(depth) + "filter kind="@ + kind_name(f)),
        filter_fields_shown(f, filter_header(f, depth)),
        ends_with(filter_header(f, depth), field_name("nullAllowed"@) + bool_text(null_allowed_of(f))),
{
    match f {
        FilterJson::AlwaysTrue { null_allowed } => {
            let p = line_prefix(depth) + "filter kind="@;
            let e0 = "alwaysTrue"@;
            let e1 = e0 + field_name("nullAllowed"@) + bool_text(null_allowed);
            assert(filter_text(f) == e1);
            assert(filter_header(f, depth) == p + e1);
            lemma_shows_last(e0, "nullAllowed"@, bool_text(null_allowed));
            lemma_shows_after(p, e1, "nullAllowed"@, bool_text(null_allowed));
            lemma_starts_base(e0, "nullAllowed"@, bool_text(null_allowed));
            lemma_starts_after(p, e1, e0);
            lemma_ends_last(e0, "nullAllowed"@, bool_text(null_allowed), e1);
            lemma_ends_after(p, e1, field_name("nullAllowed"@) + bool_text(null_allowed));
        },
        _ => {},
    }
}

proof fn lemma_fields_always_false(f: FilterJson, depth: nat)
    requires
        f is AlwaysFalse,
    ensures
        starts_with_then_space(filter_header(f, depth), line_prefix(depth) + "filter kind="@ + kind_name(f)),
        filter_fields_shown(f, filter_header(f, depth)),
        ends_with(filter_header(f, depth), field_name("nullAllowed"@) + bool_text(null_allowed_of(f))),
{
    match f {
        FilterJson::AlwaysFalse { null_allowed } => {
            let p = line_prefix(depth) + "filter kind="@;
            let e0 = "alwaysFalse"@;
            let e1 = e0 + field_name("nullAllowed"@) + bool_text(null_allowed);
            assert(filter_text(f) == e1);
            assert(filter_header(f, depth) == p + e1);
            lemma_shows_last(e0, "nullAllowed"@, bool_text(null_allowed));
            lemma_shows_after(p, e1, "nullAllowed"@, bool_text(null_allowed));
            lemma_starts_base(e0, "nullAllowed"@, bool_text(null_allowed));
            lemma_starts_after(p, e1, e0);
            lemma_ends_last(e0, "nullAllowed"@, bool_text(null_allowed), e1);
            lemma_ends_after(p, e1, field_name("nullAllowed"@) + bool_text(null_allowed));
        },
        _ => {},
    }
}

proof fn lemma_fields_is_null(f: FilterJson, depth: nat)
    requires
        f is IsNull,
    ensures
        starts_with_then_space(filter_header(f, depth), line_prefix(depth) + "filter kind="@ + kind_name(f)),
        filter_fields_shown(f, filter_header(f, depth)),
        ends_with(filter_header(f, depth), field_name("nullAllowed"@) + bool_text(null_allowed_of(f))),
{
    match f {
        FilterJson::IsNull { null_allowed } => {
            let p = line_prefix(depth) + "filter kind="@;
            let e0 = "isNull"@;
            let e1 = e0 + field_name("nullAllowed"@) + bool_text(null_allowed);
            assert(filter_text(f) == e1);
            assert(filter_header(f, depth) == p + e1);
            lemma_shows_last(e0, "nullAllowed"@, bool_text(null_allowed));
            lemma_shows_after(p, e1, "nullAllowed"@, bool_text(null_allowed));
            lemma_starts_base(e0, "nullAllowed"@, bool_text(null_allowed));
            lemma_starts_after(p, e1, e0);
            lemma_ends_last(e0, "nullAllowed"@, bool_text(null_allowed), e1);
            lemma_ends_after(p, e1, field_name("nullAllowed"@) + bool_text(null_allowed));
        },
        _ => {},
    }
}

proof fn lemma_fields_is_not_null(f: FilterJson, depth: nat)
    requires
        f is IsNotNull,
    ensures
        starts_with_then_space(filter_header(f, depth), line_prefix(depth) + "filter kind="@ + kind_name(f)),
        filter_fields_shown(f, filter_header(f, depth)),
        ends_with(filter_header(f, depth), field_name("nullAllowed"@) + bool_text(null_allowed_of(f))),
{
    match f {
        FilterJson::IsNotNull { null_allowed } => {
            let p = line_prefix(depth) + "filter kind="@;
            let e0 = "isNotNull"@;
            let e1 = e0 + field_name("nullAllowed"@) + bool_text(null_allowed);
            assert(filter_text(f) == e1);
            assert(filter_header(f, depth) == p + e1);
            lemma_shows_last(e0, "nullAllowed"@, bool_text(null_allowed));
            lemma_shows_after(p, e1, "nullAllowed"@, bool_text(null_allowed));
            lemma_starts_base(e0, "nullAllowed"@, bool_text(null_allowed));
            lemma_starts_after(p, e1, e0);
            lemma_ends_last(e0, "nullAllowed"@, bool_text(null_allowed), e1);
            lemma_ends_after(p, e1, field_name("nullAllowed"@) + bool_text(null_allowed));
        },
        _ => {},
    }
}

proof fn lemma_fields_bool_value(f: FilterJson, depth: nat)
    requires
        f is BoolValue,
    ensures
        starts_with_then_space(filter_header(f, depth), line_prefix(depth) + "filter kind="@ + kind_name(f)),
        filter_fields_shown(f, filter_header(f, depth)),
        ends_with(filter_header(f, depth), field_name("nullAllowed"@) + bool_text(null_allowed_of(f))),
{
    match f {
        FilterJson::BoolValue { value, null_allowed } => {
            let p = line_prefix(depth) + "filter kind="@;
            let e0 = "boolValue"@;
            let e1 = e0 + field_name("value"@) + bool_text(value);
            let e2 = e1 + field_name("nullAllowed"@) + bool_text(null_allowed);
            assert(filter_text(f) == e2);
            assert(filter_header(f, depth) == p + e2);
            lemma_shows_last(e0, "value"@, bool_text(value));
            lemma_shows_extend(e1, "value"@, bool_text(value), "nullAllowed"@, bool_text(null_allowed));
            lemma_shows_after(p, e2, "value"@, bool_text(value));
            lemma_shows_last(e1, "nullAllowed"@, bool_text(null_allowed));
            lemma_shows_after(p, e2, "nullAllowed"@, bool_text(null_allowed));
            lemma_starts_base(e0, "value"@, bool_text(value));
            lemma_starts_extend(e1, e0, "nullAllowed"@, bool_text(null_allowed));
            lemma_starts_after(p, e2, e0);
            lemma_ends_last(e1, "nullAllowed"@, bool_text(null_allowed), e2);
            lemma_ends_after(p, e2, field_name("nullAllowed"@) + bool_text(null_allowed));
        },
        _ => {},
    }
}

proof fn lemma_fields_bigint_range(f: FilterJson, depth: nat)
    requires
        f is BigintRange,
    ensures
        starts_with_then_space(filter_header(f, depth), line_prefix(depth) + "filter kind="@ + kind_name(f)),
        filter_fields_shown(f, filter_header(f, depth)),
        ends_with(filter_header(f, depth), field_name("nullAllowed"@) + bool_text(null_allowed_of(f))),
{
    match f {
        FilterJson::BigintRange { lower, upper, null_allowed } => {
            let p = line_prefix(depth) + "filter kind="@;
            let e0 = "bigintRange"@;
            let e1 = e0 + field_name("lower"@) + dec(lower as int);
            let e2 = e1 + field_name("upper"@) + dec(upper as int);
            let e3 = e2 + field_name("nullAllowed"@) + bool_text(null_allowed);
            assert(filter_text(f) == e3);
            assert(filter_header(f, depth) == p + e3);
            lemma_shows_last(e0, "lower"@, dec(lower as int));
            lemma_shows_extend(e1, "lower"@, dec(lower as int), "upper"@, dec(upper as int));
            lemma_shows_extend(e2, "lower"@, dec(lower as int), "nullAllowed"@, bool_text(null_allowed));
            lemma_shows_after(p, e3, "lower"@, dec(lower as int));
            lemma_shows_last(e1, "upper"@, dec(upper as int));
            lemma_shows_extend(e2, "upper"@, dec(upper as int), "nullAllowed"@, bool_text(null_allowed));
            lemma_shows_after(p, e3, "upper"@, dec(upper as int));
            lemma_shows_last(e2, "nullAllowed"@, bool_text(null_allowed));
            lemma_shows_after(p, e3, "nullAllowed"@, bool_text(null_allowed));
            lemma_starts_base(e0, "lower"@, dec(lower as int));
            lemma_starts_extend(e1, e0, "upper"@, dec(upper as int));
            lemma_starts_extend(e2, e0, "nullAllowed"@, bool_text(null_allowed));
            lemma_starts_after(p, e3, e0);
            lemma_ends_last(e2, "nullAllowed"@, bool_text(null_allowed), e3);
            lemma_ends_after(p, e3, field_name("nullAllowed"@) + bool_text(null_allowed));
        },
        _ => {},
    }
}

proof fn lemma_fields_negated_bigint_range(f: FilterJson, depth: nat)
    requires
        f is NegatedBigintRange,
    ensures
        starts_with_then_space(filter_header(f, depth), line_prefix(depth) + "filter kind="@ + kind_name(f)),
        filter_fields_shown(f, filter_header(f, depth)),
        ends_with(filter_header(f, depth), field_name("nullAllowed"@) + bool_text(null_allowed_of(f))),
{
    match f {
        FilterJson::NegatedBigintRange { lower, upper, null_allowed } => {
            let p = line_prefix(depth) + "filter kind="@;
            let e0 = "negatedBigintRange"@;
            let e1 = e0 + field_name("lower"@) + dec(lower as int);
            let e2 = e1 + field_name("upper"@) + dec(upper as int);
            let e3 = e2 + field_name("nullAllowed"@) + bool_text(null_allowed);
            assert(filter_text(f) == e3);
            assert(filter_header(f, depth) == p + e3);
            lemma_shows_last(e0, "lower"@, dec(lower as int));
            lemma_shows_extend(e1, "lower"@, dec(lower as int), "upper"@, dec(upper as int));
            lemma_shows_extend(e2, "lower"@, dec(lower as int), "nullAllowed"@, bool_text(null_allowed));
            lemma_shows_after(p, e3, "lower"@, dec(lower as int));
            lemma_shows_last(e1, "upper"@, dec(upper as int));
            lemma_shows_extend(e2, "upper"@, dec(upper as int), "nullAllowed"@, bool_text(null_allowed));
            lemma_shows_after(p, e3, "upper"@, dec(upper as int));
            lemma_shows_last(e2, "nullAllowed"@, bool_text(null_allowed));
            lemma_shows_after(p, e3, "nullAllowed"@, bool_text(null_allowed));
            lemma_starts_base(e0, "lower"@, dec(lower as int));
            lemma_starts_extend(e1, e0, "upper"@, dec(upper as int));
            lemma_starts_extend(e2, e0, "nullAllowed"@, bool_text(null_allowed));
            lemma_starts_after(p, e3, e0);
            lemma_ends_last(e2, "nullAllowed"@, bool_text(null_allowed), e3);
            lemma_ends_after(p, e3, field_name("nullAllowed"@) + bool_text(null_allowed));
        },
        _ => {},
    }
}

proof fn lemma_fields_bigint_values_using_hash_table(f: FilterJson, depth: nat)
    requires
        f is BigintValuesUsingHashTable,
    ensures
        starts_with_then_space(filter_header(f, depth), line_prefix(depth) + "filter kind="@ + kind_name(f)),
        filter_fields_shown(f, filter_header(f, depth)),
        ends_with(filter_header(f, depth), field_name("nullAllowed"@) + bool_text(null_allowed_of(f))),
{
    match f {
        FilterJson::BigintValuesUsingHashTable { min, max, values, null_allowed } => {
            let p = line_prefix(depth) + "filter kind="@;
            let e0 = "bigintValuesUsingHashTable"@;
            let e1 = e0 + field_name("min"@) + dec(min as int);
            let e2 = e1 + field_name("max"@) + dec(max as int);
            let e3 = e2 + field_name("values"@) + i64_list(values@);
            let e4 = e3 + field_name("nullAllowed"@) + bool_text(null_allowed);
            assert(filter_text(f) == e4);
            assert(filter_header(f, depth) == p + e4);
            lemma_shows_last(e0, "min"@, dec(min as int));
            lemma_shows_extend(e1, "min"@, dec(min as int), "max"@, dec(max as int));
            lemma_shows_extend(e2, "min"@, dec(min as int), "values"@, i64_list(values@));
            lemma_shows_extend(e3, "min"@, dec(min as int), "nullAllowed"@, bool_text(null_allowed));
            lemma_shows_after(p, e4, "min"@, dec(min as int));
            lemma_shows_last(e1, "max"@, dec(max as int));
            lemma_shows_extend(e2, "max"@, dec(max as int), "values"@, i64_list(values@));
            lemma_shows_extend(e3, "max"@, dec(max as int), "nullAllowed"@, bool_text(null_allowed));
            lemma_shows_after(p, e4, "max"@, dec(max as int));
            lemma_shows_last(e2, "values"@, i64_list(values@));
            lemma_shows_extend(e3, "values"@, i64_list(values@), "nullAllowed"@, bool_text(null_allowed));
            lemma_shows_after(p, e4, "values"@, i64_list(values@));
            lemma_shows_last(e3, "nullAllowed"@, bool_text(null_allowed));
            lemma_shows_after(p, e4, "nullAllowed"@, bool_text(null_allowed));
            lemma_starts_base(e0, "min"@, dec(min as int));
            lemma_starts_extend(e1, e0, "max"@, dec(max as int));
            lemma_starts_extend(e2, e0, "values"@, i64_list(values@));
            lemma_starts_extend(e3, e0, "nullAllowed"@, bool_text(null_allowed));
            lemma_starts_after(p, e4, e0);
            lemma_ends_last(e3, "nullAllowed"@, bool_text(null_allowed), e4);
            lemma_ends_after(p, e4, field_name("nullAllowed"@) + bool_text(null_allowed));
        },
        _ => {},
    }
}

proof fn lemma_fields_bigint_values_using_bitmask(f: FilterJson, depth: nat)
    requires
        f is BigintValuesUsingBitmask,
    ensures
        starts_with_then_space(filter_header(f, depth), line_prefix(depth) + "filter kind="@ + kind_name(f)),
        filter_fields_shown(f, filter_header(f, depth)),
        ends_with(filter_header(f, depth), field_name("nullAllowed"@) + bool_text(null_allowed_of(f))),
{
    match f {
        FilterJson::BigintValuesUsingBitmask { min, max, values, null_allowed } => {
            let p = line_prefix(depth) + "filter kind="@;
            let e0 = "bigintValuesUsingBitmask"@;
            let e1 = e0 + field_name("min"@) + dec(min as int);
            let e2 = e1 + field_name("max"@) + dec(max as int);
            let e3 = e2 + field_name("values"@) + i64_list(values@);
            let e4 = e3 + field_name("nullAllowed"@) + bool_text(null_allowed);
            assert(filter_text(f) == e4);
            assert(filter_header(f, depth) == p + e4);
            lemma_shows_last(e0, "min"@, dec(min as int));
            lemma_shows_extend(e1, "min"@, dec(min as int), "max"@, dec(max as int));
            lemma_shows_extend(e2, "min"@, dec(min as int), "values"@, i64_list(values@));
            lemma_shows_extend(e3, "min"@, dec(min as int), "nullAllowed"@, bool_text(null_allowed));
            lemma_shows_after(p, e4, "min"@, dec(min as int));
            lemma_shows_last(e1, "max"@, dec(max as int));
            lemma_shows_extend(e2, "max"@, dec(max as int), "values"@, i64_list(values@));
            lemma_shows_extend(e3, "max"@, dec(max as int), "nullAllowed"@, bool_text(null_allowed));
            lemma_shows_after(p, e4, "max"@, dec(max as int));
            lemma_shows_last(e2, "values"@, i64_list(values@));
            lemma_shows_extend(e3, "values"@, i64_list(values@), "nullAllowed"@, bool_text(null_allowed));
            lemma_shows_after(p, e4, "values"@, i64_list(values@));
            lemma_shows_last(e3, "nullAllowed"@, bool_text(null_allowed));
            lemma_shows_after(p, e4, "nullAllowed"@, bool_text(null_allowed));
            lemma_starts_base(e0, "min"@, dec(min as int));
            lemma_starts_extend(e1, e0, "max"@, dec(max as int));
            lemma_starts_extend(e2, e0, "values"@, i64_list(values@));
            lemma_starts_extend(e3, e0, "nullAllowed"@, bool_text(null_allowed));
            lemma_starts_after(p, e4, e0);
            lemma_ends_last(e3, "nullAllowed"@, bool_text(null_allowed), e4);
            lemma_ends_after(p, e4, field_name("nullAllowed"@) + bool_text(null_allowed));
        },
        _ => {},
    }
}

proof fn lemma_fields_negated_bigint_values_using_hash_table(f: FilterJson, depth: nat)
    requires
        f is NegatedBigintValuesUsingHashTable,
    ensures
        starts_with_then_space(filter_header(f, depth), line_prefix(depth) + "filter kind="@ + kind_name(f)),
        filter_fields_shown(f, filter_header(f, depth)),
        ends_with(filter_header(f, depth), field_name("nullAllowed"@) + bool_text(null_allowed_of(f))),
{
    match f {
        FilterJson::NegatedBigintValuesUsingHashTable { min, max, values, null_allowed } => {
            let p = line_prefix(depth) + "filter kind="@;
            let e0 = "negatedBigintValuesUsingHashTable"@;
            let e1 = e0 + field_name("min"@) + dec(min as int);
            let e2 = e1 + field_name("max"@) + dec(max as int);
            let e3 = e2 + field_name("values"@) + i64_list(values@);
            let e4 = e3 + field_name("nullAllowed"@) + bool_text(null_allowed);
            assert(filter_text(f) == e4);
            assert(filter_header(f, depth) == p + e4);
            lemma_shows_last(e0, "min"@, dec(min as int));
            lemma_shows_extend(e1, "min"@, dec(min as int), "max"@, dec(max as int));
            lemma_shows_extend(e2, "min"@, dec(min as int), "values"@, i64_list(values@));
            lemma_shows_extend(e3, "min"@, dec(min as int), "nullAllowed"@, bool_text(null_allowed));
            lemma_shows_after(p, e4, "min"@, dec(min as int));
            lemma_shows_last(e1, "max"@, dec(max as int));
            lemma_shows_extend(e2, "max"@, dec(max as int), "values"@, i64_list(values@));
            lemma_shows_extend(e3, "max"@, dec(max as int), "nullAllowed"@, bool_text(null_allowed));
            lemma_shows_after(p, e4, "max"@, dec(max as int));
            lemma_shows_last(e2, "values"@, i64_list(values@));
            lemma_shows_extend(e3, "values"@, i64_list(values@), "nullAllowed"@, bool_text(null_allowed));
            lemma_shows_after(p, e4, "values"@, i64_list(values@));
            lemma_shows_last(e3, "nullAllowed"@, bool_text(null_allowed));
            lemma_shows_after(p, e4, "nullAllowed"@, bool_text(null_allowed));
            lemma_starts_base(e0, "min"@, dec(min as int));
            lemma_starts_extend(e1, e0, "max"@, dec(max as int));
            lemma_starts_extend(e2, e0, "values"@, i64_list(values@));
            lemma_starts_extend(e3, e0, "nullAllowed"@, bool_text(null_allowed));
            lemma_starts_after(p, e4, e0);
            lemma_ends_last(e3, "nullAllowed"@, bool_text(null_allowed), e4);
            lemma_ends_after(p, e4, field_name("nullAllowed"@) + bool_text(null_allowed));
        },
        _ => {},
    }
}

proof fn lemma_fields_negated_bigint_values_using_bitmask(f: FilterJson, depth: nat)
    requires
        f is NegatedBigintValuesUsingBitmask,
    ensures
        starts_with_then_space(filter_header(f, depth), line_prefix(depth) + "filter kind="@ + kind_name(f)),
        filter_fields_shown(f, filter_header(f, depth)),
        ends_with(filter_header(f, depth), field_name("nullAllowed"@) + bool_text(null_allowed_of(f))),
{
    match f {
        FilterJson::NegatedBigintValuesUsingBitmask { min, max, values, null_allowed } => {
            let p = line_prefix(depth) + "filter kind="@;
            let e0 = "negatedBigintValuesUsingBitmask"@;
            let e1 = e0 + field_name("min"@) + dec(min as int);
            let e2 = e1 + field_name("max"@) + dec(max as int);
            let e3 = e2 + field_name("values"@) + i64_list(values@);
            let e4 = e3 + field_name("nullAllowed"@) + bool_text(null_allowed);
            assert(filter_text(f) == e4);
            assert(filter_header(f, depth) == p + e4);
            lemma_shows_last(e0, "min"@, dec(min as int));
            lemma_shows_extend(e1, "min"@, dec(min as int), "max"@, dec(max as int));
            lemma_shows_extend(e2, "min"@, dec(min as int), "values"@, i64_list(values@));
            lemma_shows_extend(e3, "min"@, dec(min as int), "nullAllowed"@, bool_text(null_allowed));
            lemma_shows_after(p, e4, "min"@, dec(min as int));
            lemma_shows_last(e1, "max"@, dec(max as int));
            lemma_shows_extend(e2, "max"@, dec(max as int), "values"@, i64_list(values@));
            lemma_shows_extend(e3, "max"@, dec(max as int), "nullAllowed"@, bool_text(null_allowed));
            lemma_shows_after(p, e4, "max"@, dec(max as int));
            lemma_shows_last(e2, "values"@, i64_list(values@));
            lemma_shows_extend(e3, "values"@, i64_list(values@), "nullAllowed"@, bool_text(null_allowed));
            lemma_shows_after(p, e4, "values"@, i64_list(values@));
            lemma_shows_last(e3, "nullAllowed"@, bool_text(null_allowed));
            lemma_shows_after(p, e4, "nullAllowed"@, bool_text(null_allowed));
            lemma_starts_base(e0, "min"@, dec(min as int));
            lemma_starts_extend(e1, e0, "max"@, dec(max as int));
            lemma_starts_extend(e2, e0, "values"@, i64_list(values@));
            lemma_starts_extend(e3, e0, "nullAllowed"@, bool_text(null_allowed));
            lemma_starts_after(p, e4, e0);
            lemma_ends_last(e3, "nullAllowed"@, bool_text(null_allowed), e4);
            lemma_ends_after(p, e4, field_name("nullAllowed"@) + bool_text(null_allowed));
        },
        _ => {},
    }
}

proof fn lemma_fields_double_range(f: FilterJson, depth: nat)
    requires
        f is DoubleRange,
    ensures
        starts_with_then_space(filter_header(f, depth), line_prefix(depth) + "filter kind="@ + kind_name(f)),
        filter_fields_shown(f, filter_header(f, depth)),
        ends_with(filter_header(f, depth), field_name("nullAllowed"@) + bool_text(null_allowed_of(f))),
{
    match f {
        FilterJson::DoubleRange { lower, upper, lower_unbounded, upper_unbounded, lower_exclusive, upper_exclusive, null_allowed } => {
            let p = line_prefix(depth) + "filter kind="@;
            let e0 = "doubleRange"@;
            let e1 = e0 + field_name("lower"@) + lower@;
            let e2 = e1 + field_name("upper"@) + upper@;
            let e3 = e2 + field_name("lowerUnbounded"@) + bool_text(lower_unbounded);
            let e4 = e3 + field_name("upperUnbounded"@) + bool_text(upper_unbounded);
            let e5 = e4 + field_name("lowerExclusive"@) + bool_text(lower_exclusive);
            let e6 = e5 + field_name("upperExclusive"@) + bool_text(upper_exclusive);
            let e7 = e6 + field_name("nullAllowed"@) + bool_text(null_allowed);
            assert(filter_text(f) == e7);
            assert(filter_header(f, depth) == p + e7);
            lemma_shows_last(e0, "lower"@, lower@);
            lemma_shows_extend(e1, "lower"@, lower@, "upper"@, upper@);
            lemma_shows_extend(e2, "lower"@, lower@, "lowerUnbounded"@, bool_text(lower_unbounded));
            lemma_shows_extend(e3, "lower"@, lower@, "upperUnbounded"@, bool_text(upper_unbounded));
            lemma_shows_extend(e4, "lower"@, lower@, "lowerExclusive"@, bool_text(lower_exclusive));
            lemma_shows_extend(e5, "lower"@, lower@, "upperExclusive"@, bool_text(upper_exclusive));
            lemma_shows_extend(e6, "lower"@, lower@, "nullAllowed"@, bool_text(null_allowed));
            lemma_shows_after(p, e7, "lower"@, lower@);
            lemma_shows_last(e1, "upper"@, upper@);
            lemma_shows_extend(e2, "upper"@, upper@, "lowerUnbounded"@, bool_text(lower_unbounded));
            lemma_shows_extend(e3, "upper"@, upper@, "upperUnbounded"@, bool_text(upper_unbounded));
            lemma_shows_extend(e4, "upper"@, upper@, "lowerExclusive"@, bool_text(lower_exclusive));
            lemma_shows_extend(e5, "upper"@, upper@, "upperExclusive"@, bool_text(upper_exclusive));
            lemma_shows_extend(e6, "upper"@, upper@, "nullAllowed"@, bool_text(null_allowed));
            lemma_shows_after(p, e7, "upper"@, upper@);
            lemma_shows_last(e2, "lowerUnbounded"@, bool_text(lower_unbounded));
            lemma_shows_extend(e3, "lowerUnbounded"@, bool_text(lower_unbounded), "upperUnbounded"@, bool_text(upper_unbounded));
            lemma_shows_extend(e4, "lowerUnbounded"@, bool_text(lower_unbounded), "lowerExclusive"@, bool_text(lower_exclusive));
            lemma_shows_extend(e5, "lowerUnbounded"@, bool_text(lower_unbounded), "upperExclusive"@, bool_text(upper_exclusive));
            lemma_shows_extend(e6, "lowerUnbounded"@, bool_text(lower_unbounded), "nullAllowed"@, bool_text(null_allowed));
            lemma_shows_after(p, e7, "lowerUnbounded"@, bool_text(lower_unbounded));
            lemma_shows_last(e3, "upperUnbounded"@, bool_text(upper_unbounded));
            lemma_shows_extend(e4, "upperUnbounded"@, bool_text(upper_unbounded), "lowerExclusive"@, bool_text(lower_exclusive));
            lemma_shows_extend(e5, "upperUnbounded"@, bool_text(upper_unbounded), "upperExclusive"@, bool_text(upper_exclusive));
            lemma_shows_extend(e6, "upperUnbounded"@, bool_text(upper_unbounded), "nullAllowed"@, bool_text(null_allowed));
            lemma_shows_after(p, e7, "upperUnbounded"@, bool_text(upper_unbounded));
            lemma_shows_last(e4, "lowerExclusive"@, bool_text(lower_exclusive));
            lemma_shows_extend(e5, "lowerExclusive"@, bool_text(lower_exclusive), "upperExclusive"@, bool_text(upper_exclusive));
            lemma_shows_extend(e6, "lowerExclusive"@, bool_text(lower_exclusive), "nullAllowed"@, bool_text(null_allowed));
            lemma_shows_after(p, e7, "lowerExclusive"@, bool_text(lower_exclusive));
            lemma_shows_last(e5, "upperExclusive"@, bool_text(upper_exclusive));
            lemma_shows_extend(e6, "upperExclusive"@, bool_text(upper_exclusive), "nullAllowed"@, bool_text(null_allowed));
            lemma_shows_after(p, e7, "upperExclusive"@, bool_text(upper_exclusive));
            lemma_shows_last(e6, "nullAllowed"@, bool_text(null_allowed));
            lemma_shows_after(p, e7, "nullAllowed"@, bool_text(null_allowed));
            lemma_starts_base(e0, "lower"@, lower@);
            lemma_starts_extend(e1, e0, "upper"@, upper@);
            lemma_starts_extend(e2, e0, "lowerUnbounded"@, bool_text(lower_unbounded));
            lemma_starts_extend(e3, e0, "upperUnbounded"@, bool_text(upper_unbounded));
            lemma_starts_extend(e4, e0, "lowerExclusive"@, bool_text(lower_exclusive));
            lemma_starts_extend(e5, e0, "upperExclusive"@, bool_text(upper_exclusive));
            lemma_starts_extend(e6, e0, "nullAllowed"@, bool_text(null_allowed));
            lemma_starts_after(p, e7, e0);
            lemma_ends_last(e6, "nullAllowed"@, bool_text(null_allowed), e7);
            lemma_ends_after(p, e7, field_name("nullAllowed"@) + bool_text(null_allowed));
        },
        _ => {},
    }
}

proof fn lemma_fields_float_range(f: FilterJson, depth: nat)
    requires
        f is FloatRange,
    ensures
        starts_with_then_space(filter_header(f, depth), line_prefix(depth) + "filter kind="@ + kind_name(f)),
        filter_fields_shown(f, filter_header(f, depth)),
        ends_with(filter_header(f, depth), field_name("nullAllowed"@) + bool_text(null_allowed_of(f))),
{
    match f {
        FilterJson::FloatRange { lower, upper, lower_unbounded, upper_unbounded, lower_exclusive, upper_exclusive, null_allowed } => {
            let p = line_prefix(depth) + "filter kind="@;
            let e0 = "floatRange"@;
            let e1 = e0 + field_name("lower"@) + lower@;
            let e2 = e1 + field_name("upper"@) + upper@;
            let e3 = e2 + field_name("lowerUnbounded"@) + bool_text(lower_unbounded);
            let e4 = e3 + field_name("upperUnbounded"@) + bool_text(upper_unbounded);
            let e5 = e4 + field_name("lowerExclusive"@) + bool_text(lower_exclusive);
            let e6 = e5 + field_name("upperExclusive"@) + bool_text(upper_exclusive);
            let e7 = e6 + field_name("nullAllowed"@) + bool_text(null_allowed);
            assert(filter_text(f) == e7);
            assert(filter_header(f, depth) == p + e7);
            lemma_shows_last(e0, "lower"@, lower@);
            lemma_shows_extend(e1, "lower"@, lower@, "upper"@, upper@);
            lemma_shows_extend(e2, "lower"@, lower@, "lowerUnbounded"@, bool_text(lower_unbounded));
            lemma_shows_extend(e3, "lower"@, lower@, "upperUnbounded"@, bool_text(upper_unbounded));
            lemma_shows_extend(e4, "lower"@, lower@, "lowerExclusive"@, bool_text(lower_exclusive));
            lemma_shows_extend(e5, "lower"@, lower@, "upperExclusive"@, bool_text(upper_exclusive));
            lemma_shows_extend(e6, "lower"@, lower@, "nullAllowed"@, bool_text(null_allowed));
            lemma_shows_after(p, e7, "lower"@, lower@);
            lemma_shows_last(e1, "upper"@, upper@);
            lemma_shows_extend(e2, "upper"@, upper@, "lowerUnbounded"@, bool_text(lower_unbounded));
            lemma_shows_extend(e3, "upper"@, upper@, "upperUnbounded"@, bool_text(upper_unbounded));
            lemma_shows_extend(e4, "upper"@, upper@, "lowerExclusive"@, bool_text(lower_exclusive));
            lemma_shows_extend(e5, "upper"@, upper@, "upperExclusive"@, bool_text(upper_exclusive));
            lemma_shows_extend(e6, "upper"@, upper@, "nullAllowed"@, bool_text(null_allowed));
            lemma_shows_after(p, e7, "upper"@, upper@);
            lemma_shows_last(e2, "lowerUnbounded"@, bool_text(lower_unbounded));
            lemma_shows_extend(e3, "lowerUnbounded"@, bool_text(lower_unbounded), "upperUnbounded"@, bool_text(upper_unbounded));
            lemma_shows_extend(e4, "lowerUnbounded"@, bool_text(lower_unbounded), "lowerExclusive"@, bool_text(lower_exclusive));
            lemma_shows_extend(e5, "lowerUnbounded"@, bool_text(lower_unbounded), "upperExclusive"@, bool_text(upper_exclusive));
            lemma_shows_extend(e6, "lowerUnbounded"@, bool_text(lower_unbounded), "nullAllowed"@, bool_text(null_allowed));
            lemma_shows_after(p, e7, "lowerUnbounded"@, bool_text(lower_unbounded));
            lemma_shows_last(e3, "upperUnbounded"@, bool_text(upper_unbounded));
            lemma_shows_extend(e4, "upperUnbounded"@, bool_text(upper_unbounded), "lowerExclusive"@, bool_text(lower_exclusive));
            lemma_shows_extend(e5, "upperUnbounded"@, bool_text(upper_unbounded), "upperExclusive"@, bool_text(upper_exclusive));
            lemma_shows_extend(e6, "upperUnbounded"@, bool_text(upper_unbounded), "nullAllowed"@, bool_text(null_allowed));
            lemma_shows_after(p, e7, "upperUnbounded"@, bool_text(upper_unbounded));
            lemma_shows_last(e4, "lowerExclusive"@, bool_text(lower_exclusive));
            lemma_shows_extend(e5, "lowerExclusive"@, bool_text(lower_exclusive), "upperExclusive"@, bool_text(upper_exclusive));
            lemma_shows_extend(e6, "lowerExclusive"@, bool_text(lower_exclusive), "nullAllowed"@, bool_text(null_allowed));
            lemma_shows_after(p, e7, "lowerExclusive"@, bool_text(lower_exclusive));
            lemma_shows_last(e5, "upperExclusive"@, bool_text(upper_exclusive));
            lemma_shows_extend(e6, "upperExclusive"@, bool_text(upper_exclusive), "nullAllowed"@, bool_text(null_allowed));
            lemma_shows_after(p, e7, "upperExclusive"@, bool_text(upper_exclusive));
            lemma_shows_last(e6, "nullAllowed"@, bool_text(null_allowed));
            lemma_shows_after(p, e7, "nullAllowed"@, bool_text(null_allowed));
            lemma_starts_base(e0, "lower"@, lower@);
            lemma_starts_extend(e1, e0, "upper"@, upper@);
            lemma_starts_extend(e2, e0, "lowerUnbounded"@, bool_text(lower_unbounded));
            lemma_starts_extend(e3, e0, "upperUnbounded"@, bool_text(upper_unbounded));
            lemma_starts_extend(e4, e0, "lowerExclusive"@, bool_text(lower_exclusive));
            lemma_starts_extend(e5, e0, "upperExclusive"@, bool_text(upper_exclusive));
            lemma_starts_extend(e6, e0, "nullAllowed"@, bool_text(null_allowed));
            lemma_starts_after(p, e7, e0);
            lemma_ends_last(e6, "nullAllowed"@, bool_text(null_allowed), e7);
            lemma_ends_after(p, e7, field_name("nullAllowed"@) + bool_text(null_allowed));
        },
        _ => {},
    }
}

proof fn lemma_fields_bytes_range(f: FilterJson, depth: nat)
    requires
        f is BytesRange,
    ensures
        starts_with_then_space(filter_header(f, depth), line_prefix(depth) + "filter kind="@ + kind_name(f)),
        filter_fields_shown(f, filter_header(f, depth)),
        ends_with(filter_header(f, depth), field_name("nullAllowed"@) + bool_text(null_allowed_of(f))),
{
    match f {
        FilterJson::BytesRange { lower, upper, lower_unbounded, upper_unbounded, lower_exclusive, upper_exclusive, null_allowed } => {
            let p = line_prefix(depth) + "filter kind="@;
            let quoted = quoted_strings(f).map_values(|t: Seq<char>| quoted_text(t));
            assert(quoted[0] == quoted_text(lower@));
            assert(quoted[1] == quoted_text(upper@));
            let e0 = "bytesRange"@;
            let e1 = e0 + field_name("lower"@) + quoted[0];
            let e2 = e1 + field_name("upper"@) + quoted[1];
            let e3 = e2 + field_name("lowerUnbounded"@) + bool_text(lower_unbounded);
            let e4 = e3 + field_name("upperUnbounded"@) + bool_text(upper_unbounded);
            let e5 = e4 + field_name("lowerExclusive"@) + bool_text(lower_exclusive);
            let e6 = e5 + field_name("upperExclusive"@) + bool_text(upper_exclusive);
            let e7 = e6 + field_name("nullAllowed"@) + bool_text(null_allowed);
            assert(filter_text(f) == e7);
            assert(filter_header(f, depth) == p + e7);
            lemma_shows_last(e0, "lower"@, quoted[0]);
            lemma_shows_extend(e1, "lower"@, quoted[0], "upper"@, quoted[1]);
            lemma_shows_extend(e2, "lower"@, quoted[0], "lowerUnbounded"@, bool_text(lower_unbounded));
            lemma_shows_extend(e3, "lower"@, quoted[0], "upperUnbounded"@, bool_text(upper_unbounded));
            lemma_shows_extend(e4, "lower"@, quoted[0], "lowerExclusive"@, bool_text(lower_exclusive));
            lemma_shows_extend(e5, "lower"@, quoted[0], "upperExclusive"@, bool_text(upper_exclusive));
            lemma_shows_extend(e6, "lower"@, quoted[0], "nullAllowed"@, bool_text(null_allowed));
            lemma_shows_after(p, e7, "lower"@, quoted[0]);
            lemma_shows_last(e1, "upper"@, quoted[1]);
            lemma_shows_extend(e2, "upper"@, quoted[1], "lowerUnbounded"@, bool_text(lower_unbounded));
            lemma_shows_extend(e3, "upper"@, quoted[1], "upperUnbounded"@, bool_text(upper_unbounded));
            lemma_shows_extend(e4, "upper"@, quoted[1], "lowerExclusive"@, bool_text(lower_exclusive));
            lemma_shows_extend(e5, "upper"@, quoted[1], "upperExclusive"@, bool_text(upper_exclusive));
            lemma_shows_extend(e6, "upper"@, quoted[1], "nullAllowed"@, bool_text(null_allowed));
            lemma_shows_after(p, e7, "upper"@, quoted[1]);
            lemma_shows_last(e2, "lowerUnbounded"@, bool_text(lower_unbounded));
            lemma_shows_extend(e3, "lowerUnbounded"@, bool_text(lower_unbounded), "upperUnbounded"@, bool_text(upper_unbounded));
            lemma_shows_extend(e4, "lowerUnbounded"@, bool_text(lower_unbounded), "lowerExclusive"@, bool_text(lower_exclusive));
            lemma_shows_extend(e5, "lowerUnbounded"@, bool_text(lower_unbounded), "upperExclusive"@, bool_text(upper_exclusive));
            lemma_shows_extend(e6, "lowerUnbounded"@, bool_text(lower_unbounded), "nullAllowed"@, bool_text(null_allowed));
            lemma_shows_after(p, e7, "lowerUnbounded"@, bool_text(lower_unbounded));
            lemma_shows_last(e3, "upperUnbounded"@, bool_text(upper_unbounded));
            lemma_shows_extend(e4, "upperUnbounded"@, bool_text(upper_unbounded), "lowerExclusive"@, bool_text(lower_exclusive));
            lemma_shows_extend(e5, "upperUnbounded"@, bool_text(upper_unbounded), "upperExclusive"@, bool_text(upper_exclusive));
            lemma_shows_extend(e6, "upperUnbounded"@, bool_text(upper_unbounded), "nullAllowed"@, bool_text(null_allowed));
            lemma_shows_after(p, e7, "upperUnbounded"@, bool_text(upper_unbounded));
            lemma_shows_last(e4, "lowerExclusive"@, bool_text(lower_exclusive));
            lemma_shows_extend(e5, "lowerExclusive"@, bool_text(lower_exclusive), "upperExclusive"@, bool_text(upper_exclusive));
            lemma_shows_extend(e6, "lowerExclusive"@, bool_text(lower_exclusive), "nullAllowed"@, bool_text(null_allowed));
            lemma_shows_after(p, e7, "lowerExclusive"@, bool_text(lower_exclusive));
            lemma_shows_last(e5, "upperExclusive"@, bool_text(upper_exclusive));
            lemma_shows_extend(e6, "upperExclusive"@, bool_text(upper_exclusive), "nullAllowed"@, bool_text(null_allowed));
            lemma_shows_after(p, e7, "upperExclusive"@, bool_text(upper_exclusive));
            lemma_shows_last(e6, "nullAllowed"@, bool_text(null_allowed));
            lemma_shows_after(p, e7, "nullAllowed"@, bool_text(null_allowed));
            lemma_starts_base(e0, "lower"@, quoted[0]);
            lemma_starts_extend(e1, e0, "upper"@, quoted[1]);
            lemma_starts_extend(e2, e0, "lowerUnbounded"@, bool_text(lower_unbounded));
            lemma_starts_extend(e3, e0, "upperUnbounded"@, bool_text(upper_unbounded));
            lemma_starts_extend(e4, e0, "lowerExclusive"@, bool_text(lower_exclusive));
            lemma_starts_extend(e5, e0, "upperExclusive"@, bool_text(upper_exclusive));
            lemma_starts_extend(e6, e0, "nullAllowed"@, bool_text(null_allowed));
            lemma_starts_after(p, e7, e0);
            lemma_ends_last(e6, "nullAllowed"@, bool_text(null_allowed), e7);
            lemma_ends_after(p, e7, field_name("nullAllowed"@) + bool_text(null_allowed));
        },
        _ => {},
    }
}

proof fn lemma_fields_negated_bytes_range(f: FilterJson, depth: nat)
    requires
        f is NegatedBytesRange,
    ensures
        starts_with_then_space(filter_header(f, depth), line_prefix(depth) + "filter kind="@ + kind_name(f)),
        filter_fields_shown(f, filter_header(f, depth)),
        ends_with(filter_header(f, depth), field_name("nullAllowed"@) + bool_text(null_allowed_of(f))),
{
    match f {
        FilterJson::NegatedBytesRange { lower, upper, lower_unbounded, upper_unbounded, lower_exclusive, upper_exclusive, null_allowed } => {
            let p = line_prefix(depth) + "filter kind="@;
            let quoted = quoted_strings(f).map_values(|t: Seq<char>| quoted_text(t));
            assert(quoted[0] == quoted_text(lower@));
            assert(quoted[1] == quoted_text(upper@));
            let e0 = "negatedBytesRange"@;
            let e1 = e0 + field_name("lower"@) + quoted[0];
            let e2 = e1 + field_name("upper"@) + quoted[1];
            let e3 = e2 + field_name("lowerUnbounded"@) + bool_text(lower_unbounded);
            let e4 = e3 + field_name("upperUnbounded"@) + bool_text(upper_unbounded);
            let e5 = e4 + field_name("lowerExclusive"@) + bool_text(lower_exclusive);
            let e6 = e5 + field_name("upperExclusive"@) + bool_text(upper_exclusive);
            let e7 = e6 + field_name("nullAllowed"@) + bool_text(null_allowed);
            assert(filter_text(f) == e7);
            assert(filter_header(f, depth) == p + e7);
            lemma_shows_last(e0, "lower"@, quoted[0]);
            lemma_shows_extend(e1, "lower"@, quoted[0], "upper"@, quoted[1]);
            lemma_shows_extend(e2, "lower"@, quoted[0], "lowerUnbounded"@, bool_text(lower_unbounded));
            lemma_shows_extend(e3, "lower"@, quoted[0], "upperUnbounded"@, bool_text(upper_unbounded));
            lemma_shows_extend(e4, "lower"@, quoted[0], "lowerExclusive"@, bool_text(lower_exclusive));
            lemma_shows_extend(e5, "lower"@, quoted[0], "upperExclusive"@, bool_text(upper_exclusive));
            lemma_shows_extend(e6, "lower"@, quoted[0], "nullAllowed"@, bool_text(null_allowed));
            lemma_shows_after(p, e7, "lower"@, quoted[0]);
            lemma_shows_last(e1, "upper"@, quoted[1]);
            lemma_shows_extend(e2, "upper"@, quoted[1], "lowerUnbounded"@, bool_text(lower_unbounded));
            lemma_shows_extend(e3, "upper"@, quoted[1], "upperUnbounded"@, bool_text(upper_unbounded));
            lemma_shows_extend(e4, "upper"@, quoted[1], "lowerExclusive"@, bool_text(lower_exclusive));
            lemma_shows_extend(e5, "upper"@, quoted[1], "upperExclusive"@, bool_text(upper_exclusive));
            lemma_shows_extend(e6, "upper"@, quoted[1], "nullAllowed"@, bool_text(null_allowed));
            lemma_shows_after(p, e7, "upper"@, quoted[1]);
            lemma_shows_last(e2, "lowerUnbounded"@, bool_text(lower_unbounded));
            lemma_shows_extend(e3, "lowerUnbounded"@, bool_text(lower_unbounded), "upperUnbounded"@, bool_text(upper_unbounded));
            lemma_shows_extend(e4, "lowerUnbounded"@, bool_text(lower_unbounded), "lowerExclusive"@, bool_text(lower_exclusive));
            lemma_shows_extend(e5, "lowerUnbounded"@, bool_text(lower_unbounded), "upperExclusive"@, bool_text(upper_exclusive));
            lemma_shows_extend(e6, "lowerUnbounded"@, bool_text(lower_unbounded), "nullAllowed"@, bool_text(null_allowed));
            lemma_shows_after(p, e7, "lowerUnbounded"@, bool_text(lower_unbounded));
            lemma_shows_last(e3, "upperUnbounded"@, bool_text(upper_unbounded));
            lemma_shows_extend(e4, "upperUnbounded"@, bool_text(upper_unbounded), "lowerExclusive"@, bool_text(lower_exclusive));
            lemma_shows_extend(e5, "upperUnbounded"@, bool_text(upper_unbounded), "upperExclusive"@, bool_text(upper_exclusive));
            lemma_shows_extend(e6, "upperUnbounded"@, bool_text(upper_unbounded), "nullAllowed"@, bool_text(null_allowed));
            lemma_shows_after(p, e7, "upperUnbounded"@, bool_text(upper_unbounded));
            lemma_shows_last(e4, "lowerExclusive"@, bool_text(lower_exclusive));
            lemma_shows_extend(e5, "lowerExclusive"@, bool_text(lower_exclusive), "upperExclusive"@, bool_text(upper_exclusive));
            lemma_shows_extend(e6, "lowerExclusive"@, bool_text(lower_exclusive), "nullAllowed"@, bool_text(null_allowed));
            lemma_shows_after(p, e7, "lowerExclusive"@, bool_text(lower_exclusive));
            lemma_shows_last(e5, "upperExclusive"@, bool_text(upper_exclusive));
            lemma_shows_extend(e6, "upperExclusive"@, bool_text(upper_exclusive), "nullAllowed"@, bool_text(null_allowed));
            lemma_shows_after(p, e7, "upperExclusive"@, bool_text(upper_exclusive));
            lemma_shows_last(e6, "nullAllowed"@, bool_text(null_allowed));
            lemma_shows_after(p, e7, "nullAllowed"@, bool_text(null_allowed));
            lemma_starts_base(e0, "lower"@, quoted[0]);
            lemma_starts_extend(e1, e0, "upper"@, quoted[1]);
            lemma_starts_extend(e2, e0, "lowerUnbounded"@, bool_text(lower_unbounded));
            lemma_starts_extend(e3, e0, "upperUnbounded"@, bool_text(upper_unbounded));
            lemma_starts_extend(e4, e0, "lowerExclusive"@, bool_text(lower_exclusive));
            lemma_starts_extend(e5, e0, "upperExclusive"@, bool_text(upper_exclusive));
            lemma_starts_extend(e6, e0, "nullAllowed"@, bool_text(null_allowed));
            lemma_starts_after(p, e7, e0);
            lemma_ends_last(e6, "nullAllowed"@, bool_text(null_allowed), e7);
            lemma_ends_after(p, e7, field_name("nullAllowed"@) + bool_text(null_allowed));
        },
        _ => {},
    }
}

proof fn lemma_fields_bytes_values(f: FilterJson, depth: nat)
    requires
        f is BytesValues,
    ensures
        starts_with_then_space(filter_header(f, depth), line_prefix(depth) + "filter kind="@ + kind_name(f)),
        filter_fields_shown(f, filter_header(f, depth)),
        ends_with(filter_header(f, depth), field_name("nullAllowed"@) + bool_text(null_allowed_of(f))),
{
    match f {
        FilterJson::BytesValues { values, null_allowed } => {
            let p = line_prefix(depth) + "filter kind="@;
            let quoted = quoted_strings(f).map_values(|t: Seq<char>| quoted_text(t));
            assert(quoted == texts(values@).map_values(|t: Seq<char>| quoted_text(t)));
            let e0 = "bytesValues"@;
            let e1 = e0 + field_name("values"@) + quoted_list(quoted);
            let e2 = e1 + field_name("nullAllowed"@) + bool_text(null_allowed);
            assert(filter_text(f) == e2);
            assert(filter_header(f, depth) == p + e2);
            lemma_shows_last(e0, "values"@, quoted_list(quoted));
            lemma_shows_extend(e1, "values"@, quoted_list(quoted), "nullAllowed"@, bool_text(null_allowed));
            lemma_shows_after(p, e2, "values"@, quoted_list(quoted));
            lemma_shows_last(e1, "nullAllowed"@, bool_text(null_allowed));
            lemma_shows_after(p, e2, "nullAllowed"@, bool_text(null_allowed));
            lemma_starts_base(e0, "values"@, quoted_list(quoted));
            lemma_starts_extend(e1, e0, "nullAllowed"@, bool_text(null_allowed));
            lemma_starts_after(p, e2, e0);
            lemma_ends_last(e1, "nullAllowed"@, bool_text(null_allowed), e2);
            lemma_ends_after(p, e2, field_name("nullAllowed"@) + bool_text(null_allowed));
        },
        _ => {},
    }
}

proof fn lemma_fields_negated_bytes_values(f: FilterJson, depth: nat)
    requires
        f is NegatedBytesValues,
    ensures
        starts_with_then_space(filter_header(f, depth), line_prefix(depth) + "filter kind="@ + kind_name(f)),
        filter_fields_shown(f, filter_header(f, depth)),
        ends_with(filter_header(f, depth), field_name("nullAllowed"@) + bool_text(null_allowed_of(f))),
{
    match f {
        FilterJson::NegatedBytesValues { values, null_allowed } => {
            let p = line_prefix(depth) + "filter kind="@;
            let quoted = quoted_strings(f).map_values(|t: Seq<char>| quoted_text(t));
            assert(quoted == texts(values@).map_values(|t: Seq<char>| quoted_text(t)));
            let e0 = "negatedBytesValues"@;
            let e1 = e0 + field_name("values"@) + quoted_list(quoted);
            let e2 = e1 + field_name("nullAllowed"@) + bool_text(null_allowed);
            assert(filter_text(f) == e2);
            assert(filter_header(f, depth) == p + e2);
            lemma_shows_last(e0, "values"@, quoted_list(quoted));
            lemma_shows_extend(e1, "values"@, quoted_list(quoted), "nullAllowed"@, bool_text(null_allowed));
            lemma_shows_after(p, e2, "values"@, quoted_list(quoted));
            lemma_shows_last(e1, "nullAllowed"@, bool_text(null_allowed));
            lemma_shows_after(p, e2, "nullAllowed"@, bool_text(null_allowed));
            lemma_starts_base(e0, "values"@, quoted_list(quoted));
            lemma_starts_extend(e1, e0, "nullAllowed"@, bool_text(null_allowed));
            lemma_starts_after(p, e2, e0);
            lemma_ends_last(e1, "nullAllowed"@, bool_text(null_allowed), e2);
            lemma_ends_after(p, e2, field_name("nullAllowed"@) + bool_text(null_allowed));
        },
        _ => {},
    }
}

proof fn lemma_fields_hugeint_range(f: FilterJson, depth: nat)
    requires
        f is HugeintRange,
    ensures
        starts_with_then_space(filter_header(f, depth), line_prefix(depth) + "filter kind="@ + kind_name(f)),
        filter_fields_shown(f, filter_header(f, depth)),
        ends_with(filter_header(f, depth), field_name("nullAllowed"@) + bool_text(null_allowed_of(f))),
{
    match f {
        FilterJson::HugeintRange { lower_hi, lower_lo, upper_hi, upper_lo, null_allowed } => {
            let p = line_prefix(depth) + "filter kind="@;
            let e0 = "hugeintRange"@;
            let e1 = e0 + field_name("lowerHi"@) + dec(lower_hi as int);
            let e2 = e1 + field_name("lowerLo"@) + dec(lower_lo as int);
            let e3 = e2 + field_name("upperHi"@) + dec(upper_hi as int);
            let e4 = e3 + field_name("upperLo"@) + dec(upper_lo as int);
            let e5 = e4 + field_name("nullAllowed"@) + bool_text(null_allowed);
            assert(filter_text(f) == e5);
            assert(filter_header(f, depth) == p + e5);
            lemma_shows_last(e0, "lowerHi"@, dec(lower_hi as int));
            lemma_shows_extend(e1, "lowerHi"@, dec(lower_hi as int), "lowerLo"@, dec(lower_lo as int));
            lemma_shows_extend(e2, "lowerHi"@, dec(lower_hi as int), "upperHi"@, dec(upper_hi as int));
            lemma_shows_extend(e3, "lowerHi"@, dec(lower_hi as int), "upperLo"@, dec(upper_lo as int));
            lemma_shows_extend(e4, "lowerHi"@, dec(lower_hi as int), "nullAllowed"@, bool_text(null_allowed));
            lemma_shows_after(p, e5, "lowerHi"@, dec(lower_hi as int));
            lemma_shows_last(e1, "lowerLo"@, dec(lower_lo as int));
            lemma_shows_extend(e2, "lowerLo"@, dec(lower_lo as int), "upperHi"@, dec(upper_hi as int));
            lemma_shows_extend(e3, "lowerLo"@, dec(lower_lo as int), "upperLo"@, dec(upper_lo as int));
            lemma_shows_extend(e4, "lowerLo"@, dec(lower_lo as int), "nullAllowed"@, bool_text(null_allowed));
            lemma_shows_after(p, e5, "lowerLo"@, dec(lower_lo as int));
            lemma_shows_last(e2, "upperHi"@, dec(upper_hi as int));
            lemma_shows_extend(e3, "upperHi"@, dec(upper_hi as int), "upperLo"@, dec(upper_lo as int));
            lemma_shows_extend(e4, "upperHi"@, dec(upper_hi as int), "nullAllowed"@, bool_text(null_allowed));
            lemma_shows_after(p, e5, "upperHi"@, dec(upper_hi as int));
            lemma_shows_last(e3, "upperLo"@, dec(upper_lo as int));
            lemma_shows_extend(e4, "upperLo"@, dec(upper_lo as int), "nullAllowed"@, bool_text(null_allowed));
            lemma_shows_after(p, e5, "upperLo"@, dec(upper_lo as int));
            lemma_shows_last(e4, "nullAllowed"@, bool_text(null_allowed));
            lemma_shows_after(p, e5, "nullAllowed"@, bool_text(null_allowed));
            lemma_starts_base(e0, "lowerHi"@, dec(lower_hi as int));
            lemma_starts_extend(e1, e0, "lowerLo"@, dec(lower_lo as int));
            lemma_starts_extend(e2, e0, "upperHi"@, dec(upper_hi as int));
            lemma_starts_extend(e3, e0, "upperLo"@, dec(upper_lo as int));
            lemma_starts_extend(e4, e0, "nullAllowed"@, bool_text(null_allowed));
            lemma_starts_after(p, e5, e0);
            lemma_ends_last(e4, "nullAllowed"@, bool_text(null_allowed), e5);
            lemma_ends_after(p, e5, field_name("nullAllowed"@) + bool_text(null_allowed));
        },
        _ => {},
    }
}

proof fn lemma_fields_hugeint_values_using_hash_table(f: FilterJson, depth: nat)
    requires
        f is HugeintValuesUsingHashTable,
    ensures
        starts_with_then_space(filter_header(f, depth), line_prefix(depth) + "filter kind="@ + kind_name(f)),
        filter_fields_shown(f, filter_header(f, depth)),
        ends_with(filter_header(f, depth), field_name("nullAllowed"@) + bool_text(null_allowed_of(f))),
{
    match f {
        FilterJson::HugeintValuesUsingHashTable { min_hi, min_lo, max_hi, max_lo, values_hi, values_lo, null_allowed } => {
            let p = line_prefix(depth) + "filter kind="@;
            let e0 = "hugeintValuesUsingHashTable"@;
            let e1 = e0 + field_name("minHi"@) + dec(min_hi as int);
            let e2 = e1 + field_name("minLo"@) + dec(min_lo as int);
            let e3 = e2 + field_name("maxHi"@) + dec(max_hi as int);
            let e4 = e3 + field_name("maxLo"@) + dec(max_lo as int);
            let e5 = e4 + field_name("valuesHi"@) + i64_list(values_hi@);
            let e6 = e5 + field_name("valuesLo"@) + i64_list(values_lo@);
            let e7 = e6 + field_name("nullAllowed"@) + bool_text(null_allowed);
            assert(filter_text(f) == e7);
            assert(filter_header(f, depth) == p + e7);
            lemma_shows_last(e0, "minHi"@, dec(min_hi as int));
            lemma_shows_extend(e1, "minHi"@, dec(min_hi as int), "minLo"@, dec(min_lo as int));
            lemma_shows_extend(e2, "minHi"@, dec(min_hi as int), "maxHi"@, dec(max_hi as int));
            lemma_shows_extend(e3, "minHi"@, dec(min_hi as int), "maxLo"@, dec(max_lo as int));
            lemma_shows_extend(e4, "minHi"@, dec(min_hi as int), "valuesHi"@, i64_list(values_hi@));
            lemma_shows_extend(e5, "minHi"@, dec(min_hi as int), "valuesLo"@, i64_list(values_lo@));
            lemma_shows_extend(e6, "minHi"@, dec(min_hi as int), "nullAllowed"@, bool_text(null_allowed));
            lemma_shows_after(p, e7, "minHi"@, dec(min_hi as int));
            lemma_shows_last(e1, "minLo"@, dec(min_lo as int));
            lemma_shows_extend(e2, "minLo"@, dec(min_lo as int), "maxHi"@, dec(max_hi as int));
            lemma_shows_extend(e3, "minLo"@, dec(min_lo as int), "maxLo"@, dec(max_lo as int));
            lemma_shows_extend(e4, "minLo"@, dec(min_lo as int), "valuesHi"@, i64_list(values_hi@));
            lemma_shows_extend(e5, "minLo"@, dec(min_lo as int), "valuesLo"@, i64_list(values_lo@));
            lemma_shows_extend(e6, "minLo"@, dec(min_lo as int), "nullAllowed"@, bool_text(null_allowed));
            lemma_shows_after(p, e7, "minLo"@, dec(min_lo as int));
            lemma_shows_last(e2, "maxHi"@, dec(max_hi as int));
            lemma_shows_extend(e3, "maxHi"@, dec(max_hi as int), "maxLo"@, dec(max_lo as int));
            lemma_shows_extend(e4, "maxHi"@, dec(max_hi as int), "valuesHi"@, i64_list(values_hi@));
            lemma_shows_extend(e5, "maxHi"@, dec(max_hi as int), "valuesLo"@, i64_list(values_lo@));
            lemma_shows_extend(e6, "maxHi"@, dec(max_hi as int), "nullAllowed"@, bool_text(null_allowed));
            lemma_shows_after(p, e7, "maxHi"@, dec(max_hi as int));
            lemma_shows_last(e3, "maxLo"@, dec(max_lo as int));
            lemma_shows_extend(e4, "maxLo"@, dec(max_lo as int), "valuesHi"@, i64_list(values_hi@));
            lemma_shows_extend(e5, "maxLo"@, dec(max_lo as int), "valuesLo"@, i64_list(values_lo@));
            lemma_shows_extend(e6, "maxLo"@, dec(max_lo as int), "nullAllowed"@, bool_text(null_allowed));
            lemma_shows_after(p, e7, "maxLo"@, dec(max_lo as int));
            lemma_shows_last(e4, "valuesHi"@, i64_list(values_hi@));
            lemma_shows_extend(e5, "valuesHi"@, i64_list(values_hi@), "valuesLo"@, i64_list(values_lo@));
            lemma_shows_extend(e6, "valuesHi"@, i64_list(values_hi@), "nullAllowed"@, bool_text(null_allowed));
            lemma_shows_after(p, e7, "valuesHi"@, i64_list(values_hi@));
            lemma_shows_last(e5, "valuesLo"@, i64_list(values_lo@));
            lemma_shows_extend(e6, "valuesLo"@, i64_list(values_lo@), "nullAllowed"@, bool_text(null_allowed));
            lemma_shows_after(p, e7, "valuesLo"@, i64_list(values_lo@));
            lemma_shows_last(e6, "nullAllowed"@, bool_text(null_allowed));
            lemma_shows_after(p, e7, "nullAllowed"@, bool_text(null_allowed));
            lemma_starts_base(e0, "minHi"@, dec(min_hi as int));
            lemma_starts_extend(e1, e0, "minLo"@, dec(min_lo as int));
            lemma_starts_extend(e2, e0, "maxHi"@, dec(max_hi as int));
            lemma_starts_extend(e3, e0, "maxLo"@, dec(max_lo as int));
            lemma_starts_extend(e4, e0, "valuesHi"@, i64_list(values_hi@));
            lemma_starts_extend(e5, e0, "valuesLo"@, i64_list(values_lo@));
            lemma_starts_extend(e6, e0, "nullAllowed"@, bool_text(null_allowed));
            lemma_starts_after(p, e7, e0);
            lemma_ends_last(e6, "nullAllowed"@, bool_text(null_allowed), e7);
            lemma_ends_after(p, e7, field_name("nullAllowed"@) + bool_text(null_allowed));
        },
        _ => {},
    }
}

proof fn lemma_fields_timestamp_range(f: FilterJson, depth: nat)
    requires
        f is TimestampRange,
    ensures
        starts_with_then_space(filter_header(f, depth), line_prefix(depth) + "filter kind="@ + kind_name(f)),
        filter_fields_shown(f, filter_header(f, depth)),
        ends_with(filter_header(f, depth), field_name("nullAllowed"@) + bool_text(null_allowed_of(f))),
{
    match f {
        FilterJson::TimestampRange { lower_sec, lower_nanos, upper_sec, upper_nanos, null_allowed } => {
            let p = line_prefix(depth) + "filter kind="@;
            let e0 = "timestampRange"@;
            let e1 = e0 + field_name("lowerSec"@) + dec(lower_sec as int);
            let e2 = e1 + field_name("lowerNanos"@) + dec(lower_nanos as int);
            let e3 = e2 + field_name("upperSec"@) + dec(upper_sec as int);
            let e4 = e3 + field_name("upperNanos"@) + dec(upper_nanos as int);
            let e5 = e4 + field_name("nullAllowed"@) + bool_text(null_allowed);
            assert(filter_text(f) == e5);
            assert(filter_header(f, depth) == p + e5);
            lemma_shows_last(e0, "lowerSec"@, dec(lower_sec as int));
            lemma_shows_extend(e1, "lowerSec"@, dec(lower_sec as int), "lowerNanos"@, dec(lower_nanos as int));
            lemma_shows_extend(e2, "lowerSec"@, dec(lower_sec as int), "upperSec"@, dec(upper_sec as int));
            lemma_shows_extend(e3, "lowerSec"@, dec(lower_sec as int), "upperNanos"@, dec(upper_nanos as int));
            lemma_shows_extend(e4, "lowerSec"@, dec(lower_sec as int), "nullAllowed"@, bool_text(null_allowed));
            lemma_shows_after(p, e5, "lowerSec"@, dec(lower_sec as int));
            lemma_shows_last(e1, "lowerNanos"@, dec(lower_nanos as int));
            lemma_shows_extend(e2, "lowerNanos"@, dec(lower_nanos as int), "upperSec"@, dec(upper_sec as int));
            lemma_shows_extend(e3, "lowerNanos"@, dec(lower_nanos as int), "upperNanos"@, dec(upper_nanos as int));
            lemma_shows_extend(e4, "lowerNanos"@, dec(lower_nanos as int), "nullAllowed"@, bool_text(null_allowed));
            lemma_shows_after(p, e5, "lowerNanos"@, dec(lower_nanos as int));
            lemma_shows_last(e2, "upperSec"@, dec(upper_sec as int));
            lemma_shows_extend(e3, "upperSec"@, dec(upper_sec as int), "upperNanos"@, dec(upper_nanos as int));
            lemma_shows_extend(e4, "upperSec"@, dec(upper_sec as int), "nullAllowed"@, bool_text(null_allowed));
            lemma_shows_after(p, e5, "upperSec"@, dec(upper_sec as int));
            lemma_shows_last(e3, "upperNanos"@, dec(upper_nanos as int));
            lemma_shows_extend(e4, "upperNanos"@, dec(upper_nanos as int), "nullAllowed"@, bool_text(null_allowed));
            lemma_shows_after(p, e5, "upperNanos"@, dec(upper_nanos as int));
            lemma_shows_last(e4, "nullAllowed"@, bool_text(null_allowed));
            lemma_shows_after(p, e5, "nullAllowed"@, bool_text(null_allowed));
            lemma_starts_base(e0, "lowerSec"@, dec(lower_sec as int));
            lemma_starts_extend(e1, e0, "lowerNanos"@, dec(lower_nanos as int));
            lemma_starts_extend(e2, e0, "upperSec"@, dec(upper_sec as int));
            lemma_starts_extend(e3, e0, "upperNanos"@, dec(upper_nanos as int));
            lemma_starts_extend(e4, e0, "nullAllowed"@, bool_text(null_allowed));
            lemma_starts_after(p, e5, e0);
            lemma_ends_last(e4, "nullAllowed"@, bool_text(null_allowed), e5);
            lemma_ends_after(p, e5, field_name("nullAllowed"@) + bool_text(null_allowed));
        },
        _ => {},
    }
}

proof fn lemma_fields_bigint_multi_range(f: FilterJson, depth: nat)
    requires
        f is BigintMultiRange,
    ensures
        starts_with_then_space(filter_header(f, depth), line_prefix(depth) + "filter kind="@ + kind_name(f)),
        filter_fields_shown(f, filter_header(f, depth)),
        ends_with(filter_header(f, depth), field_name("nullAllowed"@) + bool_text(null_allowed_of(f))),
{
    match f {
        FilterJson::BigintMultiRange { ranges, null_allowed } => {
            let p = line_prefix(depth) + "filter kind="@;
            let e0 = "bigintMultiRange"@;
            let e1 = e0 + field_name("n"@) + dec(ranges.len() as int);
            let e2 = e1 + field_name("nullAllowed"@) + bool_text(null_allowed);
            assert(filter_text(f) == e2);
            assert(filter_header(f, depth) == p + e2);
            lemma_shows_last(e0, "n"@, dec(ranges.len() as int));
            lemma_shows_extend(e1, "n"@, dec(ranges.len() as int), "nullAllowed"@, bool_text(null_allowed));
            lemma_shows_after(p, e2, "n"@, dec(ranges.len() as int));
            lemma_shows_last(e1, "nullAllowed"@, bool_text(null_allowed));
            lemma_shows_after(p, e2, "nullAllowed"@, bool_text(null_allowed));
            lemma_starts_base(e0, "n"@, dec(ranges.len() as int));
            lemma_starts_extend(e1, e0, "nullAllowed"@, bool_text(null_allowed));
            lemma_starts_after(p, e2, e0);
            lemma_ends_last(e1, "nullAllowed"@, bool_text(null_allowed), e2);
            lemma_ends_after(p, e2, field_name("nullAllowed"@) + bool_text(null_allowed));
        },
        _ => {},
    }
}

proof fn lemma_fields_multi_range(f: FilterJson, depth: nat)
    requires
        f is MultiRange,
    ensures
        starts_with_then_space(filter_header(f, depth), line_prefix(depth) + "filter kind="@ + kind_name(f)),
        filter_fields_shown(f, filter_header(f, depth)),
        ends_with(filter_header(f, depth), field_name("nullAllowed"@) + bool_text(null_allowed_of(f))),
{
    match f {
        FilterJson::MultiRange { subfilters, null_allowed } => {
            let p = line_prefix(depth) + "filter kind="@;
            let e0 = "multiRange"@;
            let e1 = e0 + field_name("n"@) + dec(subfilters.len() as int);
            let e2 = e1 + field_name("nullAllowed"@) + bool_text(null_allowed);
            assert(filter_text(f) == e2);
            assert(filter_header(f, depth) == p + e2);
            lemma_shows_last(e0, "n"@, dec(subfilters.len() as int));
            lemma_shows_extend(e1, "n"@, dec(subfilters.len() as int), "nullAllowed"@, bool_text(null_allowed));
            lemma_shows_after(p, e2, "n"@, dec(subfilters.len() as int));
            lemma_shows_last(e1, "nullAllowed"@, bool_text(null_allowed));
            lemma_shows_after(p, e2, "nullAllowed"@, bool_text(null_allowed));
            lemma_starts_base(e0, "n"@, dec(subfilters.len() as int));
            lemma_starts_extend(e1, e0, "nullAllowed"@, bool_text(null_allowed));
            lemma_starts_after(p, e2, e0);
            lemma_ends_last(e1, "nullAllowed"@, bool_text(null_allowed), e2);
            lemma_ends_after(p, e2, field_name("nullAllowed"@) + bool_text(null_allowed));
        },
        _ => {},
    }
}

/// The line of a filter names the filter's kind right after `filter kind=`, shows every
/// field of the filter under its own name with the text of its own value, and ends with
/// ` nullAllowed=` and whether the filter lets nulls through.
pub proof fn law_filter_line_fields(f: FilterJson, depth: nat)
    ensures
        starts_with_then_space(filter_header(f, depth), line_prefix(depth) + "filter kind="@ + kind_name(f)),
        filter_fields_shown(f, filter_header(f, depth)),
        ends_with(filter_header(f, depth), field_name("nullAllowed"@) + bool_text(null_allowed_of(f))),
{
    match f {
        FilterJson::AlwaysTrue { .. } => lemma_fields_always_true(f, depth),
        FilterJson::AlwaysFalse { .. } => lemma_fields_always_false(f, depth),
        FilterJson::IsNull { .. } => lemma_fields_is_null(f, depth),
        FilterJson::IsNotNull { .. } => lemma_fields_is_not_null(f, depth),
        FilterJson::BoolValue { .. } => lemma_fields_bool_value(f, depth),
        FilterJson::BigintRange { .. } => lemma_fields_bigint_range(f, depth),
        FilterJson::NegatedBigintRange { .. } => lemma_fields_negated_bigint_range(f, depth),
        FilterJson::BigintValuesUsingHashTable { .. } => lemma_fields_bigint_values_using_hash_table(f, depth),
        FilterJson::BigintValuesUsingBitmask { .. } => lemma_fields_bigint_values_using_bitmask(f, depth),
        FilterJson::NegatedBigintValuesUsingHashTable { .. } => lemma_fields_negated_bigint_values_using_hash_table(f, depth),
        FilterJson::NegatedBigintValuesUsingBitmask { .. } => lemma_fields_negated_bigint_values_using_bitmask(f, depth),
        FilterJson::DoubleRange { .. } => lemma_fields_double_range(f, depth),
        FilterJson::FloatRange { .. } => lemma_fields_float_range(f, depth),
        FilterJson::BytesRange { .. } => lemma_fields_bytes_range(f, depth),
        FilterJson::NegatedBytesRange { .. } => lemma_fields_negated_bytes_range(f, depth),
        FilterJson::BytesValues { .. } => lemma_fields_bytes_values(f, depth),
        FilterJson::NegatedBytesValues { .. } => lemma_fields_negated_bytes_values(f, depth),
        FilterJson::HugeintRange { .. } => lemma_fields_hugeint_range(f, depth),
        FilterJson::HugeintValuesUsingHashTable { .. } => lemma_fields_hugeint_values_using_hash_table(f, depth),
        FilterJson::TimestampRange { .. } => lemma_fields_timestamp_range(f, depth),
        FilterJson::BigintMultiRange { .. } => lemma_fields_bigint_multi_range(f, depth),
        FilterJson::MultiRange { .. } => lemma_fields_multi_range(f, depth),
    }
}

/// The line of a spec node starts with the tag, the indentation, `spec name=` and the quoted
/// name, then a space; a name of plain characters stands as itself between double quotes;
/// and the line shows the node's subscript, channel, flags and column type, each under its
/// own name with the text of its own value.
pub proof fn law_spec_line_fields(s: ScanSpecJson, depth: nat)
    ensures
        starts_with_then_space(spec_header(s, depth), line_prefix(depth) + "spec name="@
            + quoted_text(s.name@)),
        is_plain(s.name@) ==> starts_with_then_space(spec_header(s, depth), line_prefix(depth)
            + "spec name="@ + ("\""@ + s.name@ + "\""@)),
        shows_field(spec_header(s, depth), "subscript"@, dec(s.subscript as int)),
        shows_field(spec_header(s, depth), "channel"@, dec(s.channel as int)),
        shows_field(spec_header(s, depth), "projectOut"@, bool_text(s.project_out)),
        shows_field(spec_header(s, depth), "filterDisabled"@, bool_text(s.filter_disabled)),
        shows_field(spec_header(s, depth), "columnType"@, s.column_type@),
{
    let p = line_prefix(depth);
    let e0 = "spec name="@ + quoted_text(s.name@);
    let e1 = e0 + field_name("subscript"@) + dec(s.subscript as int);
    let e2 = e1 + field_name("channel"@) + dec(s.channel as int);
    let e3 = e2 + field_name("projectOut"@) + bool_text(s.project_out);
    let e4 = e3 + field_name("filterDisabled"@) + bool_text(s.filter_disabled);
    let e5 = e4 + field_name("columnType"@) + s.column_type@;
    assert(spec_text(s, quoted_text(s.name@)) == e5);
    assert(spec_header(s, depth) == p + e5);
    lemma_starts_base(e0, "subscript"@, dec(s.subscript as int));
    lemma_starts_extend(e1, e0, "channel"@, dec(s.channel as int));
    lemma_starts_extend(e2, e0, "projectOut"@, bool_text(s.project_out));
    lemma_starts_extend(e3, e0, "filterDisabled"@, bool_text(s.filter_disabled));
    lemma_starts_extend(e4, e0, "columnType"@, s.column_type@);
    lemma_starts_after(p, e5, e0);
    assert(p + e0 =~= line_prefix(depth) + "spec name="@ + quoted_text(s.name@));
    lemma_shows_last(e0, "subscript"@, dec(s.subscript as int));
    lemma_shows_extend(e1, "subscript"@, dec(s.subscript as int), "channel"@, dec(s.channel as int));
    lemma_shows_extend(e2, "subscript"@, dec(s.subscript as int), "projectOut"@, bool_text(s.project_out));
    lemma_shows_extend(e3, "subscript"@, dec(s.subscript as int), "filterDisabled"@, bool_text(s.filter_disabled));
    lemma_shows_extend(e4, "subscript"@, dec(s.subscript as int), "columnType"@, s.column_type@);
    lemma_shows_after(p, e5, "subscript"@, dec(s.subscript as int));
    lemma_shows_last(e1, "channel"@, dec(s.channel as int));
    lemma_shows_extend(e2, "channel"@, dec(s.channel as int), "projectOut"@, bool_text(s.project_out));
    lemma_shows_extend(e3, "channel"@, dec(s.channel as int), "filterDisabled"@, bool_text(s.filter_disabled));
    lemma_shows_extend(e4, "channel"@, dec(s.channel as int), "columnType"@, s.column_type@);
    lemma_shows_after(p, e5, "channel"@, dec(s.channel as int));
    lemma_shows_last(e2, "projectOut"@, bool_text(s.project_out));
    lemma_shows_extend(e3, "projectOut"@, bool_text(s.project_out), "filterDisabled"@, bool_text(s.filter_disabled));
    lemma_shows_extend(e4, "projectOut"@, bool_text(s.project_out), "columnType"@, s.column_type@);
    lemma_shows_after(p, e5, "projectOut"@, bool_text(s.project_out));
    lemma_shows_last(e3, "filterDisabled"@, bool_text(s.filter_disabled));
    lemma_shows_extend(e4, "filterDisabled"@, bool_text(s.filter_disabled), "columnType"@, s.column_type@);
    lemma_shows_after(p, e5, "filterDisabled"@, bool_text(s.filter_disabled));
    lemma_shows_last(e4, "columnType"@, s.column_type@);
    lemma_shows_after(p, e5, "columnType"@, s.column_type@);
}

} // verus!
