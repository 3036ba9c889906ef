//! Laws of the report: what holds of every rendered tree.

use vstd::prelude::*;
use crate::model::{FilterJson, ScanSpecJson, ScanSpecRootJson};
use crate::render::{
    begin_line, end_line, filter_lines, filters_lines, line_prefix, report_lines, spec_lines,
    specs_lines, tag,
};
use crate::text::{comma_join, dec, i64_list, indent, nat_digits, quoted_list, quoted_text};

verus! {

/// `p` is a prefix of every line in `lines`.
pub open spec fn all_start_with(lines: Seq<Seq<char>>, p: Seq<char>) -> bool {
    forall|i: int| 0 <= i < lines.len() ==> p.is_prefix_of(#[trigger] lines[i])
}

proof fn lemma_concat_start_with(a: Seq<Seq<char>>, b: Seq<Seq<char>>, p: Seq<char>)
    requires
        all_start_with(a, p),
        all_start_with(b, p),
    ensures
        all_start_with(a + b, p),
{
    assert forall|i: int| 0 <= i < (a + b).len() implies p.is_prefix_of(#[trigger] (a + b)[i]) by {
        if i < a.len() {
            assert((a + b)[i] == a[i]);
        } else {
            assert((a + b)[i] == b[i - a.len()]);
        }
    }
}

proof fn lemma_weaken_prefix(lines: Seq<Seq<char>>, p: Seq<char>, q: Seq<char>)
    requires
        all_start_with(lines, p + q),
    ensures
        all_start_with(lines, p),
{
    assert forall|i: int| 0 <= i < lines.len() implies p.is_prefix_of(#[trigger] lines[i]) by {
        let l = lines[i];
        assert((p + q).is_prefix_of(l));
        assert forall|j: int| 0 <= j < p.len() implies p[j] == l[j] by {
            assert((p + q)[j] == p[j]);
        }
    }
}

proof fn lemma_header_starts_with(rest: Seq<char>, depth: nat)
    ensures
        all_start_with(seq![line_prefix(depth) + rest], line_prefix(depth)),
{
    let l = line_prefix(depth) + rest;
    assert(line_prefix(depth).is_prefix_of(l)) by {
        assert forall|j: int| 0 <= j < line_prefix(depth).len() implies line_prefix(depth)[j]
            == l[j] by {}
    }
    assert(seq![l][0] == l);
}

proof fn lemma_filter_lines_start_with(f: FilterJson, depth: nat)
    ensures
        all_start_with(filter_lines(f, depth), line_prefix(depth)),
    decreases f, 1nat,
{
    let p = line_prefix(depth);
    lemma_header_starts_with("filter kind="@ + crate::render::filter_text(f), depth);
    assert(crate::render::filter_header(f, depth) =~= p + ("filter kind="@
        + crate::render::filter_text(f)));
    let head = seq![crate::render::filter_header(f, depth)];
    match f {
        FilterJson::BigintMultiRange { ranges, .. } => {
            lemma_filters_lines_start_with(ranges@, depth + 1);
            assert(line_prefix(depth + 1) =~= p + "  "@);
            lemma_weaken_prefix(filters_lines(ranges@, depth + 1), p, "  "@);
            lemma_concat_start_with(head, filters_lines(ranges@, depth + 1), p);
        },
        FilterJson::MultiRange { subfilters, .. } => {
            lemma_filters_lines_start_with(subfilters@, depth + 1);
            assert(line_prefix(depth + 1) =~= p + "  "@);
            lemma_weaken_prefix(filters_lines(subfilters@, depth + 1), p, "  "@);
            lemma_concat_start_with(head, filters_lines(subfilters@, depth + 1), p);
        },
        _ => {
            assert(filter_lines(f, depth) =~= head);
        },
    }
}

proof fn lemma_filters_lines_start_with(fs: Seq<FilterJson>, depth: nat)
    ensures
        all_start_with(filters_lines(fs, depth), line_prefix(depth)),
    decreases fs, 0nat,
{
    if fs.len() > 0 {
        lemma_filters_lines_start_with(fs.subrange(0, fs.len() - 1), depth);
        lemma_filter_lines_start_with(fs[fs.len() - 1], depth);
        lemma_concat_start_with(
            filters_lines(fs.subrange(0, fs.len() - 1), depth),
            filter_lines(fs[fs.len() - 1], depth),
            line_prefix(depth),
        );
    }
}


proof fn lemma_spec_lines_start_with(s: ScanSpecJson, depth: nat)
    ensures
        all_start_with(spec_lines(s, depth), line_prefix(depth)),
    decreases s, 1nat,
{
    let p = line_prefix(depth);
    let head = seq![crate::render::spec_header(s, depth)];
    lemma_header_starts_with(crate::render::spec_header(s, depth).skip(p.len() as int), depth);
    assert(crate::render::spec_header(s, depth) =~= p + crate::render::spec_header(s, depth).skip(
        p.len() as int,
    ));
    assert(line_prefix(depth + 1) =~= p + "  "@);
    let filter_part = match s.filter {
        Some(f) => filter_lines(f, depth + 1),
        None => seq![crate::render::no_filter_line(depth + 1)],
    };
    match s.filter {
        Some(f) => {
            lemma_filter_lines_start_with(f, depth + 1);
        },
        None => {
            lemma_header_starts_with("filter=<none>"@, depth + 1);
        },
    }
    lemma_weaken_prefix(filter_part, p, "  "@);
    lemma_specs_lines_start_with(s.children@, depth + 1);
    lemma_weaken_prefix(specs_lines(s.children@, depth + 1), p, "  "@);
    lemma_concat_start_with(head, filter_part, p);
    lemma_concat_start_with(head + filter_part, specs_lines(s.children@, depth + 1), p);
}

proof fn lemma_specs_lines_start_with(ss: Seq<ScanSpecJson>, depth: nat)
    ensures
        all_start_with(specs_lines(ss, depth), line_prefix(depth)),
    decreases ss, 0nat,
{
    if ss.len() > 0 {
        lemma_specs_lines_start_with(ss.subrange(0, ss.len() - 1), depth);
        lemma_spec_lines_start_with(ss[ss.len() - 1], depth);
        lemma_concat_start_with(
            specs_lines(ss.subrange(0, ss.len() - 1), depth),
            spec_lines(ss[ss.len() - 1], depth),
            line_prefix(depth),
        );
    }
}

/// Every line that a spec node renders at nesting level `depth` starts with the tag
/// `[SCANSPEC-FFI] ` followed by the indentation of that level (two spaces per level).
pub proof fn law_spec_lines_indented(s: ScanSpecJson, depth: nat)
    ensures
        all_start_with(spec_lines(s, depth), line_prefix(depth)),
{
    lemma_spec_lines_start_with(s, depth);
}

/// Every line that a filter renders at nesting level `depth` starts with the tag
/// `[SCANSPEC-FFI] ` followed by the indentation of that level.
pub proof fn law_filter_lines_indented(f: FilterJson, depth: nat)
    ensures
        all_start_with(filter_lines(f, depth), line_prefix(depth)),
{
    lemma_filter_lines_start_with(f, depth);
}

/// The report of an accepted root is a block that a reader can grep: every line starts
/// with the tag `[SCANSPEC-FFI] `, the first line is `BEGIN v=..`, the last is `END`,
/// and in between stand exactly the lines of the spec tree from nesting level 0.
pub proof fn law_report_framed(root: ScanSpecRootJson)
    ensures
        all_start_with(report_lines(root), tag()),
        report_lines(root)[0] == begin_line(root.v),
        report_lines(root).last() == end_line(),
        report_lines(root).len() == spec_lines(root.spec, 0).len() + 2,
        report_lines(root).subrange(1, report_lines(root).len() - 1) == spec_lines(root.spec, 0),
{
    let body = spec_lines(root.spec, 0);
    lemma_spec_lines_start_with(root.spec, 0);
    assert(line_prefix(0) =~= tag());
    reveal_strlit("[SCANSPEC-FFI] ");
    reveal_strlit("[SCANSPEC-FFI] BEGIN v=");
    reveal_strlit("BEGIN v=");
    reveal_strlit("[SCANSPEC-FFI] END");
    reveal_strlit("END");
    lemma_header_starts_with("BEGIN v="@ + crate::text::dec(root.v as int), 0);
    assert(begin_line(root.v) =~= line_prefix(0) + ("BEGIN v="@ + crate::text::dec(root.v as int)));
    lemma_header_starts_with("END"@, 0);
    assert(end_line() =~= line_prefix(0) + "END"@);
    lemma_concat_start_with(seq![begin_line(root.v)], body, tag());
    lemma_concat_start_with(seq![begin_line(root.v)] + body, seq![end_line()], tag());
    assert(report_lines(root).subrange(1, report_lines(root).len() - 1) =~= body);
}

/// A line moved `d` nesting levels deeper: `2 * d` more spaces after the tag.
pub open spec fn shift(line: Seq<char>, d: nat) -> Seq<char> {
    tag() + indent(d) + line.skip(tag().len() as int)
}

/// Every line of `lines` moved `d` nesting levels deeper.
pub open spec fn deepen(lines: Seq<Seq<char>>, d: nat) -> Seq<Seq<char>> {
    lines.map_values(|line: Seq<char>| shift(line, d))
}

proof fn lemma_indent_add(d: nat, k: nat)
    ensures
        indent(d + k) == indent(d) + indent(k),
    decreases k,
{
    if k == 0 {
        assert(indent(d) + indent(0) =~= indent(d));
    } else {
        lemma_indent_add(d, (k - 1) as nat);
        assert(indent(d + k) == indent((d + k - 1) as nat) + "  "@);
        assert(indent(d) + indent(k) =~= indent(d) + indent((k - 1) as nat) + "  "@);
    }
}

proof fn lemma_deepen_concat(a: Seq<Seq<char>>, b: Seq<Seq<char>>, d: nat)
    ensures
        deepen(a + b, d) == deepen(a, d) + deepen(b, d),
{
    assert(deepen(a + b, d) =~= deepen(a, d) + deepen(b, d));
}

proof fn lemma_shift_line(k: nat, d: nat, rest: Seq<char>)
    ensures
        deepen(seq![line_prefix(k) + rest], d) == seq![line_prefix(k + d) + rest],
{
    lemma_indent_add(d, k);
    let line = line_prefix(k) + rest;
    assert(line.skip(tag().len() as int) =~= indent(k) + rest);
    assert(shift(line, d) =~= line_prefix(k + d) + rest);
    assert(deepen(seq![line], d) =~= seq![shift(line, d)]);
}

proof fn lemma_filter_lines_deepen(f: FilterJson, k: nat, d: nat)
    ensures
        filter_lines(f, k + d) == deepen(filter_lines(f, k), d),
    decreases f, 1nat,
{
    let rest = "filter kind="@ + crate::render::filter_text(f);
    assert(crate::render::filter_header(f, k) =~= line_prefix(k) + rest);
    assert(crate::render::filter_header(f, k + d) =~= line_prefix(k + d) + rest);
    lemma_shift_line(k, d, rest);
    let head = seq![crate::render::filter_header(f, k)];
    match f {
        FilterJson::BigintMultiRange { ranges, .. } => {
            lemma_filters_lines_deepen(ranges@, k + 1, d);
            assert(k + d + 1 == (k + 1) + d);
            lemma_deepen_concat(head, filters_lines(ranges@, k + 1), d);
        },
        FilterJson::MultiRange { subfilters, .. } => {
            lemma_filters_lines_deepen(subfilters@, k + 1, d);
            assert(k + d + 1 == (k + 1) + d);
            lemma_deepen_concat(head, filters_lines(subfilters@, k + 1), d);
        },
        _ => {
            assert(filter_lines(f, k) =~= head);
            assert(filter_lines(f, k + d) =~= seq![crate::render::filter_header(f, k + d)]);
        },
    }
}

proof fn lemma_filters_lines_deepen(fs: Seq<FilterJson>, k: nat, d: nat)
    ensures
        filters_lines(fs, k + d) == deepen(filters_lines(fs, k), d),
    decreases fs, 0nat,
{
    if fs.len() == 0 {
        assert(deepen(filters_lines(fs, k), d) =~= Seq::empty());
    } else {
        lemma_filters_lines_deepen(fs.subrange(0, fs.len() - 1), k, d);
        lemma_filter_lines_deepen(fs[fs.len() - 1], k, d);
        lemma_deepen_concat(
            filters_lines(fs.subrange(0, fs.len() - 1), k),
            filter_lines(fs[fs.len() - 1], k),
            d,
        );
    }
}

proof fn lemma_spec_lines_deepen(s: ScanSpecJson, k: nat, d: nat)
    ensures
        spec_lines(s, k + d) == deepen(spec_lines(s, k), d),
    decreases s, 1nat,
{
    let rest = crate::render::spec_header(s, k).skip(line_prefix(k).len() as int);
    assert(crate::render::spec_header(s, k) =~= line_prefix(k) + rest);
    assert(crate::render::spec_header(s, k + d) =~= line_prefix(k + d) + rest);
    lemma_shift_line(k, d, rest);
    let head = seq![crate::render::spec_header(s, k)];
    assert(k + d + 1 == (k + 1) + d);
    let filter_part = match s.filter {
        Some(f) => filter_lines(f, k + 1),
        None => seq![crate::render::no_filter_line(k + 1)],
    };
    match s.filter {
        Some(f) => {
            lemma_filter_lines_deepen(f, k + 1, d);
        },
        None => {
            lemma_shift_line(k + 1, d, "filter=<none>"@);
        },
    }
    lemma_specs_lines_deepen(s.children@, k + 1, d);
    lemma_deepen_concat(head, filter_part, d);
    lemma_deepen_concat(head + filter_part, specs_lines(s.children@, k + 1), d);
}

proof fn lemma_specs_lines_deepen(ss: Seq<ScanSpecJson>, k: nat, d: nat)
    ensures
        specs_lines(ss, k + d) == deepen(specs_lines(ss, k), d),
    decreases ss, 0nat,
{
    if ss.len() == 0 {
        assert(deepen(specs_lines(ss, k), d) =~= Seq::empty());
    } else {
        lemma_specs_lines_deepen(ss.subrange(0, ss.len() - 1), k, d);
        lemma_spec_lines_deepen(ss[ss.len() - 1], k, d);
        lemma_deepen_concat(
            specs_lines(ss.subrange(0, ss.len() - 1), k),
            spec_lines(ss[ss.len() - 1], k),
            d,
        );
    }
}

/// Rendering a spec node `d` levels deeper changes nothing but the indentation: the same
/// lines come in the same order, each with `2 * d` more spaces after the tag.
pub proof fn law_spec_depth_only_indents(s: ScanSpecJson, depth: nat, d: nat)
    ensures
        spec_lines(s, depth + d) == deepen(spec_lines(s, depth), d),
{
    lemma_spec_lines_deepen(s, depth, d);
}

/// Rendering a filter `d` levels deeper changes nothing but the indentation.
pub proof fn law_filter_depth_only_indents(f: FilterJson, depth: nat, d: nat)
    ensures
        filter_lines(f, depth + d) == deepen(filter_lines(f, depth), d),
{
    lemma_filter_lines_deepen(f, depth, d);
}

/// The filters of the tree rooted at `f`, each with its nesting level when `f` stands at
/// level `depth`: `f` first, then the trees of its sub-filters in order (preorder).
pub open spec fn filter_preorder(f: FilterJson, depth: nat) -> Seq<(FilterJson, nat)>
    decreases f, 1nat,
{
    seq![(f, depth)] + match f {
        FilterJson::BigintMultiRange { ranges, .. } => filters_preorder(ranges@, depth + 1),
        FilterJson::MultiRange { subfilters, .. } => filters_preorder(subfilters@, depth + 1),
        _ => Seq::empty(),
    }
}

/// The preorders of the filter trees `fs`, one after the other, each rooted at `depth`.
pub open spec fn filters_preorder(fs: Seq<FilterJson>, depth: nat) -> Seq<(FilterJson, nat)>
    decreases fs, 0nat,
{
    if fs.len() == 0 {
        Seq::empty()
    } else {
        filters_preorder(fs.subrange(0, fs.len() - 1), depth) + filter_preorder(
            fs[fs.len() - 1],
            depth,
        )
    }
}

/// The number of filters in the tree rooted at `f` (`f` and all its sub-filters).
pub open spec fn filter_count(f: FilterJson) -> nat
    decreases f, 1nat,
{
    1 + match f {
        FilterJson::BigintMultiRange { ranges, .. } => filters_count(ranges@),
        FilterJson::MultiRange { subfilters, .. } => filters_count(subfilters@),
        _ => 0,
    }
}

/// The number of filters in the trees `fs`.
pub open spec fn filters_count(fs: Seq<FilterJson>) -> nat
    decreases fs, 0nat,
{
    if fs.len() == 0 {
        0
    } else {
        filters_count(fs.subrange(0, fs.len() - 1)) + filter_count(fs[fs.len() - 1])
    }
}

/// The line of each filter of a preorder, at its level.
pub open spec fn filter_headers(nodes: Seq<(FilterJson, nat)>) -> Seq<Seq<char>> {
    nodes.map_values(|p: (FilterJson, nat)| crate::render::filter_header(p.0, p.1))
}

proof fn lemma_filter_headers_concat(a: Seq<(FilterJson, nat)>, b: Seq<(FilterJson, nat)>)
    ensures
        filter_headers(a + b) == filter_headers(a) + filter_headers(b),
{
    assert(filter_headers(a + b) =~= filter_headers(a) + filter_headers(b));
}

proof fn lemma_filter_preorder(f: FilterJson, depth: nat)
    ensures
        filter_lines(f, depth) == filter_headers(filter_preorder(f, depth)),
        filter_preorder(f, depth).len() == filter_count(f),
    decreases f, 1nat,
{
    let head = seq![(f, depth)];
    assert(filter_headers(head) =~= seq![crate::render::filter_header(f, depth)]);
    match f {
        FilterJson::BigintMultiRange { ranges, .. } => {
            lemma_filters_preorder(ranges@, depth + 1);
            lemma_filter_headers_concat(head, filters_preorder(ranges@, depth + 1));
        },
        FilterJson::MultiRange { subfilters, .. } => {
            lemma_filters_preorder(subfilters@, depth + 1);
            lemma_filter_headers_concat(head, filters_preorder(subfilters@, depth + 1));
        },
        _ => {
            assert(filter_preorder(f, depth) =~= head);
            assert(filter_lines(f, depth) =~= seq![crate::render::filter_header(f, depth)]);
        },
    }
}

proof fn lemma_filters_preorder(fs: Seq<FilterJson>, depth: nat)
    ensures
        filters_lines(fs, depth) == filter_headers(filters_preorder(fs, depth)),
        filters_preorder(fs, depth).len() == filters_count(fs),
    decreases fs, 0nat,
{
    if fs.len() == 0 {
        assert(filter_headers(filters_preorder(fs, depth)) =~= Seq::empty());
    } else {
        let init = fs.subrange(0, fs.len() - 1);
        lemma_filters_preorder(init, depth);
        lemma_filter_preorder(fs[fs.len() - 1], depth);
        lemma_filter_headers_concat(
            filters_preorder(init, depth),
            filter_preorder(fs[fs.len() - 1], depth),
        );
    }
}

/// A filter tree renders one line per filter, in preorder (a filter, then the trees of
/// its sub-filters in order), each at its own nesting level; so it renders as many lines
/// as it has filters.
pub proof fn law_filter_lines_preorder(f: FilterJson, depth: nat)
    ensures
        filter_lines(f, depth) == filter_headers(filter_preorder(f, depth)),
        filter_lines(f, depth).len() == filter_count(f),
{
    lemma_filter_preorder(f, depth);
}

/// The spec nodes of the tree rooted at `s`, each with its nesting level when `s` stands
/// at level `depth`: `s` first, then the trees of its children in order (preorder).
pub open spec fn spec_preorder(s: ScanSpecJson, depth: nat) -> Seq<(ScanSpecJson, nat)>
    decreases s, 1nat,
{
    seq![(s, depth)] + specs_preorder(s.children@, depth + 1)
}

/// The preorders of the spec trees `ss`, one after the other, each rooted at `depth`.
pub open spec fn specs_preorder(ss: Seq<ScanSpecJson>, depth: nat) -> Seq<(ScanSpecJson, nat)>
    decreases ss, 0nat,
{
    if ss.len() == 0 {
        Seq::empty()
    } else {
        specs_preorder(ss.subrange(0, ss.len() - 1), depth) + spec_preorder(ss[ss.len() - 1], depth)
    }
}

/// The number of lines that a spec node writes itself: its own line, and the lines of its
/// filter tree (one per filter) or the one line for a missing filter.
pub open spec fn node_line_count(n: ScanSpecJson) -> nat {
    1 + match n.filter {
        Some(f) => filter_count(f),
        None => 1,
    }
}

/// The sum of `node_line_count` over the nodes of `nodes`.
pub open spec fn nodes_line_count(nodes: Seq<(ScanSpecJson, nat)>) -> nat
    decreases nodes.len(),
{
    if nodes.len() == 0 {
        0
    } else {
        nodes_line_count(nodes.drop_last()) + node_line_count(nodes.last().0)
    }
}

/// The line of each spec node of a preorder, at its level.
pub open spec fn spec_headers(nodes: Seq<(ScanSpecJson, nat)>) -> Seq<Seq<char>> {
    nodes.map_values(|p: (ScanSpecJson, nat)| crate::render::spec_header(p.0, p.1))
}

/// `t` without its leading spaces.
pub open spec fn strip_spaces(t: Seq<char>) -> Seq<char>
    decreases t.len(),
{
    if t.len() > 0 && t[0] == ' ' {
        strip_spaces(t.drop_first())
    } else {
        t
    }
}

/// `t` is the line of a spec node: after the tag and the indentation comes `spec name=`.
pub open spec fn is_spec_line(t: Seq<char>) -> bool {
    "spec name="@.is_prefix_of(strip_spaces(t.skip(tag().len() as int)))
}

/// `is_spec_line` as a predicate for `Seq::filter`.
pub open spec fn spec_line_pred() -> spec_fn(Seq<char>) -> bool {
    |t: Seq<char>| is_spec_line(t)
}

proof fn lemma_strip_spaces(sp: Seq<char>, r: Seq<char>)
    requires
        forall|i: int| 0 <= i < sp.len() ==> sp[i] == ' ',
        r.len() > 0,
        r[0] != ' ',
    ensures
        strip_spaces(sp + r) == r,
    decreases sp.len(),
{
    if sp.len() == 0 {
        assert(sp + r =~= r);
    } else {
        assert((sp + r).drop_first() =~= sp.drop_first() + r);
        lemma_strip_spaces(sp.drop_first(), r);
    }
}

proof fn lemma_indent_spaces(k: nat)
    ensures
        forall|i: int| 0 <= i < indent(k).len() ==> indent(k)[i] == ' ',
    decreases k,
{
    reveal_strlit("  ");
    if k > 0 {
        let prev = indent((k - 1) as nat);
        lemma_indent_spaces((k - 1) as nat);
        assert forall|i: int| 0 <= i < indent(k).len() implies indent(k)[i] == ' ' by {
            if i < prev.len() {
                assert(indent(k)[i] == prev[i]);
            } else {
                assert(indent(k)[i] == "  "@[i - prev.len()]);
            }
        }
    }
}

proof fn lemma_line_body(k: nat, rest: Seq<char>)
    requires
        rest.len() > 0,
        rest[0] != ' ',
    ensures
        strip_spaces((line_prefix(k) + rest).skip(tag().len() as int)) == rest,
{
    assert((line_prefix(k) + rest).skip(tag().len() as int) =~= indent(k) + rest);
    lemma_indent_spaces(k);
    lemma_strip_spaces(indent(k), rest);
}

proof fn lemma_filter_header_not_spec_line(f: FilterJson, k: nat)
    ensures
        !is_spec_line(crate::render::filter_header(f, k)),
{
    reveal_strlit("filter kind=");
    reveal_strlit("spec name=");
    let rest = "filter kind="@ + crate::render::filter_text(f);
    assert(crate::render::filter_header(f, k) =~= line_prefix(k) + rest);
    lemma_line_body(k, rest);
    assert(rest[0] == 'f');
    if is_spec_line(crate::render::filter_header(f, k)) {
        assert("spec name="@[0] == rest.subrange(0, 10)[0]);
    }
}

proof fn lemma_filter_none(lines: Seq<Seq<char>>)
    requires
        forall|i: int| 0 <= i < lines.len() ==> !is_spec_line(#[trigger] lines[i]),
    ensures
        lines.filter(spec_line_pred()) == Seq::<Seq<char>>::empty(),
    decreases lines.len(),
{
    reveal(Seq::filter);
    if lines.len() > 0 {
        lemma_filter_none(lines.drop_last());
        assert(!is_spec_line(lines[lines.len() - 1]));
    }
}

proof fn lemma_filter_lines_no_spec_line(f: FilterJson, k: nat)
    ensures
        filter_lines(f, k).filter(spec_line_pred()) == Seq::<Seq<char>>::empty(),
{
    lemma_filter_preorder(f, k);
    let nodes = filter_preorder(f, k);
    assert forall|i: int| 0 <= i < filter_lines(f, k).len() implies !is_spec_line(
        #[trigger] filter_lines(f, k)[i],
    ) by {
        lemma_filter_header_not_spec_line(nodes[i].0, nodes[i].1);
    }
    lemma_filter_none(filter_lines(f, k));
}

proof fn lemma_singleton_filter(t: Seq<char>)
    ensures
        seq![t].filter(spec_line_pred()) == (if is_spec_line(t) {
            seq![t]
        } else {
            Seq::<Seq<char>>::empty()
        }),
{
    reveal(Seq::filter);
    assert(seq![t].drop_last() =~= Seq::<Seq<char>>::empty());
    assert(Seq::<Seq<char>>::empty().filter(spec_line_pred()) =~= Seq::<Seq<char>>::empty());
    if is_spec_line(t) {
        assert(Seq::<Seq<char>>::empty().push(t) =~= seq![t]);
    }
}

proof fn lemma_nodes_line_count_concat(a: Seq<(ScanSpecJson, nat)>, b: Seq<(ScanSpecJson, nat)>)
    ensures
        nodes_line_count(a + b) == nodes_line_count(a) + nodes_line_count(b),
    decreases b.len(),
{
    if b.len() == 0 {
        assert(a + b =~= a);
    } else {
        assert((a + b).drop_last() =~= a + b.drop_last());
        lemma_nodes_line_count_concat(a, b.drop_last());
    }
}

proof fn lemma_spec_headers_concat(a: Seq<(ScanSpecJson, nat)>, b: Seq<(ScanSpecJson, nat)>)
    ensures
        spec_headers(a + b) == spec_headers(a) + spec_headers(b),
{
    assert(spec_headers(a + b) =~= spec_headers(a) + spec_headers(b));
}

proof fn lemma_spec_header_is_spec_line(s: ScanSpecJson, depth: nat)
    ensures
        is_spec_line(crate::render::spec_header(s, depth)),
{
    reveal_strlit("spec name=");
    let header = crate::render::spec_header(s, depth);
    let rest = crate::render::spec_text(s, quoted_text(s.name@));
    assert(header =~= line_prefix(depth) + rest);
    assert(rest[0] == 's');
    lemma_line_body(depth, rest);
    assert("spec name="@ =~= rest.subrange(0, 10));
}

/// The filter part of a node's lines: its filter tree, or the line for a missing filter.
spec fn filter_part(s: ScanSpecJson, depth: nat) -> Seq<Seq<char>> {
    match s.filter {
        Some(f) => filter_lines(f, depth),
        None => seq![crate::render::no_filter_line(depth)],
    }
}

proof fn lemma_filter_part(s: ScanSpecJson, depth: nat)
    ensures
        filter_part(s, depth).filter(spec_line_pred()) == Seq::<Seq<char>>::empty(),
        filter_part(s, depth).len() + 1 == node_line_count(s),
{
    match s.filter {
        Some(f) => {
            lemma_filter_lines_no_spec_line(f, depth);
            lemma_filter_preorder(f, depth);
        },
        None => {
            reveal_strlit("filter=<none>");
            reveal_strlit("spec name=");
            let line = crate::render::no_filter_line(depth);
            let rest = "filter=<none>"@;
            assert(line =~= line_prefix(depth) + rest);
            lemma_line_body(depth, rest);
            if is_spec_line(line) {
                assert("spec name="@[0] == rest.subrange(0, 10)[0]);
            }
            lemma_singleton_filter(line);
        },
    }
}

proof fn lemma_spec_preorder(s: ScanSpecJson, depth: nat)
    ensures
        spec_lines(s, depth).filter(spec_line_pred()) == spec_headers(spec_preorder(s, depth)),
        spec_lines(s, depth).len() == nodes_line_count(spec_preorder(s, depth)),
    decreases s, 1nat,
{
    let header = crate::render::spec_header(s, depth);
    lemma_spec_header_is_spec_line(s, depth);
    lemma_singleton_filter(header);
    let fpart = filter_part(s, depth + 1);
    lemma_filter_part(s, depth + 1);
    let kids = specs_lines(s.children@, depth + 1);
    lemma_specs_preorder(s.children@, depth + 1);
    let pred = spec_line_pred();
    assert(spec_lines(s, depth) == seq![header] + fpart + kids);
    Seq::filter_distributes_over_add(seq![header], fpart, pred);
    Seq::filter_distributes_over_add(seq![header] + fpart, kids, pred);
    let head = seq![(s, depth)];
    assert(spec_headers(head) =~= seq![header]);
    lemma_spec_headers_concat(head, specs_preorder(s.children@, depth + 1));
    assert(seq![header] + Seq::<Seq<char>>::empty() =~= seq![header]);
    lemma_nodes_line_count_concat(head, specs_preorder(s.children@, depth + 1));
    assert(head.drop_last() =~= Seq::<(ScanSpecJson, nat)>::empty());
    assert(nodes_line_count(Seq::<(ScanSpecJson, nat)>::empty()) == 0);
    assert(head.last().0 == s);
    assert(nodes_line_count(head) == node_line_count(s));
}

proof fn lemma_specs_preorder(ss: Seq<ScanSpecJson>, depth: nat)
    ensures
        specs_lines(ss, depth).filter(spec_line_pred()) == spec_headers(specs_preorder(ss, depth)),
        specs_lines(ss, depth).len() == nodes_line_count(specs_preorder(ss, depth)),
    decreases ss, 0nat,
{
    if ss.len() == 0 {
        reveal(Seq::filter);
        assert(spec_headers(specs_preorder(ss, depth)) =~= Seq::<Seq<char>>::empty());
    } else {
        let init = ss.subrange(0, ss.len() - 1);
        let last = ss[ss.len() - 1];
        lemma_specs_preorder(init, depth);
        lemma_spec_preorder(last, depth);
        Seq::filter_distributes_over_add(
            specs_lines(init, depth),
            spec_lines(last, depth),
            spec_line_pred(),
        );
        lemma_spec_headers_concat(specs_preorder(init, depth), spec_preorder(last, depth));
        lemma_nodes_line_count_concat(specs_preorder(init, depth), spec_preorder(last, depth));
    }
}

/// A spec tree renders one spec line per node, in preorder (a node, then the trees of its
/// children in order), each at its own nesting level; the other lines are filter lines.
/// In all it renders, for each node, its own line plus one line per filter of its filter
/// tree, or one line for a missing filter.
pub proof fn law_spec_lines_preorder(s: ScanSpecJson, depth: nat)
    ensures
        spec_lines(s, depth).filter(spec_line_pred()) == spec_headers(spec_preorder(s, depth)),
        spec_lines(s, depth).len() == nodes_line_count(spec_preorder(s, depth)),
{
    lemma_spec_preorder(s, depth);
}

/// Where a node's lines stand: first the node's own line, right after it the lines of its
/// filter tree (or the line for a missing filter), and after those the lines of its
/// children.
pub proof fn law_spec_lines_layout(s: ScanSpecJson, depth: nat)
    ensures
        spec_lines(s, depth)[0] == crate::render::spec_header(s, depth),
        match s.filter {
            Some(f) => spec_lines(s, depth).subrange(1, 1 + filter_count(f) as int)
                == filter_lines(f, depth + 1),
            None => spec_lines(s, depth)[1] == crate::render::no_filter_line(depth + 1),
        },
        spec_lines(s, depth).skip(node_line_count(s) as int) == specs_lines(s.children@, depth + 1),
{
    let header = crate::render::spec_header(s, depth);
    let fpart = filter_part(s, depth + 1);
    let kids = specs_lines(s.children@, depth + 1);
    lemma_filter_part(s, depth + 1);
    assert(spec_lines(s, depth) == seq![header] + fpart + kids);
    lemma_three_parts(header, fpart, kids);
    match s.filter {
        Some(f) => {
            lemma_filter_preorder(f, depth + 1);
        },
        None => {
            assert(fpart[0] == crate::render::no_filter_line(depth + 1));
        },
    }
}

proof fn lemma_three_parts(h: Seq<char>, f: Seq<Seq<char>>, k: Seq<Seq<char>>)
    ensures
        (seq![h] + f + k)[0] == h,
        (seq![h] + f + k).subrange(1, 1 + f.len() as int) == f,
        (seq![h] + f + k).skip(1 + f.len() as int) == k,
        f.len() > 0 ==> (seq![h] + f + k)[1] == f[0],
{
    let l = seq![h] + f + k;
    assert(l.subrange(1, 1 + f.len() as int) =~= f);
    assert(l.skip(1 + f.len() as int) =~= k);
}

/// `t` cut at each comma: the pieces between the commas, in order (one piece when `t` has
/// no comma).
pub open spec fn split_commas(t: Seq<char>) -> Seq<Seq<char>>
    decreases t.len(),
{
    if t.len() == 0 {
        seq![Seq::empty()]
    } else {
        let p = split_commas(t.drop_last());
        if t.last() == ',' {
            p.push(Seq::empty())
        } else {
            p.update(p.len() - 1, p.last().push(t.last()))
        }
    }
}

/// `t` holds no comma.
pub open spec fn comma_free(t: Seq<char>) -> bool {
    forall|i: int| 0 <= i < t.len() ==> t[i] != ','
}

proof fn lemma_split_len(t: Seq<char>)
    ensures
        split_commas(t).len() >= 1,
    decreases t.len(),
{
    if t.len() > 0 {
        lemma_split_len(t.drop_last());
    }
}

proof fn lemma_split_extend(x: Seq<char>, y: Seq<char>)
    requires
        comma_free(y),
    ensures
        split_commas(x + y).len() == split_commas(x).len(),
        split_commas(x + y) == split_commas(x).update(
            split_commas(x).len() - 1,
            split_commas(x).last() + y,
        ),
    decreases y.len(),
{
    lemma_split_len(x);
    let p = split_commas(x);
    if y.len() == 0 {
        assert(x + y =~= x);
        assert(p.update(p.len() - 1, p.last() + y) =~= p);
    } else {
        let y0 = y.drop_last();
        assert(comma_free(y0));
        lemma_split_extend(x, y0);
        assert((x + y).drop_last() =~= x + y0);
        assert((x + y).last() == y.last());
        lemma_split_len(x + y0);
        let q = split_commas(x + y0);
        assert(q.last() == p.last() + y0);
        assert(p.last() + y =~= (p.last() + y0).push(y.last()));
        assert(q.update(q.len() - 1, q.last().push(y.last())) =~= p.update(
            p.len() - 1,
            p.last() + y,
        ));
    }
}

proof fn lemma_split_comma(x: Seq<char>)
    ensures
        split_commas(x + seq![',']) == split_commas(x).push(Seq::empty()),
{
    assert((x + seq![',']).drop_last() =~= x);
}

proof fn lemma_digits_comma_free(n: nat)
    ensures
        comma_free(nat_digits(n)),
    decreases n,
{
    if n >= 10 {
        lemma_digits_comma_free(n / 10);
    }
}

proof fn lemma_dec_comma_free(n: int)
    ensures
        comma_free(dec(n)),
{
    if n < 0 {
        lemma_digits_comma_free((-n) as nat);
        assert forall|i: int| 0 <= i < dec(n).len() implies dec(n)[i] != ',' by {
            if i > 0 {
                assert(dec(n)[i] == nat_digits((-n) as nat)[i - 1]);
            }
        }
    } else {
        lemma_digits_comma_free(n as nat);
    }
}

/// The pieces of a `", "`-joined list of comma-free items: the first item, then each other
/// item after its space.
proof fn lemma_split_join(items: Seq<Seq<char>>)
    requires
        items.len() > 0,
        forall|k: int| 0 <= k < items.len() ==> comma_free(#[trigger] items[k]),
    ensures
        split_commas(comma_join(items)).len() == items.len(),
        split_commas(comma_join(items))[0] == items[0],
        forall|k: int|
            1 <= k < items.len() ==> split_commas(comma_join(items))[k] == " "@ + items[k],
    decreases items.len(),
{
    reveal_strlit(", ");
    reveal_strlit(" ");
    if items.len() == 1 {
        assert(comma_free(items[0]));
        lemma_split_extend(Seq::empty(), items[0]);
        assert(Seq::<char>::empty() + items[0] =~= items[0]);
        assert(split_commas(Seq::<char>::empty()) =~= seq![Seq::<char>::empty()]);
        assert(Seq::<char>::empty() + items[0] =~= items[0]);
    } else {
        let init = items.drop_last();
        let last = items.last();
        assert forall|k: int| 0 <= k < init.len() implies comma_free(#[trigger] init[k]) by {
            assert(init[k] == items[k]);
        }
        lemma_split_join(init);
        let a = comma_join(init);
        assert(comma_free(items[items.len() - 1]));
        assert(comma_join(items) == a + ", "@ + last);
        assert(a + ", "@ + last =~= (a + seq![',']) + (" "@ + last));
        assert(comma_free(" "@ + last)) by {
            assert forall|i: int| 0 <= i < (" "@ + last).len() implies (" "@ + last)[i] != ',' by {
                if i > 0 {
                    assert((" "@ + last)[i] == last[i - 1]);
                }
            }
        }
        lemma_split_comma(a);
        lemma_split_extend(a + seq![','], " "@ + last);
        lemma_split_len(a);
        let p = split_commas(a).push(Seq::<char>::empty());
        assert(split_commas(comma_join(items)) =~= p.update(p.len() - 1, p.last() + (" "@ + last)));
        assert(Seq::<char>::empty() + (" "@ + last) =~= " "@ + last);
    }
}

/// The text of a list of integers is `[`, the entries, `]`; the entries, cut at the commas,
/// are exactly one per value, in order: the first value's decimal text, then each further
/// value's decimal text after a space. An empty list is `[]`.
pub proof fn law_i64_list_entries(v: Seq<i64>)
    ensures
        i64_list(v).len() >= 2,
        i64_list(v)[0] == '[',
        i64_list(v).last() == ']',
        v.len() == 0 ==> i64_list(v).len() == 2,
        v.len() > 0 ==> ({
            let parts = split_commas(i64_list(v).subrange(1, i64_list(v).len() - 1));
            &&& parts.len() == v.len()
            &&& parts[0] == dec(v[0] as int)
            &&& forall|k: int| 1 <= k < v.len() ==> parts[k] == " "@ + dec(v[k] as int)
        }),
{
    reveal_strlit("[");
    reveal_strlit("]");
    let items = v.map_values(|x: i64| dec(x as int));
    let inner = comma_join(items);
    let t = i64_list(v);
    assert(t == "["@ + inner + "]"@);
    assert(t.subrange(1, t.len() - 1) =~= inner);
    assert(t[0] == '[');
    assert(t.last() == ']');
    if v.len() == 0 {
        assert(inner.len() == 0);
    } else {
        assert forall|k: int| 0 <= k < items.len() implies comma_free(#[trigger] items[k]) by {
            lemma_dec_comma_free(v[k] as int);
        }
        lemma_split_join(items);
    }
}

/// The number that a string of decimal digits stands for.
pub open spec fn digits_value(t: Seq<char>) -> int
    decreases t.len(),
{
    if t.len() == 0 {
        0
    } else {
        10 * digits_value(t.drop_last()) + (t.last() as int - '0' as int)
    }
}

/// Every character of `t` is a decimal digit.
pub open spec fn all_digits(t: Seq<char>) -> bool {
    forall|i: int| 0 <= i < t.len() ==> '0' <= #[trigger] t[i] <= '9'
}

proof fn lemma_nat_digits(n: nat)
    ensures
        nat_digits(n).len() > 0,
        all_digits(nat_digits(n)),
        digits_value(nat_digits(n)) == n,
        nat_digits(n)[0] == '0' ==> n == 0,
    decreases n,
{
    if n >= 10 {
        lemma_nat_digits(n / 10);
        let p = nat_digits(n / 10);
        let t = nat_digits(n);
        assert(t == p.push(crate::text::digit_char(n % 10)));
        assert(t.drop_last() =~= p);
        assert forall|i: int| 0 <= i < t.len() implies '0' <= #[trigger] t[i] <= '9' by {
            if i < p.len() {
                assert(t[i] == p[i]);
            }
        }
        assert(t[0] == p[0]);
        assert(t.last() as int == 48 + n % 10);
        assert(digits_value(t) == 10 * (n / 10) + n % 10);
    } else {
        let t = nat_digits(n);
        assert(t.drop_last() =~= Seq::<char>::empty());
        assert(t.last() as int == 48 + n);
        assert(digits_value(t.drop_last()) == 0);
    }
}

/// The decimal text of an integer reads back as that integer: a `-` exactly for a
/// negative number, then decimal digits whose value is the number's magnitude, with no
/// leading zero (the only text that starts with `0` is `0` itself).
pub proof fn law_dec_text(n: int)
    ensures
        n < 0 ==> dec(n)[0] == '-' && dec(n).drop_first() == nat_digits((-n) as nat),
        ({
            let digits = if n < 0 { dec(n).drop_first() } else { dec(n) };
            &&& digits.len() > 0
            &&& all_digits(digits)
            &&& digits_value(digits) == if n < 0 { -n } else { n }
            &&& (digits[0] == '0' ==> digits.len() == 1)
        }),
        n >= 0 ==> dec(n).len() == 0 || dec(n)[0] != '-',
{
    let m: nat = if n < 0 { (-n) as nat } else { n as nat };
    lemma_nat_digits(m);
    if n < 0 {
        assert(dec(n).drop_first() =~= nat_digits(m));
    }
    if nat_digits(m)[0] == '0' {
        assert(m == 0);
    }
}

/// The indentation of level `depth` is exactly `2 * depth` spaces.
pub proof fn law_indent(depth: nat)
    ensures
        indent(depth).len() == 2 * depth,
        forall|i: int| 0 <= i < indent(depth).len() ==> indent(depth)[i] == ' ',
    decreases depth,
{
    reveal_strlit("  ");
    lemma_indent_spaces(depth);
    if depth > 0 {
        law_indent((depth - 1) as nat);
    }
}

/// The total length of the texts `items`.
pub open spec fn total_len(items: Seq<Seq<char>>) -> nat
    decreases items.len(),
{
    if items.len() == 0 {
        0
    } else {
        total_len(items.drop_last()) + items.last().len()
    }
}

proof fn lemma_comma_join_len(items: Seq<Seq<char>>)
    ensures
        items.len() > 0 ==> comma_join(items).len() == total_len(items) + 2 * (items.len() - 1),
        items.len() == 0 ==> comma_join(items).len() == 0,
    decreases items.len(),
{
    reveal_strlit(", ");
    if items.len() == 1 {
        assert(items.drop_last() =~= Seq::<Seq<char>>::empty());
        assert(total_len(items.drop_last()) == 0);
    } else if items.len() > 1 {
        lemma_comma_join_len(items.drop_last());
    }
}

/// A list of quoted entries keeps every entry and adds only the brackets and one `", "`
/// between neighbours: its length is that of all entries, plus 2, plus 2 per separator.
pub proof fn law_quoted_list_len(quoted: Seq<Seq<char>>)
    ensures
        quoted_list(quoted).len() == 2 + total_len(quoted) + if quoted.len() > 0 {
            2 * (quoted.len() - 1)
        } else {
            0
        },
        quoted_list(quoted)[0] == '[',
        quoted_list(quoted).last() == ']',
{
    reveal_strlit("[");
    reveal_strlit("]");
    lemma_comma_join_len(quoted);
    if quoted.len() == 0 {
        assert(total_len(quoted) == 0);
    }
}

} // verus!
