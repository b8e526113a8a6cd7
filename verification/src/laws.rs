//! Properties that hold across the library's operations.
use crate::api::{
    CloneActionView, CloneStageView, clone_image, clone_step, compose_yaml, env_blocks,
    mount_blocks, port_blocks, stopped_names,
};
use crate::client::{count_running, run_args, wslc};
use crate::inspect::{detail_of, first_or_self, slashes_from};
use crate::json::{JsonValue, json_get};
use crate::listing::{
    container_columns, container_row, container_table, image_columns, image_row, image_table,
    network_columns, network_row, network_table, volume_columns, volume_row, volume_table,
};
use crate::model::{
    ContainerDetailView, ContainerInfo, ContainerInfoView, ImageInfoView, MountInfoView,
    PortMappingView,
};
use crate::table::{
    Row, blank_line, body_rows, carriage_return, collect_rows, cut, line_bytes, line_spans,
    line_stop, newline, read_table, spans_from, starts_with_bytes,
};
use crate::text::{contains_seq, is_ws, occurs_at, spec_to_lowercase, trim, trim_end, trim_start};
use vstd::prelude::*;
use vstd::string::StringSliceAdditionalSpecFns;

verus! {

proof fn lemma_trim_start_head(s: Seq<char>)
    ensures
        trim_start(s).len() == 0 || !is_ws(trim_start(s)[0]),
    decreases s.len(),
{
    if s.len() > 0 && is_ws(s[0]) {
        lemma_trim_start_head(s.drop_first());
    }
}

proof fn lemma_trim_end_tail(s: Seq<char>)
    ensures
        trim_end(s).len() == 0 || !is_ws(trim_end(s).last()),
        trim_end(s).len() <= s.len(),
        trim_end(s) == s.subrange(0, trim_end(s).len() as int),
    decreases s.len(),
{
    if s.len() > 0 && is_ws(s.last()) {
        lemma_trim_end_tail(s.drop_last());
        assert(s.drop_last().subrange(0, trim_end(s).len() as int) =~= s.subrange(
            0,
            trim_end(s).len() as int,
        ));
    } else {
        assert(s.subrange(0, s.len() as int) =~= s);
    }
}

/// Trimming twice trims no more than trimming once.
pub proof fn law_trim_idempotent(s: Seq<char>)
    ensures
        trim(trim(s)) == trim(s),
{
    let u = trim_start(s);
    let v = trim_end(u);
    lemma_trim_start_head(s);
    lemma_trim_end_tail(u);
    if v.len() > 0 {
        assert(v[0] == u[0]);
        assert(trim_start(v) == v);
    } else {
        assert(trim_start(v) == v);
    }
    assert(trim_end(v) == v);
}

/// Every text field of a container record is trimmed.
pub open spec fn container_trimmed(c: ContainerInfoView) -> bool {
    &&& trim(c.id) == c.id
    &&& trim(c.name) == c.name
    &&& trim(c.image) == c.image
    &&& trim(c.created) == c.created
    &&& trim(c.status) == c.status
    &&& trim(c.ports) == c.ports
}

proof fn lemma_cut_trimmed(r: Seq<u8>, a: int, b: int)
    ensures
        cut(r, a, b) matches Some(x) ==> trim(x) == x,
{
    if let Some(x) = cut(r, a, b) {
        law_trim_idempotent(vstd::utf8::decode_utf8(r.subrange(a, b)));
    }
}

proof fn lemma_container_row_trimmed(r: Seq<u8>, c: crate::listing::ContainerColumns)
    ensures
        container_row(r, c) matches Row::Take(x) ==> container_trimmed(x),
{
    lemma_defaults_trimmed();
    lemma_cut_trimmed(r, c.id, c.names);
    lemma_cut_trimmed(r, c.names, c.image);
    lemma_cut_trimmed(r, c.names, r.len() as int);
    lemma_cut_trimmed(r, c.image, c.created);
    lemma_cut_trimmed(r, c.image, r.len() as int);
    lemma_cut_trimmed(r, c.created, c.status);
    lemma_cut_trimmed(r, c.status, c.ports);
    lemma_cut_trimmed(r, c.status, r.len() as int);
    lemma_cut_trimmed(r, c.ports, r.len() as int);
}

proof fn lemma_collect_all<T>(rows: Seq<Row<T>>, p: spec_fn(T) -> bool)
    requires
        forall|i: int| 0 <= i < rows.len() ==> (#[trigger] rows[i] matches Row::Take(x) ==> p(x)),
    ensures
        collect_rows(rows) matches Some(xs) ==> forall|j: int| 0 <= j < xs.len() ==> p(#[trigger] xs[j]),
    decreases rows.len(),
{
    if rows.len() > 0 {
        let init = rows.drop_last();
        assert forall|i: int| 0 <= i < init.len() implies (#[trigger] init[i] matches Row::Take(x) ==> p(x)) by {
            assert(init[i] == rows[i]);
        }
        lemma_collect_all(init, p);
        assert(rows.last() == rows[rows.len() - 1]);
    }
}

/// Every text field of every container that a listing yields is trimmed:
/// no field starts or ends with whitespace.
pub proof fn law_container_fields_trimmed(t: Seq<u8>)
    ensures
        container_table(t) matches Some(cs) ==> forall|j: int|
            0 <= j < cs.len() ==> container_trimmed(#[trigger] cs[j]),
{
    if line_spans(t).len() > 0 {
        let f = |r: Seq<u8>| container_row(r, container_columns(line_bytes(t, 0)));
        let rows = body_rows(t, f);
        assert forall|i: int| 0 <= i < rows.len() implies (#[trigger] rows[i] matches Row::Take(x)
            ==> container_trimmed(x)) by {
            lemma_container_row_trimmed(line_bytes(t, i + 1), container_columns(line_bytes(t, 0)));
        }
        lemma_collect_all(rows, |x: ContainerInfoView| container_trimmed(x));
        assert(container_table(t) == collect_rows(rows));
    }
}

proof fn lemma_trim_fixed(s: Seq<char>)
    requires
        s.len() == 0 || (!is_ws(s[0]) && !is_ws(s.last())),
    ensures
        trim(s) == s,
{
}

proof fn lemma_defaults_trimmed()
    ensures
        trim("-"@) == "-"@,
        trim("local"@) == "local"@,
        trim("bridge"@) == "bridge"@,
{
    reveal_strlit("-");
    reveal_strlit("local");
    reveal_strlit("bridge");
    lemma_trim_fixed("-"@);
    lemma_trim_fixed("local"@);
    lemma_trim_fixed("bridge"@);
}

/// Every text field of an image record is trimmed.
pub open spec fn image_trimmed(i: crate::model::ImageInfoView) -> bool {
    &&& trim(i.repository) == i.repository
    &&& trim(i.tag) == i.tag
    &&& trim(i.image_id) == i.image_id
    &&& trim(i.created) == i.created
    &&& trim(i.size) == i.size
}

/// Every text field of a volume record is trimmed.
pub open spec fn volume_trimmed(v: crate::model::VolumeInfoView) -> bool {
    &&& trim(v.name) == v.name
    &&& trim(v.driver) == v.driver
    &&& trim(v.mountpoint) == v.mountpoint
    &&& trim(v.created) == v.created
}

/// Every text field of a network record is trimmed.
pub open spec fn network_trimmed(n: crate::model::NetworkInfoView) -> bool {
    &&& trim(n.id) == n.id
    &&& trim(n.name) == n.name
    &&& trim(n.driver) == n.driver
    &&& trim(n.scope) == n.scope
}

/// Every text field of every image that a listing yields is trimmed.
pub proof fn law_image_fields_trimmed(t: Seq<u8>)
    ensures
        image_table(t) matches Some(is) ==> forall|j: int|
            0 <= j < is.len() ==> image_trimmed(#[trigger] is[j]),
{
    if line_spans(t).len() > 0 {
        let c = image_columns(line_bytes(t, 0));
        let f = |r: Seq<u8>| image_row(r, image_columns(line_bytes(t, 0)));
        let rows = body_rows(t, f);
        assert forall|i: int| 0 <= i < rows.len() implies (#[trigger] rows[i] matches Row::Take(x)
            ==> image_trimmed(x)) by {
            let r = line_bytes(t, i + 1);
            lemma_cut_trimmed(r, 0, c.tag);
            lemma_cut_trimmed(r, c.tag, c.id);
            lemma_cut_trimmed(r, c.id, c.created);
            lemma_cut_trimmed(r, c.created, c.size);
            lemma_cut_trimmed(r, c.size, r.len() as int);
        }
        lemma_collect_all(rows, |x: crate::model::ImageInfoView| image_trimmed(x));
        assert(image_table(t) == collect_rows(rows));
    }
}

/// Every text field of every volume that a listing yields is trimmed.
pub proof fn law_volume_fields_trimmed(t: Seq<u8>)
    ensures
        volume_table(t) matches Some(vs) ==> forall|j: int|
            0 <= j < vs.len() ==> volume_trimmed(#[trigger] vs[j]),
{
    lemma_defaults_trimmed();
    if line_spans(t).len() > 0 {
        let c = volume_columns(line_bytes(t, 0));
        let f = |r: Seq<u8>| volume_row(r, volume_columns(line_bytes(t, 0)));
        let rows = body_rows(t, f);
        assert forall|i: int| 0 <= i < rows.len() implies (#[trigger] rows[i] matches Row::Take(x)
            ==> volume_trimmed(x)) by {
            let r = line_bytes(t, i + 1);
            lemma_cut_trimmed(r, c.name, c.driver);
            lemma_cut_trimmed(r, c.driver, c.mountpoint);
            lemma_cut_trimmed(r, c.mountpoint, r.len() as int);
        }
        lemma_collect_all(rows, |x: crate::model::VolumeInfoView| volume_trimmed(x));
        assert(volume_table(t) == collect_rows(rows));
    }
}

/// Every text field of every network that a listing yields is trimmed.
pub proof fn law_network_fields_trimmed(t: Seq<u8>)
    ensures
        network_table(t) matches Some(ns) ==> forall|j: int|
            0 <= j < ns.len() ==> network_trimmed(#[trigger] ns[j]),
{
    lemma_defaults_trimmed();
    if line_spans(t).len() > 0 {
        let c = network_columns(line_bytes(t, 0));
        let f = |r: Seq<u8>| network_row(r, network_columns(line_bytes(t, 0)));
        let rows = body_rows(t, f);
        assert forall|i: int| 0 <= i < rows.len() implies (#[trigger] rows[i] matches Row::Take(x)
            ==> network_trimmed(x)) by {
            let r = line_bytes(t, i + 1);
            lemma_cut_trimmed(r, c.id, c.name);
            lemma_cut_trimmed(r, c.name, c.driver);
            lemma_cut_trimmed(r, c.name, r.len() as int);
            lemma_cut_trimmed(r, c.driver, c.scope);
            lemma_cut_trimmed(r, c.scope, r.len() as int);
        }
        lemma_collect_all(rows, |x: crate::model::NetworkInfoView| network_trimmed(x));
        assert(network_table(t) == collect_rows(rows));
    }
}

/// No more containers run than are listed.
pub proof fn law_running_within_listed(cs: Seq<ContainerInfoView>)
    ensures
        count_running(cs) <= cs.len(),
    decreases cs.len(),
{
    if cs.len() > 0 {
        law_running_within_listed(cs.drop_last());
    }
}

/// A container's name as read from inspection never starts with `/`.
pub proof fn law_inspected_name_unslashed(name: Seq<char>, doc: JsonValue)
    ensures
        detail_of(name, doc).name.len() == 0 || detail_of(name, doc).name[0] != '/',
{
    let raw = crate::json::json_str_or(crate::json::json_get(first_or_self(doc), "Name"@), name);
    lemma_slashes_stop(raw, 0);
}

proof fn lemma_slashes_stop(s: Seq<char>, i: int)
    requires
        0 <= i <= s.len(),
    ensures
        i <= slashes_from(s, i) <= s.len(),
        slashes_from(s, i) < s.len() ==> s[slashes_from(s, i)] != '/',
    decreases s.len() - i,
{
    if i < s.len() && s[i] == '/' {
        lemma_slashes_stop(s, i + 1);
    }
}

/// Inspecting an array whose first element is a single document reads the
/// same detail as inspecting that document alone.
pub proof fn law_inspect_array_first(name: Seq<char>, items: Vec<JsonValue>, doc: JsonValue)
    requires
        items@.len() > 0,
        items@[0] == doc,
        first_or_self(doc) == doc,
    ensures
        detail_of(name, JsonValue::Array(items)) == detail_of(name, doc),
{
}

/// Once the commit of a clone has succeeded, the temporary image is removed
/// before the clone finishes, whatever the run of the clone gave.
pub proof fn law_clone_removes_temp_image(
    name: Seq<char>,
    new_name: Seq<char>,
    port: Option<Seq<char>>,
    committed: Seq<char>,
    ran: Result<Seq<char>, Seq<char>>,
)
    ensures
        ({
            let (s1, a1) = clone_step(name, new_name, CloneStageView::Committing(port), Ok(committed));
            let (s2, a2) = clone_step(name, new_name, s1, ran);
            &&& a1 == CloneActionView::Execute(
                wslc(run_args(clone_image(name), Some(new_name), port, None, None, true, None)),
            )
            &&& a2 == CloneActionView::Execute(wslc(seq!["rmi"@, "-f"@, clone_image(name)]))
            &&& s2 is CleaningUp
        }),
{
}

/// A clone ends with the run's own outcome: the step after cleaning up
/// finishes with what the run of the clone gave, whatever the removal gave.
pub proof fn law_clone_reports_run_outcome(
    name: Seq<char>,
    new_name: Seq<char>,
    ran: Result<Seq<char>, Seq<char>>,
    removed: Result<Seq<char>, Seq<char>>,
)
    ensures
        ({
            let (s1, _) = clone_step(name, new_name, CloneStageView::Running, ran);
            let (s2, a2) = clone_step(name, new_name, s1, removed);
            &&& s2 is Done
            &&& a2 == CloneActionView::Finish(
                match ran {
                    Ok(_) => Ok(()),
                    Err(e) => Err(e),
                },
            )
        }),
{
}

/// What appending a newline adds to the line spans: an empty last line
/// where the text is empty or already ends with a newline, and nothing
/// otherwise (the final terminator of a text is optional).
pub open spec fn newline_extra(t: Seq<u8>) -> Seq<(int, int)> {
    if t.len() == 0 || t.last() == newline() {
        seq![(t.len() as int, t.len() as int)]
    } else {
        seq![]
    }
}

proof fn lemma_spans_push_newline(t: Seq<u8>, start: int, i: int)
    requires
        0 <= start <= i <= t.len(),
        (start == i) == (i == 0 || t[i - 1] == newline()),
        !(t.len() > 0 && t.last() == carriage_return()),
    ensures
        spans_from(t.push(newline()), start, i) == spans_from(t, start, i) + newline_extra(t),
    decreases t.len() - i,
{
    let t2 = t.push(newline());
    if i == t.len() {
        assert(t2[i] == newline());
        assert(spans_from(t2, i + 1, i + 1) == Seq::<(int, int)>::empty());
        if start < i {
            assert(t2[i - 1] == t[i - 1]);
            assert(line_stop(t2, start, i) == i);
            assert(spans_from(t2, start, i) =~= spans_from(t, start, i) + newline_extra(t));
        } else {
            assert(line_stop(t2, start, i) == i);
            assert(spans_from(t2, start, i) =~= spans_from(t, start, i) + newline_extra(t));
        }
    } else {
        assert(t2[i] == t[i]);
        if t[i] == newline() {
            lemma_spans_push_newline(t, i + 1, i + 1);
            if i > start {
                assert(t2[i - 1] == t[i - 1]);
            }
            assert(line_stop(t2, start, i) == line_stop(t, start, i));
            assert(spans_from(t2, start, i) =~= spans_from(t, start, i) + newline_extra(t));
        } else {
            lemma_spans_push_newline(t, start, i + 1);
        }
    }
}

/// The line spans of `t` with a newline appended.
pub proof fn law_line_spans_push_newline(t: Seq<u8>)
    requires
        !(t.len() > 0 && t.last() == carriage_return()),
    ensures
        line_spans(t.push(newline())) == line_spans(t) + newline_extra(t),
{
    lemma_spans_push_newline(t, 0, 0);
}

proof fn lemma_read_table_push_newline<T>(
    t: Seq<u8>,
    g: spec_fn(Seq<u8>, Seq<u8>) -> Row<T>,
)
    requires
        !(t.len() > 0 && t.last() == carriage_return()),
        forall|h: Seq<u8>| #[trigger] g(h, Seq::<u8>::empty()) == Row::<T>::Skip,
    ensures
        read_table(t.push(newline()), |r: Seq<u8>| g(line_bytes(t.push(newline()), 0), r))
            == read_table(t, |r: Seq<u8>| g(line_bytes(t, 0), r)),
{
    let t2 = t.push(newline());
    let f1 = |r: Seq<u8>| g(line_bytes(t2, 0), r);
    let f2 = |r: Seq<u8>| g(line_bytes(t, 0), r);
    law_line_spans_push_newline(t);
    crate::table::lemma_line_spans_bounds(t);
    let sp = line_spans(t);
    let sp2 = line_spans(t2);
    if sp.len() == 0 {
        if newline_extra(t).len() == 0 {
            assert(sp2.len() == 0);
        } else {
            assert(body_rows(t2, f1) =~= Seq::<Row<T>>::empty());
            assert(collect_rows(body_rows(t2, f1)) == Some(Seq::<T>::empty()));
        }
    } else {
        assert forall|k: int| 0 <= k < sp.len() implies #[trigger] line_bytes(t2, k) == line_bytes(t, k) by {
            assert(sp2[k] == sp[k]);
            assert(crate::table::span_ok(t, 0, sp[k]));
            assert(t2.subrange(sp[k].0, sp[k].1) =~= t.subrange(sp[k].0, sp[k].1));
        }
        assert(line_bytes(t2, 0) == line_bytes(t, 0));
        let rows = body_rows(t, f2);
        let rows2 = body_rows(t2, f1);
        if newline_extra(t).len() == 0 {
            assert(rows2 =~= rows);
        } else {
            let n = t.len() as int;
            assert(sp2[sp.len() as int] == (n, n));
            assert(line_bytes(t2, sp.len() as int) =~= Seq::<u8>::empty());
            assert(g(line_bytes(t, 0), Seq::<u8>::empty()) == Row::<T>::Skip);
            assert(rows2 =~= rows.push(Row::Skip));
            assert(rows2.drop_last() =~= rows);
        }
    }
}

/// Appending a newline to a container listing leaves its containers as they
/// were (unless the listing ends in a carriage return, which the newline
/// would turn into part of a line terminator).
pub proof fn law_container_table_trailing_newline(t: Seq<u8>)
    requires
        !(t.len() > 0 && t.last() == carriage_return()),
    ensures
        container_table(t.push(newline())) == container_table(t),
{
    let g = |h: Seq<u8>, r: Seq<u8>| container_row(r, container_columns(h));
    lemma_empty_line_blank();
    lemma_read_table_push_newline(t, g);
    let t2 = t.push(newline());
    assert(container_table(t) == read_table(t, |r: Seq<u8>| g(line_bytes(t, 0), r))) by {
        assert(body_rows(t, |r: Seq<u8>| container_row(r, container_columns(line_bytes(t, 0))))
            =~= body_rows(t, |r: Seq<u8>| g(line_bytes(t, 0), r)));
    }
    assert(container_table(t2) == read_table(t2, |r: Seq<u8>| g(line_bytes(t2, 0), r))) by {
        assert(body_rows(t2, |r: Seq<u8>| container_row(r, container_columns(line_bytes(t2, 0))))
            =~= body_rows(t2, |r: Seq<u8>| g(line_bytes(t2, 0), r)));
    }
}

/// Appending a newline to an image listing leaves its images as they were
/// (unless the listing ends in a carriage return).
pub proof fn law_image_trailing_newline(t: Seq<u8>)
    requires
        !(t.len() > 0 && t.last() == carriage_return()),
    ensures
        image_table(t.push(newline())) == image_table(t),
{
    let g = |h: Seq<u8>, r: Seq<u8>| image_row(r, image_columns(h));
    lemma_empty_line_blank();
    lemma_read_table_push_newline(t, g);
    let t2 = t.push(newline());
    assert(image_table(t) == read_table(t, |r: Seq<u8>| g(line_bytes(t, 0), r))) by {
        assert(body_rows(t, |r: Seq<u8>| image_row(r, image_columns(line_bytes(t, 0))))
            =~= body_rows(t, |r: Seq<u8>| g(line_bytes(t, 0), r)));
    }
    assert(image_table(t2) == read_table(t2, |r: Seq<u8>| g(line_bytes(t2, 0), r))) by {
        assert(body_rows(t2, |r: Seq<u8>| image_row(r, image_columns(line_bytes(t2, 0))))
            =~= body_rows(t2, |r: Seq<u8>| g(line_bytes(t2, 0), r)));
    }
}

/// Appending a newline to a volume listing leaves its volumes as they were
/// (unless the listing ends in a carriage return).
pub proof fn law_volume_trailing_newline(t: Seq<u8>)
    requires
        !(t.len() > 0 && t.last() == carriage_return()),
    ensures
        volume_table(t.push(newline())) == volume_table(t),
{
    let g = |h: Seq<u8>, r: Seq<u8>| volume_row(r, volume_columns(h));
    lemma_empty_line_blank();
    lemma_read_table_push_newline(t, g);
    let t2 = t.push(newline());
    assert(volume_table(t) == read_table(t, |r: Seq<u8>| g(line_bytes(t, 0), r))) by {
        assert(body_rows(t, |r: Seq<u8>| volume_row(r, volume_columns(line_bytes(t, 0))))
            =~= body_rows(t, |r: Seq<u8>| g(line_bytes(t, 0), r)));
    }
    assert(volume_table(t2) == read_table(t2, |r: Seq<u8>| g(line_bytes(t2, 0), r))) by {
        assert(body_rows(t2, |r: Seq<u8>| volume_row(r, volume_columns(line_bytes(t2, 0))))
            =~= body_rows(t2, |r: Seq<u8>| g(line_bytes(t2, 0), r)));
    }
}

/// Appending a newline to a network listing leaves its networks as they were
/// (unless the listing ends in a carriage return).
pub proof fn law_network_trailing_newline(t: Seq<u8>)
    requires
        !(t.len() > 0 && t.last() == carriage_return()),
    ensures
        network_table(t.push(newline())) == network_table(t),
{
    let g = |h: Seq<u8>, r: Seq<u8>| network_row(r, network_columns(h));
    lemma_empty_line_blank();
    lemma_read_table_push_newline(t, g);
    let t2 = t.push(newline());
    assert(network_table(t) == read_table(t, |r: Seq<u8>| g(line_bytes(t, 0), r))) by {
        assert(body_rows(t, |r: Seq<u8>| network_row(r, network_columns(line_bytes(t, 0))))
            =~= body_rows(t, |r: Seq<u8>| g(line_bytes(t, 0), r)));
    }
    assert(network_table(t2) == read_table(t2, |r: Seq<u8>| g(line_bytes(t2, 0), r))) by {
        assert(body_rows(t2, |r: Seq<u8>| network_row(r, network_columns(line_bytes(t2, 0))))
            =~= body_rows(t2, |r: Seq<u8>| g(line_bytes(t2, 0), r)));
    }
}

proof fn lemma_empty_line_blank()
    ensures
        blank_line(Seq::<u8>::empty()),
{
    assert(vstd::utf8::decode_utf8(Seq::<u8>::empty()) =~= Seq::<char>::empty());
    assert(trim_start(Seq::<char>::empty()) =~= Seq::<char>::empty());
}

// ---------------------------------------------------------------------------
// What the listings, the inspection, the removal of stopped containers and
// the compose export are for.

/// Whether the text `p` appears somewhere in `s`.
pub open spec fn mentions(s: Seq<char>, p: Seq<char>) -> bool {
    exists|i: int| 0 <= i && i + p.len() <= s.len() && #[trigger] s.subrange(i, i + p.len()) == p
}

proof fn lemma_mentions_contains(s: Seq<char>, p: Seq<char>)
    ensures
        mentions(s, p) == contains_seq(s, p),
{
    if mentions(s, p) {
        let i = choose|i: int|
            0 <= i && i + p.len() <= s.len() && #[trigger] s.subrange(i, i + p.len()) == p;
        assert(occurs_at(s, p, i));
    }
    if contains_seq(s, p) {
        let i = choose|i: int| #[trigger] occurs_at(s, p, i);
        assert(s.subrange(i, i + p.len()) == p);
    }
}

/// What running means for a listed container: its status, lower-cased,
/// mentions "running", or the status itself mentions "Up".
pub open spec fn reads_as_running(c: ContainerInfoView) -> bool {
    c.is_running == (mentions(spec_to_lowercase(c.status), "running"@) || mentions(c.status, "Up"@))
}

/// A listed container counts as running exactly when its status, lower-cased,
/// mentions "running" or its status mentions "Up": a container that is only
/// created, or has exited, does not.
pub proof fn law_container_running_status(t: Seq<u8>)
    ensures
        container_table(t) matches Some(cs) ==> forall|j: int|
            0 <= j < cs.len() ==> #[trigger] reads_as_running(cs[j]),
{
    if line_spans(t).len() > 0 {
        let f = |r: Seq<u8>| container_row(r, container_columns(line_bytes(t, 0)));
        let rows = body_rows(t, f);
        assert forall|i: int| 0 <= i < rows.len() implies (#[trigger] rows[i] matches Row::Take(x)
            ==> reads_as_running(x)) by {
            if let Row::Take(x) = rows[i] {
                lemma_mentions_contains(spec_to_lowercase(x.status), "running"@);
                lemma_mentions_contains(x.status, "Up"@);
            }
        }
        lemma_collect_all(rows, |x: ContainerInfoView| reads_as_running(x));
        assert(container_table(t) == collect_rows(rows));
    }
}

/// The lines of table `t` after its header.
pub open spec fn body_lines(t: Seq<u8>) -> Seq<Seq<u8>> {
    if line_spans(t).len() == 0 {
        seq![]
    } else {
        Seq::new((line_spans(t).len() - 1) as nat, |k: int| line_bytes(t, k + 1))
    }
}

/// A line of the image listing that describes an image: it is not blank, is
/// not a repeated header, and reaches the SIZE column at `size`.
pub open spec fn image_line(r: Seq<u8>, size: int) -> bool {
    !blank_line(r) && !starts_with_bytes(r, "REPOSITORY".spec_bytes()) && r.len() >= size
}

proof fn lemma_collect_count<T>(rows: Seq<Row<T>>)
    ensures
        collect_rows(rows) matches Some(xs) ==> xs.len() == rows.filter(
            |r: Row<T>| !(r is Skip),
        ).len(),
    decreases rows.len(),
{
    reveal(Seq::filter);
    if rows.len() > 0 {
        lemma_collect_count(rows.drop_last());
    }
}

proof fn lemma_filter_len_match<A, B>(
    a: Seq<A>,
    b: Seq<B>,
    p: spec_fn(A) -> bool,
    q: spec_fn(B) -> bool,
)
    requires
        a.len() == b.len(),
        forall|i: int| 0 <= i < a.len() ==> p(#[trigger] a[i]) == q(b[i]),
    ensures
        a.filter(p).len() == b.filter(q).len(),
    decreases a.len(),
{
    reveal(Seq::filter);
    if a.len() > 0 {
        let a0 = a.drop_last();
        let b0 = b.drop_last();
        assert forall|i: int| 0 <= i < a0.len() implies p(#[trigger] a0[i]) == q(b0[i]) by {
            assert(a0[i] == a[i]);
            assert(b0[i] == b[i]);
        }
        lemma_filter_len_match(a0, b0, p, q);
        assert(p(a[a.len() - 1]) == q(b[b.len() - 1]));
    }
}

/// Every line of the image listing that describes an image gives one image,
/// whatever its repository reads (`<none>` included): a listing yields as many
/// images as it has such lines.
pub proof fn law_image_count(t: Seq<u8>)
    ensures
        image_table(t) matches Some(imgs) ==> imgs.len() == body_lines(t).filter(
            |r: Seq<u8>| image_line(r, image_columns(line_bytes(t, 0)).size),
        ).len(),
{
    reveal(Seq::filter);
    if line_spans(t).len() > 0 {
        let c = image_columns(line_bytes(t, 0));
        let f = |r: Seq<u8>| image_row(r, c);
        let rows = body_rows(t, f);
        let lines = body_lines(t);
        lemma_collect_count(rows);
        assert forall|i: int| 0 <= i < rows.len() implies (|r: Row<ImageInfoView>| !(r is Skip))(
            #[trigger] rows[i],
        ) == (|r: Seq<u8>| image_line(r, c.size))(lines[i]) by {
            assert(rows[i] == image_row(lines[i], c));
        }
        lemma_filter_len_match(
            rows,
            lines,
            |r: Row<ImageInfoView>| !(r is Skip),
            |r: Seq<u8>| image_line(r, c.size),
        );
        assert(image_table(t) == collect_rows(rows));
    } else {
        assert(body_lines(t) =~= Seq::<Seq<u8>>::empty());
    }
}

/// The `State.StartedAt` member of an inspect document.
pub open spec fn started_at(doc: JsonValue) -> JsonValue {
    json_get(json_get(first_or_self(doc), "State"@), "StartedAt"@)
}

/// An inspected container's start time is its `State.StartedAt` where that
/// is a string, and "-" only where it is missing or not a string, whether the
/// container runs or not.
pub proof fn law_inspect_started(name: Seq<char>, doc: JsonValue)
    ensures
        started_at(doc) matches JsonValue::Str(s) ==> detail_of(name, doc).started == s@,
        !(started_at(doc) is Str) ==> detail_of(name, doc).started == "-"@,
{
}

/// The containers of a listing that a removal of all stopped containers
/// removes are exactly its stopped containers, in listing order, by name:
/// every container that is not running is among them, and there are as many
/// names as stopped containers.
pub proof fn law_stopped_names(cs: Seq<ContainerInfo>)
    ensures
        stopped_names(cs) == cs.filter(|c: ContainerInfo| !c.is_running).map_values(
            |c: ContainerInfo| c.name@,
        ),
        forall|k: int|
            0 <= k < cs.len() && !cs[k].is_running ==> stopped_names(cs).contains(
                #[trigger] cs[k].name@,
            ),
        stopped_names(cs).len() == cs.filter(|c: ContainerInfo| !c.is_running).len(),
{
    lemma_stopped_filter(cs);
    let st = cs.filter(|c: ContainerInfo| !c.is_running);
    assert forall|k: int|
        0 <= k < cs.len() && !cs[k].is_running implies stopped_names(cs).contains(
            #[trigger] cs[k].name@,
        ) by {
        cs.lemma_filter_contains(|c: ContainerInfo| !c.is_running, k);
        let j = choose|j: int| 0 <= j < st.len() && st[j] == cs[k];
        assert(stopped_names(cs)[j] == cs[k].name@);
    }
}

proof fn lemma_stopped_filter(cs: Seq<ContainerInfo>)
    ensures
        stopped_names(cs) == cs.filter(|c: ContainerInfo| !c.is_running).map_values(
            |c: ContainerInfo| c.name@,
        ),
    decreases cs.len(),
{
    reveal(Seq::filter);
    if cs.len() > 0 {
        lemma_stopped_filter(cs.drop_last());
        let st = cs.drop_last().filter(|c: ContainerInfo| !c.is_running);
        st.lemma_push_map_commute(|c: ContainerInfo| c.name@, cs.last());
    } else {
        assert(cs.filter(|c: ContainerInfo| !c.is_running).map_values(|c: ContainerInfo| c.name@)
            =~= seq![]);
    }
}

/// The `environment` entry of a compose file for variable `v`.
pub open spec fn env_entry(v: Seq<char>) -> Seq<char> {
    "    environment:\n      - "@ + v + "\n"@
}

/// The `ports` entry of a compose file for port `p`.
pub open spec fn port_entry(p: PortMappingView) -> Seq<char> {
    "    ports:\n      - \""@ + p.host_port + ":"@ + p.container_port + "\"\n"@
}

/// The `volumes` entry of a compose file for mount `m`.
pub open spec fn mount_entry(m: MountInfoView) -> Seq<char> {
    "    volumes:\n      - \""@ + m.source + ":"@ + m.destination + "\"\n"@
}

/// `d` without ports, variables and mounts.
pub open spec fn bare_detail(d: ContainerDetailView) -> ContainerDetailView {
    ContainerDetailView {
        id: d.id,
        name: d.name,
        image: d.image,
        status: d.status,
        created: d.created,
        started: d.started,
        ports: seq![],
        env: seq![],
        mounts: seq![],
        cmd: d.cmd,
    }
}

proof fn lemma_env_flat(es: Seq<Seq<char>>)
    ensures
        env_blocks(es) == es.map_values(|v: Seq<char>| env_entry(v)).flatten(),
    decreases es.len(),
{
    let m = es.map_values(|v: Seq<char>| env_entry(v));
    m.lemma_flatten_and_flatten_alt_are_equivalent();
    if es.len() > 0 {
        lemma_env_flat(es.drop_last());
        let m0 = es.drop_last().map_values(|v: Seq<char>| env_entry(v));
        m0.lemma_flatten_and_flatten_alt_are_equivalent();
        assert(m.drop_last() =~= m0);
        assert(env_blocks(es) =~= env_blocks(es.drop_last()) + env_entry(es.last()));
    } else {
        assert(m =~= Seq::<Seq<char>>::empty());
    }
}

proof fn lemma_port_flat(ps: Seq<PortMappingView>)
    ensures
        port_blocks(ps) == ps.map_values(|p: PortMappingView| port_entry(p)).flatten(),
    decreases ps.len(),
{
    let m = ps.map_values(|p: PortMappingView| port_entry(p));
    m.lemma_flatten_and_flatten_alt_are_equivalent();
    if ps.len() > 0 {
        lemma_port_flat(ps.drop_last());
        let m0 = ps.drop_last().map_values(|p: PortMappingView| port_entry(p));
        m0.lemma_flatten_and_flatten_alt_are_equivalent();
        assert(m.drop_last() =~= m0);
        assert(port_blocks(ps) =~= port_blocks(ps.drop_last()) + port_entry(ps.last()));
    } else {
        assert(m =~= Seq::<Seq<char>>::empty());
    }
}

proof fn lemma_mount_flat(ms: Seq<MountInfoView>)
    ensures
        mount_blocks(ms) == ms.map_values(|m: MountInfoView| mount_entry(m)).flatten(),
    decreases ms.len(),
{
    let m = ms.map_values(|m: MountInfoView| mount_entry(m));
    m.lemma_flatten_and_flatten_alt_are_equivalent();
    if ms.len() > 0 {
        lemma_mount_flat(ms.drop_last());
        let m0 = ms.drop_last().map_values(|m: MountInfoView| mount_entry(m));
        m0.lemma_flatten_and_flatten_alt_are_equivalent();
        assert(m.drop_last() =~= m0);
        assert(mount_blocks(ms) =~= mount_blocks(ms.drop_last()) + mount_entry(ms.last()));
    } else {
        assert(m =~= Seq::<Seq<char>>::empty());
    }
}

/// The compose file of a container is what its image and command give,
/// followed by one `ports` entry per port, then one `environment` entry per
/// variable, then one `volumes` entry per mount, each list in its order.
pub proof fn law_compose_entries(name: Seq<char>, d: ContainerDetailView)
    ensures
        compose_yaml(name, d) == compose_yaml(name, bare_detail(d)) + d.ports.map_values(
            |p: PortMappingView| port_entry(p),
        ).flatten() + d.env.map_values(|v: Seq<char>| env_entry(v)).flatten()
            + d.mounts.map_values(|m: MountInfoView| mount_entry(m)).flatten(),
{
    lemma_port_flat(d.ports);
    lemma_env_flat(d.env);
    lemma_mount_flat(d.mounts);
    let b = bare_detail(d);
    assert(port_blocks(b.ports) =~= seq![]);
    assert(env_blocks(b.env) =~= seq![]);
    assert(mount_blocks(b.mounts) =~= seq![]);
    assert(compose_yaml(name, d) =~= compose_yaml(name, b) + port_blocks(d.ports) + env_blocks(
        d.env,
    ) + mount_blocks(d.mounts));
}

/// Adding a variable to a container without mounts adds exactly its
/// `environment` entry at the end of the compose file.
pub proof fn law_compose_env_push(name: Seq<char>, d: ContainerDetailView, v: Seq<char>)
    requires
        d.mounts.len() == 0,
    ensures
        compose_yaml(name, ContainerDetailView { env: d.env.push(v), ..d }) == compose_yaml(
            name,
            d,
        ) + env_entry(v),
{
    let d2 = ContainerDetailView { env: d.env.push(v), ..d };
    assert(mount_blocks(d.mounts) =~= seq![]);
    assert(d2.env.drop_last() =~= d.env);
    assert(env_blocks(d2.env) =~= env_blocks(d.env) + env_entry(v));
    assert(compose_yaml(name, d2) =~= compose_yaml(name, d) + env_entry(v));
}

} // verus!
