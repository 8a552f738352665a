//! The library's laws: determinism and dedup of the content id, injectivity
//! of the hash input, the serialization round trip, listing order, and space
//! isolation and revert — each proved from the contracts the modules state.

use vstd::prelude::*;

use crate::desc_director::store_create;
use crate::descriptor::{deserialize_spec, serialize_spec, DescView};
use crate::descriptor_facade::lines_of;
use crate::descriptor_tools::{desc_id_spec, hash_input, index_line_spec};
use crate::store_view::{
    active_data, active_space, space_data, store_revert, store_set_tmp, StoreView,
};
use crate::text::{
    append_line_spec, canon_spec, chomp_cr, find_char, lemma_find_char_at, lemma_find_char_none,
    lemma_find_char_props, lemma_strip_crlf_no_crlf, lemma_tail_after_prefix, line_or_empty,
    lines_spec, tail_after_line, trim_spec, wf_line,
};

verus! {

/// Determinism: the content id is a function of the four canonicalized
/// inputs alone — fields that normalize identically always yield the same
/// id, whatever raw texts they came from.
pub proof fn lemma_desc_id_deterministic(
    p1: Seq<char>,
    n1: Seq<char>,
    l1: Seq<char>,
    d1: Seq<char>,
    p2: Seq<char>,
    n2: Seq<char>,
    l2: Seq<char>,
    d2: Seq<char>,
)
    requires
        canon_spec(p1) == canon_spec(p2),
        canon_spec(n1) == canon_spec(n2),
        canon_spec(l1) == canon_spec(l2),
        trim_spec(d1) == trim_spec(d2),
    ensures
        desc_id_spec(p1, n1, l1, d1) == desc_id_spec(p2, n2, l2, d2),
{
    assert(hash_input(p1, n1, l1, d1) =~= hash_input(p2, n2, l2, d2));
}

/// Dedup: two creates whose fields normalize identically build the same
/// descriptor and the same id, and the second one writes no second blob —
/// the active space's blob map is unchanged by it.
pub proof fn lemma_create_dedup(
    v: StoreView,
    p1: Seq<char>,
    n1: Seq<char>,
    l1: Seq<char>,
    d1: Seq<char>,
    p2: Seq<char>,
    n2: Seq<char>,
    l2: Seq<char>,
    d2: Seq<char>,
)
    requires
        canon_spec(p1) == canon_spec(p2),
        canon_spec(n1) == canon_spec(n2),
        canon_spec(l1) == canon_spec(l2),
        trim_spec(d1) == trim_spec(d2),
    ensures
        crate::desc_director::created_desc_spec(p1, n1, l1, d1)
            == crate::desc_director::created_desc_spec(p2, n2, l2, d2),
        ({
            let c = crate::desc_director::created_desc_spec(p1, n1, l1, d1);
            let v1 = store_create(v, c);
            let v2 = store_create(v1, c);
            active_data(v2).blobs == active_data(v1).blobs
        }),
{
    lemma_desc_id_deterministic(p1, n1, l1, d1, p2, n2, l2, d2);
    let c1 = crate::desc_director::created_desc_spec(p1, n1, l1, d1);
    let c2 = crate::desc_director::created_desc_spec(p2, n2, l2, d2);
    assert(c1 =~= c2);
    let v1 = store_create(v, c1);
    let v2 = store_create(v1, c1);
    assert(active_space(v1) == active_space(v));
    assert(active_data(v1).blobs =~= active_data(v).blobs.insert(c1.desc_id, serialize_spec(c1)));
    assert(active_data(v2).blobs =~= active_data(v1).blobs);
}

/// One step of hash-input injectivity: texts joined by a line feed split
/// back apart, when the left parts hold no line feed of their own.
proof fn lemma_sep_concat_injective(a1: Seq<char>, b1: Seq<char>, a2: Seq<char>, b2: Seq<char>)
    requires
        forall|i: int| 0 <= i < a1.len() ==> a1[i] != '\n',
        forall|i: int| 0 <= i < a2.len() ==> a2[i] != '\n',
        a1 + seq!['\n'] + b1 == a2 + seq!['\n'] + b2,
    ensures
        a1 == a2,
        b1 == b2,
{
    let s = a1 + seq!['\n'] + b1;
    assert(s.len() == a1.len() + 1 + b1.len());
    assert(s.len() == a2.len() + 1 + b2.len());
    assert(forall|i: int| 0 <= i < a1.len() ==> s[i] == a1[i]);
    assert(forall|i: int| 0 <= i < a2.len() ==> s[i] == a2[i]);
    assert(s[a1.len() as int] == '\n');
    assert(s[a2.len() as int] == '\n');
    if a1.len() < a2.len() {
        assert(s[a1.len() as int] == a2[a1.len() as int]);
        assert(false);
    }
    if a2.len() < a1.len() {
        assert(s[a2.len() as int] == a1[a2.len() as int]);
        assert(false);
    }
    assert(a1 =~= a2);
    assert(forall|j: int| 0 <= j < b1.len() ==> s[a1.len() + 1 + j] == b1[j]);
    assert(forall|j: int| 0 <= j < b2.len() ==> s[a2.len() + 1 + j] == b2[j]);
    assert(b1 =~= b2);
}

/// Distinctness: the hash input is injective in the four canonicalized
/// fields — equal hash inputs force equal canonical fields, so changing any
/// one field changes the text the id is the digest of.
pub proof fn lemma_hash_input_injective(
    p1: Seq<char>,
    n1: Seq<char>,
    l1: Seq<char>,
    d1: Seq<char>,
    p2: Seq<char>,
    n2: Seq<char>,
    l2: Seq<char>,
    d2: Seq<char>,
)
    requires
        hash_input(p1, n1, l1, d1) == hash_input(p2, n2, l2, d2),
    ensures
        canon_spec(p1) == canon_spec(p2),
        canon_spec(n1) == canon_spec(n2),
        canon_spec(l1) == canon_spec(l2),
        trim_spec(d1) == trim_spec(d2),
{
    lemma_strip_crlf_no_crlf(trim_spec(p1));
    lemma_strip_crlf_no_crlf(trim_spec(p2));
    lemma_strip_crlf_no_crlf(trim_spec(n1));
    lemma_strip_crlf_no_crlf(trim_spec(n2));
    lemma_strip_crlf_no_crlf(trim_spec(l1));
    lemma_strip_crlf_no_crlf(trim_spec(l2));
    let r1 = canon_spec(n1) + seq!['\n'] + canon_spec(l1) + seq!['\n'] + trim_spec(d1);
    let r2 = canon_spec(n2) + seq!['\n'] + canon_spec(l2) + seq!['\n'] + trim_spec(d2);
    assert(hash_input(p1, n1, l1, d1) =~= canon_spec(p1) + seq!['\n'] + r1);
    assert(hash_input(p2, n2, l2, d2) =~= canon_spec(p2) + seq!['\n'] + r2);
    lemma_sep_concat_injective(canon_spec(p1), r1, canon_spec(p2), r2);
    let q1 = canon_spec(l1) + seq!['\n'] + trim_spec(d1);
    let q2 = canon_spec(l2) + seq!['\n'] + trim_spec(d2);
    assert(r1 =~= canon_spec(n1) + seq!['\n'] + q1);
    assert(r2 =~= canon_spec(n2) + seq!['\n'] + q2);
    lemma_sep_concat_injective(canon_spec(n1), q1, canon_spec(n2), q2);
    lemma_sep_concat_injective(canon_spec(l1), trim_spec(d1), canon_spec(l2), trim_spec(d2));
}

/// The lines of a clean text, a line feed, and a rest: the clean text first,
/// then the lines of the rest.
proof fn lemma_lines_prefix(a: Seq<char>, rest: Seq<char>)
    requires
        forall|i: int| 0 <= i < a.len() ==> a[i] != '\n' && a[i] != '\r',
    ensures
        lines_spec(a + seq!['\n'] + rest) == seq![a] + lines_spec(rest),
{
    let s = a + seq!['\n'] + rest;
    assert(forall|i: int| 0 <= i < a.len() ==> s[i] == a[i]);
    assert(s[a.len() as int] == '\n');
    lemma_find_char_at(s, '\n', a.len() as int);
    assert(s.take(a.len() as int) =~= a);
    assert(chomp_cr(a) == a);
    assert(s.skip(a.len() as int + 1) =~= rest);
    assert(lines_spec(s) =~= seq![a] + lines_spec(rest));
}

/// Round trip: a descriptor with canonical single-line fields and no id yet
/// comes back unchanged from its own serialization, whatever its
/// description holds — internal newlines included.
pub proof fn lemma_serialize_round_trip(d: DescView)
    requires
        d.desc_id == Seq::<char>::empty(),
        canon_spec(d.point) == d.point,
        canon_spec(d.name) == d.name,
        canon_spec(d.label) == d.label,
    ensures
        deserialize_spec(serialize_spec(d)) == d,
{
    lemma_strip_crlf_no_crlf(trim_spec(d.point));
    lemma_strip_crlf_no_crlf(trim_spec(d.name));
    lemma_strip_crlf_no_crlf(trim_spec(d.label));
    let s = serialize_spec(d);
    let tail2 = d.label + seq!['\n'] + d.description;
    let tail1 = d.name + seq!['\n'] + tail2;
    assert(s =~= d.point + seq!['\n'] + tail1);
    lemma_lines_prefix(d.point, tail1);
    lemma_lines_prefix(d.name, tail2);
    lemma_lines_prefix(d.label, d.description);
    let ls = lines_spec(s);
    assert(ls =~= seq![d.point, d.name, d.label] + lines_spec(d.description));
    assert(s.len() > 0);
    assert(ls.len() >= 3);
    assert(line_or_empty(ls, 0) == d.point);
    assert(line_or_empty(ls, 1) == d.name);
    assert(line_or_empty(ls, 2) == d.label);
    lemma_tail_after_prefix(d.point, tail1);
    lemma_tail_after_prefix(d.name, tail2);
    lemma_tail_after_prefix(d.label, d.description);
    assert(tail_after_line(tail_after_line(tail_after_line(s))) == d.description);
    assert(deserialize_spec(s) =~= d);
}

/// Listing order: appending one line to a line-oriented text extends its
/// line sequence by exactly that line, earlier lines staying in place.
pub proof fn lemma_append_line_order(idx: Seq<char>, line: Seq<char>)
    requires
        line.len() > 0,
        forall|i: int| 0 <= i < line.len() ==> line[i] != '\n',
        line.last() != '\r',
        idx.len() > 0 ==> idx.last() != '\n' && idx.last() != '\r',
    ensures
        lines_spec(append_line_spec(idx, line)) == lines_spec(idx).push(line),
        append_line_spec(idx, line).len() > 0,
        append_line_spec(idx, line).last() == line.last(),
    decreases idx.len(),
{
    lemma_find_char_props(idx, '\n');
    if idx.len() == 0 {
        lemma_find_char_none(line, '\n');
        assert(lines_spec(line) =~= seq![line]);
        assert(lines_spec(idx).push(line) =~= seq![line]);
    } else {
        let s = append_line_spec(idx, line);
        assert(s =~= idx + seq!['\n'] + line);
        let i = find_char(idx, '\n');
        if i < 0 {
            assert(lines_spec(idx) =~= seq![idx]);
            assert(forall|j: int| 0 <= j < idx.len() ==> s[j] == idx[j]);
            assert(s[idx.len() as int] == '\n');
            lemma_find_char_at(s, '\n', idx.len() as int);
            assert(s.take(idx.len() as int) =~= idx);
            assert(chomp_cr(idx) == idx);
            assert(s.skip(idx.len() as int + 1) =~= line);
            lemma_find_char_none(line, '\n');
            assert(lines_spec(line) =~= seq![line]);
            assert(lines_spec(s) =~= seq![idx, line]);
            assert(lines_spec(idx).push(line) =~= seq![idx, line]);
        } else {
            assert(forall|j: int| 0 <= j < idx.len() ==> s[j] == idx[j]);
            lemma_find_char_at(s, '\n', i);
            assert(s.take(i) =~= idx.take(i));
            let idx_rest = idx.skip(i + 1);
            assert(idx_rest.len() > 0 ==> idx_rest.last() == idx.last());
            if idx_rest.len() == 0 {
                assert(idx.last() == '\n');
                assert(false);
            }
            assert(s.skip(i + 1) =~= append_line_spec(idx_rest, line));
            lemma_append_line_order(idx_rest, line);
            assert(lines_spec(s) =~= seq![chomp_cr(idx.take(i))] + lines_spec(idx_rest).push(
                line,
            ));
            assert(lines_spec(idx) =~= seq![chomp_cr(idx.take(i))] + lines_spec(idx_rest));
            assert(lines_spec(s) =~= lines_spec(idx).push(line));
        }
    }
}

/// Listing order at the store: creating a descriptor appends exactly one
/// line to the active point index — what was listed stays, in order, and the
/// new descriptor's line comes last.
pub proof fn lemma_create_extends_listing(v: StoreView, d: DescView)
    requires
        forall|i: int|
            0 <= i < index_line_spec(d.point, d.desc_id).len() ==> index_line_spec(
                d.point,
                d.desc_id,
            )[i] != '\n',
        index_line_spec(d.point, d.desc_id).last() != '\r',
        lines_of(v).len() > 0 ==> active_data(v).point_index.len() > 0 && active_data(
            v,
        ).point_index.last() != '\n' && active_data(v).point_index.last() != '\r',
    ensures
        lines_of(store_create(v, d)) == lines_of(v).push(index_line_spec(d.point, d.desc_id)),
{
    let line = index_line_spec(d.point, d.desc_id);
    assert(line.len() > 0);
    let pi = active_data(v).point_index;
    assert(active_space(store_create(v, d)) == active_space(v));
    assert(active_data(store_create(v, d)).point_index == append_line_spec(pi, line));
    if pi.len() > 0 && lines_of(v).len() == 0 {
        assert(lines_spec(pi).len() == 0);
        assert(false) by {
            lemma_find_char_props(pi, '\n');
            if find_char(pi, '\n') < 0 || find_char(pi, '\n') >= pi.len() {
                assert(lines_spec(pi) =~= seq![pi]);
            }
        }
    }
    lemma_append_line_order(pi, line);
}

/// Healthy listings stay healthy: when every point-index line is well
/// formed and the index does not end in a line break, a create with clean
/// populated fields appends one well-formed line — so a store built by
/// creates never reports corruption, and its listing follows creation order.
pub proof fn lemma_create_keeps_listing_ok(v: StoreView, d: DescView)
    requires
        trim_spec(d.point) == d.point,
        forall|i: int| 0 <= i < d.point.len() ==> d.point[i] != '\n' && d.point[i] != '\r',
        forall|i: int| 0 <= i < d.desc_id.len() ==> d.desc_id[i] != '\n' && d.desc_id[i] != '\r',
        crate::descriptor_facade::all_wf_lines(lines_of(v)),
        active_data(v).point_index.len() > 0 ==> active_data(v).point_index.last() != '\n'
            && active_data(v).point_index.last() != '\r',
    ensures
        lines_of(store_create(v, d)) == lines_of(v).push(index_line_spec(d.point, d.desc_id)),
        crate::descriptor_facade::all_wf_lines(lines_of(store_create(v, d))),
        active_data(store_create(v, d)).point_index.len() > 0,
        active_data(store_create(v, d)).point_index.last() != '\n',
        active_data(store_create(v, d)).point_index.last() != '\r',
{
    let line = index_line_spec(d.point, d.desc_id);
    assert(line =~= d.point + seq![' '] + d.desc_id);
    assert(line[d.point.len() as int] == ' ');
    assert(forall|i: int| 0 <= i < d.point.len() ==> line[i] == d.point[i]);
    assert(forall|j: int|
        0 <= j < d.desc_id.len() ==> line[d.point.len() + 1 + j] == d.desc_id[j]);
    assert(forall|i: int| 0 <= i < line.len() ==> line[i] != '\n' && line[i] != '\r');
    assert(wf_line(line)) by {
        lemma_find_char_props(line, ' ');
    }
    assert(line.last() != '\r');
    if lines_of(v).len() > 0 && active_data(v).point_index.len() == 0 {
        assert(lines_spec(active_data(v).point_index).len() == 0);
    }
    lemma_create_extends_listing(v, d);
    let ls = lines_of(store_create(v, d));
    assert(forall|i: int| 0 <= i < ls.len() - 1 ==> ls[i] == lines_of(v)[i]);
    assert(ls.last() == line);
    assert(active_data(store_create(v, d)).point_index == append_line_spec(
        active_data(v).point_index,
        line,
    ));
    lemma_append_line_order(active_data(v).point_index, line);
}

/// Space isolation: a create touches only the active space; switching to a
/// different, nonempty space then shows that space's data exactly as it was
/// before the create.
pub proof fn lemma_space_isolation(v: StoreView, d: DescView, other: Seq<char>)
    requires
        other != active_space(v),
        other.len() > 0,
    ensures
        space_data(store_create(v, d), other) == space_data(v, other),
        active_space(store_set_tmp(store_create(v, d), other)) == other,
        active_data(store_set_tmp(store_create(v, d), other)) == space_data(v, other),
{
    let w = store_create(v, d);
    assert(space_data(w, other) == space_data(v, other));
    let u = store_set_tmp(w, other);
    assert(u.org_space == v.org_space);
    if other == v.org_space {
        assert(active_space(u) == other);
    }
    assert(space_data(u, other) == space_data(w, other));
}

/// Space revert: setting a temporary space and reverting leaves the original
/// space active again, with every space's data untouched.
pub proof fn lemma_space_revert(v: StoreView, sp: Seq<char>)
    ensures
        active_space(store_revert(store_set_tmp(v, sp))) == v.org_space,
        forall|s: Seq<char>|
            #[trigger] space_data(store_revert(store_set_tmp(v, sp)), s) == space_data(v, s),
{
}

} // verus!
