use vstd::prelude::*;

use crate::chunks::{
    body_of, code_prompt, extract_docs, extract_from, kind_of, scan, step, Capture, CaptureKind,
    CaptureRoles, DocumentView, MatchScan,
};
use crate::text::{join, text_at};

verus! {

/// Scanning captures among which at most the one at `ki` is an item capture, at
/// most the one at `kn` a name capture, and none a context capture.
proof fn lemma_scan_item_and_name(
    content: Seq<char>,
    roles: CaptureRoles,
    caps: Seq<Capture>,
    consumed: Seq<(usize, usize)>,
    ki: int,
    kn: int,
)
    requires
        0 <= ki,
        0 <= kn,
        forall|j: int|
            0 <= j < caps.len() ==> ((kind_of(#[trigger] caps[j], roles) == CaptureKind::Item) == (j
                == ki)) && ((kind_of(caps[j], roles) == CaptureKind::Name) == (j == kn))
                && kind_of(caps[j], roles) != CaptureKind::Context,
        kn < caps.len() ==> !consumed.contains((caps[kn].start, caps[kn].end)) && text_at(
            content,
            caps[kn].start as int,
            caps[kn].end as int,
        ) is Some,
    ensures
        ({
            let st = scan(content, roles, caps, consumed);
            &&& st.contexts.len() == 0
            &&& st.item == if ki < caps.len() {
                Some((text_at(content, caps[ki].start as int, caps[ki].end as int), caps[ki].start, caps[ki].end))
            } else {
                None
            }
            &&& st.names == if kn < caps.len() {
                seq![text_at(content, caps[kn].start as int, caps[kn].end as int)->0]
            } else {
                Seq::<Seq<char>>::empty()
            }
            &&& st.consumed == if kn < caps.len() {
                consumed.push((caps[kn].start, caps[kn].end))
            } else {
                consumed
            }
        }),
    decreases caps.len(),
{
    if caps.len() > 0 {
        let prefix = caps.drop_last();
        assert forall|j: int| 0 <= j < prefix.len() implies ((kind_of(#[trigger] prefix[j], roles)
            == CaptureKind::Item) == (j == ki)) && ((kind_of(prefix[j], roles) == CaptureKind::Name)
            == (j == kn)) && kind_of(prefix[j], roles) != CaptureKind::Context by {
            assert(prefix[j] == caps[j]);
        }
        if kn < prefix.len() {
            assert(prefix[kn] == caps[kn]);
        }
        if ki < prefix.len() {
            assert(prefix[ki] == caps[ki]);
        }
        lemma_scan_item_and_name(content, roles, prefix, consumed, ki, kn);
        let last = caps[caps.len() - 1];
        assert(caps.last() == last);
        assert(kind_of(last, roles) != CaptureKind::Context);
    }
}

/// A match with exactly one item capture and one name capture, in either order,
/// among other captures of no role and with no context capture, yields exactly one
/// chunk after those of the matches before it, provided its name range is not yet
/// consumed: the chunk's range is the item's byte range, its name the name's text,
/// and its prompt holds the item text verbatim.
pub proof fn lemma_item_and_name(
    path: Seq<char>,
    label: Seq<char>,
    content: Seq<char>,
    roles: CaptureRoles,
    before: Seq<Seq<Capture>>,
    m: Seq<Capture>,
    ki: int,
    kn: int,
)
    requires
        0 <= ki < m.len(),
        0 <= kn < m.len(),
        forall|j: int|
            0 <= j < m.len() ==> ((kind_of(#[trigger] m[j], roles) == CaptureKind::Item) == (j
                == ki)) && ((kind_of(m[j], roles) == CaptureKind::Name) == (j == kn))
                && kind_of(m[j], roles) != CaptureKind::Context,
        text_at(content, m[ki].start as int, m[ki].end as int) is Some,
        text_at(content, m[kn].start as int, m[kn].end as int) is Some,
        !extract_from(path, label, content, roles, before).1.contains((m[kn].start, m[kn].end)),
    ensures
        extract_docs(path, label, content, roles, before.push(m)) == extract_docs(
            path,
            label,
            content,
            roles,
            before,
        ).push(
            DocumentView {
                name: text_at(content, m[kn].start as int, m[kn].end as int)->0,
                start: m[ki].start,
                end: m[ki].end,
                content: code_prompt(
                    path,
                    label,
                    text_at(content, m[ki].start as int, m[ki].end as int)->0,
                ),
            },
        ),
{
    let ms = before.push(m);
    assert(ms.drop_last() =~= before);
    let ex = extract_from(path, label, content, roles, before);
    lemma_scan_item_and_name(content, roles, m, ex.1, ki, kn);
    let st = scan(content, roles, m, ex.1);
    assert(join(st.names, " "@) == st.names[0]);
    assert(extract_docs(path, label, content, roles, ms) =~= ex.0.push(
        DocumentView {
            name: text_at(content, m[kn].start as int, m[kn].end as int)->0,
            start: m[ki].start,
            end: m[ki].end,
            content: code_prompt(path, label, text_at(content, m[ki].start as int, m[ki].end as int)->0),
        },
    ));
}

/// With one context text, a chunk's body is that text, a newline, then the item text.
pub proof fn lemma_context_body(context: Seq<char>, item: Seq<char>)
    ensures
        body_of(seq![context], item) == context + "\n"@ + item,
{
    assert(join(seq![context], "\n"@) == context);
}

/// A step never forgets a consumed name range.
proof fn lemma_step_keeps(content: Seq<char>, roles: CaptureRoles, st: MatchScan, c: Capture)
    ensures
        forall|x: (usize, usize)|
            st.consumed.contains(x) ==> #[trigger] step(content, roles, st, c).consumed.contains(x),
{
    assert forall|x: (usize, usize)| st.consumed.contains(x) implies #[trigger] step(
        content,
        roles,
        st,
        c,
    ).consumed.contains(x) by {
        let i = choose|i: int| 0 <= i < st.consumed.len() && st.consumed[i] == x;
        assert(st.consumed.push((c.start, c.end))[i] == x);
    }
}

/// Scanning a match never forgets a consumed name range.
proof fn lemma_scan_keeps(
    content: Seq<char>,
    roles: CaptureRoles,
    caps: Seq<Capture>,
    consumed: Seq<(usize, usize)>,
)
    ensures
        forall|x: (usize, usize)|
            consumed.contains(x) ==> #[trigger] scan(content, roles, caps, consumed).consumed.contains(x),
    decreases caps.len(),
{
    if caps.len() > 0 {
        lemma_scan_keeps(content, roles, caps.drop_last(), consumed);
        lemma_step_keeps(content, roles, scan(content, roles, caps.drop_last(), consumed), caps.last());
    }
}

/// After a match is scanned, the range of each of its name captures is consumed.
proof fn lemma_scan_records_name(
    content: Seq<char>,
    roles: CaptureRoles,
    caps: Seq<Capture>,
    consumed: Seq<(usize, usize)>,
    k: int,
)
    requires
        0 <= k < caps.len(),
        kind_of(caps[k], roles) == CaptureKind::Name,
    ensures
        scan(content, roles, caps, consumed).consumed.contains((caps[k].start, caps[k].end)),
    decreases caps.len(),
{
    let prefix = caps.drop_last();
    let st = scan(content, roles, prefix, consumed);
    let r = (caps[k].start, caps[k].end);
    if k == caps.len() - 1 {
        if !st.consumed.contains(r) {
            assert(st.consumed.push(r)[st.consumed.len() as int] == r);
        }
    } else {
        assert(prefix[k] == caps[k]);
        lemma_scan_records_name(content, roles, prefix, consumed, k);
        lemma_step_keeps(content, roles, st, caps.last());
    }
}

/// Extracting more matches never forgets a consumed name range.
proof fn lemma_extract_keeps(
    path: Seq<char>,
    label: Seq<char>,
    content: Seq<char>,
    roles: CaptureRoles,
    ms: Seq<Seq<Capture>>,
    more: Seq<Seq<Capture>>,
)
    ensures
        forall|x: (usize, usize)|
            extract_from(path, label, content, roles, ms).1.contains(x) ==> #[trigger] extract_from(
                path,
                label,
                content,
                roles,
                ms + more,
            ).1.contains(x),
    decreases more.len(),
{
    if more.len() == 0 {
        assert(ms + more =~= ms);
    } else {
        let all = ms + more;
        assert(all.drop_last() =~= ms + more.drop_last());
        lemma_extract_keeps(path, label, content, roles, ms, more.drop_last());
        let prev = extract_from(path, label, content, roles, all.drop_last());
        lemma_scan_keeps(content, roles, all.last(), prev.1);
    }
}

/// A match whose name captures all lie on consumed ranges gathers no name.
proof fn lemma_scan_no_fresh_names(
    content: Seq<char>,
    roles: CaptureRoles,
    caps: Seq<Capture>,
    consumed: Seq<(usize, usize)>,
)
    requires
        forall|j: int|
            0 <= j < caps.len() && kind_of(#[trigger] caps[j], roles) == CaptureKind::Name
                ==> consumed.contains((caps[j].start, caps[j].end)),
    ensures
        scan(content, roles, caps, consumed).names.len() == 0,
    decreases caps.len(),
{
    if caps.len() > 0 {
        let prefix = caps.drop_last();
        assert forall|j: int|
            0 <= j < prefix.len() && kind_of(#[trigger] prefix[j], roles) == CaptureKind::Name
                implies consumed.contains((prefix[j].start, prefix[j].end)) by {
            assert(prefix[j] == caps[j]);
        }
        lemma_scan_no_fresh_names(content, roles, prefix, consumed);
        lemma_scan_keeps(content, roles, prefix, consumed);
        assert(caps.last() == caps[caps.len() - 1]);
    }
}

/// Once a match has a name capture at some byte range, that range is consumed for
/// the rest of the file: a later match whose name captures all lie on it, however
/// many matches come between, gathers no name and yields no chunk. The name is
/// thus attributed to the match met first.
pub proof fn lemma_shared_name_first_wins(
    path: Seq<char>,
    label: Seq<char>,
    content: Seq<char>,
    roles: CaptureRoles,
    before: Seq<Seq<Capture>>,
    first: Seq<Capture>,
    k: int,
    between: Seq<Seq<Capture>>,
    later: Seq<Capture>,
)
    requires
        0 <= k < first.len(),
        kind_of(first[k], roles) == CaptureKind::Name,
        forall|j: int|
            0 <= j < later.len() && kind_of(#[trigger] later[j], roles) == CaptureKind::Name
                ==> later[j].start == first[k].start && later[j].end == first[k].end,
    ensures
        extract_docs(path, label, content, roles, (before.push(first) + between).push(later))
            == extract_docs(path, label, content, roles, before.push(first) + between),
{
    let head = before.push(first);
    let ms = head + between;
    let r = (first[k].start, first[k].end);
    assert(head.drop_last() =~= before);
    let pre = extract_from(path, label, content, roles, before);
    lemma_scan_records_name(content, roles, first, pre.1, k);
    lemma_extract_keeps(path, label, content, roles, head, between);
    let ex = extract_from(path, label, content, roles, ms);
    assert(ex.1.contains(r));
    lemma_scan_no_fresh_names(content, roles, later, ex.1);
    let all = ms.push(later);
    assert(all.drop_last() =~= ms);
    assert(extract_docs(path, label, content, roles, all) =~= ex.0);
}

/// Scanning captures none of which is a name capture gathers no name and
/// consumes no name range.
pub proof fn lemma_scan_without_names(
    content: Seq<char>,
    roles: CaptureRoles,
    caps: Seq<Capture>,
    consumed: Seq<(usize, usize)>,
)
    requires
        forall|i: int| 0 <= i < caps.len() ==> kind_of(#[trigger] caps[i], roles) != CaptureKind::Name,
    ensures
        scan(content, roles, caps, consumed).names.len() == 0,
        scan(content, roles, caps, consumed).consumed == consumed,
    decreases caps.len(),
{
    if caps.len() > 0 {
        let rest = caps.drop_last();
        assert forall|i: int| 0 <= i < rest.len() implies kind_of(#[trigger] rest[i], roles)
            != CaptureKind::Name by {
            assert(rest[i] == caps[i]);
        }
        lemma_scan_without_names(content, roles, rest, consumed);
        assert(kind_of(caps[caps.len() - 1], roles) != CaptureKind::Name);
    }
}

/// A match with no name capture yields no chunk and consumes nothing, wherever it
/// stands among the matches: the chunks are those of the other matches alone, even
/// when it has a valid item capture.
pub proof fn lemma_nameless_match_dropped(
    path: Seq<char>,
    label: Seq<char>,
    content: Seq<char>,
    roles: CaptureRoles,
    before: Seq<Seq<Capture>>,
    m: Seq<Capture>,
    after: Seq<Seq<Capture>>,
)
    requires
        forall|i: int| 0 <= i < m.len() ==> kind_of(#[trigger] m[i], roles) != CaptureKind::Name,
    ensures
        extract_from(path, label, content, roles, before.push(m) + after) == extract_from(
            path,
            label,
            content,
            roles,
            before + after,
        ),
        extract_docs(path, label, content, roles, before.push(m) + after) == extract_docs(
            path,
            label,
            content,
            roles,
            before + after,
        ),
    decreases after.len(),
{
    let a = before.push(m) + after;
    let b = before + after;
    if after.len() == 0 {
        assert(a =~= before.push(m));
        assert(b =~= before);
        assert(a.drop_last() =~= before);
        let ex = extract_from(path, label, content, roles, before);
        lemma_scan_without_names(content, roles, m, ex.1);
        assert(extract_from(path, label, content, roles, a).0 =~= ex.0);
    } else {
        assert(a.drop_last() =~= before.push(m) + after.drop_last());
        assert(b.drop_last() =~= before + after.drop_last());
        assert(a.last() == b.last());
        lemma_nameless_match_dropped(path, label, content, roles, before, m, after.drop_last());
    }
}

} // verus!
