//! What holds of the supervision of containers.
use vstd::prelude::*;

use crate::store::LogView;
use crate::stream::{
    AttachmentView, DescView, RequestView, SourceEventView, SummaryView, WatchEvent, WatchStep,
    MAX_CHUNK_BYTES,
};

verus! {

/// Whether the task that reads a container has exited is told by the first
/// attachment to it.
proof fn lemma_finished_first(attached: Seq<(Seq<char>, bool)>, id: Seq<char>, i: int)
    requires
        0 <= i < attached.len(),
        attached[i].0 == id,
        forall|j: int| 0 <= j < i ==> (#[trigger] attached[j]).0 != id,
    ensures
        crate::stream::finished(attached, id) == Some(attached[i].1),
    decreases i,
{
    if i > 0 {
        assert(attached[0].0 != id);
        let rest = attached.drop_first();
        assert(rest[i - 1] == attached[i]);
        assert forall|j: int| 0 <= j < i - 1 implies (#[trigger] rest[j]).0 != id by {
            assert(rest[j] == attached[j + 1]);
        }
        lemma_finished_first(rest, id, i - 1);
    }
}

/// There is nothing to tell of a container without an attachment.
proof fn lemma_finished_none(attached: Seq<(Seq<char>, bool)>, id: Seq<char>)
    requires
        forall|j: int| 0 <= j < attached.len() ==> (#[trigger] attached[j]).0 != id,
    ensures
        crate::stream::finished(attached, id) is None,
    decreases attached.len(),
{
    if attached.len() > 0 {
        assert(attached[0].0 != id);
        let rest = attached.drop_first();
        assert forall|j: int| 0 <= j < rest.len() implies (#[trigger] rest[j]).0 != id by {
            assert(rest[j] == attached[j + 1]);
        }
        lemma_finished_none(rest, id);
    }
}

/// Where the attachment to a container is, is the first place with its ID.
proof fn lemma_attachment_to(attached: Seq<AttachmentView>, id: Seq<char>)
    ensures
        match crate::stream::attachment_to(attached, id) {
            Some(i) => {
                &&& 0 <= i < attached.len()
                &&& attached[i].id == id
                &&& forall|j: int| 0 <= j < i ==> (#[trigger] attached[j]).id != id
            },
            None => forall|j: int| 0 <= j < attached.len() ==> (#[trigger] attached[j]).id != id,
        },
    decreases attached.len(),
{
    if attached.len() > 0 {
        let init = attached.drop_last();
        lemma_attachment_to(init, id);
        assert forall|j: int| 0 <= j < init.len() implies init[j] == #[trigger] attached[j] by {}
    }
}

/// What is told of a container is told by its attachment.
proof fn lemma_finished(attached: Seq<AttachmentView>, id: Seq<char>)
    ensures
        crate::stream::finished(crate::stream::liveness(attached), id)
            == match crate::stream::attachment_to(attached, id) {
            Some(i) => Some(attached[i].finished),
            None => None,
        },
{
    let told = crate::stream::liveness(attached);
    lemma_attachment_to(attached, id);
    match crate::stream::attachment_to(attached, id) {
        Some(i) => {
            assert forall|j: int| 0 <= j < i implies (#[trigger] told[j]).0 != id by {
                assert(attached[j].id != id);
            }
            lemma_finished_first(told, id, i);
        },
        None => {
            assert forall|j: int| 0 <= j < told.len() implies (#[trigger] told[j]).0 != id by {
                assert(attached[j].id != id);
            }
            lemma_finished_none(told, id);
        },
    }
}

/// Attaching to a container makes it live and leaves what is told of all others.
proof fn lemma_with_attached(attached: Seq<AttachmentView>, id: Seq<char>, other: Seq<char>)
    ensures
        ({
            let after = crate::stream::liveness(crate::stream::with_attached(attached, id));
            crate::stream::finished(after, other) == if other == id {
                Some(false)
            } else {
                crate::stream::finished(crate::stream::liveness(attached), other)
            }
        }),
{
    let after = crate::stream::with_attached(attached, id);
    lemma_attachment_to(attached, id);
    lemma_attachment_to(attached, other);
    lemma_attachment_to(after, other);
    lemma_finished(attached, other);
    lemma_finished(after, other);
    let fresh = AttachmentView { id, finished: false, ended_at: None };
    match crate::stream::attachment_to(attached, id) {
        Some(i) => {
            assert(after == attached.update(i, fresh));
            assert forall|j: int| 0 <= j < after.len() implies (#[trigger] after[j]).id
                == attached[j].id by {}
            match (
                crate::stream::attachment_to(attached, other),
                crate::stream::attachment_to(after, other),
            ) {
                (Some(a), Some(b)) => {
                    if a < b {
                        assert(after[a].id == attached[a].id);
                    } else if b < a {
                        assert(after[b].id == attached[b].id);
                    }
                },
                (Some(a), None) => {
                    assert(after[a].id == attached[a].id);
                },
                (None, Some(b)) => {
                    assert(after[b].id == attached[b].id);
                },
                _ => {},
            }
        },
        None => {
            assert(after == attached.push(fresh));
            assert(after[attached.len() as int] == fresh);
            assert forall|j: int| 0 <= j < attached.len() implies (#[trigger] after[j])
                == attached[j] by {}
            match (
                crate::stream::attachment_to(attached, other),
                crate::stream::attachment_to(after, other),
            ) {
                (Some(a), Some(b)) => {
                    if a < b {
                        assert(after[a] == attached[a]);
                    } else if b < a {
                        assert(after[b] == attached[b]);
                    }
                },
                (Some(a), None) => {
                    assert(after[a] == attached[a]);
                },
                (None, Some(b)) => {
                    if b < attached.len() {
                        assert(after[b] == attached[b]);
                    }
                },
                (None, None) => {
                    if other == id {
                        assert(after[attached.len() as int].id == other);
                    }
                },
            }
        },
    }
}

/// Attaching to several containers makes each of them live and leaves what is
/// told of all others.
proof fn lemma_attached_all(attached: Seq<AttachmentView>, descs: Seq<DescView>, id: Seq<char>)
    ensures
        ({
            let after = crate::stream::liveness(crate::stream::attached_all(attached, descs));
            crate::stream::finished(after, id) == if crate::stream::is_seen(descs, id) {
                Some(false)
            } else {
                crate::stream::finished(crate::stream::liveness(attached), id)
            }
        }),
    decreases descs.len(),
{
    if descs.len() > 0 {
        let init = descs.drop_last();
        lemma_attached_all(attached, init, id);
        lemma_with_attached(crate::stream::attached_all(attached, init), descs.last().id, id);
        assert(descs[descs.len() - 1] == descs.last());
        if crate::stream::is_seen(init, id) {
            let i = choose|i: int| 0 <= i < init.len() && #[trigger] init[i].id == id;
            assert(descs[i].id == id);
        }
        if crate::stream::is_seen(descs, id) {
            let i = choose|i: int| 0 <= i < descs.len() && #[trigger] descs[i].id == id;
            if i < init.len() {
                assert(init[i].id == id);
            }
        }
    }
}

/// Forgetting the attachments to containers that are gone leaves what is told of
/// those that are seen.
proof fn lemma_still_seen(attached: Seq<AttachmentView>, seen: Seq<DescView>, id: Seq<char>)
    ensures
        ({
            let kept = crate::stream::still_seen(attached, seen);
            &&& crate::stream::is_seen(seen, id) ==> crate::stream::finished(
                crate::stream::liveness(kept),
                id,
            ) == crate::stream::finished(crate::stream::liveness(attached), id)
            &&& crate::stream::is_seen(seen, id) ==> crate::stream::ended(kept, id)
                == crate::stream::ended(attached, id)
            &&& crate::stream::finished(crate::stream::liveness(kept), id) is Some
                ==> crate::stream::is_seen(seen, id)
        }),
    decreases attached.len(),
{
    let kept = crate::stream::still_seen(attached, seen);
    lemma_finished(kept, id);
    lemma_finished(attached, id);
    if attached.len() > 0 {
        let init = attached.drop_last();
        lemma_still_seen(init, seen, id);
        let sub = crate::stream::still_seen(init, seen);
        lemma_finished(init, id);
        lemma_finished(sub, id);
        lemma_attachment_to(sub, id);
        lemma_attachment_to(init, id);
        if crate::stream::is_seen(seen, attached.last().id) {
            assert(kept.drop_last() =~= sub);
            assert(kept.last() == attached.last());
        }
    }
}

/// Which of the containers seen are attached to: one that is not attached to
/// yet, running or not; one that is running and has lost its reader; and none
/// that is being read or that has stopped and been read.
pub proof fn law_plan(attached: Seq<(Seq<char>, bool)>, seen: Seq<DescView>, c: DescView)
    ensures
        crate::stream::wanted(attached, seen).contains(c) <==> seen.contains(c)
            && crate::stream::needs_attach(attached, c),
        crate::stream::finished(attached, c.id) is None ==> crate::stream::needs_attach(
            attached,
            c,
        ),
        crate::stream::finished(attached, c.id) == Some(true) ==> (crate::stream::needs_attach(
            attached,
            c,
        ) <==> c.running),
        crate::stream::finished(attached, c.id) == Some(false) ==> !crate::stream::needs_attach(
            attached,
            c,
        ),
    decreases seen.len(),
{
    let out = crate::stream::wanted(attached, seen);
    if seen.len() > 0 {
        let init = seen.drop_last();
        law_plan(attached, init, c);
        let sub = crate::stream::wanted(attached, init);
        assert(seen[seen.len() - 1] == seen.last());
        if init.contains(c) {
            let i = choose|i: int| 0 <= i < init.len() && init[i] == c;
            assert(seen[i] == c);
        }
        if seen.contains(c) {
            let i = choose|i: int| 0 <= i < seen.len() && seen[i] == c;
            if i < init.len() {
                assert(init[i] == c);
            }
        }
        if crate::stream::needs_attach(attached, seen.last()) {
            assert(out == sub.push(seen.last()));
            assert(out[sub.len() as int] == seen.last());
            if sub.contains(c) {
                let i = choose|i: int| 0 <= i < sub.len() && sub[i] == c;
                assert(out[i] == c);
            }
            if out.contains(c) {
                let i = choose|i: int| 0 <= i < out.len() && out[i] == c;
                if i < sub.len() {
                    assert(sub[i] == c);
                }
            }
        }
    }
}

/// Exactly the attachments to containers that are no longer seen are dropped.
pub proof fn law_dropped(attached: Seq<(Seq<char>, bool)>, seen: Seq<DescView>, id: Seq<char>)
    ensures
        crate::stream::gone(attached, seen).contains(id) <==> crate::stream::finished(attached, id)
            is Some && !crate::stream::is_seen(seen, id),
    decreases attached.len(),
{
    let out = crate::stream::gone(attached, seen);
    if attached.len() > 0 {
        let init = attached.drop_last();
        law_dropped(init, seen, id);
        lemma_finished_push(attached, id);
        let sub = crate::stream::gone(init, seen);
        if !crate::stream::is_seen(seen, attached.last().0) {
            assert(out == sub.push(attached.last().0));
            assert(out[sub.len() as int] == attached.last().0);
            if sub.contains(id) {
                let i = choose|i: int| 0 <= i < sub.len() && sub[i] == id;
                assert(out[i] == id);
            }
            if out.contains(id) {
                let i = choose|i: int| 0 <= i < out.len() && out[i] == id;
                if i < sub.len() {
                    assert(sub[i] == id);
                }
            }
        }
    }
}

/// Whether there is something to tell of a container, taken from the end.
proof fn lemma_finished_push(attached: Seq<(Seq<char>, bool)>, id: Seq<char>)
    requires
        attached.len() > 0,
    ensures
        crate::stream::finished(attached, id) is Some <==> crate::stream::finished(
            attached.drop_last(),
            id,
        ) is Some || attached.last().0 == id,
    decreases attached.len(),
{
    if attached.len() == 1 {
        assert(attached.drop_first().len() == 0);
        assert(attached.drop_last().len() == 0);
    } else {
        lemma_finished_push(attached.drop_first(), id);
        assert(attached.drop_first().drop_last() =~= attached.drop_last().drop_first());
        assert(attached.drop_last()[0] == attached[0]);
        assert(attached.drop_first().last() == attached.last());
    }
}

/// Acting on one list twice does nothing the second time: no container is
/// attached to twice, none is dropped.
pub proof fn law_resync_settles(attached: Seq<AttachmentView>, seen: Seq<DescView>)
    ensures
        ({
            let kept = crate::stream::still_seen(attached, seen);
            let todo = crate::stream::wanted(crate::stream::liveness(attached), seen);
            let after = crate::stream::liveness(crate::stream::attached_all(kept, todo));
            &&& crate::stream::wanted(after, seen).len() == 0
            &&& crate::stream::gone(after, seen).len() == 0
        }),
{
    let told = crate::stream::liveness(attached);
    let kept = crate::stream::still_seen(attached, seen);
    let todo = crate::stream::wanted(told, seen);
    let after = crate::stream::liveness(crate::stream::attached_all(kept, todo));
    let again = crate::stream::wanted(after, seen);
    if again.len() > 0 {
        let c = again[0];
        assert(again.contains(c));
        law_plan(after, seen, c);
        let i = choose|i: int| 0 <= i < seen.len() && seen[i] == c;
        assert(seen[i].id == c.id);
        lemma_attached_all(kept, todo, c.id);
        lemma_still_seen(attached, seen, c.id);
        law_plan(told, seen, c);
        if todo.contains(c) {
            let j = choose|j: int| 0 <= j < todo.len() && todo[j] == c;
            assert(todo[j].id == c.id);
        }
        assert(false);
    }
    let dropped = crate::stream::gone(after, seen);
    if dropped.len() > 0 {
        let id = dropped[0];
        assert(dropped.contains(id));
        law_dropped(after, seen, id);
        lemma_attached_all(kept, todo, id);
        lemma_still_seen(attached, seen, id);
        if crate::stream::is_seen(todo, id) {
            let j = choose|j: int| 0 <= j < todo.len() && #[trigger] todo[j].id == id;
            let c = todo[j];
            assert(todo.contains(c));
            law_plan(told, seen, c);
            let i = choose|i: int| 0 <= i < seen.len() && seen[i] == c;
            assert(seen[i].id == id);
        }
        assert(false);
    }
}

/// A running container whose reader has exited is picked up again by the next
/// list that shows it.
pub proof fn law_dead_reader_is_replaced(
    attached: Seq<AttachmentView>,
    c: DescView,
    ended_at: i64,
    seen: Seq<DescView>,
)
    requires
        crate::stream::attachment_to(attached, c.id) is Some,
        seen.contains(c),
        c.running,
    ensures
        ({
            let after = crate::stream::with_ended(attached, c.id, ended_at);
            &&& crate::stream::wanted(crate::stream::liveness(after), seen).contains(c)
            &&& crate::stream::ended(after, c.id) == Some(ended_at)
            &&& crate::stream::ended(crate::stream::still_seen(after, seen), c.id) == Some(ended_at)
        }),
{
    let after = crate::stream::with_ended(attached, c.id, ended_at);
    lemma_attachment_to(attached, c.id);
    lemma_attachment_to(after, c.id);
    let i = crate::stream::attachment_to(attached, c.id)->0;
    assert forall|j: int| 0 <= j < after.len() implies (#[trigger] after[j]).id == attached[j].id
        by {}
    assert(after[i].id == c.id);
    assert(crate::stream::attachment_to(after, c.id) == Some(i)) by {
        match crate::stream::attachment_to(after, c.id) {
            Some(b) => {
                if b < i {
                    assert(after[b].id == attached[b].id);
                } else if i < b {
                    assert(after[i].id == attached[i].id);
                }
            },
            None => {},
        }
    }
    lemma_finished(after, c.id);
    law_plan(crate::stream::liveness(after), seen, c);
    let j = choose|j: int| 0 <= j < seen.len() && seen[j] == c;
    assert(seen[j].id == c.id);
    lemma_still_seen(after, seen, c.id);
}

/// What is acted on of a listed container is that container: its own ID, its own
/// service and its own state. A passing one, and one without an ID or a service, is
/// not acted on, and every other one is.
pub proof fn law_described(summary: SummaryView)
    ensures
        crate::stream::described(summary) is Some <==> !summary.transient && summary.id is Some
            && summary.service is Some,
        crate::stream::described(summary) matches Some(d) ==> {
            &&& summary.id == Some(d.id)
            &&& summary.service == Some(d.service)
            &&& d.running == summary.running
            &&& summary.number is None ==> d.replica == 1
            &&& summary.number matches Some(text) ==> (crate::stream::number(text) matches Some(n)
                ==> d.replica == n)
            &&& summary.number matches Some(text) ==> (crate::stream::number(text) is None
                ==> d.replica == 1)
        },
{
}

/// A number that is written in decimal is read as that number, with a plus sign
/// before it or without.
pub proof fn law_number(n: u32)
    ensures
        crate::stream::number(crate::text::decimal(n as nat)) == Some(n),
        crate::stream::number(seq!['+'] + crate::text::decimal(n as nat)) == Some(n),
{
    lemma_decimal(n as nat);
    let text = crate::text::decimal(n as nat);
    assert((seq!['+'] + text).drop_first() =~= text);
}

proof fn lemma_decimal(n: nat)
    ensures
        crate::text::decimal(n).len() > 0,
        crate::text::decimal(n)[0] != '+',
        crate::stream::digits_value(crate::text::decimal(n)) == Some(n),
    decreases n,
{
    reveal_with_fuel(crate::stream::digits_value, 2);
    if n < 10 {
        assert(seq![crate::text::digit(n)].drop_last() =~= Seq::<char>::empty());
        assert(crate::stream::digit_value(crate::text::digit(n)) == Some(n));
    } else {
        lemma_decimal(n / 10);
        let high = crate::text::decimal(n / 10);
        assert(high.push(crate::text::digit(n % 10)).drop_last() =~= high);
        assert(crate::stream::digit_value(crate::text::digit(n % 10)) == Some(n % 10));
    }
}

/// A number too large, and a text with anything but digits behind an optional plus
/// sign, is no number.
pub proof fn law_no_number(n: nat, text: Seq<char>, at: int)
    ensures
        n > u32::MAX ==> crate::stream::number(crate::text::decimal(n)) is None,
        0 < at < text.len() && !('0' <= text[at] <= '9') ==> crate::stream::number(text) is None,
        text.len() > 0 && !('0' <= text[0] <= '9') && text[0] != '+' ==> crate::stream::number(text)
            is None,
        crate::stream::number(Seq::empty()) is None,
        crate::stream::number(seq!['+']) is None,
{
    lemma_decimal(n);
    assert(seq!['+'].drop_first() =~= Seq::<char>::empty());
    let digits = if text.len() > 0 && text[0] == '+' {
        text.drop_first()
    } else {
        text
    };
    if 0 < at < text.len() && !('0' <= text[at] <= '9') {
        lemma_not_digits(digits, if text[0] == '+' {
            at - 1
        } else {
            at
        });
    }
    if text.len() > 0 && !('0' <= text[0] <= '9') && text[0] != '+' {
        lemma_not_digits(digits, 0);
    }
}

proof fn lemma_not_digits(digits: Seq<char>, at: int)
    requires
        0 <= at < digits.len(),
        !('0' <= digits[at] <= '9'),
    ensures
        crate::stream::digits_value(digits) is None,
    decreases digits.len(),
{
    if at < digits.len() - 1 {
        lemma_not_digits(digits.drop_last(), at);
    }
}

/// Plans go over a list, and over the attachments, from beginning to end: each entry is
/// taken once or left, and their order is kept.
pub proof fn law_plans_keep_order(
    attached: Seq<AttachmentView>,
    entry: AttachmentView,
    told: Seq<(Seq<char>, bool)>,
    one: (Seq<char>, bool),
    seen: Seq<DescView>,
    c: DescView,
)
    ensures
        crate::stream::wanted(told, seen.push(c)) == if crate::stream::needs_attach(told, c) {
            crate::stream::wanted(told, seen).push(c)
        } else {
            crate::stream::wanted(told, seen)
        },
        crate::stream::gone(told.push(one), seen) == if exists|i: int|
            0 <= i < seen.len() && (#[trigger] seen[i]).id == one.0 {
            crate::stream::gone(told, seen)
        } else {
            crate::stream::gone(told, seen).push(one.0)
        },
        crate::stream::still_seen(attached.push(entry), seen) == if exists|i: int|
            0 <= i < seen.len() && (#[trigger] seen[i]).id == entry.id {
            crate::stream::still_seen(attached, seen).push(entry)
        } else {
            crate::stream::still_seen(attached, seen)
        },
        crate::stream::wanted(told, Seq::empty()).len() == 0,
        crate::stream::gone(Seq::empty(), seen).len() == 0,
        crate::stream::still_seen(Seq::empty(), seen).len() == 0,
{
    assert(seen.push(c).drop_last() =~= seen);
    assert(told.push(one).drop_last() =~= told);
    assert(attached.push(entry).drop_last() =~= attached);
}

/// Attaching to a container makes its attachment a fresh one, of a reader that runs and
/// of no stream that has ended, and leaves all others.
pub proof fn law_attaching(attached: Seq<AttachmentView>, id: Seq<char>, i: int)
    requires
        crate::stream::distinct_ids(attached),
    ensures
        ({
            let after = crate::stream::with_attached(attached, id);
            let fresh = AttachmentView { id, finished: false, ended_at: None };
            &&& after.contains(fresh)
            &&& 0 <= i < attached.len() && attached[i].id != id ==> after[i] == attached[i]
            &&& 0 <= i < attached.len() && attached[i].id == id ==> after[i] == fresh && after.len()
                == attached.len()
            &&& (forall|j: int| 0 <= j < attached.len() ==> (#[trigger] attached[j]).id != id)
                ==> after == attached.push(fresh)
        }),
{
    let after = crate::stream::with_attached(attached, id);
    let fresh = AttachmentView { id, finished: false, ended_at: None };
    lemma_attachment_to(attached, id);
    match crate::stream::attachment_to(attached, id) {
        Some(at) => {
            assert(after[at] == fresh);
            if 0 <= i < attached.len() && attached[i].id == id {
                if at < i {
                    assert(attached[at].id != attached[i].id);
                } else if i < at {
                    assert(attached[i].id != attached[at].id);
                }
            }
        },
        None => {
            assert(after[attached.len() as int] == fresh);
        },
    }
}

/// Every listed container that is acted on is among those that are, in the order of
/// the list, and nothing else is.
pub proof fn law_listed(listed: Seq<SummaryView>, more: Seq<SummaryView>, d: DescView)
    ensures
        crate::stream::all_described(listed).contains(d) <==> exists|i: int|
            0 <= i < listed.len() && crate::stream::described(#[trigger] listed[i]) == Some(d),
        crate::stream::all_described(listed + more) == crate::stream::all_described(listed)
            + crate::stream::all_described(more),
{
    lemma_listed(listed, d);
    lemma_listed_on(listed, more);
}

proof fn lemma_listed(listed: Seq<SummaryView>, d: DescView)
    ensures
        crate::stream::all_described(listed).contains(d) <==> exists|i: int|
            0 <= i < listed.len() && crate::stream::described(#[trigger] listed[i]) == Some(d),
    decreases listed.len(),
{
    let out = crate::stream::all_described(listed);
    if listed.len() > 0 {
        let init = listed.drop_last();
        lemma_listed(init, d);
        let sub = crate::stream::all_described(init);
        if sub.contains(d) {
            let k = choose|k: int| 0 <= k < sub.len() && sub[k] == d;
            assert(out[k] == d);
            let i = choose|i: int|
                0 <= i < init.len() && crate::stream::described(#[trigger] init[i]) == Some(d);
            assert(crate::stream::described(listed[i]) == Some(d));
        }
        if crate::stream::described(listed.last()) == Some(d) {
            assert(out[sub.len() as int] == d);
            assert(crate::stream::described(listed[listed.len() - 1]) == Some(d));
        }
        if out.contains(d) {
            let k = choose|k: int| 0 <= k < out.len() && out[k] == d;
            if k < sub.len() {
                assert(sub[k] == d);
            }
        }
        if exists|i: int|
            0 <= i < listed.len() && crate::stream::described(#[trigger] listed[i]) == Some(d) {
            let i = choose|i: int|
                0 <= i < listed.len() && crate::stream::described(#[trigger] listed[i]) == Some(d);
            if i < init.len() {
                assert(crate::stream::described(init[i]) == Some(d));
            }
        }
    }
}

proof fn lemma_listed_on(listed: Seq<SummaryView>, more: Seq<SummaryView>)
    ensures
        crate::stream::all_described(listed + more) == crate::stream::all_described(listed)
            + crate::stream::all_described(more),
    decreases more.len(),
{
    if more.len() == 0 {
        assert(listed + more =~= listed);
        assert(crate::stream::all_described(listed) + crate::stream::all_described(more)
            =~= crate::stream::all_described(listed));
    } else {
        assert((listed + more).drop_last() =~= listed + more.drop_last());
        lemma_listed_on(listed, more.drop_last());
        assert(crate::stream::all_described(listed + more) =~= crate::stream::all_described(listed)
            + crate::stream::all_described(more));
    }
}

/// Which streams a list opens, of a container that it shows: one to a container
/// that is not attached to, and one to a container that is running and whose reader
/// has exited. So one that has stopped is read once and never again, and one that
/// is being read is left to its reader.
pub proof fn law_opened(attached: Seq<AttachmentView>, listed: Seq<SummaryView>, c: DescView)
    requires
        crate::stream::distinct_ids(attached),
    ensures
        crate::stream::wanted(
            crate::stream::liveness(attached),
            crate::stream::all_described(listed),
        ).contains(c) <==> {
            &&& exists|i: int|
                0 <= i < listed.len() && crate::stream::described(#[trigger] listed[i]) == Some(c)
            &&& (forall|j: int| 0 <= j < attached.len() ==> (#[trigger] attached[j]).id != c.id) || (
            c.running && exists|j: int|
                0 <= j < attached.len() && (#[trigger] attached[j]).id == c.id
                    && attached[j].finished)
        },
{
    let seen = crate::stream::all_described(listed);
    law_plan(crate::stream::liveness(attached), seen, c);
    lemma_listed(listed, c);
    lemma_finished(attached, c.id);
    lemma_attachment_to(attached, c.id);
    match crate::stream::attachment_to(attached, c.id) {
        Some(i) => {
            assert forall|j: int| 0 <= j < attached.len() && (#[trigger] attached[j]).id
                == c.id implies j == i by {
                if j < i {
                    assert(attached[j].id != attached[i].id);
                } else if i < j {
                    assert(attached[i].id != attached[j].id);
                }
            }
        },
        None => {},
    }
}

/// A container that is not running and whose history has been read is in no plan,
/// as long as it is listed as it is, and its attachment stays as it was.
pub proof fn law_stopped_is_read_once(
    attached: Seq<AttachmentView>,
    listed: Seq<SummaryView>,
    at: int,
    k: int,
)
    requires
        crate::stream::distinct_ids(attached),
        0 <= at < attached.len(),
        attached[at].finished,
        forall|i: int|
            0 <= i < listed.len() && (#[trigger] listed[i]).id == Some(attached[at].id)
                ==> !listed[i].running,
        0 <= k < crate::stream::wanted(
            crate::stream::liveness(attached),
            crate::stream::all_described(listed),
        ).len(),
    ensures
        crate::stream::wanted(
            crate::stream::liveness(attached),
            crate::stream::all_described(listed),
        )[k].id != attached[at].id,
{
    let todo = crate::stream::wanted(
        crate::stream::liveness(attached),
        crate::stream::all_described(listed),
    );
    let c = todo[k];
    assert(todo.contains(c));
    law_opened(attached, listed, c);
    let i = choose|i: int|
        0 <= i < listed.len() && crate::stream::described(#[trigger] listed[i]) == Some(c);
    law_described(listed[i]);
}

/// Which attachments a list leaves: those to containers that it shows.
pub proof fn law_kept(attached: Seq<AttachmentView>, seen: Seq<DescView>, entry: AttachmentView)
    ensures
        crate::stream::still_seen(attached, seen).contains(entry) <==> attached.contains(entry)
            && exists|i: int| 0 <= i < seen.len() && (#[trigger] seen[i]).id == entry.id,
    decreases attached.len(),
{
    let out = crate::stream::still_seen(attached, seen);
    if attached.len() > 0 {
        let init = attached.drop_last();
        law_kept(init, seen, entry);
        let sub = crate::stream::still_seen(init, seen);
        let last = attached.last();
        if init.contains(entry) {
            let i = choose|i: int| 0 <= i < init.len() && init[i] == entry;
            assert(attached[i] == entry);
        }
        if attached.contains(entry) {
            let i = choose|i: int| 0 <= i < attached.len() && attached[i] == entry;
            if i < init.len() {
                assert(init[i] == entry);
            }
        }
        assert(attached[attached.len() - 1] == last);
        if crate::stream::is_seen(seen, last.id) {
            assert(out == sub.push(last));
            assert(out[sub.len() as int] == last);
            if sub.contains(entry) {
                let k = choose|k: int| 0 <= k < sub.len() && sub[k] == entry;
                assert(out[k] == entry);
            }
            if out.contains(entry) {
                let k = choose|k: int| 0 <= k < out.len() && out[k] == entry;
                if k < sub.len() {
                    assert(sub[k] == entry);
                }
            }
        }
    }
}

/// Noting that a reader has exited touches its attachment and no other: that one is
/// finished, at that moment.
pub proof fn law_reader_exits(
    attached: Seq<AttachmentView>,
    id: Seq<char>,
    ended_at: i64,
    i: int,
)
    requires
        crate::stream::distinct_ids(attached),
        0 <= i < attached.len(),
    ensures
        ({
            let after = crate::stream::with_ended(attached, id, ended_at);
            &&& after.len() == attached.len()
            &&& after[i] == (if attached[i].id == id {
                AttachmentView { id, finished: true, ended_at: Some(ended_at) }
            } else {
                attached[i]
            })
        }),
{
    lemma_attachment_to(attached, id);
    match crate::stream::attachment_to(attached, id) {
        Some(at) => {
            if at < i {
                assert(attached[at].id != attached[i].id);
            } else if i < at {
                assert(attached[i].id != attached[at].id);
            }
        },
        None => {},
    }
}

/// Attaching anew leaves when other streams ended.
proof fn lemma_ended_of_others(attached: Seq<AttachmentView>, id: Seq<char>, other: Seq<char>)
    requires
        id != other,
    ensures
        crate::stream::ended(crate::stream::with_attached(attached, id), other)
            == crate::stream::ended(attached, other),
{
    let after = crate::stream::with_attached(attached, id);
    lemma_attachment_to(attached, id);
    lemma_attachment_to(attached, other);
    lemma_attachment_to(after, other);
    assert forall|j: int| 0 <= j < attached.len() implies (#[trigger] after[j]).id
        == attached[j].id && (attached[j].id != id ==> after[j] == attached[j]) by {}
    match (
        crate::stream::attachment_to(attached, other),
        crate::stream::attachment_to(after, other),
    ) {
        (Some(a), Some(b)) => {
            if a < b {
                assert(after[a].id == attached[a].id);
            } else if b < a {
                assert(b < attached.len());
                assert(after[b].id == attached[b].id);
            }
            assert(after[a] == attached[a]);
        },
        (Some(a), None) => {
            assert(after[a].id == attached[a].id);
        },
        (None, Some(b)) => {
            if b < attached.len() {
                assert(after[b].id == attached[b].id);
            }
        },
        (None, None) => {},
    }
}

proof fn lemma_ended_kept(attached: Seq<AttachmentView>, descs: Seq<DescView>, id: Seq<char>)
    requires
        forall|i: int| 0 <= i < descs.len() ==> (#[trigger] descs[i]).id != id,
    ensures
        crate::stream::ended(crate::stream::attached_all(attached, descs), id)
            == crate::stream::ended(attached, id),
    decreases descs.len(),
{
    if descs.len() > 0 {
        let init = descs.drop_last();
        assert forall|i: int| 0 <= i < init.len() implies (#[trigger] init[i]).id != id by {
            assert(descs[i].id != id);
        }
        lemma_ended_kept(attached, init, id);
        assert(descs[descs.len() - 1].id != id);
        lemma_ended_of_others(
            crate::stream::attached_all(attached, init),
            descs.last().id,
            id,
        );
    }
}

/// The streams that are opened are to the containers that want one, in their order.
/// A container that has not been read before is asked for the configured tail. One
/// whose stream has ended is resumed from that moment and asked for everything
/// since.
pub proof fn law_requests(
    attached: Seq<AttachmentView>,
    todo: Seq<DescView>,
    tail: nat,
    i: int,
)
    requires
        crate::stream::distinct_ids(attached),
        0 <= i < todo.len(),
        forall|j: int| 0 <= j < i ==> (#[trigger] todo[j]).id != todo[i].id,
    ensures
        crate::stream::requests(attached, todo, tail).len() == todo.len(),
        crate::stream::requests(attached, todo, tail)[i].desc == todo[i],
        (forall|j: int| 0 <= j < attached.len() ==> (#[trigger] attached[j]).id != todo[i].id) ==> {
            &&& crate::stream::requests(attached, todo, tail)[i].since is None
            &&& crate::stream::requests(attached, todo, tail)[i].tail == crate::text::decimal(tail)
        },
        forall|j: int|
            0 <= j < attached.len() && (#[trigger] attached[j]).id == todo[i].id ==> match
            attached[j].ended_at {
                Some(t) => {
                    &&& crate::stream::requests(attached, todo, tail)[i].tail == "all"@
                    &&& crate::stream::requests(attached, todo, tail)[i].since matches Some(from)
                        && from >= 0 && (0 <= t <= i32::MAX ==> from == t) && (t > i32::MAX ==> from
                        == i32::MAX) && (t < 0 ==> from == 0)
                },
                None => {
                    &&& crate::stream::requests(attached, todo, tail)[i].since is None
                    &&& crate::stream::requests(attached, todo, tail)[i].tail
                        == crate::text::decimal(tail)
                },
            },
{
    let before = todo.take(i);
    let id = todo[i].id;
    lemma_requests(attached, todo, tail, i);
    assert forall|j: int| 0 <= j < before.len() implies (#[trigger] before[j]).id != id by {
        assert(todo[j].id != id);
    }
    lemma_ended_kept(attached, before, id);
    lemma_attachment_to(attached, id);
    assert forall|j: int| 0 <= j < attached.len() && (#[trigger] attached[j]).id
        == id implies crate::stream::attachment_to(attached, id) == Some(j) by {
        match crate::stream::attachment_to(attached, id) {
            Some(at) => {
                if at < j {
                    assert(attached[at].id != attached[j].id);
                } else if j < at {
                    assert(attached[j].id != attached[at].id);
                }
            },
            None => {},
        }
    }
}

proof fn lemma_requests(attached: Seq<AttachmentView>, todo: Seq<DescView>, tail: nat, i: int)
    requires
        0 <= i < todo.len(),
    ensures
        crate::stream::requests(attached, todo, tail).len() == todo.len(),
        crate::stream::requests(attached, todo, tail)[i] == ({
            let since = crate::stream::ended(
                crate::stream::attached_all(attached, todo.take(i)),
                todo[i].id,
            );
            RequestView {
                desc: todo[i],
                since: crate::stream::resume_from(since),
                tail: crate::stream::requested_tail(since, crate::text::decimal(tail)),
            }
        }),
    decreases todo.len(),
{
    let init = todo.drop_last();
    lemma_requests_len(attached, init, tail);
    if i < init.len() {
        lemma_requests(attached, init, tail, i);
        assert(init.take(i) =~= todo.take(i));
    } else {
        assert(todo.take(i) =~= init);
    }
}

proof fn lemma_requests_len(attached: Seq<AttachmentView>, todo: Seq<DescView>, tail: nat)
    ensures
        crate::stream::requests(attached, todo, tail).len() == todo.len(),
    decreases todo.len(),
{
    if todo.len() > 0 {
        lemma_requests_len(attached, todo.drop_last(), tail);
    }
}

/// What is done about what has happened. A list is asked for where containers may
/// have come or gone, and the application is told wherever it may have something
/// to read again; only the passing of time is no news.
pub proof fn law_steps(id: String, ended_at: i64, action: String)
    ensures
        crate::stream::step(WatchEvent::Subscribed) == (WatchStep::Resync { notify: true }),
        crate::stream::step(WatchEvent::Tick) == (WatchStep::Resync { notify: false }),
        crate::stream::step(WatchEvent::TaskEnded { id, ended_at }) == WatchStep::Notify,
        crate::stream::step(WatchEvent::StreamEnded) == WatchStep::Reconnect,
        crate::stream::step(WatchEvent::Cancelled) == WatchStep::Stop,
        crate::stream::step(WatchEvent::Container { action: None }) == WatchStep::Wait,
        crate::stream::step(WatchEvent::Container { action: Some(action) }) == (if action@
            == "create"@ || action@ == "start"@ || action@ == "destroy"@ || action@ == "rename"@ {
            WatchStep::Resync { notify: true }
        } else if action@ == "die"@ || action@ == "kill"@ || action@ == "stop"@ || action@
            == "restart"@ || action@ == "pause"@ || action@ == "unpause"@ || action@
            == "health_status"@ {
            WatchStep::Notify
        } else {
            WatchStep::Wait
        }),
{
}

/// Which slice of its log a container is asked for: all of it from the moment its
/// last stream ended, and otherwise the configured tail.
pub proof fn law_log_window(since: Option<i64>, tail: Seq<char>)
    ensures
        since is None ==> crate::stream::resume_from(since) is None
            && crate::stream::requested_tail(since, tail) == tail,
        since matches Some(t) ==> {
            &&& crate::stream::requested_tail(since, tail) == "all"@
            &&& 0 <= t <= i32::MAX ==> crate::stream::resume_from(since) == Some(t as i32)
            &&& t < 0 ==> crate::stream::resume_from(since) == Some(0i32)
            &&& t > i32::MAX ==> crate::stream::resume_from(since) == Some(i32::MAX)
        },
{
}

/// The messages of a frame are those of its container's service and replica, and
/// their bytes are the frame's, in order; all but the last are as large as they may
/// be.
pub proof fn law_messages(desc: DescView, frame: Seq<u8>, i: int)
    requires
        0 <= i < crate::stream::frame_messages(desc, frame).len(),
    ensures
        crate::stream::frame_messages(desc, frame).len() == crate::stream::pieces(frame).len(),
        crate::stream::frame_messages(desc, frame)[i] == (SourceEventView::Output {
            service: desc.service,
            replica: desc.replica,
            bytes: crate::stream::pieces(frame)[i],
        }),
        crate::stream::joined(crate::stream::pieces(frame)) == frame,
        i < crate::stream::frame_messages(desc, frame).len() - 1 ==> crate::stream::pieces(
            frame,
        )[i].len() == MAX_CHUNK_BYTES,
{
    crate::stream::law_pieces(frame);
    if i < crate::stream::pieces(frame).len() - 1 {
        lemma_full_pieces(frame, i);
    }
}

proof fn lemma_full_pieces(frame: Seq<u8>, i: int)
    requires
        0 <= i < crate::stream::pieces(frame).len() - 1,
    ensures
        crate::stream::pieces(frame)[i].len() == MAX_CHUNK_BYTES,
    decreases frame.len(),
{
    let rest = frame.skip(MAX_CHUNK_BYTES as int);
    if i > 0 {
        lemma_full_pieces(rest, i - 1);
    }
}

/// A request resumes where the last stream stopped, and never at a moment that
/// wrapped round: it is within range, and later moments do not come out earlier.
pub proof fn law_window(a: i64, b: i64)
    requires
        a <= b,
    ensures
        0 <= crate::stream::clamped(a) <= crate::stream::clamped(b),
        0 <= a <= i32::MAX ==> crate::stream::clamped(a) == a,
{
}

/// A frame that is passed on in pieces reads the same as one that was not cut: a
/// store that is given the pieces has the carry and the word of any output that
/// it would have of the frame. It keeps the same bytes, where it has room for
/// them, and shows the same, where the emulator drops no byte at a cut.
pub proof fn law_cut_frame(store: LogView, frame: Seq<u8>)
    requires
        store.sound(),
    ensures
        ({
            let pieces = crate::stream::pieces(frame);
            let cut = crate::store_laws::given_all(store, pieces);
            let whole = store.processed(frame);
            &&& cut.pending_cr == whole.pending_cr
            &&& cut.has_output == whole.has_output
            &&& crate::store_laws::has_room(store, frame) ==> cut.raw == whole.raw && cut.lines
                == whole.lines && cut.pen == whole.pen
            &&& crate::store_laws::clean_cuts(store, pieces) ==> {
                &&& cut.inputs == whole.inputs
                &&& cut.text() == whole.text()
                &&& store.offset == 0 ==> crate::store::same_screen(cut, whole)
            }
        }),
{
    crate::stream::law_pieces(frame);
    crate::store_laws::law_chunks(store, crate::stream::pieces(frame));
}

/// After a list has been acted on, the containers that are attached to are exactly those
/// that it shows.
pub proof fn law_in_step(attached: Seq<AttachmentView>, seen: Seq<DescView>, id: Seq<char>)
    ensures
        ({
            let kept = crate::stream::still_seen(attached, seen);
            let todo = crate::stream::wanted(crate::stream::liveness(attached), seen);
            let after = crate::stream::attached_all(kept, todo);
            (exists|i: int| 0 <= i < after.len() && (#[trigger] after[i]).id == id) <==> exists|
                i: int,
            |
                0 <= i < seen.len() && (#[trigger] seen[i]).id == id
        }),
{
    let told = crate::stream::liveness(attached);
    let kept = crate::stream::still_seen(attached, seen);
    let todo = crate::stream::wanted(told, seen);
    let after = crate::stream::attached_all(kept, todo);
    lemma_attached_all(kept, todo, id);
    lemma_still_seen(attached, seen, id);
    lemma_finished(after, id);
    lemma_attachment_to(after, id);
    if crate::stream::is_seen(todo, id) {
        let j = choose|j: int| 0 <= j < todo.len() && #[trigger] todo[j].id == id;
        assert(todo.contains(todo[j]));
        law_plan(told, seen, todo[j]);
        let i = choose|i: int| 0 <= i < seen.len() && seen[i] == todo[j];
        assert(seen[i].id == id);
    }
    if crate::stream::is_seen(seen, id) {
        let i = choose|i: int| 0 <= i < seen.len() && #[trigger] seen[i].id == id;
        law_plan(told, seen, seen[i]);
        assert(seen.contains(seen[i]));
        if crate::stream::needs_attach(told, seen[i]) {
            let j = choose|j: int| 0 <= j < todo.len() && todo[j] == seen[i];
            assert(todo[j].id == id);
        }
    }
}

} // verus!
