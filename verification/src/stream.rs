//! Log streaming and container supervision.
//!
//! One task per container reads its log stream. A supervisor watches the events
//! of the daemon so that containers which restart (and therefore get a new
//! container ID) are reattached, and containers created later are picked up.
//! What is decided is here; the tasks and the daemon are the caller's.
use vstd::prelude::*;

use crate::text::{characters, copied, push_decimal};

verus! {

/// Largest slice of one log frame carried by a single [`SourceEvent::Output`].
///
/// The size of a frame is the daemon's decision. Splitting it is what makes
/// everything downstream of the frame finite.
pub const MAX_CHUNK_BYTES: usize = 65_536;

/// A message from the container side to the application.
#[derive(Debug)]
pub enum SourceEvent {
    /// Raw output from one service's container.
    Output { service: String, replica: u32, bytes: Vec<u8> },
    /// Container topology or status changed; services should be read again.
    Topology,
}

/// A [`SourceEvent`] as a plain value.
pub enum SourceEventView {
    Output { service: Seq<char>, replica: u32, bytes: Seq<u8> },
    Topology,
}

impl View for SourceEvent {
    type V = SourceEventView;

    open spec fn view(&self) -> SourceEventView {
        match *self {
            SourceEvent::Output { service, replica, bytes } => SourceEventView::Output {
                service: service@,
                replica,
                bytes: bytes@,
            },
            SourceEvent::Topology => SourceEventView::Topology,
        }
    }
}

/// What an event of the daemon means.
#[derive(Debug, Clone, Copy, PartialEq, Eq, Structural)]
pub enum EventDecision {
    /// Container set may have changed: re-list and attach as needed.
    Resync,
    /// Only status changed: refresh, don't touch attachments.
    NotifyOnly,
    Ignore,
}

/// Whether an action can change which containers there are.
pub open spec fn changes_containers(action: Seq<char>) -> bool {
    action == "create"@ || action == "start"@ || action == "destroy"@ || action == "rename"@
}

/// Whether an action can change the status of a container alone.
pub open spec fn changes_status(action: Seq<char>) -> bool {
    action == "die"@ || action == "kill"@ || action == "stop"@ || action == "restart"@ || action
        == "pause"@ || action == "unpause"@ || action == "health_status"@
}

/// What an event with that action means.
pub open spec fn decision(action: Seq<char>) -> EventDecision {
    if changes_containers(action) {
        EventDecision::Resync
    } else if changes_status(action) {
        EventDecision::NotifyOnly
    } else {
        EventDecision::Ignore
    }
}

/// Classifies a container event.
///
/// `create` and `start` both bring a new container ID into play, because
/// containers are replaced rather than restarted in place, so both resync.
pub fn event_decision(action: &str) -> (decided: EventDecision)
    ensures
        decided == decision(action@),
{
    let action: String = action.to_owned();
    if is(&action, "create") || is(&action, "start") || is(&action, "destroy") || is(
        &action,
        "rename",
    ) {
        EventDecision::Resync
    } else if is(&action, "die") || is(&action, "kill") || is(&action, "stop") || is(
        &action,
        "restart",
    ) || is(&action, "pause") || is(&action, "unpause") || is(&action, "health_status") {
        EventDecision::NotifyOnly
    } else {
        EventDecision::Ignore
    }
}

/// Whether two texts are the same.
fn is(text: &String, other: &str) -> (same: bool)
    ensures
        same == (text@ == other@),
{
    *text == other.to_owned()
}

/// Which slice of a container's log history to request.
#[derive(Debug, Clone, Copy, PartialEq, Eq)]
pub struct LogWindow<'a> {
    /// Unix seconds to resume from, when reattaching.
    pub since: Option<i32>,
    pub tail: &'a str,
}

/// Seconds brought into the range that the daemon's interface has for them.
pub open spec fn clamped(seconds: i64) -> i32 {
    if seconds < 0 {
        0
    } else if seconds > i32::MAX {
        i32::MAX
    } else {
        seconds as i32
    }
}

/// The moment a request resumes from.
pub open spec fn resume_from(since: Option<i64>) -> Option<i32> {
    match since {
        Some(t) => Some(clamped(t)),
        None => None,
    }
}

/// How much history a request asks for: all of it from where it resumes, or else
/// the configured tail.
pub open spec fn requested_tail(since: Option<i64>, tail: Seq<char>) -> Seq<char> {
    if since is Some {
        "all"@
    } else {
        tail
    }
}

/// Chooses the log window for an attach.
///
/// A fresh attach takes the configured tail. A reattach resumes from where the
/// previous stream stopped and asks for everything since, so recovering from a
/// dropped connection neither replays the tail nor leaves a hole. The moment is
/// clamped, so a skewed clock can't wrap a future one into the distant past.
pub fn log_window(since: Option<i64>, tail: &str) -> (window: LogWindow<'_>)
    ensures
        window.since == resume_from(since),
        window.tail@ == requested_tail(since, tail@),
{
    match since {
        Some(t) => {
            let seconds: i32 = if t < 0 {
                0
            } else if t > i32::MAX as i64 {
                i32::MAX
            } else {
                t as i32
            };
            LogWindow { since: Some(seconds), tail: "all" }
        },
        None => LogWindow { since: None, tail },
    }
}

/// One container as seen in a list response, reduced to what is acted on.
#[derive(Debug, Clone, PartialEq, Eq)]
pub struct ContainerDesc {
    pub id: String,
    pub service: String,
    pub replica: u32,
    pub running: bool,
}

/// A [`ContainerDesc`] as a plain value.
pub struct DescView {
    pub id: Seq<char>,
    pub service: Seq<char>,
    pub replica: u32,
    pub running: bool,
}

impl View for ContainerDesc {
    type V = DescView;

    open spec fn view(&self) -> DescView {
        DescView {
            id: self.id@,
            service: self.service@,
            replica: self.replica,
            running: self.running,
        }
    }
}

impl ContainerDesc {
    /// A copy.
    pub fn copy(&self) -> (desc: ContainerDesc)
        ensures
            desc@ == self@,
    {
        ContainerDesc {
            id: copied(&self.id),
            service: copied(&self.service),
            replica: self.replica,
            running: self.running,
        }
    }
}

/// The containers as plain values.
pub open spec fn desc_views(descs: Seq<ContainerDesc>) -> Seq<DescView> {
    Seq::new(descs.len(), |i: int| descs[i]@)
}

/// The state of an attachment that decides whether it is renewed.
#[derive(Debug, Clone, Copy, PartialEq, Eq, Structural)]
pub struct Attach {
    pub finished: bool,
}

/// Attachments, each with its container's ID, as plain values.
pub open spec fn attach_views(attached: Seq<(String, Attach)>) -> Seq<(Seq<char>, bool)> {
    Seq::new(attached.len(), |i: int| (attached[i].0@, attached[i].1.finished))
}

/// Whether the attachment to a container has finished; `None` where there is no
/// attachment.
pub open spec fn finished(attached: Seq<(Seq<char>, bool)>, id: Seq<char>) -> Option<bool>
    decreases attached.len(),
{
    if attached.len() == 0 {
        None
    } else if attached[0].0 == id {
        Some(attached[0].1)
    } else {
        finished(attached.drop_first(), id)
    }
}

/// Whether a container is to be attached to: it has never been, or it is running
/// and the task that read it has exited. One that is not running is attached
/// only once, to pull its history; its stream would end at once again.
pub open spec fn needs_attach(attached: Seq<(Seq<char>, bool)>, c: DescView) -> bool {
    match finished(attached, c.id) {
        None => true,
        Some(ended) => c.running && ended,
    }
}

/// Those of `seen` that are to be attached to, in their order.
pub open spec fn wanted(attached: Seq<(Seq<char>, bool)>, seen: Seq<DescView>) -> Seq<DescView>
    decreases seen.len(),
{
    if seen.len() == 0 {
        Seq::empty()
    } else if needs_attach(attached, seen.last()) {
        wanted(attached, seen.drop_last()).push(seen.last())
    } else {
        wanted(attached, seen.drop_last())
    }
}

/// Whether one of `seen` has that ID.
pub open spec fn is_seen(seen: Seq<DescView>, id: Seq<char>) -> bool {
    exists|i: int| 0 <= i < seen.len() && #[trigger] seen[i].id == id
}

/// The IDs that are attached to and no longer seen, in the order of the
/// attachments.
pub open spec fn gone(attached: Seq<(Seq<char>, bool)>, seen: Seq<DescView>) -> Seq<Seq<char>>
    decreases attached.len(),
{
    if attached.len() == 0 {
        Seq::empty()
    } else if is_seen(seen, attached.last().0) {
        gone(attached.drop_last(), seen)
    } else {
        gone(attached.drop_last(), seen).push(attached.last().0)
    }
}

/// Whether the attachment to a container has finished.
fn find_finished(attached: &[(String, Attach)], id: &String) -> (found: Option<bool>)
    ensures
        found == finished(attach_views(attached@), id@),
{
    let ghost views = attach_views(attached@);
    let mut i: usize = 0;
    assert(views.skip(0) =~= views);
    while i < attached.len()
        invariant
            i <= attached@.len(),
            views == attach_views(attached@),
            finished(views, id@) == finished(views.skip(i as int), id@),
        decreases attached@.len() - i,
    {
        assert(views.skip(i as int).drop_first() =~= views.skip(i + 1));
        assert(views.skip(i as int)[0] == views[i as int]);
        if attached[i].0 == *id {
            return Some(attached[i].1.finished);
        }
        i += 1;
    }
    None
}

/// Whether one of `seen` has that ID.
fn has_id(seen: &[ContainerDesc], id: &String) -> (found: bool)
    ensures
        found == is_seen(desc_views(seen@), id@),
{
    let mut i: usize = 0;
    while i < seen.len()
        invariant
            i <= seen@.len(),
            forall|j: int| 0 <= j < i ==> #[trigger] desc_views(seen@)[j].id != id@,
        decreases seen@.len() - i,
    {
        if seen[i].id == *id {
            assert(desc_views(seen@)[i as int].id == id@);
            return true;
        }
        assert(desc_views(seen@)[i as int].id != id@);
        i += 1;
    }
    false
}

/// Whether no ID occurs twice among attachments.
pub open spec fn distinct_keys(attached: Seq<(Seq<char>, bool)>) -> bool {
    forall|i: int, j: int|
        0 <= i < j < attached.len() ==> (#[trigger] attached[i]).0 != (#[trigger] attached[j]).0
}

/// What is gone was attached to, is not seen, and is named once.
pub proof fn lemma_gone(attached: Seq<(Seq<char>, bool)>, seen: Seq<DescView>)
    ensures
        forall|k: int|
            0 <= k < gone(attached, seen).len() ==> !is_seen(seen, #[trigger] gone(attached, seen)[k])
                && exists|i: int|
                0 <= i < attached.len() && (#[trigger] attached[i]).0 == gone(attached, seen)[k],
        distinct_keys(attached) ==> gone(attached, seen).no_duplicates(),
    decreases attached.len(),
{
    if attached.len() > 0 {
        let init = attached.drop_last();
        lemma_gone(init, seen);
        let before = gone(init, seen);
        let out = gone(attached, seen);
        assert forall|k: int| 0 <= k < out.len() implies !is_seen(seen, #[trigger] out[k])
            && exists|i: int| 0 <= i < attached.len() && (#[trigger] attached[i]).0 == out[k] by {
            if k < before.len() {
                assert(out[k] == before[k]);
                let i = choose|i: int| 0 <= i < init.len() && (#[trigger] init[i]).0 == before[k];
                assert(attached[i].0 == out[k]);
            } else {
                assert(attached[attached.len() - 1].0 == out[k]);
            }
        }
        if distinct_keys(attached) {
            assert forall|i: int, j: int| 0 <= i < j < init.len() implies (#[trigger] init[i]).0
                != (#[trigger] init[j]).0 by {
                assert(attached[i].0 != attached[j].0);
            }
            assert forall|k: int, l: int| 0 <= k < out.len() && 0 <= l < out.len() && k
                != l implies out[k] != out[l] by {
                if k < before.len() && l < before.len() {
                    assert(before[k] != before[l]);
                } else {
                    let other = if k < before.len() {
                        k
                    } else {
                        l
                    };
                    let i = choose|i: int|
                        0 <= i < init.len() && (#[trigger] init[i]).0 == before[other];
                    assert(attached[i].0 != attached[attached.len() - 1].0);
                }
            }
        }
    }
}

/// Decides which containers to attach to and which attachments to drop. Where no
/// ID is attached to twice, none is dropped twice.
pub fn plan_attachments(attached: &[(String, Attach)], seen: &[ContainerDesc]) -> (plan: (
    Vec<ContainerDesc>,
    Vec<String>,
))
    ensures
        desc_views(plan.0@) == wanted(attach_views(attached@), desc_views(seen@)),
        crate::text::texts(plan.1@) == gone(attach_views(attached@), desc_views(seen@)),
        distinct_keys(attach_views(attached@)) ==> crate::text::texts(plan.1@).no_duplicates(),
{
    proof {
        lemma_gone(attach_views(attached@), desc_views(seen@));
    }
    let ghost entries = attach_views(attached@);
    let ghost views = desc_views(seen@);
    let mut to_attach: Vec<ContainerDesc> = Vec::new();
    let mut i: usize = 0;
    while i < seen.len()
        invariant
            i <= seen@.len(),
            entries == attach_views(attached@),
            views == desc_views(seen@),
            desc_views(to_attach@) == wanted(entries, views.take(i as int)),
        decreases seen@.len() - i,
    {
        assert(views.take(i + 1).drop_last() =~= views.take(i as int));
        let needed: bool = match find_finished(attached, &seen[i].id) {
            None => true,
            Some(ended) => seen[i].running && ended,
        };
        if needed {
            let ghost before = to_attach@;
            to_attach.push(seen[i].copy());
            assert(desc_views(to_attach@) =~= desc_views(before).push(views[i as int]));
        }
        i += 1;
    }
    assert(views.take(i as int) =~= views);

    let mut to_drop: Vec<String> = Vec::new();
    let mut j: usize = 0;
    assert(crate::text::texts(to_drop@) =~= Seq::<Seq<char>>::empty());
    while j < attached.len()
        invariant
            j <= attached@.len(),
            entries == attach_views(attached@),
            views == desc_views(seen@),
            crate::text::texts(to_drop@) == gone(entries.take(j as int), views),
        decreases attached@.len() - j,
    {
        assert(entries.take(j + 1).drop_last() =~= entries.take(j as int));
        if !has_id(seen, &attached[j].0) {
            let ghost before = to_drop@;
            to_drop.push(copied(&attached[j].0));
            assert(crate::text::texts(to_drop@) =~= crate::text::texts(before).push(
                entries[j as int].0,
            ));
        }
        j += 1;
    }
    assert(entries.take(j as int) =~= entries);
    (to_attach, to_drop)
}

/// A frame in the pieces it is passed on in: as large as they may be, the last
/// one with what is left. An empty frame has no pieces.
pub open spec fn pieces(frame: Seq<u8>) -> Seq<Seq<u8>>
    decreases frame.len(),
{
    if frame.len() == 0 {
        Seq::empty()
    } else if frame.len() <= MAX_CHUNK_BYTES {
        seq![frame]
    } else {
        seq![frame.take(MAX_CHUNK_BYTES as int)] + pieces(frame.skip(MAX_CHUNK_BYTES as int))
    }
}

/// What is sent for a frame of a container's log, one message for each piece.
pub open spec fn frame_messages(desc: DescView, frame: Seq<u8>) -> Seq<SourceEventView> {
    Seq::new(
        pieces(frame).len(),
        |i: int|
            SourceEventView::Output {
                service: desc.service,
                replica: desc.replica,
                bytes: pieces(frame)[i],
            },
    )
}

/// The messages as plain values.
pub open spec fn event_views(events: Seq<SourceEvent>) -> Seq<SourceEventView> {
    Seq::new(events.len(), |i: int| events[i]@)
}

/// Splits one frame into messages no larger than [`MAX_CHUNK_BYTES`].
///
/// Cutting at a fixed offset is safe because the consumers keep state across
/// writes; `crate::emulator::swallows` names the one kind of cut that shows. An
/// empty frame yields no messages: forwarding it would replace a
/// pane's "waiting" placeholder with a blank pane.
pub fn frame_events(desc: &ContainerDesc, frame: &[u8]) -> (events: Vec<SourceEvent>)
    ensures
        event_views(events@) == frame_messages(desc@, frame@),
{
    let mut events: Vec<SourceEvent> = Vec::new();
    let mut start: usize = 0;
    let ghost mut sent: Seq<Seq<u8>> = Seq::empty();
    assert(frame@.skip(0) =~= frame@);
    assert(sent + pieces(frame@.skip(0)) =~= pieces(frame@));
    while start < frame.len()
        invariant
            start <= frame@.len(),
            pieces(frame@) == sent + pieces(frame@.skip(start as int)),
            events@.len() == sent.len(),
            forall|i: int|
                0 <= i < sent.len() ==> (#[trigger] events@[i])@ == (SourceEventView::Output {
                    service: desc.service@,
                    replica: desc.replica,
                    bytes: sent[i],
                }),
        decreases frame@.len() - start,
    {
        let left: usize = frame.len() - start;
        let size: usize = if left < MAX_CHUNK_BYTES { left } else { MAX_CHUNK_BYTES };
        let ghost rest = frame@.skip(start as int);
        let ghost piece = rest.take(size as int);
        let mut bytes: Vec<u8> = Vec::new();
        let mut k: usize = 0;
        while k < size
            invariant
                k <= size,
                start + size <= frame.len(),
                bytes@ == frame@.skip(start as int).take(k as int),
            decreases size - k,
        {
            bytes.push(frame[start + k]);
            k += 1;
            assert(bytes@ =~= frame@.skip(start as int).take(k as int));
        }
        events.push(
            SourceEvent::Output { service: copied(&desc.service), replica: desc.replica, bytes },
        );
        proof {
            if left <= MAX_CHUNK_BYTES {
                assert(piece =~= rest);
                assert(frame@.skip(start + size) =~= Seq::<u8>::empty());
                assert(sent + seq![rest] =~= sent.push(piece) + Seq::<Seq<u8>>::empty());
            } else {
                assert(rest.skip(MAX_CHUNK_BYTES as int) =~= frame@.skip(start + size));
                assert(sent + (seq![piece] + pieces(frame@.skip(start + size))) =~= sent.push(piece)
                    + pieces(frame@.skip(start + size)));
            }
            sent = sent.push(piece);
        }
        start += size;
    }
    proof {
        assert(frame@.skip(start as int) =~= Seq::<u8>::empty());
        assert(sent =~= pieces(frame@));
        assert(event_views(events@) =~= frame_messages(desc@, frame@));
    }
    events
}

/// The pieces of a frame joined again.
pub open spec fn joined(parts: Seq<Seq<u8>>) -> Seq<u8>
    decreases parts.len(),
{
    if parts.len() == 0 {
        Seq::empty()
    } else {
        parts[0] + joined(parts.drop_first())
    }
}

/// The pieces of a frame are within their bound, none is empty, and together
/// they are the frame. A frame within the bound is one piece.
pub proof fn law_pieces(frame: Seq<u8>)
    ensures
        joined(pieces(frame)) == frame,
        forall|i: int|
            0 <= i < pieces(frame).len() ==> 0 < (#[trigger] pieces(frame)[i]).len()
                <= MAX_CHUNK_BYTES,
        frame.len() == 0 ==> pieces(frame).len() == 0,
        0 < frame.len() <= MAX_CHUNK_BYTES ==> pieces(frame).len() == 1,
    decreases frame.len(),
{
    let parts = pieces(frame);
    if frame.len() > MAX_CHUNK_BYTES {
        let rest = frame.skip(MAX_CHUNK_BYTES as int);
        law_pieces(rest);
        assert(parts.drop_first() =~= pieces(rest));
        assert(parts[0] == frame.take(MAX_CHUNK_BYTES as int));
        assert(frame.take(MAX_CHUNK_BYTES as int) + rest =~= frame);
        assert forall|i: int| 0 <= i < parts.len() implies 0 < (#[trigger] parts[i]).len()
            <= MAX_CHUNK_BYTES by {
            if i > 0 {
                assert(parts[i] == pieces(rest)[i - 1]);
            }
        }
    } else if frame.len() > 0 {
        assert(parts.drop_first() =~= Seq::<Seq<u8>>::empty());
        assert(joined(parts.drop_first()) =~= Seq::<u8>::empty());
        assert(frame + Seq::<u8>::empty() =~= frame);
    } else {
        assert(frame =~= Seq::<u8>::empty());
    }
}

/// The number that a decimal digit stands for; `None` where it is no digit.
pub open spec fn digit_value(c: char) -> Option<nat> {
    if '0' <= c <= '9' {
        Some((c as nat - '0' as nat) as nat)
    } else {
        None
    }
}

/// The number that a run of decimal digits stands for; `None` where there is
/// something else among them.
pub open spec fn digits_value(digits: Seq<char>) -> Option<nat>
    decreases digits.len(),
{
    if digits.len() == 0 {
        Some(0)
    } else {
        match (digits_value(digits.drop_last()), digit_value(digits.last())) {
            (Some(high), Some(low)) => Some(10 * high + low),
            _ => None,
        }
    }
}

/// The number that a text stands for: digits, with an optional plus sign before
/// them, that fit.
pub open spec fn number(text: Seq<char>) -> Option<u32> {
    let digits = if text.len() > 0 && text[0] == '+' {
        text.drop_first()
    } else {
        text
    };
    match digits_value(digits) {
        Some(n) => if digits.len() > 0 && n <= u32::MAX {
            Some(n as u32)
        } else {
            None
        },
        None => None,
    }
}

/// A run of digits does not stand for less when more digits follow.
proof fn lemma_digits_value(digits: Seq<char>, n: int)
    requires
        0 <= n <= digits.len(),
    ensures
        digits_value(digits.take(n)) is None ==> digits_value(digits) is None,
        digits_value(digits) is Some ==> digits_value(digits.take(n)) is Some && digits_value(
            digits.take(n),
        )->0 <= digits_value(digits)->0,
    decreases digits.len(),
{
    if n == digits.len() {
        assert(digits.take(n) =~= digits);
    } else {
        assert(digits.drop_last().take(n) =~= digits.take(n));
        lemma_digits_value(digits.drop_last(), n);
    }
}

/// The number that a text stands for.
pub fn parse_number(text: &str) -> (parsed: Option<u32>)
    ensures
        parsed == number(text@),
{
    let chars: Vec<char> = characters(text);
    let start: usize = if chars.len() > 0 && chars[0] == '+' { 1 } else { 0 };
    let ghost digits = if text@.len() > 0 && text@[0] == '+' {
        text@.drop_first()
    } else {
        text@
    };
    assert(digits =~= text@.skip(start as int));
    if start == chars.len() {
        return None;
    }
    let mut value: u64 = 0;
    let mut i: usize = start;
    assert(digits.take(0) =~= Seq::<char>::empty());
    while i < chars.len()
        invariant
            start <= i <= chars@.len(),
            chars@ == text@,
            digits == text@.skip(start as int),
            digits == if text@.len() > 0 && text@[0] == '+' {
                text@.drop_first()
            } else {
                text@
            },
            value <= u32::MAX,
            digits_value(digits.take(i - start)) == Some(value as nat),
        decreases chars@.len() - i,
    {
        let c: char = chars[i];
        assert(digits.take(i - start + 1).drop_last() =~= digits.take(i - start));
        assert(digits.take(i - start + 1).last() == c);
        if c < '0' || c > '9' {
            proof {
                lemma_digits_value(digits, i - start + 1);
            }
            return None;
        }
        let digit: u64 = c as u64 - '0' as u64;
        value = 10 * value + digit;
        if value > u32::MAX as u64 {
            proof {
                lemma_digits_value(digits, i - start + 1);
            }
            return None;
        }
        i += 1;
    }
    assert(digits.take(i - start) =~= digits);
    Some(value as u32)
}

/// A container as the daemon lists it, with what is read of its labels. A
/// container without labels has neither a service nor a number.
#[derive(Debug, Clone)]
pub struct ContainerSummary {
    pub id: Option<String>,
    /// The label that names its service.
    pub service: Option<String>,
    /// The label that numbers it among the containers of its service.
    pub number: Option<String>,
    /// Whether its labels say that it is a passing one, not part of the stack.
    pub transient: bool,
    pub running: bool,
}

/// A [`ContainerSummary`] as a plain value.
pub struct SummaryView {
    pub id: Option<Seq<char>>,
    pub service: Option<Seq<char>>,
    pub number: Option<Seq<char>>,
    pub transient: bool,
    pub running: bool,
}

/// An optional string as a plain value.
pub open spec fn text_view(text: Option<String>) -> Option<Seq<char>> {
    match text {
        Some(t) => Some(t@),
        None => None,
    }
}

impl View for ContainerSummary {
    type V = SummaryView;

    open spec fn view(&self) -> SummaryView {
        SummaryView {
            id: text_view(self.id),
            service: text_view(self.service),
            number: text_view(self.number),
            transient: self.transient,
            running: self.running,
        }
    }
}

/// What is acted on of a listed container: nothing where it is a passing one or
/// has no ID or service. Without a readable number it is the first replica.
pub open spec fn described(summary: SummaryView) -> Option<DescView> {
    match (summary.id, summary.service) {
        (Some(id), Some(service)) => if summary.transient {
            None
        } else {
            Some(
                DescView {
                    id,
                    service,
                    replica: match summary.number {
                        Some(text) => match number(text) {
                            Some(n) => n,
                            None => 1,
                        },
                        None => 1,
                    },
                    running: summary.running,
                },
            )
        },
        _ => None,
    }
}

/// What is acted on of the listed containers, in their order.
pub open spec fn all_described(listed: Seq<SummaryView>) -> Seq<DescView>
    decreases listed.len(),
{
    if listed.len() == 0 {
        Seq::empty()
    } else {
        match described(listed.last()) {
            Some(desc) => all_described(listed.drop_last()).push(desc),
            None => all_described(listed.drop_last()),
        }
    }
}

/// The listed containers as plain values.
pub open spec fn summary_views(listed: Seq<ContainerSummary>) -> Seq<SummaryView> {
    Seq::new(listed.len(), |i: int| listed[i]@)
}

/// What is acted on of a listed container.
fn describe(summary: &ContainerSummary) -> (desc: Option<ContainerDesc>)
    ensures
        (match desc {
            Some(d) => Some(d@),
            None => None,
        }) == described(summary@),
{
    if summary.transient {
        return None;
    }
    match (&summary.id, &summary.service) {
        (Some(id), Some(service)) => {
            let replica: u32 = match &summary.number {
                Some(text) => match parse_number(text.as_str()) {
                    Some(n) => n,
                    None => 1,
                },
                None => 1,
            };
            Some(
                ContainerDesc {
                    id: copied(id),
                    service: copied(service),
                    replica,
                    running: summary.running,
                },
            )
        },
        _ => None,
    }
}

/// What is acted on of the listed containers.
pub fn describe_all(listed: &[ContainerSummary]) -> (descs: Vec<ContainerDesc>)
    ensures
        desc_views(descs@) == all_described(summary_views(listed@)),
{
    let ghost views = summary_views(listed@);
    let mut descs: Vec<ContainerDesc> = Vec::new();
    let mut i: usize = 0;
    while i < listed.len()
        invariant
            i <= listed@.len(),
            views == summary_views(listed@),
            desc_views(descs@) == all_described(views.take(i as int)),
        decreases listed@.len() - i,
    {
        assert(views.take(i + 1).drop_last() =~= views.take(i as int));
        match describe(&listed[i]) {
            Some(desc) => {
                let ghost before = descs@;
                let ghost view = desc@;
                descs.push(desc);
                assert(desc_views(descs@) =~= desc_views(before).push(view));
            },
            None => {},
        }
        i += 1;
    }
    assert(views.take(i as int) =~= views);
    descs
}

/// An attachment to a container.
#[derive(Debug)]
pub struct Attachment {
    pub id: String,
    /// True once the task that reads the stream has exited, for any reason.
    pub finished: bool,
    /// Wall-clock seconds at which the stream ended, so a reattach can resume
    /// from there instead of replaying the whole tail.
    pub ended_at: Option<i64>,
}

/// An [`Attachment`] as a plain value.
pub struct AttachmentView {
    pub id: Seq<char>,
    pub finished: bool,
    pub ended_at: Option<i64>,
}

impl View for Attachment {
    type V = AttachmentView;

    open spec fn view(&self) -> AttachmentView {
        AttachmentView { id: self.id@, finished: self.finished, ended_at: self.ended_at }
    }
}

/// Attachments as plain values.
pub open spec fn attachment_views(attached: Seq<Attachment>) -> Seq<AttachmentView> {
    Seq::new(attached.len(), |i: int| attached[i]@)
}

/// What decides of attachments whether they are renewed.
pub open spec fn liveness(attached: Seq<AttachmentView>) -> Seq<(Seq<char>, bool)> {
    Seq::new(attached.len(), |i: int| (attached[i].id, attached[i].finished))
}

/// Where the attachment to a container is.
pub open spec fn attachment_to(attached: Seq<AttachmentView>, id: Seq<char>) -> Option<int>
    decreases attached.len(),
{
    if attached.len() == 0 {
        None
    } else if attachment_to(attached.drop_last(), id) is Some {
        attachment_to(attached.drop_last(), id)
    } else if attached.last().id == id {
        Some(attached.len() - 1)
    } else {
        None
    }
}

/// When the stream of a container ended, where it has.
pub open spec fn ended(attached: Seq<AttachmentView>, id: Seq<char>) -> Option<i64> {
    match attachment_to(attached, id) {
        Some(i) => attached[i].ended_at,
        None => None,
    }
}

/// The attachments once the task that read a container has exited.
pub open spec fn with_ended(
    attached: Seq<AttachmentView>,
    id: Seq<char>,
    ended_at: i64,
) -> Seq<AttachmentView> {
    match attachment_to(attached, id) {
        Some(i) => attached.update(
            i,
            AttachmentView { finished: true, ended_at: Some(ended_at), ..attached[i] },
        ),
        None => attached,
    }
}

/// The attachments once a container is attached to anew.
pub open spec fn with_attached(
    attached: Seq<AttachmentView>,
    id: Seq<char>,
) -> Seq<AttachmentView> {
    let fresh = AttachmentView { id, finished: false, ended_at: None };
    match attachment_to(attached, id) {
        Some(i) => attached.update(i, fresh),
        None => attached.push(fresh),
    }
}

/// The attachments to containers that are still seen.
pub open spec fn still_seen(attached: Seq<AttachmentView>, seen: Seq<DescView>) -> Seq<
    AttachmentView,
>
    decreases attached.len(),
{
    if attached.len() == 0 {
        Seq::empty()
    } else if is_seen(seen, attached.last().id) {
        still_seen(attached.drop_last(), seen).push(attached.last())
    } else {
        still_seen(attached.drop_last(), seen)
    }
}

/// A log stream to open.
#[derive(Debug)]
pub struct LogRequest {
    pub desc: ContainerDesc,
    /// Unix seconds to resume from, when reattaching.
    pub since: Option<i32>,
    pub tail: String,
}

/// A [`LogRequest`] as a plain value.
pub struct RequestView {
    pub desc: DescView,
    pub since: Option<i32>,
    pub tail: Seq<char>,
}

impl View for LogRequest {
    type V = RequestView;

    open spec fn view(&self) -> RequestView {
        RequestView { desc: self.desc@, since: self.since, tail: self.tail@ }
    }
}

/// The requests as plain values.
pub open spec fn request_views(requests: Seq<LogRequest>) -> Seq<RequestView> {
    Seq::new(requests.len(), |i: int| requests[i]@)
}

/// The attachments once each of `descs` is attached to, one after another.
pub open spec fn attached_all(attached: Seq<AttachmentView>, descs: Seq<DescView>) -> Seq<
    AttachmentView,
>
    decreases descs.len(),
{
    if descs.len() == 0 {
        attached
    } else {
        with_attached(attached_all(attached, descs.drop_last()), descs.last().id)
    }
}

/// The streams to open for each of `descs`, one after another: from where the
/// last one of its container stopped, or with the configured tail.
pub open spec fn requests(attached: Seq<AttachmentView>, descs: Seq<DescView>, tail: nat) -> Seq<
    RequestView,
>
    decreases descs.len(),
{
    if descs.len() == 0 {
        Seq::empty()
    } else {
        let since = ended(attached_all(attached, descs.drop_last()), descs.last().id);
        requests(attached, descs.drop_last(), tail).push(
            RequestView {
                desc: descs.last(),
                since: resume_from(since),
                tail: requested_tail(since, crate::text::decimal(tail)),
            },
        )
    }
}

/// What has happened while the daemon's events are watched.
#[derive(Debug)]
pub enum WatchEvent {
    /// The events have been subscribed to.
    Subscribed,
    /// The task that read a container's log has exited at that moment.
    TaskEnded { id: String, ended_at: i64 },
    /// It is time to list the containers again.
    Tick,
    /// A container event came in, with the action it tells of if it has one.
    Container { action: Option<String> },
    /// The stream of events has ended or failed.
    StreamEnded,
    /// The supervisor is to stop.
    Cancelled,
}

/// What is to be done about it.
#[derive(Debug, Clone, Copy, PartialEq, Eq, Structural)]
pub enum WatchStep {
    /// Nothing.
    Wait,
    /// Tell the application to read the services again.
    Notify,
    /// List the containers and act on the list; then tell the application to
    /// read the services again, if `notify` says so.
    Resync { notify: bool },
    /// Subscribe again, after a while.
    Reconnect,
    /// Cancel every attachment and stop.
    Stop,
}

/// What is to be done about something that has happened.
pub open spec fn step(event: WatchEvent) -> WatchStep {
    match event {
        WatchEvent::Subscribed => WatchStep::Resync { notify: true },
        WatchEvent::TaskEnded { .. } => WatchStep::Notify,
        WatchEvent::Tick => WatchStep::Resync { notify: false },
        WatchEvent::Container { action } => match action {
            None => WatchStep::Wait,
            Some(action) => match decision(action@) {
                EventDecision::Resync => WatchStep::Resync { notify: true },
                EventDecision::NotifyOnly => WatchStep::Notify,
                EventDecision::Ignore => WatchStep::Wait,
            },
        },
        WatchEvent::StreamEnded => WatchStep::Reconnect,
        WatchEvent::Cancelled => WatchStep::Stop,
    }
}

/// Knows which containers are being read, and decides what is done about
/// events and lists.
pub struct LogSupervisor {
    pub project: String,
    /// How many lines of history a fresh attach asks for.
    pub tail: usize,
    pub attached: Vec<Attachment>,
}

/// A [`LogSupervisor`] as a plain value.
pub struct SupervisorView {
    pub project: Seq<char>,
    pub tail: nat,
    pub attached: Seq<AttachmentView>,
}

/// Whether no two attachments are to one container.
pub open spec fn distinct_ids(attached: Seq<AttachmentView>) -> bool {
    forall|i: int, j: int|
        0 <= i < j < attached.len() ==> (#[trigger] attached[i]).id != (#[trigger] attached[j]).id
}

impl SupervisorView {
    /// What holds of every supervisor.
    pub open spec fn wf(self) -> bool {
        distinct_ids(self.attached)
    }
}

/// Where an attachment is found, and that there is none where none is.
proof fn lemma_found(attached: Seq<AttachmentView>, id: Seq<char>)
    ensures
        match attachment_to(attached, id) {
            Some(i) => 0 <= i < attached.len() && attached[i].id == id,
            None => forall|j: int| 0 <= j < attached.len() ==> (#[trigger] attached[j]).id != id,
        },
    decreases attached.len(),
{
    if attached.len() > 0 {
        let init = attached.drop_last();
        lemma_found(init, id);
        if attachment_to(attached, id) is None {
            assert forall|j: int| 0 <= j < attached.len() implies (#[trigger] attached[j]).id
                != id by {
                if j < init.len() {
                    assert(init[j].id != id);
                }
            }
        }
    }
}

/// An attachment that is changed keeps its container, and one that is added is to
/// a new one.
proof fn lemma_distinct_after(attached: Seq<AttachmentView>, id: Seq<char>, ended_at: i64)
    requires
        distinct_ids(attached),
    ensures
        distinct_ids(with_ended(attached, id, ended_at)),
        distinct_ids(with_attached(attached, id)),
{
    lemma_found(attached, id);
    let ended = with_ended(attached, id, ended_at);
    assert forall|i: int, j: int| 0 <= i < j < ended.len() implies (#[trigger] ended[i]).id != (
    #[trigger] ended[j]).id by {
        assert(attached[i].id != attached[j].id);
    }
    let anew = with_attached(attached, id);
    assert forall|i: int, j: int| 0 <= i < j < anew.len() implies (#[trigger] anew[i]).id != (
    #[trigger] anew[j]).id by {
        if j < attached.len() {
            assert(attached[i].id != attached[j].id);
        } else {
            assert(attached[i].id != id);
        }
    }
}

/// Forgetting attachments leaves none twice.
proof fn lemma_distinct_seen(attached: Seq<AttachmentView>, seen: Seq<DescView>)
    requires
        distinct_ids(attached),
    ensures
        distinct_ids(still_seen(attached, seen)),
        forall|k: int|
            0 <= k < still_seen(attached, seen).len() ==> exists|i: int|
                0 <= i < attached.len() && (#[trigger] attached[i]) == #[trigger] still_seen(
                    attached,
                    seen,
                )[k],
    decreases attached.len(),
{
    if attached.len() > 0 {
        let init = attached.drop_last();
        assert forall|i: int, j: int| 0 <= i < j < init.len() implies (#[trigger] init[i]).id != (
        #[trigger] init[j]).id by {
            assert(attached[i].id != attached[j].id);
        }
        lemma_distinct_seen(init, seen);
        let before = still_seen(init, seen);
        let out = still_seen(attached, seen);
        assert forall|k: int| 0 <= k < out.len() implies exists|i: int|
            0 <= i < attached.len() && (#[trigger] attached[i]) == #[trigger] out[k] by {
            if k < before.len() {
                assert(out[k] == before[k]);
                let i = choose|i: int| 0 <= i < init.len() && (#[trigger] init[i]) == before[k];
                assert(attached[i] == out[k]);
            } else {
                assert(attached[attached.len() - 1] == out[k]);
            }
        }
        assert forall|k: int, l: int| 0 <= k < l < out.len() implies (#[trigger] out[k]).id != (
        #[trigger] out[l]).id by {
            assert(out[k] == before[k]);
            if l < before.len() {
                assert(before[k].id != before[l].id);
            } else {
                let i = choose|i: int| 0 <= i < init.len() && (#[trigger] init[i]) == before[k];
                assert(attached[i].id != attached[attached.len() - 1].id);
            }
        }
    }
}

/// Attaching to any containers leaves none attached to twice.
proof fn lemma_distinct_all(attached: Seq<AttachmentView>, descs: Seq<DescView>)
    requires
        distinct_ids(attached),
    ensures
        distinct_ids(attached_all(attached, descs)),
    decreases descs.len(),
{
    if descs.len() > 0 {
        lemma_distinct_all(attached, descs.drop_last());
        lemma_distinct_after(attached_all(attached, descs.drop_last()), descs.last().id, 0);
    }
}

impl View for LogSupervisor {
    type V = SupervisorView;

    open spec fn view(&self) -> SupervisorView {
        SupervisorView {
            project: self.project@,
            tail: self.tail as nat,
            attached: attachment_views(self.attached@),
        }
    }
}

/// Where the attachment to a container is.
fn find_attachment(attached: &Vec<Attachment>, id: &String) -> (at: Option<usize>)
    ensures
        (match at {
            Some(i) => Some(i as int),
            None => None,
        }) == attachment_to(attachment_views(attached@), id@),
        at matches Some(i) ==> i < attached@.len(),
{
    let ghost views = attachment_views(attached@);
    let mut i: usize = 0;
    while i < attached.len()
        invariant
            i <= attached@.len(),
            views == attachment_views(attached@),
            attachment_to(views.take(i as int), id@) is None,
        decreases attached@.len() - i,
    {
        assert(views.take(i + 1).drop_last() =~= views.take(i as int));
        if attached[i].id == *id {
            proof {
                lemma_attachment_to(views, id@, i + 1);
            }
            return Some(i);
        }
        i += 1;
    }
    assert(views.take(i as int) =~= views);
    None
}

/// The first attachment to a container stays the first when more follow.
proof fn lemma_attachment_to(attached: Seq<AttachmentView>, id: Seq<char>, n: int)
    requires
        0 <= n <= attached.len(),
        attachment_to(attached.take(n), id) is Some,
    ensures
        attachment_to(attached, id) == attachment_to(attached.take(n), id),
    decreases attached.len(),
{
    if n == attached.len() {
        assert(attached.take(n) =~= attached);
    } else {
        assert(attached.drop_last().take(n) =~= attached.take(n));
        lemma_attachment_to(attached.drop_last(), id, n);
    }
}

impl LogSupervisor {
    /// A supervisor of a project, with nothing attached.
    pub fn new(project: &str, tail: usize) -> (supervisor: LogSupervisor)
        ensures
            supervisor@.wf(),
            supervisor@ == (SupervisorView {
                project: project@,
                tail: tail as nat,
                attached: Seq::empty(),
            }),
    {
        let supervisor = LogSupervisor { project: project.to_owned(), tail, attached: Vec::new() };
        assert(supervisor@.attached =~= Seq::empty());
        supervisor
    }

    /// Takes note of what has happened and decides what is to be done about it.
    /// A task that has exited clears its attachment's liveness, so the next list
    /// can reattach if the container is still running.
    pub fn watch_events(&mut self, event: WatchEvent) -> (todo: WatchStep)
        requires
            old(self)@.wf(),
        ensures
            final(self)@.wf(),
            todo == step(event),
            final(self)@ == match event {
                WatchEvent::TaskEnded { id, ended_at } => SupervisorView {
                    attached: with_ended(old(self)@.attached, id@, ended_at),
                    ..old(self)@
                },
                _ => old(self)@,
            },
    {
        match event {
            WatchEvent::Subscribed => WatchStep::Resync { notify: true },
            WatchEvent::TaskEnded { id, ended_at } => {
                proof {
                    lemma_distinct_after(self@.attached, id@, ended_at);
                }
                self.task_ended(&id, ended_at);
                WatchStep::Notify
            },
            WatchEvent::Tick => WatchStep::Resync { notify: false },
            WatchEvent::Container { action } => match action {
                None => WatchStep::Wait,
                Some(action) => match event_decision(action.as_str()) {
                    EventDecision::Resync => WatchStep::Resync { notify: true },
                    EventDecision::NotifyOnly => WatchStep::Notify,
                    EventDecision::Ignore => WatchStep::Wait,
                },
            },
            WatchEvent::StreamEnded => WatchStep::Reconnect,
            WatchEvent::Cancelled => WatchStep::Stop,
        }
    }

    /// Notes that the task that read a container has exited.
    fn task_ended(&mut self, id: &String, ended_at: i64)
        ensures
            final(self)@ == (SupervisorView {
                attached: with_ended(old(self)@.attached, id@, ended_at),
                ..old(self)@
            }),
    {
        match find_attachment(&self.attached, id) {
            Some(at) => {
                self.attached[at].finished = true;
                self.attached[at].ended_at = Some(ended_at);
            },
            None => {},
        }
        assert(self@.attached =~= with_ended(old(self)@.attached, id@, ended_at));
    }

    /// Acts on a list of the project's containers: decides which streams to open
    /// and, by ID, which tasks to cancel, each once, and keeps the attachments in
    /// step.
    pub fn resync(&mut self, listed: &[ContainerSummary]) -> (plan: (Vec<LogRequest>, Vec<String>))
        requires
            old(self)@.wf(),
        ensures
            final(self)@.wf(),
            crate::text::texts(plan.1@).no_duplicates(),
            ({
                let seen = all_described(summary_views(listed@));
                let before = old(self)@.attached;
                let kept = still_seen(before, seen);
                let to_attach = wanted(liveness(before), seen);
                &&& request_views(plan.0@) == requests(kept, to_attach, old(self)@.tail)
                &&& crate::text::texts(plan.1@) == gone(liveness(before), seen)
                &&& final(self)@ == (SupervisorView {
                    attached: attached_all(kept, to_attach),
                    ..old(self)@
                })
            }),
    {
        let seen: Vec<ContainerDesc> = describe_all(listed);
        let ghost views = desc_views(seen@);
        let ghost before = self@.attached;
        let ghost kept = still_seen(before, views);

        let mut current: Vec<(String, Attach)> = Vec::new();
        let mut i: usize = 0;
        while i < self.attached.len()
            invariant
                i <= self.attached@.len(),
                *self == *old(self),
                before == self@.attached,
                attach_views(current@) == liveness(before).take(i as int),
            decreases self.attached@.len() - i,
        {
            let ghost done = current@;
            current.push(
                (copied(&self.attached[i].id), Attach { finished: self.attached[i].finished }),
            );
            proof {
                let all = liveness(before);
                assert(attach_views(current@) =~= attach_views(done).push(all[i as int]));
                assert(all.take(i + 1) =~= all.take(i as int).push(all[i as int]));
            }
            i += 1;
        }
        assert(liveness(before).take(i as int) =~= liveness(before));
        let (to_attach, to_drop): (Vec<ContainerDesc>, Vec<String>) = plan_attachments(
            &current,
            &seen,
        );
        self.drop_unseen(&seen);

        let ghost wanted_views = desc_views(to_attach@);
        let mut opened: Vec<LogRequest> = Vec::new();
        let mut j: usize = 0;
        assert(wanted_views.take(0) =~= Seq::<DescView>::empty());
        assert(request_views(opened@) =~= Seq::<RequestView>::empty());
        while j < to_attach.len()
            invariant
                j <= to_attach@.len(),
                wanted_views == desc_views(to_attach@),
                self@ == (SupervisorView {
                    attached: attached_all(kept, wanted_views.take(j as int)),
                    ..old(self)@
                }),
                request_views(opened@) == requests(
                    kept,
                    wanted_views.take(j as int),
                    old(self)@.tail,
                ),
            decreases to_attach@.len() - j,
        {
            assert(wanted_views.take(j + 1).drop_last() =~= wanted_views.take(j as int));
            let ghost done = opened@;
            let request: LogRequest = self.attach(&to_attach[j]);
            let ghost view = request@;
            opened.push(request);
            assert(request_views(opened@) =~= request_views(done).push(view));
            j += 1;
        }
        assert(wanted_views.take(j as int) =~= wanted_views);
        proof {
            assert forall|a: int, b: int| 0 <= a < b < liveness(before).len() implies (
            #[trigger] liveness(before)[a]).0 != (#[trigger] liveness(before)[b]).0 by {
                assert(before[a].id != before[b].id);
            }
            lemma_distinct_seen(before, views);
            lemma_distinct_all(kept, wanted_views);
        }
        (opened, to_drop)
    }

    /// Forgets the attachments to containers that are no longer seen.
    fn drop_unseen(&mut self, seen: &Vec<ContainerDesc>)
        ensures
            final(self)@ == (SupervisorView {
                attached: still_seen(old(self)@.attached, desc_views(seen@)),
                ..old(self)@
            }),
    {
        let ghost views = self@.attached;
        let ghost descs = desc_views(seen@);
        let mut kept: Vec<Attachment> = Vec::new();
        let mut i: usize = 0;
        assert(attachment_views(kept@) =~= Seq::<AttachmentView>::empty());
        while i < self.attached.len()
            invariant
                i <= self.attached@.len(),
                *self == *old(self),
                views == self@.attached,
                descs == desc_views(seen@),
                attachment_views(kept@) == still_seen(views.take(i as int), descs),
            decreases self.attached@.len() - i,
        {
            assert(views.take(i + 1).drop_last() =~= views.take(i as int));
            if has_id(seen, &self.attached[i].id) {
                let ghost done = kept@;
                let entry: &Attachment = &self.attached[i];
                kept.push(
                    Attachment {
                        id: copied(&entry.id),
                        finished: entry.finished,
                        ended_at: entry.ended_at,
                    },
                );
                assert(attachment_views(kept@) =~= attachment_views(done).push(views[i as int]));
            }
            i += 1;
        }
        assert(views.take(i as int) =~= views);
        self.attached = kept;
    }

    /// Attaches to a container: notes it as live, and gives the stream to open.
    fn attach(&mut self, desc: &ContainerDesc) -> (request: LogRequest)
        ensures
            final(self)@ == (SupervisorView {
                attached: with_attached(old(self)@.attached, desc.id@),
                ..old(self)@
            }),
            request@ == ({
                let since = ended(old(self)@.attached, desc.id@);
                RequestView {
                    desc: desc@,
                    since: resume_from(since),
                    tail: requested_tail(since, crate::text::decimal(old(self)@.tail)),
                }
            }),
    {
        let at: Option<usize> = find_attachment(&self.attached, &desc.id);
        let since: Option<i64> = match at {
            Some(i) => self.attached[i].ended_at,
            None => None,
        };
        let fresh = Attachment { id: copied(&desc.id), finished: false, ended_at: None };
        match at {
            Some(i) => {
                self.attached[i] = fresh;
            },
            None => self.attached.push(fresh),
        }
        assert(self@.attached =~= with_attached(old(self)@.attached, desc.id@));
        let mut tail: String = String::new();
        push_decimal(&mut tail, self.tail as u64);
        assert(tail@ =~= crate::text::decimal(old(self)@.tail));
        let window: LogWindow<'_> = log_window(since, tail.as_str());
        LogRequest { desc: desc.copy(), since: window.since, tail: window.tail.to_owned() }
    }
}

} // verus!
