//! What holds of a whole read-back, from its first event to its end.
//!
//! A run is the events that a read-back was handed, one after the other. Beside it stand the worlds in
//! which its actions are carried out: the contents and layouts of the images, the contents of the
//! buffer, and the copy that was kept. What the helper answers and what the composition makes of it is
//! left open: the laws hold whatever it is.

use crate::commands::{in_layout, replay, Command};
use crate::contents::{
    a_read_back_gives_the_images_bytes, a_write_back_shows_the_buffer, begins_with, performed, picture_bytes, written,
    Device, Memory,
};
use crate::readback::{
    both_submissions_restore_the_layout, read_back, readback_next, write_back, ReadbackAction, ReadbackCall,
    ReadbackEvent, ReadbackPhase,
};
use crate::recording::capture_commands;
use crate::vulkan::LAYOUT_PRESENT_SRC;
use vstd::prelude::*;

verus! {

/// The read-back after the first `n` events.
pub open spec fn call_after(c: ReadbackCall, events: Seq<ReadbackEvent>, n: int) -> ReadbackCall
    decreases n,
{
    if n <= 0 {
        c
    } else {
        readback_next(call_after(c, events, n - 1), events[n - 1]).0
    }
}

/// The action that event `i` is answered with.
pub open spec fn action_at(c: ReadbackCall, events: Seq<ReadbackEvent>, i: int) -> ReadbackAction {
    readback_next(call_after(c, events, i), events[i]).1
}

/// Whether the events are those of a whole read-back: it begins with the first, and ends with the
/// last.
pub open spec fn is_whole(c: ReadbackCall, events: Seq<ReadbackEvent>) -> bool {
    &&& c.phase == ReadbackPhase::Starting
    &&& events.len() > 0
    &&& action_at(c, events, events.len() - 1) is Finish
    &&& forall|i: int| 0 <= i < events.len() - 1 ==> !(#[trigger] action_at(c, events, i) is Finish)
}

/// What a read-back works on.
pub struct Scene {
    pub device: Device,
    pub image: u64,
    pub buffer: u64,
}

/// What there is while an action is carried out.
pub struct World {
    pub memory: Memory,
    pub layouts: Map<u64, i32>,
    /// The copy of the buffer that was kept.
    pub kept: Seq<u8>,
}

/// What the image shows.
pub open spec fn shown(s: Scene, w: World) -> Seq<u8> {
    w.memory.images[s.image]
}

/// Whether the image shows the same in both worlds, in the same layout.
pub open spec fn untouched(s: Scene, a: World, b: World) -> bool {
    &&& shown(s, a) == shown(s, b)
    &&& a.layouts.contains_key(s.image) == b.layouts.contains_key(s.image)
    &&& a.layouts[s.image] == b.layouts[s.image]
}

/// Whether `b` is `a` after a submission that worked, or did not. It is performed as a whole or not
/// at all: one that was not waited for in time may have been performed.
pub open spec fn is_submitted(s: Scene, commands: Seq<Command>, worked: bool, a: World, b: World) -> bool {
    let done = {
        &&& b.memory == performed(s.device, a.memory, commands)
        &&& replay(a.layouts, commands) == Some(b.layouts)
        &&& b.kept == a.kept
    };
    done || !worked && b == a
}

/// Whether `b` is `a` after something that works on the buffer, and may work on other images too.
pub open spec fn is_worked_on(s: Scene, a: World, b: World) -> bool {
    &&& untouched(s, a, b)
    &&& b.kept == a.kept
    &&& b.memory.buffers[s.buffer].len() == a.memory.buffers[s.buffer].len()
}

/// Whether `b` is `a` after an action of a read-back was carried out, `event` being what came of it.
pub open spec fn is_carried_out(
    s: Scene,
    c: ReadbackCall,
    action: ReadbackAction,
    event: ReadbackEvent,
    a: World,
    b: World,
) -> bool {
    let worked = event == ReadbackEvent::Flag(true);
    match action {
        ReadbackAction::Ensure { bytes, .. } => untouched(s, a, b) && (worked ==> b.memory.buffers[s.buffer].len()
            >= bytes),
        ReadbackAction::ReadBack => is_submitted(
            s,
            capture_commands(read_back(s.image, s.buffer, c.width, c.height)),
            worked,
            a,
            b,
        ),
        ReadbackAction::RoundTrip { bytes } => {
            &&& untouched(s, a, b)
            &&& b.memory.buffers[s.buffer] == a.memory.buffers[s.buffer]
            &&& b.kept == a.memory.buffers[s.buffer].take(bytes as int)
        },
        ReadbackAction::ReadAnswer { .. } | ReadbackAction::Compose | ReadbackAction::ComposeOnCpu { .. } =>
        is_worked_on(s, a, b),
        ReadbackAction::Restore => untouched(s, a, b) && b.kept == a.kept && b.memory.buffers[s.buffer] == written(
            a.memory.buffers[s.buffer],
            0,
            a.kept,
        ),
        ReadbackAction::TakeCaptureRequest | ReadbackAction::Dump => is_worked_on(s, a, b)
            && b.memory.buffers[s.buffer] == a.memory.buffers[s.buffer],
        ReadbackAction::WriteBack => is_submitted(
            s,
            write_back(s.image, s.buffer, c.width, c.height),
            worked,
            a,
            b,
        ),
        ReadbackAction::Finish { .. } => b == a,
    }
}

/// Whether the actions of a read-back are carried out in these worlds: action `i` in world `i`, which
/// leads to the next world and the next event. It begins with a presentable image that holds a whole
/// frame.
pub open spec fn is_performed(s: Scene, c: ReadbackCall, events: Seq<ReadbackEvent>, worlds: Seq<World>) -> bool {
    &&& is_whole(c, events)
    &&& worlds.len() == events.len()
    &&& s.device.pixel == c.bytes_per_pixel
    &&& c.width * c.height * c.bytes_per_pixel <= u64::MAX
    &&& shown(s, worlds[0]).len() == picture_bytes(s.device, c.width, c.height)
    &&& in_layout(worlds[0].layouts, s.image, LAYOUT_PRESENT_SRC)
    &&& forall|i: int|
        0 <= i < events.len() - 1 ==> is_carried_out(
            s,
            c,
            #[trigger] action_at(c, events, i),
            events[i + 1],
            worlds[i],
            worlds[i + 1],
        )
}

/// The part of a read-back in which the buffer is settled.
pub open spec fn is_settled(phase: ReadbackPhase) -> bool {
    phase == ReadbackPhase::AskingForDump || phase == ReadbackPhase::Dumping || phase == ReadbackPhase::WritingBack
}

/// What holds in world `w` while the action of call `c` is about to be carried out.
spec fn holds(s: Scene, start: World, c: ReadbackCall, action: ReadbackAction, w: World) -> bool {
    let frame = shown(s, start);
    let buffer = w.memory.buffers[s.buffer];
    &&& untouched(s, start, w)
    &&& match c.phase {
        ReadbackPhase::Starting | ReadbackPhase::Finished => false,
        ReadbackPhase::Ensuring => action matches ReadbackAction::Ensure { bytes, .. } && bytes == frame.len(),
        ReadbackPhase::ReadingBack => action == ReadbackAction::ReadBack && buffer.len() >= frame.len(),
        ReadbackPhase::RoundTrip => action matches ReadbackAction::RoundTrip { bytes } && bytes == frame.len()
            && begins_with(w.memory, s.buffer, frame),
        ReadbackPhase::ReadingAnswer => action is ReadAnswer,
        ReadbackPhase::Composing => action == ReadbackAction::Compose,
        ReadbackPhase::ComposingOnCpu => action is ComposeOnCpu,
        ReadbackPhase::Restoring => action == ReadbackAction::Restore,
        ReadbackPhase::AskingForDump => action == ReadbackAction::TakeCaptureRequest,
        ReadbackPhase::Dumping => action == ReadbackAction::Dump,
        ReadbackPhase::WritingBack => action == ReadbackAction::WriteBack,
    }
    &&& !(c.phase == ReadbackPhase::Ensuring || c.phase == ReadbackPhase::ReadingBack || c.phase
        == ReadbackPhase::RoundTrip) ==> w.kept == frame && buffer.len() >= frame.len()
    &&& is_settled(c.phase) && !c.answered ==> begins_with(w.memory, s.buffer, frame)
    &&& c.phase == ReadbackPhase::ReadingAnswer || c.phase == ReadbackPhase::Composing || c.phase
        == ReadbackPhase::ComposingOnCpu || c.phase == ReadbackPhase::Restoring ==> c.answered
}

/// The same read-back, at another point.
spec fn same_frame(a: ReadbackCall, b: ReadbackCall) -> bool {
    a.width == b.width && a.height == b.height && a.bytes_per_pixel == b.bytes_per_pixel
}

proof fn lemma_layouts(s: Scene, a: World, b: World, c: ReadbackCall, commands: Seq<Command>, worked: bool)
    requires
        is_submitted(s, commands, worked, a, b),
        in_layout(a.layouts, s.image, LAYOUT_PRESENT_SRC),
        commands == capture_commands(read_back(s.image, s.buffer, c.width, c.height)) || commands == write_back(
            s.image,
            s.buffer,
            c.width,
            c.height,
        ),
    ensures
        b.layouts == a.layouts,
{
    both_submissions_restore_the_layout(a.layouts, s.image, s.buffer, c.width, c.height);
}

proof fn lemma_step(
    s: Scene,
    start: World,
    c0: ReadbackCall,
    c: ReadbackCall,
    action: ReadbackAction,
    event: ReadbackEvent,
    a: World,
    b: World,
)
    requires
        same_frame(c0, c),
        shown(s, start).len() == c.width * c.height * c.bytes_per_pixel <= u64::MAX,
        in_layout(start.layouts, s.image, LAYOUT_PRESENT_SRC),
        holds(s, start, c, action, a),
        is_carried_out(s, c0, action, event, a, b),
        !(readback_next(c, event).1 is Finish),
    ensures
        holds(s, start, readback_next(c, event).0, readback_next(c, event).1, b),
        same_frame(c0, readback_next(c, event).0),
{
    let frame = shown(s, start);
    if action is ReadBack {
        let commands = capture_commands(read_back(s.image, s.buffer, c.width, c.height));
        lemma_layouts(s, a, b, c, commands, true);
        a_read_back_gives_the_images_bytes(s.device, a.memory, s.image, s.buffer, c.width, c.height, frame);
    }
    if action is RoundTrip {
        assert(a.memory.buffers[s.buffer].take(frame.len() as int) == frame);
    }
    if action is Restore {
        let bytes = a.memory.buffers[s.buffer];
        assert(written(bytes, 0, frame).take(frame.len() as int) =~= frame);
    }
}

/// Until its end, a read-back leaves the image as it was, keeps the frame, and answers every event with
/// the action of its phase.
proof fn lemma_run(s: Scene, c: ReadbackCall, events: Seq<ReadbackEvent>, worlds: Seq<World>, i: int)
    requires
        is_performed(s, c, events, worlds),
        0 <= i < events.len() - 1,
    ensures
        holds(s, worlds[0], call_after(c, events, i + 1), action_at(c, events, i), worlds[i]),
        same_frame(c, call_after(c, events, i + 1)),
    decreases i,
{
    assert(!(action_at(c, events, i) is Finish));
    if i == 0 {
        assert(call_after(c, events, 0) == c);
    } else {
        lemma_run(s, c, events, worlds, i - 1);
        let before = call_after(c, events, i);
        assert(is_carried_out(s, c, action_at(c, events, i - 1), events[i - 1 + 1], worlds[i - 1], worlds[i - 1 + 1]));
        lemma_step(
            s,
            worlds[0],
            c,
            before,
            action_at(c, events, i - 1),
            events[i],
            worlds[i - 1],
            worlds[i],
        );
    }
}

/// The end of a read-back: the image is as it was, unless the last thing was to write onto it; then it
/// is as it was or shows what the buffer held, and the latter where that worked.
proof fn lemma_end(s: Scene, c: ReadbackCall, events: Seq<ReadbackEvent>, worlds: Seq<World>)
    requires
        is_performed(s, c, events, worlds),
    ensures
        ({
            let n = events.len() as int;
            let frame = shown(s, worlds[0]);
            let end = action_at(c, events, n - 1);
            let last = worlds[n - 1];
            &&& in_layout(last.layouts, s.image, LAYOUT_PRESENT_SRC)
            &&& if n > 1 && action_at(c, events, n - 2) == ReadbackAction::WriteBack {
                let sent = worlds[n - 2].memory.buffers[s.buffer].take(frame.len() as int);
                let worked = events[n - 1] == ReadbackEvent::Flag(true);
                &&& shown(s, last) == sent || !worked && shown(s, last) == frame
                &&& end == (ReadbackAction::Finish {
                    timing: if worked {
                        Some(call_after(c, events, n - 1).answered)
                    } else {
                        None
                    },
                })
            } else {
                &&& untouched(s, worlds[0], last)
                &&& end == ReadbackAction::Finish { timing: None }
            }
        }),
{
    let n = events.len() as int;
    let frame = shown(s, worlds[0]);
    if n > 1 {
        lemma_run(s, c, events, worlds, n - 2);
        let (a, b) = (worlds[n - 2], worlds[n - 1]);
        let at = call_after(c, events, n - 1);
        let action = action_at(c, events, n - 2);
        assert(is_carried_out(s, c, action, events[n - 2 + 1], a, worlds[n - 2 + 1]));
        let worked = events[n - 1] == ReadbackEvent::Flag(true);
        if action is ReadBack {
            let commands = capture_commands(read_back(s.image, s.buffer, c.width, c.height));
            lemma_layouts(s, a, b, c, commands, worked);
            a_read_back_gives_the_images_bytes(s.device, a.memory, s.image, s.buffer, c.width, c.height, frame);
        }
        if action is WriteBack {
            lemma_layouts(s, a, b, c, write_back(s.image, s.buffer, c.width, c.height), worked);
            let sent = a.memory.buffers[s.buffer].take(frame.len() as int);
            a_write_back_shows_the_buffer(s.device, a.memory, s.image, s.buffer, c.width, c.height, sent);
        }
    } else {
        assert(call_after(c, events, 0) == c);
    }
}

/// What is settled stays so: from the point on at which the buffer begins with `bytes` and the dump is
/// asked after, it begins with them until the end.
proof fn lemma_settled(
    s: Scene,
    c: ReadbackCall,
    events: Seq<ReadbackEvent>,
    worlds: Seq<World>,
    bytes: Seq<u8>,
    from: int,
    i: int,
)
    requires
        is_performed(s, c, events, worlds),
        0 <= from <= i < events.len() - 1,
        is_settled(call_after(c, events, from + 1).phase),
        begins_with(worlds[from].memory, s.buffer, bytes),
    ensures
        is_settled(call_after(c, events, i + 1).phase),
        begins_with(worlds[i].memory, s.buffer, bytes),
        call_after(c, events, i + 1).answered == call_after(c, events, from + 1).answered,
    decreases i,
{
    if from < i {
        lemma_settled(s, c, events, worlds, bytes, from, i - 1);
        lemma_run(s, c, events, worlds, i - 1);
        lemma_run(s, c, events, worlds, i);
        assert(is_carried_out(s, c, action_at(c, events, i - 1), events[i - 1 + 1], worlds[i - 1], worlds[i - 1 + 1]));
    }
}

/// Writing comes last: what follows it is the end.
proof fn lemma_write_back_is_last(s: Scene, c: ReadbackCall, events: Seq<ReadbackEvent>, worlds: Seq<World>, i: int)
    requires
        is_performed(s, c, events, worlds),
        0 <= i < events.len(),
        action_at(c, events, i) == ReadbackAction::WriteBack,
    ensures
        i == events.len() - 2,
{
    if i < events.len() - 2 {
        lemma_run(s, c, events, worlds, i);
        lemma_run(s, c, events, worlds, i + 1);
    }
}

/// A read-back that fails leaves the image as it was: where it comes to its end without writing, the
/// image shows what it showed, in the layout it had, and no timing is published.
pub proof fn a_failed_read_back_leaves_the_image_alone(
    s: Scene,
    c: ReadbackCall,
    events: Seq<ReadbackEvent>,
    worlds: Seq<World>,
)
    requires
        is_performed(s, c, events, worlds),
        forall|i: int| 0 <= i < events.len() ==> #[trigger] action_at(c, events, i) != ReadbackAction::WriteBack,
    ensures
        untouched(s, worlds[0], worlds.last()),
        action_at(c, events, events.len() - 1) == (ReadbackAction::Finish { timing: None }),
{
    lemma_end(s, c, events, worlds);
    if events.len() > 1 {
        assert(action_at(c, events, events.len() - 2) != ReadbackAction::WriteBack);
    }
}

/// Until the image is written onto, it shows the frame, whatever happens; it is written onto at most
/// once, as the last thing; and whatever comes of it, the image can be presented in the end.
pub proof fn the_image_is_always_presentable(
    s: Scene,
    c: ReadbackCall,
    events: Seq<ReadbackEvent>,
    worlds: Seq<World>,
    i: int,
)
    requires
        is_performed(s, c, events, worlds),
        0 <= i < events.len(),
    ensures
        in_layout(worlds[i].layouts, s.image, LAYOUT_PRESENT_SRC),
        i < events.len() - 1 ==> untouched(s, worlds[0], worlds[i]),
        action_at(c, events, i) == ReadbackAction::WriteBack ==> i == events.len() - 2,
{
    if i < events.len() - 1 {
        lemma_run(s, c, events, worlds, i);
    } else {
        lemma_end(s, c, events, worlds);
    }
    if action_at(c, events, i) == ReadbackAction::WriteBack {
        lemma_write_back_is_last(s, c, events, worlds, i);
    }
}

/// What is known of the answer, once the round trip is over, is what came of the round trip.
proof fn lemma_answered(s: Scene, c: ReadbackCall, events: Seq<ReadbackEvent>, worlds: Seq<World>, i: int)
    requires
        is_performed(s, c, events, worlds),
        0 <= i < events.len() - 1,
        rank(call_after(c, events, i + 1).phase) > rank(ReadbackPhase::RoundTrip),
    ensures
        exists|k: int|
            0 <= k < i && #[trigger] action_at(c, events, k) is RoundTrip && events[k + 1] == ReadbackEvent::Flag(
                call_after(c, events, i + 1).answered,
            ),
    decreases i,
{
    lemma_run(s, c, events, worlds, i);
    if i > 0 {
        lemma_run(s, c, events, worlds, i - 1);
        let before = call_after(c, events, i);
        if before.phase == ReadbackPhase::RoundTrip {
            assert(action_at(c, events, i - 1) is RoundTrip);
            assert(events[i - 1 + 1] == ReadbackEvent::Flag(call_after(c, events, i + 1).answered));
        } else {
            lemma_answered(s, c, events, worlds, i - 1);
        }
    }
}

/// A read-back that publishes its timing has shown what the buffer held when it was written, and says
/// what came of the round trip.
pub proof fn a_finished_read_back_shows_the_buffer(
    s: Scene,
    c: ReadbackCall,
    events: Seq<ReadbackEvent>,
    worlds: Seq<World>,
    answered: bool,
)
    requires
        is_performed(s, c, events, worlds),
        action_at(c, events, events.len() - 1) == (ReadbackAction::Finish { timing: Some(answered) }),
    ensures
        events.len() > 1,
        action_at(c, events, events.len() - 2) == ReadbackAction::WriteBack,
        shown(s, worlds.last()) == worlds[events.len() - 2].memory.buffers[s.buffer].take(
            shown(s, worlds[0]).len() as int,
        ),
        exists|k: int|
            0 <= k < events.len() - 2 && #[trigger] action_at(c, events, k) is RoundTrip && events[k + 1]
                == ReadbackEvent::Flag(answered),
{
    lemma_end(s, c, events, worlds);
    lemma_run(s, c, events, worlds, events.len() - 2);
    lemma_answered(s, c, events, worlds, events.len() - 2);
}

/// A frame that the helper does not answer is shown as it was: what is written onto the image is
/// exactly what was read from it, so that whatever comes of it, the image shows the frame.
pub proof fn an_unanswered_frame_is_shown_as_it_was(
    s: Scene,
    c: ReadbackCall,
    events: Seq<ReadbackEvent>,
    worlds: Seq<World>,
    k: int,
)
    requires
        is_performed(s, c, events, worlds),
        0 <= k < events.len() - 1,
        action_at(c, events, k) is RoundTrip,
        events[k + 1] == ReadbackEvent::Flag(false),
    ensures
        untouched(s, worlds[0], worlds.last()),
        forall|i: int|
            0 <= i < events.len() && #[trigger] action_at(c, events, i) == ReadbackAction::WriteBack ==> begins_with(
                worlds[i].memory,
                s.buffer,
                shown(s, worlds[0]),
            ),
        forall|answered: bool|
            action_at(c, events, events.len() - 1) == (ReadbackAction::Finish { timing: Some(answered) })
                ==> !answered,
{
    lemma_run(s, c, events, worlds, k);
    assert(call_after(c, events, k + 2) == readback_next(call_after(c, events, k + 1), events[k + 1]).0);
    assert(action_at(c, events, k + 1) == ReadbackAction::TakeCaptureRequest);
    assert(k + 1 < events.len() - 1);
    lemma_run(s, c, events, worlds, k + 1);
    lemma_clean(s, c, events, worlds, k + 1);
}

/// From a point on at which the buffer holds the frame and the dump is asked after, the image keeps
/// showing the frame.
proof fn lemma_clean(s: Scene, c: ReadbackCall, events: Seq<ReadbackEvent>, worlds: Seq<World>, from: int)
    requires
        is_performed(s, c, events, worlds),
        0 <= from < events.len() - 1,
        call_after(c, events, from + 1).phase == ReadbackPhase::AskingForDump,
        begins_with(worlds[from].memory, s.buffer, shown(s, worlds[0])),
    ensures
        untouched(s, worlds[0], worlds.last()),
        call_after(c, events, events.len() - 1).answered == call_after(c, events, from + 1).answered,
        forall|i: int|
            0 <= i < events.len() && #[trigger] action_at(c, events, i) == ReadbackAction::WriteBack ==> begins_with(
                worlds[i].memory,
                s.buffer,
                shown(s, worlds[0]),
            ),
        forall|answered: bool|
            action_at(c, events, events.len() - 1) == (ReadbackAction::Finish { timing: Some(answered) })
                ==> answered == call_after(c, events, events.len() - 1).answered,
{
    let frame = shown(s, worlds[0]);
    let n = events.len() as int;
    lemma_settled(s, c, events, worlds, frame, from, n - 2);
    lemma_end(s, c, events, worlds);
    assert forall|i: int|
        0 <= i < n && #[trigger] action_at(c, events, i) == ReadbackAction::WriteBack implies begins_with(
        worlds[i].memory,
        s.buffer,
        frame,
    ) by {
        lemma_write_back_is_last(s, c, events, worlds, i);
    }
}

/// A pass that is switched off shows the clean frame: once the copy that was kept is put back, what is
/// written onto the image is exactly what was read from it.
pub proof fn a_restored_frame_is_shown_as_it_was(
    s: Scene,
    c: ReadbackCall,
    events: Seq<ReadbackEvent>,
    worlds: Seq<World>,
    k: int,
)
    requires
        is_performed(s, c, events, worlds),
        0 <= k < events.len() - 1,
        action_at(c, events, k) == ReadbackAction::Restore,
    ensures
        untouched(s, worlds[0], worlds.last()),
        forall|i: int|
            0 <= i < events.len() && #[trigger] action_at(c, events, i) == ReadbackAction::WriteBack ==> begins_with(
                worlds[i].memory,
                s.buffer,
                shown(s, worlds[0]),
            ),
{
    let frame = shown(s, worlds[0]);
    lemma_run(s, c, events, worlds, k);
    lemma_end(s, c, events, worlds);
    assert(is_carried_out(s, c, action_at(c, events, k), events[k + 1], worlds[k], worlds[k + 1]));
    let bytes = worlds[k].memory.buffers[s.buffer];
    assert(written(bytes, 0, frame).take(frame.len() as int) =~= frame);
    assert(call_after(c, events, k + 2) == readback_next(call_after(c, events, k + 1), events[k + 1]).0);
    if k + 1 < events.len() - 1 {
        lemma_run(s, c, events, worlds, k + 1);
        lemma_clean(s, c, events, worlds, k + 1);
    } else {
        assert forall|i: int|
            0 <= i < events.len() && #[trigger] action_at(c, events, i) == ReadbackAction::WriteBack implies begins_with(
            worlds[i].memory,
            s.buffer,
            frame,
        ) by {
            lemma_write_back_is_last(s, c, events, worlds, i);
        }
    }
}

/// A dump is of one frame: its first picture is the frame that the image showed when the present began,
/// and its second is what is then written onto the image.
pub proof fn a_dump_is_of_one_frame(
    s: Scene,
    c: ReadbackCall,
    events: Seq<ReadbackEvent>,
    worlds: Seq<World>,
    k: int,
)
    requires
        is_performed(s, c, events, worlds),
        0 <= k < events.len() - 1,
        action_at(c, events, k) == ReadbackAction::Dump,
    ensures
        worlds[k].kept == shown(s, worlds[0]),
        forall|answered: bool|
            action_at(c, events, events.len() - 1) == (ReadbackAction::Finish { timing: Some(answered) }) ==> shown(
                s,
                worlds.last(),
            ) == worlds[k].memory.buffers[s.buffer].take(shown(s, worlds[0]).len() as int),
{
    let frame = shown(s, worlds[0]);
    let second = worlds[k].memory.buffers[s.buffer].take(frame.len() as int);
    lemma_run(s, c, events, worlds, k);
    lemma_settled(s, c, events, worlds, second, k, events.len() - 2);
    lemma_end(s, c, events, worlds);
}

/// How far a read-back has come.
spec fn rank(phase: ReadbackPhase) -> int {
    match phase {
        ReadbackPhase::Starting => 0,
        ReadbackPhase::Ensuring => 1,
        ReadbackPhase::ReadingBack => 2,
        ReadbackPhase::RoundTrip => 3,
        ReadbackPhase::ReadingAnswer => 4,
        ReadbackPhase::Composing => 5,
        ReadbackPhase::ComposingOnCpu | ReadbackPhase::Restoring => 6,
        ReadbackPhase::AskingForDump => 7,
        ReadbackPhase::Dumping => 8,
        ReadbackPhase::WritingBack => 9,
        ReadbackPhase::Finished => 10,
    }
}

proof fn lemma_rank(c: ReadbackCall, events: Seq<ReadbackEvent>, n: int)
    requires
        c.phase == ReadbackPhase::Starting,
        forall|i: int| 0 <= i < events.len() ==> !(#[trigger] action_at(c, events, i) is Finish),
        0 <= n <= events.len(),
    ensures
        n <= rank(call_after(c, events, n).phase) < rank(ReadbackPhase::Finished),
    decreases n,
{
    if n > 0 {
        lemma_rank(c, events, n - 1);
        assert(!(action_at(c, events, n - 1) is Finish));
    }
}

/// A read-back comes to its end, whatever it is told: it is over with the tenth event at the latest.
pub proof fn a_read_back_takes_few_steps(c: ReadbackCall, events: Seq<ReadbackEvent>)
    requires
        c.phase == ReadbackPhase::Starting,
        events.len() >= 10,
    ensures
        exists|i: int| 0 <= i < 10 && #[trigger] action_at(c, events, i) is Finish,
{
    if forall|i: int| 0 <= i < 10 ==> !(#[trigger] action_at(c, events, i) is Finish) {
        let first = events.take(10);
        assert forall|i: int| 0 <= i < 10 implies !(#[trigger] action_at(c, first, i) is Finish) by {
            lemma_same_start(c, events, first, i);
            assert(!(action_at(c, events, i) is Finish));
        }
        lemma_rank(c, first, 10);
    }
}

proof fn lemma_same_start(c: ReadbackCall, events: Seq<ReadbackEvent>, first: Seq<ReadbackEvent>, n: int)
    requires
        first == events.take(10),
        events.len() >= 10,
        0 <= n < 10,
    ensures
        call_after(c, first, n) == call_after(c, events, n),
    decreases n,
{
    if n > 0 {
        lemma_same_start(c, events, first, n - 1);
    }
}

} // verus!
