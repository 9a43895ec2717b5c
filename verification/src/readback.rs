//! A present that is worked on from start to end before it returns, for a dump of the frame.
//!
//! The frame is read back, sent, answered and composed, dumped if that is still asked for, and
//! written onto the image again. Whatever fails on the way leaves the image as it was: each of the
//! two submissions leaves it in the layout it found it in.

use crate::capture_step::{ensure, Ensure};
use crate::commands::{image_barrier, image_barrier_spec, in_layout, replay, replay_unrolls, Command, Region};
use crate::present::{raster_bytes, spec_raster_bytes};
use crate::recording::{capture_commands, capture_restores_the_layout, record_capture_commands, CaptureRecording};
use crate::vulkan::{
    ACCESS_NONE, ACCESS_TRANSFER_WRITE, LAYOUT_PRESENT_SRC, LAYOUT_TRANSFER_DST, STAGE_ALL_COMMANDS,
    STAGE_TRANSFER,
};
use vstd::prelude::*;

verus! {

/// The capture of a presentable image into a buffer.
pub open spec fn read_back(image: u64, buffer: u64, width: u32, height: u32) -> CaptureRecording {
    CaptureRecording {
        image,
        initial_layout: LAYOUT_PRESENT_SRC,
        buffer,
        extra_dst: None,
        width,
        height,
        model: None,
        encode: None,
    }
}

/// Records the copy of a presentable image to a buffer.
pub fn record_read_back(image: u64, buffer: u64, width: u32, height: u32) -> (commands: Vec<Command>)
    ensures
        commands@ == capture_commands(read_back(image, buffer, width, height)),
{
    record_capture_commands(
        CaptureRecording {
            image,
            initial_layout: LAYOUT_PRESENT_SRC,
            buffer,
            extra_dst: None,
            width,
            height,
            model: None,
            encode: None,
        },
    )
}

/// The copy of a buffer onto a presentable image.
pub open spec fn write_back(image: u64, buffer: u64, width: u32, height: u32) -> Seq<Command> {
    seq![
        image_barrier_spec(
            STAGE_ALL_COMMANDS,
            STAGE_TRANSFER,
            image,
            LAYOUT_PRESENT_SRC,
            LAYOUT_TRANSFER_DST,
            ACCESS_NONE,
            ACCESS_TRANSFER_WRITE,
        ),
        Command::CopyBufferToImage {
            buffer,
            image,
            layout: LAYOUT_TRANSFER_DST,
            region: Region { buffer_offset: 0, width, height },
        },
        image_barrier_spec(
            STAGE_TRANSFER,
            STAGE_ALL_COMMANDS,
            image,
            LAYOUT_TRANSFER_DST,
            LAYOUT_PRESENT_SRC,
            ACCESS_TRANSFER_WRITE,
            ACCESS_NONE,
        ),
    ]
}

/// Records the copy of a buffer onto a presentable image.
pub fn record_write_back(image: u64, buffer: u64, width: u32, height: u32) -> (commands: Vec<Command>)
    ensures
        commands@ == write_back(image, buffer, width, height),
{
    let mut commands: Vec<Command> = Vec::new();
    commands.push(
        image_barrier(
            STAGE_ALL_COMMANDS,
            STAGE_TRANSFER,
            image,
            LAYOUT_PRESENT_SRC,
            LAYOUT_TRANSFER_DST,
            ACCESS_NONE,
            ACCESS_TRANSFER_WRITE,
        ),
    );
    commands.push(
        Command::CopyBufferToImage {
            buffer,
            image,
            layout: LAYOUT_TRANSFER_DST,
            region: Region { buffer_offset: 0, width, height },
        },
    );
    commands.push(
        image_barrier(
            STAGE_TRANSFER,
            STAGE_ALL_COMMANDS,
            image,
            LAYOUT_TRANSFER_DST,
            LAYOUT_PRESENT_SRC,
            ACCESS_TRANSFER_WRITE,
            ACCESS_NONE,
        ),
    );
    commands
}

/// Reading a presentable image back and writing onto it each leave it presentable, and change the
/// layout of nothing.
pub proof fn both_submissions_restore_the_layout(
    layouts: Map<u64, i32>,
    image: u64,
    buffer: u64,
    width: u32,
    height: u32,
)
    requires
        in_layout(layouts, image, LAYOUT_PRESENT_SRC),
    ensures
        replay(layouts, capture_commands(read_back(image, buffer, width, height))) == Some(layouts),
        replay(layouts, write_back(image, buffer, width, height)) == Some(layouts),
{
    capture_restores_the_layout(layouts, read_back(image, buffer, width, height));
    let c = write_back(image, buffer, width, height);
    let mid = layouts.insert(image, LAYOUT_TRANSFER_DST);
    replay_unrolls(layouts, c);
    assert(replay(layouts, c.take(1)) == Some(mid));
    assert(replay(layouts, c.take(2)) == Some(mid));
    assert(mid.insert(image, LAYOUT_PRESENT_SRC) =~= layouts);
    assert(replay(layouts, c.take(3)) == Some(layouts));
}

/// Whether an answer can be written onto an image of four bytes a pixel: it is exactly of its size.
pub fn write_back_fits(length: usize, width: u32, height: u32) -> (fits: bool)
    ensures
        fits == (length == width * height * 4),
{
    assert(0 <= width * height * 4 <= 0xffff_ffff * 0xffff_ffff * 4) by (nonlinear_arith)
        requires
            0 <= width <= 0xffff_ffff,
            0 <= height <= 0xffff_ffff,
    ;
    assert(0 <= width * height <= 0xffff_ffff * 0xffff_ffff) by (nonlinear_arith)
        requires
            0 <= width <= 0xffff_ffff,
            0 <= height <= 0xffff_ffff,
    ;
    length as u128 == width as u128 * height as u128 * 4
}

/// The settings that decide how an answer is composed.
#[derive(Clone, Copy, Debug, PartialEq, Eq, Structural)]
pub struct SyncSettings {
    pub apply_model: bool,
    pub neural_enabled: bool,
    pub debug_view: u32,
}

/// Where a read-back stands.
#[derive(Clone, Copy, Debug, PartialEq, Eq, Structural)]
pub enum ReadbackPhase {
    Starting,
    Ensuring,
    ReadingBack,
    RoundTrip,
    ReadingAnswer,
    Composing,
    ComposingOnCpu,
    Restoring,
    AskingForDump,
    Dumping,
    WritingBack,
    Finished,
}

/// What the caller found.
#[derive(Clone, Copy, Debug)]
pub enum ReadbackEvent {
    /// The present begins. `existing` is the queue family and capacity of the buffer there is.
    Begin { existing: Option<(u32, u64)> },
    /// The action worked, or the question was answered with yes, or not.
    Flag(bool),
    /// The answer was read, and these are the settings, where the channel has any.
    AnswerRead { settings: Option<SyncSettings> },
    Done,
}

/// What to do next.
#[derive(Clone, Copy, Debug, PartialEq, Eq, Structural)]
pub enum ReadbackAction {
    /// Keep the buffer, or build one of `bytes` bytes.
    Ensure { plan: Ensure, bytes: u64 },
    /// Copy the image to the buffer, and wait for it.
    ReadBack,
    /// Keep a copy of the buffer, send it on slot 0, and wait for the answer.
    RoundTrip { bytes: u64 },
    /// Read the answer over the buffer.
    ReadAnswer { bytes: u64 },
    /// Compose on the GPU, over the buffer.
    Compose,
    /// Compose on the CPU, over the buffer.
    ComposeOnCpu { debug_view: u32 },
    /// Put the copy that was kept back into the buffer.
    Restore,
    /// Was a dump asked for? Asking takes the request.
    TakeCaptureRequest,
    /// Dump the copy that was kept and the buffer.
    Dump,
    /// Copy the buffer onto the image, and wait for it.
    WriteBack,
    /// The present is over. Its timing is published where there is one, with whether it was
    /// answered.
    Finish { timing: Option<bool> },
}

/// A read-back under way.
#[derive(Clone, Copy, Debug, PartialEq, Eq, Structural)]
pub struct ReadbackCall {
    pub width: u32,
    pub height: u32,
    pub bytes_per_pixel: u32,
    pub eight_bit: bool,
    pub queue_family: u32,
    pub region_capacity: u64,
    pub phase: ReadbackPhase,
    /// The helper has answered.
    pub answered: bool,
    /// The view to compose, kept for the CPU.
    pub debug_view: u32,
}

/// On to another phase.
pub open spec fn readback_go(c: ReadbackCall, phase: ReadbackPhase, action: ReadbackAction) -> (
    ReadbackCall,
    ReadbackAction,
) {
    (ReadbackCall { phase, ..c }, action)
}

pub open spec fn readback_finish(c: ReadbackCall, timing: Option<bool>) -> (ReadbackCall, ReadbackAction) {
    readback_go(c, ReadbackPhase::Finished, ReadbackAction::Finish { timing })
}

/// What becomes of an answer: only eight-bit frames are composed; without settings the answer
/// stands as it is; with the pass switched off the frame itself is shown; and only the plain view is
/// composed on the GPU.
pub open spec fn composition(c: ReadbackCall, settings: Option<SyncSettings>) -> (ReadbackCall, ReadbackAction) {
    match settings {
        Some(s) => if !c.eight_bit {
            readback_go(c, ReadbackPhase::AskingForDump, ReadbackAction::TakeCaptureRequest)
        } else if !s.apply_model || !s.neural_enabled {
            readback_go(c, ReadbackPhase::Restoring, ReadbackAction::Restore)
        } else if s.debug_view == 0 {
            readback_go(
                ReadbackCall { debug_view: 0, ..c },
                ReadbackPhase::Composing,
                ReadbackAction::Compose,
            )
        } else {
            readback_go(
                ReadbackCall { debug_view: s.debug_view, ..c },
                ReadbackPhase::ComposingOnCpu,
                ReadbackAction::ComposeOnCpu { debug_view: s.debug_view },
            )
        },
        None => readback_go(c, ReadbackPhase::AskingForDump, ReadbackAction::TakeCaptureRequest),
    }
}

/// One step of a read-back.
pub open spec fn readback_next(c: ReadbackCall, e: ReadbackEvent) -> (ReadbackCall, ReadbackAction) {
    let bytes = spec_raster_bytes(c.width, c.height, c.bytes_per_pixel);
    match (c.phase, e) {
        (ReadbackPhase::Starting, ReadbackEvent::Begin { existing }) => if bytes == 0 || bytes > c.region_capacity {
            readback_finish(c, None)
        } else {
            readback_go(
                c,
                ReadbackPhase::Ensuring,
                ReadbackAction::Ensure {
                    plan: match existing {
                        Some((family, capacity)) => if family == c.queue_family && capacity >= bytes {
                            Ensure::Keep
                        } else {
                            Ensure::Rebuild
                        },
                        None => Ensure::Build,
                    },
                    bytes,
                },
            )
        },
        (ReadbackPhase::Ensuring, ReadbackEvent::Flag(true)) => readback_go(
            c,
            ReadbackPhase::ReadingBack,
            ReadbackAction::ReadBack,
        ),
        (ReadbackPhase::ReadingBack, ReadbackEvent::Flag(true)) => readback_go(
            c,
            ReadbackPhase::RoundTrip,
            ReadbackAction::RoundTrip { bytes },
        ),
        (ReadbackPhase::RoundTrip, ReadbackEvent::Flag(answered)) => if answered {
            readback_go(
                ReadbackCall { answered: true, ..c },
                ReadbackPhase::ReadingAnswer,
                ReadbackAction::ReadAnswer { bytes },
            )
        } else {
            readback_go(
                ReadbackCall { answered: false, ..c },
                ReadbackPhase::AskingForDump,
                ReadbackAction::TakeCaptureRequest,
            )
        },
        (ReadbackPhase::ReadingAnswer, ReadbackEvent::AnswerRead { settings }) => composition(c, settings),
        (ReadbackPhase::Composing, ReadbackEvent::Flag(composed)) => if composed {
            readback_go(c, ReadbackPhase::AskingForDump, ReadbackAction::TakeCaptureRequest)
        } else {
            readback_go(
                c,
                ReadbackPhase::ComposingOnCpu,
                ReadbackAction::ComposeOnCpu { debug_view: c.debug_view },
            )
        },
        (ReadbackPhase::ComposingOnCpu, ReadbackEvent::Done) => readback_go(
            c,
            ReadbackPhase::AskingForDump,
            ReadbackAction::TakeCaptureRequest,
        ),
        (ReadbackPhase::Restoring, ReadbackEvent::Done) => readback_go(
            c,
            ReadbackPhase::AskingForDump,
            ReadbackAction::TakeCaptureRequest,
        ),
        (ReadbackPhase::AskingForDump, ReadbackEvent::Flag(asked)) => if asked && c.eight_bit {
            readback_go(c, ReadbackPhase::Dumping, ReadbackAction::Dump)
        } else {
            readback_go(c, ReadbackPhase::WritingBack, ReadbackAction::WriteBack)
        },
        (ReadbackPhase::Dumping, ReadbackEvent::Done) => readback_go(
            c,
            ReadbackPhase::WritingBack,
            ReadbackAction::WriteBack,
        ),
        (ReadbackPhase::WritingBack, ReadbackEvent::Flag(true)) => readback_finish(c, Some(c.answered)),
        // Whatever fails ends the present.
        _ => readback_finish(c, None),
    }
}

impl ReadbackCall {
    /// A read-back that begins.
    pub fn new(
        width: u32,
        height: u32,
        bytes_per_pixel: u32,
        eight_bit: bool,
        queue_family: u32,
        region_capacity: u64,
    ) -> (c: ReadbackCall)
        ensures
            c == (ReadbackCall {
                width,
                height,
                bytes_per_pixel,
                eight_bit,
                queue_family,
                region_capacity,
                phase: ReadbackPhase::Starting,
                answered: false,
                debug_view: 0,
            }),
    {
        ReadbackCall {
            width,
            height,
            bytes_per_pixel,
            eight_bit,
            queue_family,
            region_capacity,
            phase: ReadbackPhase::Starting,
            answered: false,
            debug_view: 0,
        }
    }

    fn go(&mut self, phase: ReadbackPhase, action: ReadbackAction) -> (a: ReadbackAction)
        ensures
            (*final(self), a) == readback_go(*old(self), phase, action),
    {
        self.phase = phase;
        action
    }

    fn finish(&mut self, timing: Option<bool>) -> (a: ReadbackAction)
        ensures
            (*final(self), a) == readback_finish(*old(self), timing),
    {
        self.go(ReadbackPhase::Finished, ReadbackAction::Finish { timing })
    }

    fn compose(&mut self, settings: Option<SyncSettings>) -> (a: ReadbackAction)
        ensures
            (*final(self), a) == composition(*old(self), settings),
    {
        match settings {
            Some(s) => if !self.eight_bit {
                self.go(ReadbackPhase::AskingForDump, ReadbackAction::TakeCaptureRequest)
            } else if !s.apply_model || !s.neural_enabled {
                self.go(ReadbackPhase::Restoring, ReadbackAction::Restore)
            } else if s.debug_view == 0 {
                self.debug_view = 0;
                self.go(ReadbackPhase::Composing, ReadbackAction::Compose)
            } else {
                self.debug_view = s.debug_view;
                self.go(
                    ReadbackPhase::ComposingOnCpu,
                    ReadbackAction::ComposeOnCpu { debug_view: s.debug_view },
                )
            },
            None => self.go(ReadbackPhase::AskingForDump, ReadbackAction::TakeCaptureRequest),
        }
    }

    /// Takes what came of the last action, and says what to do next.
    pub fn advance(&mut self, event: ReadbackEvent) -> (action: ReadbackAction)
        ensures
            (*final(self), action) == readback_next(*old(self), event),
    {
        let bytes: u64 = raster_bytes(self.width, self.height, self.bytes_per_pixel);
        match (self.phase, event) {
            (ReadbackPhase::Starting, ReadbackEvent::Begin { existing }) => {
                if bytes == 0 || bytes > self.region_capacity {
                    self.finish(None)
                } else {
                    let plan: Ensure = ensure(existing, self.queue_family, bytes);
                    self.go(ReadbackPhase::Ensuring, ReadbackAction::Ensure { plan, bytes })
                }
            },
            (ReadbackPhase::Ensuring, ReadbackEvent::Flag(true)) => self.go(
                ReadbackPhase::ReadingBack,
                ReadbackAction::ReadBack,
            ),
            (ReadbackPhase::ReadingBack, ReadbackEvent::Flag(true)) => self.go(
                ReadbackPhase::RoundTrip,
                ReadbackAction::RoundTrip { bytes },
            ),
            (ReadbackPhase::RoundTrip, ReadbackEvent::Flag(answered)) => {
                self.answered = answered;
                if answered {
                    self.go(ReadbackPhase::ReadingAnswer, ReadbackAction::ReadAnswer { bytes })
                } else {
                    self.go(ReadbackPhase::AskingForDump, ReadbackAction::TakeCaptureRequest)
                }
            },
            (ReadbackPhase::ReadingAnswer, ReadbackEvent::AnswerRead { settings }) => self.compose(settings),
            (ReadbackPhase::Composing, ReadbackEvent::Flag(composed)) => if composed {
                self.go(ReadbackPhase::AskingForDump, ReadbackAction::TakeCaptureRequest)
            } else {
                let debug_view: u32 = self.debug_view;
                self.go(ReadbackPhase::ComposingOnCpu, ReadbackAction::ComposeOnCpu { debug_view })
            },
            (ReadbackPhase::ComposingOnCpu, ReadbackEvent::Done) => self.go(
                ReadbackPhase::AskingForDump,
                ReadbackAction::TakeCaptureRequest,
            ),
            (ReadbackPhase::Restoring, ReadbackEvent::Done) => self.go(
                ReadbackPhase::AskingForDump,
                ReadbackAction::TakeCaptureRequest,
            ),
            (ReadbackPhase::AskingForDump, ReadbackEvent::Flag(asked)) => if asked && self.eight_bit {
                self.go(ReadbackPhase::Dumping, ReadbackAction::Dump)
            } else {
                self.go(ReadbackPhase::WritingBack, ReadbackAction::WriteBack)
            },
            (ReadbackPhase::Dumping, ReadbackEvent::Done) => self.go(
                ReadbackPhase::WritingBack,
                ReadbackAction::WriteBack,
            ),
            (ReadbackPhase::WritingBack, ReadbackEvent::Flag(true)) => {
                let answered: bool = self.answered;
                self.finish(Some(answered))
            },
            _ => self.finish(None),
        }
    }
}

/// The image is only written onto after it was read back and asked whether to dump it, and the
/// request for a dump is asked after whether or not the helper answered.
pub proof fn the_image_is_written_last(c: ReadbackCall, e: ReadbackEvent)
    ensures
        readback_next(c, e).1 is WriteBack ==> c.phase == ReadbackPhase::AskingForDump || c.phase
            == ReadbackPhase::Dumping,
        readback_next(c, e).0.phase == ReadbackPhase::AskingForDump ==> c.phase == ReadbackPhase::RoundTrip || c.phase
            == ReadbackPhase::ReadingAnswer || c.phase == ReadbackPhase::Composing || c.phase
            == ReadbackPhase::ComposingOnCpu || c.phase == ReadbackPhase::Restoring,
        c.phase == ReadbackPhase::RoundTrip && e == ReadbackEvent::Flag(false) ==> readback_next(c, e).1
            == ReadbackAction::TakeCaptureRequest,
        readback_next(c, e).1 is Finish && readback_next(c, e).1 != (
            ReadbackAction::Finish { timing: None }
        ) ==> c.phase
            == ReadbackPhase::WritingBack,
{
}

/// A pass that is switched off shows the clean frame: the answer is replaced by the copy that was
/// kept, whatever it holds.
pub proof fn a_pass_switched_off_shows_the_clean_frame(c: ReadbackCall, s: SyncSettings)
    requires
        c.phase == ReadbackPhase::ReadingAnswer,
        c.eight_bit,
        !s.apply_model || !s.neural_enabled,
    ensures
        readback_next(c, ReadbackEvent::AnswerRead { settings: Some(s) }).1 == ReadbackAction::Restore,
{
}

/// A frame is read back where it has pixels and the region holds it. The capture buffer is kept where it
/// is of the queue family and holds the frame, built where there is none, and else rebuilt. Then the
/// image is read, the frame goes to the helper, and its answer is read: as many bytes each time as the
/// frame has.
pub proof fn a_frame_makes_the_round(c: ReadbackCall, existing: Option<(u32, u64)>, answered: bool)
    ensures
        ({
            let frame = spec_raster_bytes(c.width, c.height, c.bytes_per_pixel);
            let at = |phase: ReadbackPhase| ReadbackCall { phase, ..c };
            let (d, action) = readback_next(at(ReadbackPhase::Starting), ReadbackEvent::Begin { existing });
            &&& frame == 0 || frame > c.region_capacity ==> action == (ReadbackAction::Finish { timing: None })
            &&& 0 < frame <= c.region_capacity ==> d == at(ReadbackPhase::Ensuring) && action == (
            ReadbackAction::Ensure {
                plan: if existing is None {
                    Ensure::Build
                } else if (existing->0).0 == c.queue_family && (existing->0).1 >= frame {
                    Ensure::Keep
                } else {
                    Ensure::Rebuild
                },
                bytes: frame,
            })
            &&& readback_next(at(ReadbackPhase::Ensuring), ReadbackEvent::Flag(true)) == (
                at(ReadbackPhase::ReadingBack),
                ReadbackAction::ReadBack,
            )
            &&& readback_next(at(ReadbackPhase::ReadingBack), ReadbackEvent::Flag(true)) == (
                at(ReadbackPhase::RoundTrip),
                ReadbackAction::RoundTrip { bytes: frame },
            )
            &&& readback_next(at(ReadbackPhase::RoundTrip), ReadbackEvent::Flag(answered)) == (if answered {
                (
                    ReadbackCall { phase: ReadbackPhase::ReadingAnswer, answered: true, ..c },
                    ReadbackAction::ReadAnswer { bytes: frame },
                )
            } else {
                (
                    ReadbackCall { phase: ReadbackPhase::AskingForDump, answered: false, ..c },
                    ReadbackAction::TakeCaptureRequest,
                )
            })
        }),
{
}

/// An answer is composed where the frame has eight bits a channel and there are settings: on the GPU for
/// the plain view, and for every other view, or where that fails, on the CPU with that view. Where the
/// model is not applied or the pass is off, the frame is put back. In all other cases the answer stands.
pub proof fn an_answer_is_composed_as_the_settings_say(
    c: ReadbackCall,
    settings: Option<SyncSettings>,
    composed: bool,
)
    ensures
        ({
            let at = ReadbackCall { phase: ReadbackPhase::ReadingAnswer, ..c };
            let (d, action) = readback_next(at, ReadbackEvent::AnswerRead { settings });
            if !c.eight_bit || settings is None {
                d.phase is AskingForDump && action is TakeCaptureRequest
            } else if !(settings->0.apply_model && settings->0.neural_enabled) {
                d.phase is Restoring && action is Restore
            } else {
                &&& d.debug_view == settings->0.debug_view
                &&& d.debug_view == 0 ==> d.phase is Composing && action is Compose
                &&& d.debug_view != 0 ==> d.phase is ComposingOnCpu && action == (ReadbackAction::ComposeOnCpu {
                    debug_view: d.debug_view,
                })
            }
        }),
        ({
            let at = ReadbackCall { phase: ReadbackPhase::Composing, ..c };
            let (d, action) = readback_next(at, ReadbackEvent::Flag(composed));
            &&& composed ==> d.phase is AskingForDump && action is TakeCaptureRequest
            &&& !composed ==> d.phase is ComposingOnCpu && action == (ReadbackAction::ComposeOnCpu {
                debug_view: c.debug_view,
            })
        }),
        ({
            let at = ReadbackCall { phase: ReadbackPhase::ComposingOnCpu, ..c };
            let (d, action) = readback_next(at, ReadbackEvent::Done);
            d.phase is AskingForDump && action is TakeCaptureRequest
        }),
        ({
            let at = ReadbackCall { phase: ReadbackPhase::Restoring, ..c };
            let (d, action) = readback_next(at, ReadbackEvent::Done);
            d.phase is AskingForDump && action is TakeCaptureRequest
        }),
{
}

/// A frame of eight bits a channel is dumped where that was asked for, and every frame is then written
/// back; that it was, and whether the helper had answered, is what is timed.
pub proof fn a_frame_is_written_back(c: ReadbackCall, asked: bool, ok: bool)
    ensures
        ({
            let at = ReadbackCall { phase: ReadbackPhase::AskingForDump, ..c };
            let (d, action) = readback_next(at, ReadbackEvent::Flag(asked));
            &&& asked && c.eight_bit ==> d.phase is Dumping && action is Dump
            &&& !(asked && c.eight_bit) ==> d.phase is WritingBack && action is WriteBack
        }),
        ({
            let at = ReadbackCall { phase: ReadbackPhase::Dumping, ..c };
            let (d, action) = readback_next(at, ReadbackEvent::Done);
            d.phase is WritingBack && action is WriteBack
        }),
        ({
            let at = ReadbackCall { phase: ReadbackPhase::WritingBack, ..c };
            readback_next(at, ReadbackEvent::Flag(ok)).1 == (ReadbackAction::Finish {
                timing: if ok {
                    Some(c.answered)
                } else {
                    None
                },
            })
        }),
        c.phase is Ensuring || c.phase is ReadingBack ==> readback_next(c, ReadbackEvent::Flag(false)).1 == (
        ReadbackAction::Finish { timing: None }),
{
}

} // verus!
