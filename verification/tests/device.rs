//! Whole captures, read-backs and compositions, carried out on a device that is modelled in memory:
//! images and buffers are bytes, and a command that finds an image in another layout than it names
//! fails the test.

use neural_forge_layer::capture_step::{
    plan_recording, CaptureAction, CaptureCall, CaptureEvent, CaptureFlags, CaptureRequest, CaptureSlot, CaptureStep,
    Ensure, FenceStatus, ProxySource,
};
use neural_forge_layer::commands::{Command, Dependencies, Dispatcher, ImageBarrier, PushConstants};
use neural_forge_layer::compose_recording::{
    record_cached_raw_into_image, record_copy_into_image, record_temporal_delta_into_image, record_upload_and_compute,
    ComposeImages, ComposeParams,
};
use neural_forge_layer::compose_slots::{ComposeAction, ComposeCall, ComposeEvent, SlotId, Slots, Work, ASYNC_SLOTS};
use neural_forge_layer::present::raster_bytes;
use neural_forge_layer::present_sync::PresentSemaphores;
use neural_forge_layer::readback::{
    record_read_back, record_write_back, ReadbackAction, ReadbackCall, ReadbackEvent, SyncSettings,
};
use neural_forge_layer::recording::{record_capture_commands, EncodeDispatch};
use neural_forge_layer::scaling::Raster;
use neural_forge_layer::swapchains::{after_relay, after_selection, combine_waits, relay_stages, PresentStep};
use neural_forge_layer::vulkan::{
    LAYOUT_GENERAL, LAYOUT_PRESENT_SRC, LAYOUT_TRANSFER_DST, LAYOUT_TRANSFER_SRC, LAYOUT_UNDEFINED, STAGE_ALL_COMMANDS,
};
use std::collections::{HashMap, HashSet};

struct Picture {
    width: u32,
    height: u32,
    layout: i32,
    bytes: Vec<u8>,
}

type Shader = fn(u8, u8, u8, u32) -> u8;

/// Adds the change from proxy to answer to the original.
fn delta(original: u8, proxy: u8, answer: u8, _mode: u32) -> u8 {
    (i32::from(original) + i32::from(answer) - i32::from(proxy)).clamp(0, 255) as u8
}

/// Tells every input apart from every other.
fn mixed(original: u8, proxy: u8, answer: u8, mode: u32) -> u8 {
    original
        .wrapping_add(proxy.wrapping_mul(3))
        .wrapping_add(answer.wrapping_mul(5))
        .wrapping_add((mode as u8).wrapping_mul(7))
}

struct Device {
    images: HashMap<u64, Picture>,
    buffers: HashMap<u64, Vec<u8>>,
    /// The original, the proxy, the answer and the output of each descriptor set.
    sets: HashMap<u64, [u64; 4]>,
    shader: Shader,
    bound: Option<u64>,
    mode: u32,
}

impl Device {
    fn new(shader: Shader) -> Device {
        Device { images: HashMap::new(), buffers: HashMap::new(), sets: HashMap::new(), shader, bound: None, mode: 0 }
    }

    fn add_image(&mut self, image: u64, width: u32, height: u32, layout: i32, bytes: Vec<u8>) {
        assert_eq!(bytes.len(), (width * height * 4) as usize);
        self.images.insert(image, Picture { width, height, layout, bytes });
    }

    fn transition(&mut self, b: &ImageBarrier) {
        let picture = self.images.get_mut(&b.image).expect("no such image");
        assert!(b.old_layout == LAYOUT_UNDEFINED || b.old_layout == picture.layout, "{b:?} from {}", picture.layout);
        picture.layout = b.new_layout;
    }

    fn read(&self, image: u64, layout: i32) -> &Picture {
        let picture = &self.images[&image];
        assert_eq!(picture.layout, layout);
        assert!(layout == LAYOUT_TRANSFER_SRC || layout == LAYOUT_GENERAL);
        picture
    }

    fn write(&mut self, image: u64, layout: i32) -> &mut Picture {
        let picture = self.images.get_mut(&image).expect("no such image");
        assert_eq!(picture.layout, layout);
        assert!(layout == LAYOUT_TRANSFER_DST || layout == LAYOUT_GENERAL);
        picture
    }

    fn perform(&mut self, commands: &[Command]) {
        for command in commands {
            match command {
                Command::Barrier { dependencies, .. } => {
                    let list: Vec<ImageBarrier> = match dependencies {
                        Dependencies::Image(a) => vec![*a],
                        Dependencies::Images2(a, b) => vec![*a, *b],
                        Dependencies::Images3(a, b, c) => vec![*a, *b, *c],
                        Dependencies::Images4(a, b, c, d) => vec![*a, *b, *c, *d],
                        Dependencies::Buffer(b) => {
                            assert!(b.size <= self.buffers[&b.buffer].len() as u64);
                            vec![]
                        }
                    };
                    list.iter().for_each(|b| self.transition(b));
                }
                Command::CopyImageToBuffer { image, layout, buffer, region } => {
                    let picture = self.read(*image, *layout);
                    assert_eq!((picture.width, picture.height), (region.width, region.height));
                    let bytes = picture.bytes.clone();
                    let at = region.buffer_offset as usize;
                    self.buffers.get_mut(buffer).expect("no such buffer")[at..at + bytes.len()].copy_from_slice(&bytes);
                }
                Command::CopyBufferToImage { buffer, image, layout, region } => {
                    let at = region.buffer_offset as usize;
                    let length = (region.width * region.height * 4) as usize;
                    let bytes = self.buffers[buffer][at..at + length].to_vec();
                    let picture = self.write(*image, *layout);
                    assert_eq!((picture.width, picture.height), (region.width, region.height));
                    picture.bytes = bytes;
                }
                Command::CopyBuffer { src, dst, size } => {
                    let bytes = self.buffers[src][..*size as usize].to_vec();
                    self.buffers.get_mut(dst).expect("no such buffer")[..bytes.len()].copy_from_slice(&bytes);
                }
                Command::Blit { src, src_layout, src_width, src_height, dst, dst_layout, dst_width, dst_height } => {
                    let from = self.read(*src, *src_layout);
                    assert_eq!((from.width, from.height), (*src_width, *src_height));
                    let mut bytes = Vec::new();
                    for y in 0..*dst_height {
                        for x in 0..*dst_width {
                            let (sx, sy) = (x * src_width / dst_width, y * src_height / dst_height);
                            let at = ((sy * src_width + sx) * 4) as usize;
                            bytes.extend_from_slice(&from.bytes[at..at + 4]);
                        }
                    }
                    let to = self.write(*dst, *dst_layout);
                    assert_eq!((to.width, to.height), (*dst_width, *dst_height));
                    to.bytes = bytes;
                }
                Command::Bind { dispatcher } => self.bound = Some(dispatcher.descriptor_set),
                Command::Push { constants, .. } => {
                    if let PushConstants::Compose { mode, .. } = constants {
                        self.mode = *mode;
                    }
                }
                Command::Dispatch { groups_x, groups_y } => {
                    let [original, proxy, answer, output] = self.sets[&self.bound.expect("nothing is bound")];
                    for image in [original, proxy, answer, output] {
                        assert_eq!(self.images[&image].layout, LAYOUT_GENERAL);
                    }
                    let whole = &self.images[&output];
                    assert!(groups_x * 8 >= whole.width && groups_y * 8 >= whole.height);
                    let inputs = (&self.images[&original].bytes, &self.images[&proxy].bytes, &self.images[&answer].bytes);
                    let bytes: Vec<u8> = (0..whole.bytes.len())
                        .map(|i| (self.shader)(inputs.0[i], inputs.1[i], inputs.2[i], self.mode))
                        .collect();
                    self.images.get_mut(&output).expect("no such image").bytes = bytes;
                }
            }
        }
    }

    /// The bytes of a presentable image.
    fn read_back(&mut self, image: u64) -> Vec<u8> {
        let (width, height) = (self.images[&image].width, self.images[&image].height);
        self.buffers.insert(u64::MAX, vec![0; (width * height * 4) as usize]);
        self.perform(&record_read_back(image, u64::MAX, width, height));
        self.buffers.remove(&u64::MAX).unwrap_or_default()
    }
}

/// A compositor on such a device.
struct Compositor {
    device: Device,
    slots: Slots,
    semaphores: PresentSemaphores,
    made: u64,
}

fn base_of(slot: SlotId) -> u64 {
    match slot {
        SlotId::Waited => 100,
        SlotId::First => 200,
        SlotId::Second => 300,
    }
}

fn images_of(slot: SlotId) -> ComposeImages {
    let base = base_of(slot);
    ComposeImages {
        original: base + 1,
        model_answer: base + 2,
        proxy: base + 3,
        output: base + 4,
        small_answer: base + 5,
        staging: base + 6,
        cached: base + 7,
        current: base + 8,
    }
}

impl Compositor {
    fn new(shader: Shader) -> Compositor {
        Compositor { device: Device::new(shader), slots: Slots::new(), semaphores: PresentSemaphores::default(), made: 0 }
    }

    /// Composes. The semaphore is `Some` where the work is not waited for, and the result where it is
    /// handed back.
    fn run(
        &mut self,
        work: Work,
        width: u32,
        height: u32,
        base: &[u8],
        answer: &[u8],
        target: u64,
    ) -> (bool, Option<u64>, Vec<u8>) {
        let frame = raster_bytes(width, height, 4);
        let mut call = ComposeCall::new(work, width, height, base.len() as u64, answer.len() as u64);
        let mut event = ComposeEvent::Begin;
        let mut semaphore = None;
        let mut result = Vec::new();
        loop {
            event = match call.advance(&mut self.slots, event) {
                ComposeAction::Acquire => {
                    let made = &mut self.made;
                    semaphore = self.semaphores.get(target, || {
                        *made += 1;
                        Some(*made)
                    });
                    ComposeEvent::Flag(semaphore.is_some())
                }
                ComposeAction::Wait { .. } => ComposeEvent::Flag(true),
                ComposeAction::Size { slot, plan } => {
                    if plan != Ensure::Keep {
                        let i = images_of(slot);
                        for image in [i.original, i.model_answer, i.proxy, i.output] {
                            self.device.add_image(image, width, height, LAYOUT_UNDEFINED, vec![0; frame as usize]);
                        }
                        self.device.buffers.insert(i.staging, vec![0; 2 * frame as usize]);
                        self.device.buffers.insert(i.cached, vec![0; frame as usize]);
                        self.device.buffers.insert(i.current, vec![0; frame as usize]);
                        self.device.sets.insert(base_of(slot), [i.original, i.proxy, i.model_answer, i.output]);
                    }
                    ComposeEvent::Sized { ok: true, capacity: 2 * frame }
                }
                ComposeAction::Shrink { slot, plan, answer } => {
                    if plan != Ensure::Keep {
                        let bytes = vec![0; (answer.width * answer.height * 4) as usize];
                        let small = images_of(slot).small_answer;
                        self.device.add_image(small, answer.width, answer.height, LAYOUT_UNDEFINED, bytes);
                    }
                    ComposeEvent::Flag(true)
                }
                ComposeAction::Upload { slot, base_bytes, answer_bytes } => {
                    let (b, a) = (base_bytes as usize, answer_bytes as usize);
                    let staging = self.device.buffers.get_mut(&images_of(slot).staging).expect("no staging buffer");
                    staging[..b].copy_from_slice(&base[..b]);
                    staging[b..b + a].copy_from_slice(&answer[..a]);
                    ComposeEvent::Done
                }
                ComposeAction::Submit { slot, held, update } => {
                    let images = images_of(slot);
                    let params = ComposeParams {
                        dispatcher: Dispatcher { pipeline: 1, pipeline_layout: 2, descriptor_set: base_of(slot) },
                        colour_strength: 1.0f32.to_bits(),
                        transfer_strength: 1.0f32.to_bits(),
                        max_ratio: 2.0f32.to_bits(),
                        bgr_order: false,
                        proxy_encoded: false,
                    };
                    let commands = match work {
                        Work::Download => record_upload_and_compute(images, width, height, frame, params),
                        Work::IntoImage | Work::IntoImageAsync => {
                            let mut commands = record_upload_and_compute(images, width, height, frame, params);
                            record_copy_into_image(&mut commands, images, width, height, frame, target);
                            commands
                        }
                        Work::CachedRaw { .. } => {
                            record_cached_raw_into_image(images, width, height, frame, update, target)
                        }
                        Work::TemporalDelta { answer, .. } => record_temporal_delta_into_image(
                            images, width, height, answer, frame, held, update, target, params,
                        ),
                    };
                    self.device.perform(&commands);
                    ComposeEvent::Flag(true)
                }
                ComposeAction::Download { slot, bytes } => {
                    result = self.device.buffers[&images_of(slot).staging][..bytes as usize].to_vec();
                    ComposeEvent::Done
                }
                ComposeAction::Finish { ok } => return (ok, semaphore.filter(|_| ok), result),
            };
        }
    }
}

fn pattern(count: usize, pixel: impl Fn(u8) -> [u8; 4], step: usize) -> Vec<u8> {
    (0..count).flat_map(|i| pixel((i * step % 256) as u8)).collect()
}

#[test]
fn dispatch_into_image_matches_dispatch() {
    let mut gpu = Compositor::new(mixed);
    let (width, height) = (8u32, 8u32);
    let original = pattern(64, |t| [t, t.wrapping_add(90), t.wrapping_add(30), 255], 41);
    let model_answer = pattern(64, |t| [t.wrapping_add(10), t, t.wrapping_add(180), 255], 61);
    let (ok, semaphore, expected) = gpu.run(Work::Download, width, height, &original, &model_answer, 0);
    assert!(ok);
    assert_eq!(semaphore, None);
    gpu.device.add_image(1, width, height, LAYOUT_PRESENT_SRC, vec![0; 256]);
    let (ok, _, _) = gpu.run(Work::IntoImage, width, height, &original, &model_answer, 1);
    assert!(ok, "dispatch_into_image returned false");
    assert_eq!(gpu.device.read_back(1), expected);
}

#[test]
fn dispatch_into_image_async_matches_dispatch_into_image() {
    let mut gpu = Compositor::new(mixed);
    let (width, height) = (8u32, 8u32);
    let original = pattern(64, |t| [t, t.wrapping_add(50), t.wrapping_add(140), 255], 29);
    let model_answer = pattern(64, |t| [t.wrapping_add(5), t, t.wrapping_add(220), 255], 71);
    let (ok, _, expected) = gpu.run(Work::Download, width, height, &original, &model_answer, 0);
    assert!(ok);
    gpu.device.add_image(1, width, height, LAYOUT_PRESENT_SRC, vec![0; 256]);
    let (_, semaphore, _) = gpu.run(Work::IntoImageAsync, width, height, &original, &model_answer, 1);
    assert!(semaphore.is_some(), "dispatch_into_image_async returned None");
    assert_eq!(gpu.device.read_back(1), expected);
}

#[test]
fn dispatch_into_image_async_survives_many_slot_reuses() {
    let mut gpu = Compositor::new(mixed);
    let (width, height) = (8u32, 8u32);
    let original = vec![120u8; 256];
    let model_answer = vec![90u8; 256];
    let mut semaphores = HashSet::new();
    for i in 0..(ASYNC_SLOTS * 3 + 1) as u64 {
        gpu.device.add_image(i + 1, width, height, LAYOUT_PRESENT_SRC, vec![0; 256]);
        let (_, semaphore, _) = gpu.run(Work::IntoImageAsync, width, height, &original, &model_answer, i + 1);
        let semaphore = semaphore.unwrap_or_else(|| panic!("dispatch_into_image_async returned None on iteration {i}"));
        assert!(semaphores.insert(semaphore), "every image has a semaphore of its own");
    }
}

#[test]
fn gpu_dispatch_handles_a_resize() {
    let mut gpu = Compositor::new(mixed);
    for (width, height) in [(4u32, 4u32), (16u32, 12u32)] {
        let count = (width * height * 4) as usize;
        let (ok, _, result) = gpu.run(Work::Download, width, height, &vec![128; count], &vec![100; count], 0);
        assert!(ok, "dispatch failed at {width}x{height}");
        assert_eq!(result.len(), count);
    }
}

#[test]
fn cached_raw_present_preserves_bytes_and_reuses_the_device_cache() {
    let mut gpu = Compositor::new(mixed);
    let (width, height) = (8u32, 8u32);
    let raw = pattern(64, |t| [t.wrapping_add(200), t, t.wrapping_add(70), 255], 47);
    for target in [1, 2] {
        gpu.device.add_image(target, width, height, LAYOUT_PRESENT_SRC, vec![0; 256]);
    }
    for target in [1, 2] {
        let (_, semaphore, _) = gpu.run(Work::CachedRaw { generation: 1 }, width, height, &[], &raw, target);
        assert!(semaphore.is_some(), "cached raw present failed");
        assert_eq!(gpu.device.read_back(target), raw);
    }
    // Both slots hold the answer now: another one under its generation is not even looked at.
    let other = vec![7u8; 256];
    let (_, semaphore, _) = gpu.run(Work::CachedRaw { generation: 1 }, width, height, &[], &other, 1);
    assert!(semaphore.is_some());
    assert_eq!(gpu.device.read_back(1), raw);
}

#[test]
fn present_temporal_delta_async_upscales_a_smaller_answer_and_rejects_an_oversized_one() {
    let mut gpu = Compositor::new(delta);
    let (width, height) = (16u32, 16u32);
    let small = Raster { width: 8, height: 8 };
    let base = vec![50u8; 1024];
    let answer = vec![200u8; 256];
    gpu.device.add_image(1, width, height, LAYOUT_PRESENT_SRC, base.clone());
    let work = Work::TemporalDelta { answer: small, generation: 1 };
    let (_, semaphore, _) = gpu.run(work, width, height, &base, &answer, 1);
    assert!(semaphore.is_some(), "a genuinely smaller answer must still be composited, not rejected");
    let out = gpu.device.read_back(1);
    let average = out.chunks_exact(4).map(|p| u32::from(p[0])).sum::<u32>() / (out.len() as u32 / 4);
    assert!(average > 60, "the upscaled answer reached the shader");
    assert_eq!(average, 200);

    let large = Raster { width: width + 8, height: height + 8 };
    let big_answer = vec![200u8; (large.width * large.height * 4) as usize];
    let work = Work::TemporalDelta { answer: large, generation: 2 };
    let (_, oversized, _) = gpu.run(work, width, height, &base, &big_answer, 1);
    assert!(oversized.is_none(), "an answer larger than the frame must be rejected");
}

#[test]
fn a_held_answer_is_carried_onto_a_newer_frame() {
    let mut gpu = Compositor::new(delta);
    let (width, height) = (8u32, 8u32);
    let size = Raster { width, height };
    let (base, answer) = (vec![50u8; 256], vec![90u8; 256]);
    // Each slot takes the answer once, and then carries it onto what the game shows by then.
    for shown in [50u8, 60, 70, 80, 100] {
        gpu.device.add_image(1, width, height, LAYOUT_PRESENT_SRC, vec![shown; 256]);
        let work = Work::TemporalDelta { answer: size, generation: 1 };
        let (ok, _, _) = gpu.run(work, width, height, &base, &answer, 1);
        assert!(ok);
        assert_eq!(gpu.device.read_back(1), vec![shown + 40; 256]);
    }
}

#[test]
fn direct_capture_writes_straight_into_imported_host_memory() {
    let (width, height) = (8u32, 8u32);
    let (image, region, alignment) = (1u64, 2u64, 4096u64);
    let mut device = Device::new(mixed);
    let colour = [100u8, 150, 200, 255];
    device.add_image(image, width, height, LAYOUT_PRESENT_SRC, colour.repeat(64));
    let request = CaptureRequest {
        direct: true,
        width,
        height,
        format: 1,
        bytes: 256,
        model: None,
        target: None,
        submitted_after: None,
    };
    let encode = EncodeDispatch {
        dispatcher: Dispatcher { pipeline: 0, pipeline_layout: 0, descriptor_set: 0 },
        white_point: 0,
        bgr_order: 0,
        reversible_mode: 0,
    };
    let mut slot = CaptureSlot { pending: None };
    let mut flags = CaptureFlags { setup_failed: false, external_memory_host: true };
    let mut steps = Vec::new();
    let mut copied = Vec::new();
    for now in 0..2 {
        let mut call = CaptureCall::new(request);
        let mut event = CaptureEvent::Begin { capacity: Some(alignment), alignment: Some(alignment) };
        loop {
            event = match call.advance(&mut slot, &mut flags, event) {
                CaptureAction::Ensure { bytes } => {
                    assert_eq!(bytes, alignment, "the import is a multiple of the alignment");
                    device.buffers.entry(region).or_insert_with(|| vec![0; bytes as usize]);
                    CaptureEvent::Ensured(true)
                }
                CaptureAction::QueryFence => CaptureEvent::Fence { status: FenceStatus::Signaled, scratch: None },
                CaptureAction::CopyOut { bytes } => {
                    copied = device.buffers[&region][..bytes as usize].to_vec();
                    CaptureEvent::Copied
                }
                CaptureAction::Submit => {
                    let recording = plan_recording(request, image, LAYOUT_PRESENT_SRC, region, None, encode);
                    device.perform(&record_capture_commands(recording));
                    CaptureEvent::Submitted { ok: true, model: None, now }
                }
                CaptureAction::Download { .. } => panic!("a direct capture has nothing to download"),
                CaptureAction::Finish(step) => {
                    steps.push(step);
                    break;
                }
            };
        }
    }
    let sent = Raster { width, height };
    let captured = CaptureStep::Captured { sent, gpu_original: false, proxy: ProxySource::Region };
    assert_eq!(steps, [CaptureStep::Pending, captured]);
    assert_eq!(device.images[&image].layout, LAYOUT_PRESENT_SRC);
    assert_eq!(copied.len(), 256);
    for pixel in device.buffers[&region][..256].chunks_exact(4) {
        assert_eq!(pixel, colour, "every captured pixel is the image's own");
    }
}

#[test]
fn run_sync_composes_and_leaves_the_image_presentable() {
    let (width, height) = (16u32, 16u32);
    let game_frame: Vec<u8> = (0..width * height)
        .flat_map(|i| {
            let t = (i * 37 % 200) as u8;
            [t + 30, 220 - t, t / 2 + 40, 255]
        })
        .collect();
    let (image, buffer) = (1u64, 2u64);
    let mut gpu = Compositor::new(mixed);
    gpu.device.add_image(image, width, height, LAYOUT_PRESENT_SRC, game_frame.clone());
    let mut call = ReadbackCall::new(width, height, 4, true, 0, 4096);
    let mut event = ReadbackEvent::Begin { existing: None };
    let mut original = Vec::new();
    let settings = SyncSettings { apply_model: true, neural_enabled: true, debug_view: 0 };
    loop {
        event = match call.advance(event) {
            ReadbackAction::Ensure { plan, bytes } => {
                assert_eq!((plan, bytes), (Ensure::Build, 1024));
                gpu.device.buffers.insert(buffer, vec![0; bytes as usize]);
                ReadbackEvent::Flag(true)
            }
            ReadbackAction::ReadBack => {
                gpu.device.perform(&record_read_back(image, buffer, width, height));
                assert_eq!(gpu.device.images[&image].layout, LAYOUT_PRESENT_SRC);
                ReadbackEvent::Flag(true)
            }
            ReadbackAction::RoundTrip { bytes } => {
                original = gpu.device.buffers[&buffer][..bytes as usize].to_vec();
                assert_eq!(original, game_frame);
                ReadbackEvent::Flag(true)
            }
            ReadbackAction::ReadAnswer { .. } => {
                let answer = original.chunks_exact(4).flat_map(|p| [255 - p[0], 255 - p[1], 255 - p[2], p[3]]).collect();
                gpu.device.buffers.insert(buffer, answer);
                ReadbackEvent::AnswerRead { settings: Some(settings) }
            }
            ReadbackAction::Compose => {
                let answer = gpu.device.buffers[&buffer].clone();
                let (ok, _, composed) = gpu.run(Work::Download, width, height, &original, &answer, 0);
                gpu.device.buffers.insert(buffer, composed);
                ReadbackEvent::Flag(ok)
            }
            ReadbackAction::ComposeOnCpu { .. } => panic!("it was composed already"),
            ReadbackAction::Restore => panic!("the pass is on"),
            ReadbackAction::TakeCaptureRequest => ReadbackEvent::Flag(false),
            ReadbackAction::Dump => panic!("no dump was asked for"),
            ReadbackAction::WriteBack => {
                gpu.device.perform(&record_write_back(image, buffer, width, height));
                ReadbackEvent::Flag(true)
            }
            ReadbackAction::Finish { timing } => {
                assert_eq!(timing, Some(true));
                break;
            }
        };
    }
    assert_eq!(gpu.device.images[&image].layout, LAYOUT_PRESENT_SRC);
    assert_ne!(gpu.device.read_back(image), game_frame, "the answer was composed into the image");
}

/// Reads an image back, where the helper answers or not, the pass is on or off, and the action at
/// `failing` does not work. What the image shows in the end, its layout, the pair that was dumped, and
/// the timing.
fn read_back_on(
    answered: bool,
    on: bool,
    failing: Option<usize>,
) -> (Vec<u8>, i32, Option<(Vec<u8>, Vec<u8>)>, Option<bool>) {
    let (width, height, image, buffer) = (4u32, 4u32, 1u64, 2u64);
    let mut gpu = Compositor::new(mixed);
    gpu.device.add_image(image, width, height, LAYOUT_PRESENT_SRC, vec![100; 64]);
    let mut call = ReadbackCall::new(width, height, 4, true, 0, 4096);
    let mut event = ReadbackEvent::Begin { existing: None };
    let (mut kept, mut pair) = (Vec::new(), None);
    let settings = SyncSettings { apply_model: on, neural_enabled: true, debug_view: 1 };
    for step in 0..10 {
        let works = failing != Some(step);
        event = match call.advance(event) {
            ReadbackAction::Ensure { bytes, .. } => {
                gpu.device.buffers.insert(buffer, vec![0; bytes as usize]);
                ReadbackEvent::Flag(works)
            }
            ReadbackAction::ReadBack => {
                gpu.device.perform(&record_read_back(image, buffer, width, height));
                ReadbackEvent::Flag(works)
            }
            ReadbackAction::RoundTrip { .. } => {
                kept = gpu.device.buffers[&buffer].clone();
                ReadbackEvent::Flag(answered)
            }
            ReadbackAction::ReadAnswer { .. } => {
                gpu.device.buffers.insert(buffer, vec![200; 64]);
                ReadbackEvent::AnswerRead { settings: Some(settings) }
            }
            ReadbackAction::ComposeOnCpu { debug_view: 1 } => {
                gpu.device.buffers.insert(buffer, vec![150; 64]);
                ReadbackEvent::Done
            }
            ReadbackAction::Restore => {
                gpu.device.buffers.insert(buffer, kept.clone());
                ReadbackEvent::Done
            }
            ReadbackAction::TakeCaptureRequest => ReadbackEvent::Flag(true),
            ReadbackAction::Dump => {
                pair = Some((kept.clone(), gpu.device.buffers[&buffer].clone()));
                ReadbackEvent::Done
            }
            ReadbackAction::WriteBack => {
                if works {
                    gpu.device.perform(&record_write_back(image, buffer, width, height));
                }
                ReadbackEvent::Flag(works)
            }
            ReadbackAction::Finish { timing } => {
                let layout = gpu.device.images[&image].layout;
                return (gpu.device.read_back(image), layout, pair, timing);
            }
            other => panic!("{other:?} was not expected"),
        };
    }
    panic!("the read-back goes on and on");
}

#[test]
fn an_unanswered_frame_is_written_back_as_it_was() {
    let (shown, layout, pair, timing) = read_back_on(false, true, None);
    assert_eq!((shown, layout, timing), (vec![100; 64], LAYOUT_PRESENT_SRC, Some(false)));
    assert_eq!(pair, Some((vec![100; 64], vec![100; 64])));
}

#[test]
fn a_read_back_with_the_pass_off_shows_the_clean_frame() {
    let (shown, layout, _, timing) = read_back_on(true, false, None);
    assert_eq!((shown, layout, timing), (vec![100; 64], LAYOUT_PRESENT_SRC, Some(true)));
}

#[test]
fn a_dump_holds_the_frame_and_what_is_shown_of_it() {
    let (shown, layout, pair, timing) = read_back_on(true, true, None);
    assert_eq!((shown, layout, timing), (vec![150; 64], LAYOUT_PRESENT_SRC, Some(true)));
    assert_eq!(pair, Some((vec![100; 64], vec![150; 64])));
}

#[test]
fn a_read_back_that_fails_leaves_the_image_alone() {
    // Without a buffer, without its contents, and without the write.
    for failing in [0, 1, 7] {
        let (shown, layout, _, timing) = read_back_on(true, true, Some(failing));
        assert_eq!((shown, layout, timing), (vec![100; 64], LAYOUT_PRESENT_SRC, None), "failing at {failing}");
    }
}

#[test]
fn relay_passes_the_application_wait_through_on_a_real_queue() {
    let mut relays = PresentSemaphores::default();
    let mut signalled: HashSet<u64> = HashSet::new();
    for round in 0..3u64 {
        let app = 10 + round;
        signalled.insert(app);
        assert_eq!(after_selection(false, 1), PresentStep::Relay);
        let relay = relays.get(42, || Some(99)).expect("relay submit");
        assert_eq!(after_relay(Some(relay)), PresentStep::Run);
        // The relay waits for the application's semaphore, and signals its own.
        assert_eq!(relay_stages(1), [STAGE_ALL_COMMANDS]);
        assert!(signalled.remove(&app), "the application's wait is consumed");
        assert!(signalled.insert(relay), "the relay is not signalled twice");
        let waits = combine_waits(&[app], Some(relay), None).expect("the present waits");
        assert_eq!(waits, [relay]);
        for wait in waits {
            assert!(signalled.remove(&wait), "the present can wait for it");
        }
        assert!(!relays.is_empty(), "round {round}");
    }
    assert_eq!(relays.destroy(), [99]);
}
