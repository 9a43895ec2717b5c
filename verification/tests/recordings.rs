//! What is recorded and built, and the numbers it is recorded with.

use ash::vk;
use neural_forge_layer::blueprints::{
    allocation_bytes, bound_images, buffer_bytes, choose_memory, host_capacity, image_flags, image_format, image_usage,
    memory_policy, pass_shape, slot_images, ImageRole, MemoryPolicy, PassShape,
};
use neural_forge_layer::building::{steps, teardown, unwind, Builder, Object, Step};
use neural_forge_layer::capabilities::{
    min_imported_host_pointer_alignment, model_scratch_format, proxy_encoded, supports_storage, wants_encode,
    zero_copy_allowed,
};
use neural_forge_layer::commands::{work_groups, Command, Dependencies, Dispatcher, PushConstants};
use neural_forge_layer::compose_recording::{
    record_cached_raw_into_image, record_copy_into_image, record_temporal_delta_into_image, record_upload_and_compute,
    ComposeImages, ComposeParams,
};
use neural_forge_layer::memory::{
    find_memory_type, pick_device_memory_type, pick_import_memory_type, pick_readback_memory_type,
};
use neural_forge_layer::readback::{record_read_back, record_write_back, write_back_fits};
use neural_forge_layer::recording::{record_capture_commands, CaptureRecording, EncodeDispatch, ModelTarget};
use neural_forge_layer::scaling::Raster;
use neural_forge_layer::vulkan as raw;
use std::collections::HashMap;

#[test]
fn the_numbers_are_vulkans() {
    assert_eq!(raw::LAYOUT_UNDEFINED, vk::ImageLayout::UNDEFINED.as_raw());
    assert_eq!(raw::LAYOUT_GENERAL, vk::ImageLayout::GENERAL.as_raw());
    assert_eq!(raw::LAYOUT_TRANSFER_SRC, vk::ImageLayout::TRANSFER_SRC_OPTIMAL.as_raw());
    assert_eq!(raw::LAYOUT_TRANSFER_DST, vk::ImageLayout::TRANSFER_DST_OPTIMAL.as_raw());
    assert_eq!(raw::LAYOUT_PRESENT_SRC, vk::ImageLayout::PRESENT_SRC_KHR.as_raw());
    assert_eq!(raw::ACCESS_SHADER_READ, vk::AccessFlags::SHADER_READ.as_raw());
    assert_eq!(raw::ACCESS_SHADER_WRITE, vk::AccessFlags::SHADER_WRITE.as_raw());
    assert_eq!(raw::ACCESS_SHADER_READ_WRITE, (vk::AccessFlags::SHADER_READ | vk::AccessFlags::SHADER_WRITE).as_raw());
    assert_eq!(raw::ACCESS_TRANSFER_READ, vk::AccessFlags::TRANSFER_READ.as_raw());
    assert_eq!(raw::ACCESS_TRANSFER_WRITE, vk::AccessFlags::TRANSFER_WRITE.as_raw());
    assert_eq!(raw::STAGE_TOP_OF_PIPE, vk::PipelineStageFlags::TOP_OF_PIPE.as_raw());
    assert_eq!(raw::STAGE_COMPUTE_SHADER, vk::PipelineStageFlags::COMPUTE_SHADER.as_raw());
    assert_eq!(raw::STAGE_TRANSFER, vk::PipelineStageFlags::TRANSFER.as_raw());
    assert_eq!(
        raw::STAGE_TRANSFER_COMPUTE,
        (vk::PipelineStageFlags::TRANSFER | vk::PipelineStageFlags::COMPUTE_SHADER).as_raw()
    );
    assert_eq!(raw::STAGE_ALL_COMMANDS, vk::PipelineStageFlags::ALL_COMMANDS.as_raw());
    assert_eq!(raw::WHOLE_SIZE, vk::WHOLE_SIZE);
    assert_eq!(raw::MEMORY_DEVICE_LOCAL, vk::MemoryPropertyFlags::DEVICE_LOCAL.as_raw());
    assert_eq!(raw::MEMORY_HOST_VISIBLE, vk::MemoryPropertyFlags::HOST_VISIBLE.as_raw());
    assert_eq!(raw::MEMORY_HOST_COHERENT, vk::MemoryPropertyFlags::HOST_COHERENT.as_raw());
    assert_eq!(raw::MEMORY_HOST_CACHED, vk::MemoryPropertyFlags::HOST_CACHED.as_raw());
    assert_eq!(raw::MEMORY_HOST_SHARED, raw::MEMORY_HOST_VISIBLE | raw::MEMORY_HOST_COHERENT);
    assert_eq!(raw::MEMORY_HOST_READBACK, raw::MEMORY_HOST_SHARED | raw::MEMORY_HOST_CACHED);
    assert_eq!(raw::IMAGE_USAGE_TRANSFER_SRC, vk::ImageUsageFlags::TRANSFER_SRC.as_raw());
    assert_eq!(raw::IMAGE_USAGE_TRANSFER_DST, vk::ImageUsageFlags::TRANSFER_DST.as_raw());
    assert_eq!(raw::IMAGE_USAGE_STORAGE, vk::ImageUsageFlags::STORAGE.as_raw());
    assert_eq!(raw::FORMAT_FEATURE_STORAGE_IMAGE, vk::FormatFeatureFlags::STORAGE_IMAGE.as_raw());
    assert_eq!(raw::FORMAT_R8G8B8A8_UNORM, vk::Format::R8G8B8A8_UNORM.as_raw());
    assert_eq!(raw::FORMAT_B8G8R8A8_UNORM, vk::Format::B8G8R8A8_UNORM.as_raw());
    assert_eq!(raw::RESULT_SUCCESS, vk::Result::SUCCESS.as_raw());
    assert_eq!(raw::RESULT_ERROR_DEVICE_LOST, vk::Result::ERROR_DEVICE_LOST.as_raw());
}

/// Follows the layouts of images through a recording, and fails where a command finds one in another
/// layout than it names.
fn replayed(mut layouts: HashMap<u64, i32>, commands: &[Command]) -> HashMap<u64, i32> {
    let in_layout = |layouts: &HashMap<u64, i32>, image: u64, layout: i32| {
        assert_eq!(layouts.get(&image).copied().unwrap_or(raw::LAYOUT_UNDEFINED), layout, "image {image}");
    };
    for command in commands {
        match *command {
            Command::Barrier { dependencies, .. } => {
                let list = match dependencies {
                    Dependencies::Image(a) => vec![a],
                    Dependencies::Images2(a, b) => vec![a, b],
                    Dependencies::Images3(a, b, c) => vec![a, b, c],
                    Dependencies::Images4(a, b, c, d) => vec![a, b, c, d],
                    Dependencies::Buffer(_) => vec![],
                };
                for b in list {
                    if b.old_layout != raw::LAYOUT_UNDEFINED {
                        in_layout(&layouts, b.image, b.old_layout);
                    }
                    layouts.insert(b.image, b.new_layout);
                }
            }
            Command::CopyImageToBuffer { image, layout, .. } => in_layout(&layouts, image, layout),
            Command::CopyBufferToImage { image, layout, .. } => in_layout(&layouts, image, layout),
            Command::Blit { src, src_layout, dst, dst_layout, .. } => {
                in_layout(&layouts, src, src_layout);
                in_layout(&layouts, dst, dst_layout);
            }
            _ => {}
        }
    }
    layouts
}

fn dispatcher() -> Dispatcher {
    Dispatcher { pipeline: 1, pipeline_layout: 2, descriptor_set: 3 }
}

fn recording(layout: i32) -> CaptureRecording {
    CaptureRecording {
        image: 10,
        initial_layout: layout,
        buffer: 20,
        extra_dst: Some(21),
        width: 17,
        height: 9,
        model: Some(ModelTarget { image: 11, buffer: 22, width: 8, height: 4 }),
        encode: Some(EncodeDispatch { dispatcher: dispatcher(), white_point: 5, bgr_order: 1, reversible_mode: 2 }),
    }
}

#[test]
fn a_capture_leaves_the_image_as_it_found_it() {
    for layout in [raw::LAYOUT_PRESENT_SRC, raw::LAYOUT_GENERAL, raw::LAYOUT_TRANSFER_DST] {
        let commands = record_capture_commands(recording(layout));
        let after = replayed(HashMap::from([(10, layout)]), &commands);
        assert_eq!(after[&10], layout);
        let copies = commands.iter().filter(|c| matches!(c, Command::CopyImageToBuffer { .. })).count();
        assert_eq!(copies, 3);
        assert!(commands.contains(&Command::Dispatch { groups_x: 1, groups_y: 1 }));
    }
    let plain = CaptureRecording { extra_dst: None, model: None, encode: None, ..recording(raw::LAYOUT_PRESENT_SRC) };
    assert_eq!(record_capture_commands(plain).len(), 3);
}

#[test]
fn reading_back_and_writing_back_restore_the_layout() {
    let before = HashMap::from([(10, raw::LAYOUT_PRESENT_SRC)]);
    assert_eq!(replayed(before.clone(), &record_read_back(10, 20, 4, 4)), before);
    let write = record_write_back(10, 20, 4, 4);
    assert_eq!(write.len(), 3);
    assert_eq!(replayed(before.clone(), &write), before);
    assert!(write_back_fits(64, 4, 4));
    assert!(!write_back_fits(63, 4, 4));
    assert!(!write_back_fits(0, u32::MAX, u32::MAX));
}

fn images() -> ComposeImages {
    ComposeImages { original: 1, model_answer: 2, proxy: 3, output: 4, small_answer: 5, staging: 6, cached: 7, current: 8 }
}

fn params(proxy_encoded: bool) -> ComposeParams {
    ComposeParams {
        dispatcher: dispatcher(),
        colour_strength: 1,
        transfer_strength: 2,
        max_ratio: 3,
        bgr_order: true,
        proxy_encoded,
    }
}

#[test]
fn composing_into_an_image_leaves_it_presentable() {
    let mut commands = record_upload_and_compute(images(), 16, 8, 512, params(false));
    record_copy_into_image(&mut commands, images(), 16, 8, 512, 100);
    let after = replayed(HashMap::from([(100, raw::LAYOUT_PRESENT_SRC)]), &commands);
    assert_eq!(after[&100], raw::LAYOUT_PRESENT_SRC);
    assert!(commands.contains(&Command::Dispatch { groups_x: 2, groups_y: 1 }));
    let raw_present = record_cached_raw_into_image(images(), 16, 8, 512, true, 100);
    let after = replayed(HashMap::from([(100, raw::LAYOUT_PRESENT_SRC)]), &raw_present);
    assert_eq!(after[&100], raw::LAYOUT_PRESENT_SRC);
    assert!(raw_present.len() > record_cached_raw_into_image(images(), 16, 8, 512, false, 100).len());
}

#[test]
fn a_delta_can_be_carried_again_and_again() {
    for small in [Raster { width: 16, height: 8 }, Raster { width: 8, height: 4 }] {
        let mut layouts = HashMap::from([(100, raw::LAYOUT_PRESENT_SRC)]);
        for round in 0..4 {
            let update = round % 2 == 0;
            let commands =
                record_temporal_delta_into_image(images(), 16, 8, small, 512, round > 0, update, 100, params(update));
            layouts = replayed(layouts, &commands);
            assert_eq!(layouts[&100], raw::LAYOUT_PRESENT_SRC);
            let mode = if update { 2 } else { 1 };
            assert!(commands.iter().any(|c| matches!(c, Command::Push { constants: PushConstants::Compose { mode: m, bgr_order: 1, .. }, .. } if *m == mode)));
        }
    }
}

#[test]
fn work_groups_cover_the_frame() {
    assert_eq!(work_groups(0), 0);
    assert_eq!(work_groups(1), 1);
    assert_eq!(work_groups(8), 1);
    assert_eq!(work_groups(9), 2);
    assert_eq!(work_groups(u32::MAX), 0x2000_0000);
}

#[test]
fn memory_types_are_chosen_in_order_of_preference() {
    let local = raw::MEMORY_DEVICE_LOCAL;
    let shared = raw::MEMORY_HOST_SHARED;
    let cached = raw::MEMORY_HOST_READBACK;
    assert_eq!(find_memory_type(&[local, shared, cached], 0b111, shared), Some(1));
    assert_eq!(find_memory_type(&[local, shared, cached], 0b101, shared), Some(2));
    assert_eq!(find_memory_type(&[local], 0b1, shared), None);
    assert_eq!(pick_readback_memory_type(&[shared, cached | local, cached], 0b111), Some(2));
    assert_eq!(pick_readback_memory_type(&[local, shared], 0b11), Some(1));
    assert_eq!(pick_readback_memory_type(&[local], 0b1), None);
    assert_eq!(pick_device_memory_type(&[shared, local], 0b11), Some(1));
    assert_eq!(pick_device_memory_type(&[shared, local], 0b01), Some(0));
    assert_eq!(pick_device_memory_type(&[shared, local], 0), None);
    assert_eq!(pick_import_memory_type(&[shared, shared], 0b11, 0b10), Some(1));
    assert_eq!(pick_import_memory_type(&[shared, shared], 0b01, 0b10), None);
}

#[test]
fn every_memory_has_its_policy() {
    assert_eq!(memory_policy(Builder::HostImport, Object::BufferMemory), MemoryPolicy::Imported);
    assert_eq!(memory_policy(Builder::CaptureBuffer, Object::BufferMemory), MemoryPolicy::ReadBack);
    assert_eq!(memory_policy(Builder::ModelScratch, Object::BufferMemory), MemoryPolicy::ReadBack);
    assert_eq!(memory_policy(Builder::SizedSlot, Object::StagingMemory), MemoryPolicy::Shared);
    for memory in [Object::CachedMemory, Object::CurrentMemory, Object::ImageMemory] {
        assert_eq!(memory_policy(Builder::SizedSlot, memory), MemoryPolicy::DeviceOnly);
    }
    let types = [raw::MEMORY_DEVICE_LOCAL, raw::MEMORY_HOST_SHARED, raw::MEMORY_HOST_READBACK];
    assert_eq!(choose_memory(MemoryPolicy::DeviceOnly, &types, 0b111, 0), Some(0));
    assert_eq!(choose_memory(MemoryPolicy::Shared, &types, 0b111, 0), Some(1));
    assert_eq!(choose_memory(MemoryPolicy::ReadBack, &types, 0b111, 0), Some(2));
    assert_eq!(choose_memory(MemoryPolicy::Imported, &types, 0b111, 0b100), Some(2));
    assert_eq!(choose_memory(MemoryPolicy::Imported, &types, 0b111, 0b001), None);
    assert_eq!(allocation_bytes(MemoryPolicy::Imported, 10, 16), 10);
    assert_eq!(allocation_bytes(MemoryPolicy::Shared, 10, 16), 16);
    assert_eq!(host_capacity(MemoryPolicy::ReadBack, 10, 16), Some(16));
    assert_eq!(host_capacity(MemoryPolicy::Shared, 10, 16), Some(10));
    assert_eq!(host_capacity(MemoryPolicy::Imported, 10, 16), Some(10));
    assert_eq!(host_capacity(MemoryPolicy::DeviceOnly, 10, 16), None);
    // A staging buffer holds a frame and its answer.
    assert_eq!(buffer_bytes(Object::StagingBuffer, 64), 128);
    assert_eq!(buffer_bytes(Object::CachedBuffer, 64), 64);
}

#[test]
fn images_and_passes_are_made_for_their_work() {
    let (from, to) = (vk::ImageUsageFlags::TRANSFER_SRC, vk::ImageUsageFlags::TRANSFER_DST);
    let storage = vk::ImageUsageFlags::STORAGE;
    assert_eq!(image_usage(ImageRole::Input), (to | storage).as_raw());
    assert_eq!(image_usage(ImageRole::Output), (from | storage).as_raw());
    assert_eq!(image_usage(ImageRole::SmallAnswer), (from | to | storage).as_raw());
    assert_eq!(image_usage(ImageRole::Scratch { encodes: true }), (from | to | storage).as_raw());
    assert_eq!(image_usage(ImageRole::Scratch { encodes: false }), (from | to).as_raw());
    assert_eq!(image_flags(ImageRole::Scratch { encodes: true }), vk::ImageCreateFlags::MUTABLE_FORMAT.as_raw());
    assert_eq!(image_flags(ImageRole::Scratch { encodes: false }), 0);
    assert_eq!(image_flags(ImageRole::Input), 0);
    assert_eq!(image_format(ImageRole::Scratch { encodes: true }, 44), 44);
    assert_eq!(image_format(ImageRole::Output, 44), vk::Format::R8G8B8A8_UNORM.as_raw());
    assert_eq!(slot_images().len(), 4);
    assert_eq!(slot_images()[3], (Object::OutputImage, ImageRole::Output));
    assert_eq!(
        bound_images(),
        [Object::OriginalImage, Object::ProxyImage, Object::AnswerImage, Object::OutputImage]
    );
    let compose = PassShape { bindings: 4, push_bytes: 20, sets: 3, descriptors: 12, frees_sets: false };
    let encode = PassShape { bindings: 1, push_bytes: 12, sets: 16, descriptors: 16, frees_sets: true };
    assert_eq!(pass_shape(Builder::Compose), Some(compose));
    assert_eq!(pass_shape(Builder::EncodePass), Some(encode));
    assert_eq!(pass_shape(Builder::CaptureBuffer), None);
}

#[test]
fn what_is_built_is_released_again() {
    let list = steps(Builder::CaptureBuffer);
    assert_eq!(list[0], Step::Create(Object::CommandPool));
    assert!(unwind(Builder::CaptureBuffer, 0).is_empty());
    assert_eq!(unwind(Builder::CaptureBuffer, 1), [Object::CommandPool]);
    for builder in [Builder::CaptureBuffer, Builder::ModelScratch, Builder::EncodePass, Builder::HostImport] {
        let list = steps(builder);
        for failed in 0..list.len() {
            let released = unwind(builder, failed);
            let mut live: Vec<Object> = Vec::new();
            for step in &list[..failed] {
                match step {
                    Step::Create(object) => live.push(*object),
                    Step::Release(object) => live.retain(|o| o != object),
                    _ => {}
                }
            }
            for object in live {
                assert!(released.contains(&object), "{builder:?} failing at {failed} keeps {object:?}");
            }
        }
    }
    assert_eq!(
        teardown(Builder::CaptureBuffer),
        [Object::Fence, Object::Buffer, Object::BufferMemory, Object::CommandPool]
    );
    // The set of the encode goes before the view that it speaks of, and both before the image.
    assert_eq!(teardown(Builder::ModelScratch)[..3], [Object::EncodeSet, Object::EncodeView, Object::Image]);
}

#[test]
fn capabilities_decide_what_is_tried() {
    assert!(supports_storage(raw::FORMAT_FEATURE_STORAGE_IMAGE | 1));
    assert!(!supports_storage(1));
    assert!(wants_encode(true, 2) && !wants_encode(false, 2) && !wants_encode(true, 0));
    assert_eq!(model_scratch_format(true, true), Some(raw::FORMAT_B8G8R8A8_UNORM));
    assert_eq!(model_scratch_format(true, false), Some(raw::FORMAT_R8G8B8A8_UNORM));
    assert_eq!(model_scratch_format(false, true), None);
    assert_eq!(min_imported_host_pointer_alignment(0), None);
    assert_eq!(min_imported_host_pointer_alignment(4096), Some(4096));
    assert!(proxy_encoded(&[None, Some(0)]) && !proxy_encoded(&[None, None]) && !proxy_encoded(&[]));
    assert!(zero_copy_allowed(false) && !zero_copy_allowed(true));
}
