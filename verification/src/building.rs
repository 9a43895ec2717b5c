//! The order in which GPU objects are built, and what is released when a step fails.
//!
//! A [`Builder`] is a list of steps. Carrying it out means performing them in order; when one
//! fails, [`unwind`] gives the objects to release, in order, and nothing was built.

use vstd::prelude::*;

verus! {

/// A GPU object of one builder.
#[derive(Clone, Copy, Debug, PartialEq, Eq, Structural)]
pub enum Object {
    CommandPool,
    Fence,
    Buffer,
    BufferMemory,
    Image,
    ImageMemory,
    ImageView,
    StagingBuffer,
    StagingMemory,
    OriginalImage,
    AnswerImage,
    ProxyImage,
    OutputImage,
    CachedBuffer,
    CachedMemory,
    CurrentBuffer,
    CurrentMemory,
    DescriptorSetLayout,
    PipelineLayout,
    ShaderModule,
    Pipeline,
    DescriptorPool,
    SyncSlot,
    AsyncSlot0,
    AsyncSlot1,
    CaptureBuffer0,
    CaptureBuffer1,
    /// The view that the encode writes through.
    EncodeView,
    /// The descriptor set of the encode, which speaks of that view.
    EncodeSet,
}

/// One step of a builder.
#[derive(Clone, Copy, Debug, PartialEq, Eq, Structural)]
pub enum Step {
    /// Creates or allocates an object.
    Create(Object),
    /// Creates the four images of a compose slot. All four are attempted, and the step fails when
    /// any of them could not be made; those that were are not released.
    CreateImages,
    /// Asks for the memory types that imported host memory can have.
    QueryHostPointer,
    /// Builds a buffer over imported host memory, which brings its buffer and its memory.
    ImportHostBuffer,
    /// Chooses the memory type of a memory about to be allocated.
    ChooseMemory(Object),
    /// Binds a memory to the buffer or image it is for.
    Bind(Object),
    /// Maps a memory.
    MapMemory(Object),
    /// Allocates a command buffer from the command pool, which owns it.
    AllocateCommands,
    /// Allocates a descriptor set from the descriptor pool, which owns it.
    AllocateSet,
    /// Decodes the shader's words.
    ReadShader,
    /// Destroys an object that the later steps do not need. It cannot fail.
    Release(Object),
    /// Makes the view and the set of the encode, where there is one. It cannot fail: where either
    /// cannot be made there is neither, and the scratch is used unencoded.
    MakeEncodeTarget,
}

/// What is built.
#[derive(Clone, Copy, Debug, PartialEq, Eq, Structural)]
pub enum Builder {
    /// A capture buffer with its command buffer and fence, its memory mapped.
    CaptureBuffer,
    /// A capture buffer over imported host memory, which is never mapped.
    ImportedCaptureBuffer,
    /// A buffer bound to imported host memory.
    HostImport,
    /// The model's scratch image, the mapped buffer that it is downloaded to, and what the encode
    /// over it needs.
    ModelScratch,
    /// An image that a shader can read and write, with its view.
    StorageImage,
    /// A compose slot's images and buffers for one frame size.
    SizedSlot,
    /// A compose slot's descriptor set, command buffer and fence. The set and the command buffer belong to their pools.
    ComposeSlot,
    /// The compose pipeline with its one waiting slot and two that are not waited for.
    Compose,
    /// The encode pipeline and the pool of its descriptor sets.
    EncodePass,
    /// The two capture buffers of a capture pipeline.
    CapturePipeline,
}

/// The steps of a builder, in order.
pub open spec fn steps_of(b: Builder) -> Seq<Step> {
    match b {
        Builder::CaptureBuffer => seq![
            Step::Create(Object::CommandPool),
            Step::AllocateCommands,
            Step::Create(Object::Fence),
            Step::Create(Object::Buffer),
            Step::ChooseMemory(Object::BufferMemory),
            Step::Create(Object::BufferMemory),
            Step::Bind(Object::BufferMemory),
            Step::MapMemory(Object::BufferMemory),
        ],
        Builder::ImportedCaptureBuffer => seq![
            Step::Create(Object::CommandPool),
            Step::AllocateCommands,
            Step::Create(Object::Fence),
            Step::ImportHostBuffer,
        ],
        Builder::HostImport => seq![
            Step::QueryHostPointer,
            Step::Create(Object::Buffer),
            Step::ChooseMemory(Object::BufferMemory),
            Step::Create(Object::BufferMemory),
            Step::Bind(Object::BufferMemory),
        ],
        Builder::ModelScratch => seq![
            Step::Create(Object::Image),
            Step::ChooseMemory(Object::ImageMemory),
            Step::Create(Object::ImageMemory),
            Step::Bind(Object::ImageMemory),
            Step::Create(Object::Buffer),
            Step::ChooseMemory(Object::BufferMemory),
            Step::Create(Object::BufferMemory),
            Step::Bind(Object::BufferMemory),
            Step::MapMemory(Object::BufferMemory),
            Step::MakeEncodeTarget,
        ],
        Builder::StorageImage => seq![
            Step::Create(Object::Image),
            Step::ChooseMemory(Object::ImageMemory),
            Step::Create(Object::ImageMemory),
            Step::Bind(Object::ImageMemory),
            Step::Create(Object::ImageView),
        ],
        Builder::SizedSlot => seq![
            Step::CreateImages,
            Step::Create(Object::StagingBuffer),
            Step::ChooseMemory(Object::StagingMemory),
            Step::Create(Object::StagingMemory),
            Step::Bind(Object::StagingMemory),
            Step::MapMemory(Object::StagingMemory),
            Step::Create(Object::CachedBuffer),
            Step::ChooseMemory(Object::CachedMemory),
            Step::Create(Object::CachedMemory),
            Step::Bind(Object::CachedMemory),
            Step::Create(Object::CurrentBuffer),
            Step::ChooseMemory(Object::CurrentMemory),
            Step::Create(Object::CurrentMemory),
            Step::Bind(Object::CurrentMemory),
        ],
        Builder::ComposeSlot => seq![
            Step::AllocateSet,
            Step::AllocateCommands,
            Step::Create(Object::Fence),
        ],
        Builder::Compose => seq![
            Step::Create(Object::DescriptorSetLayout),
            Step::Create(Object::PipelineLayout),
            Step::ReadShader,
            Step::Create(Object::ShaderModule),
            Step::Create(Object::Pipeline),
            Step::Release(Object::ShaderModule),
            Step::Create(Object::DescriptorPool),
            Step::Create(Object::CommandPool),
            Step::Create(Object::SyncSlot),
            Step::Create(Object::AsyncSlot0),
            Step::Create(Object::AsyncSlot1),
        ],
        Builder::EncodePass => seq![
            Step::Create(Object::DescriptorSetLayout),
            Step::Create(Object::PipelineLayout),
            Step::ReadShader,
            Step::Create(Object::ShaderModule),
            Step::Create(Object::Pipeline),
            Step::Release(Object::ShaderModule),
            Step::Create(Object::DescriptorPool),
        ],
        Builder::CapturePipeline => seq![
            Step::Create(Object::CaptureBuffer0),
            Step::Create(Object::CaptureBuffer1),
        ],
    }
}

/// The objects to release, in order, when step `failed` of a builder fails.
pub open spec fn unwind_of(b: Builder, failed: int) -> Seq<Object> {
    match b {
        Builder::CaptureBuffer => {
            if failed == 0 {
                seq![]
            } else if failed == 1 || failed == 2 {
                seq![Object::CommandPool]
            } else if failed == 3 {
                seq![Object::Fence, Object::CommandPool]
            } else if failed == 4 || failed == 5 {
                seq![Object::Buffer, Object::Fence, Object::CommandPool]
            } else {
                seq![Object::BufferMemory, Object::Buffer, Object::Fence, Object::CommandPool]
            }
        },
        Builder::ImportedCaptureBuffer => {
            if failed == 0 {
                seq![]
            } else if failed == 1 || failed == 2 {
                seq![Object::CommandPool]
            } else {
                seq![Object::Fence, Object::CommandPool]
            }
        },
        Builder::HostImport => {
            if failed == 0 || failed == 1 {
                seq![]
            } else if failed == 2 || failed == 3 {
                seq![Object::Buffer]
            } else {
                seq![Object::BufferMemory, Object::Buffer]
            }
        },
        Builder::ModelScratch => {
            if failed == 0 {
                seq![]
            } else if failed == 1 || failed == 2 {
                seq![Object::Image]
            } else if failed == 3 {
                seq![Object::ImageMemory, Object::Image]
            } else if failed == 4 {
                seq![Object::Image, Object::ImageMemory]
            } else if failed == 5 || failed == 6 {
                seq![Object::Buffer, Object::Image, Object::ImageMemory]
            } else {
                seq![Object::BufferMemory, Object::Buffer, Object::Image, Object::ImageMemory]
            }
        },
        Builder::StorageImage => {
            if failed == 0 {
                seq![]
            } else if failed == 1 || failed == 2 {
                seq![Object::Image]
            } else {
                seq![Object::ImageMemory, Object::Image]
            }
        },
        Builder::SizedSlot => {
            if failed == 0 || failed == 1 {
                seq![]
            } else if failed == 2 || failed == 3 {
                seq![Object::StagingBuffer]
            } else if failed == 4 || failed == 5 {
                seq![Object::StagingMemory, Object::StagingBuffer]
            } else if failed == 6 {
                seq![
                    Object::StagingBuffer,
                    Object::StagingMemory,
                    Object::OriginalImage,
                    Object::AnswerImage,
                    Object::ProxyImage,
                    Object::OutputImage,
                ]
            } else if failed == 7 || failed == 8 {
                seq![
                    Object::CachedBuffer,
                    Object::StagingBuffer,
                    Object::StagingMemory,
                    Object::OriginalImage,
                    Object::AnswerImage,
                    Object::ProxyImage,
                    Object::OutputImage,
                ]
            } else if failed == 9 {
                seq![
                    Object::CachedMemory,
                    Object::CachedBuffer,
                    Object::StagingBuffer,
                    Object::StagingMemory,
                    Object::OriginalImage,
                    Object::AnswerImage,
                    Object::ProxyImage,
                    Object::OutputImage,
                ]
            } else if failed == 10 {
                seq![]
            } else if failed == 11 || failed == 12 {
                seq![Object::CurrentBuffer]
            } else {
                seq![Object::CurrentMemory, Object::CurrentBuffer]
            }
        },
        Builder::ComposeSlot => {
            seq![]
        },
        Builder::Compose => {
            if failed == 0 {
                seq![]
            } else if failed == 1 {
                seq![Object::DescriptorSetLayout]
            } else if failed == 2 || failed == 3 {
                seq![Object::PipelineLayout, Object::DescriptorSetLayout]
            } else if failed == 4 {
                seq![Object::ShaderModule, Object::PipelineLayout, Object::DescriptorSetLayout]
            } else if failed == 5 {
                seq![Object::Pipeline, Object::ShaderModule, Object::PipelineLayout, Object::DescriptorSetLayout]
            } else if failed == 6 {
                seq![Object::Pipeline, Object::PipelineLayout, Object::DescriptorSetLayout]
            } else if failed == 7 {
                seq![Object::DescriptorPool, Object::Pipeline, Object::PipelineLayout, Object::DescriptorSetLayout]
            } else if failed == 8 {
                seq![
                    Object::CommandPool,
                    Object::DescriptorPool,
                    Object::Pipeline,
                    Object::PipelineLayout,
                    Object::DescriptorSetLayout,
                ]
            } else if failed == 9 {
                seq![
                    Object::SyncSlot,
                    Object::CommandPool,
                    Object::DescriptorPool,
                    Object::Pipeline,
                    Object::PipelineLayout,
                    Object::DescriptorSetLayout,
                ]
            } else {
                seq![
                    Object::SyncSlot,
                    Object::AsyncSlot0,
                    Object::CommandPool,
                    Object::DescriptorPool,
                    Object::Pipeline,
                    Object::PipelineLayout,
                    Object::DescriptorSetLayout,
                ]
            }
        },
        Builder::EncodePass => {
            if failed == 0 {
                seq![]
            } else if failed == 1 {
                seq![Object::DescriptorSetLayout]
            } else if failed == 2 || failed == 3 {
                seq![Object::PipelineLayout, Object::DescriptorSetLayout]
            } else if failed == 4 {
                seq![Object::ShaderModule, Object::PipelineLayout, Object::DescriptorSetLayout]
            } else if failed == 5 {
                seq![Object::Pipeline, Object::ShaderModule, Object::PipelineLayout, Object::DescriptorSetLayout]
            } else {
                seq![Object::Pipeline, Object::PipelineLayout, Object::DescriptorSetLayout]
            }
        },
        Builder::CapturePipeline => {
            if failed == 0 {
                seq![]
            } else {
                seq![Object::CaptureBuffer0]
            }
        },
    }
}

/// The objects of a finished builder, in the order in which they are released. One that was not made
/// is passed over.
pub open spec fn teardown_of(b: Builder) -> Seq<Object> {
    match b {
        Builder::CaptureBuffer => seq![Object::Fence, Object::Buffer, Object::BufferMemory, Object::CommandPool],
        Builder::ImportedCaptureBuffer => seq![
            Object::Fence,
            Object::Buffer,
            Object::BufferMemory,
            Object::CommandPool,
        ],
        Builder::HostImport => seq![Object::Buffer, Object::BufferMemory],
        Builder::ModelScratch => seq![
            Object::EncodeSet,
            Object::EncodeView,
            Object::Image,
            Object::ImageMemory,
            Object::Buffer,
            Object::BufferMemory,
        ],
        Builder::StorageImage => seq![Object::ImageView, Object::Image, Object::ImageMemory],
        Builder::SizedSlot => seq![
            Object::OriginalImage,
            Object::AnswerImage,
            Object::ProxyImage,
            Object::OutputImage,
            Object::StagingBuffer,
            Object::StagingMemory,
            Object::CachedBuffer,
            Object::CachedMemory,
            Object::CurrentBuffer,
            Object::CurrentMemory,
        ],
        Builder::ComposeSlot => seq![Object::Fence],
        Builder::Compose => seq![
            Object::SyncSlot,
            Object::AsyncSlot0,
            Object::AsyncSlot1,
            Object::CommandPool,
            Object::DescriptorPool,
            Object::Pipeline,
            Object::PipelineLayout,
            Object::DescriptorSetLayout,
        ],
        Builder::EncodePass => seq![
            Object::DescriptorPool,
            Object::Pipeline,
            Object::PipelineLayout,
            Object::DescriptorSetLayout,
        ],
        Builder::CapturePipeline => seq![Object::CaptureBuffer0, Object::CaptureBuffer1],
    }
}

/// The steps of `b`, to be performed in order.
pub fn steps(b: Builder) -> (list: Vec<Step>)
    ensures
        list@ == steps_of(b),
{
    match b {
        Builder::CaptureBuffer => vec![
            Step::Create(Object::CommandPool),
            Step::AllocateCommands,
            Step::Create(Object::Fence),
            Step::Create(Object::Buffer),
            Step::ChooseMemory(Object::BufferMemory),
            Step::Create(Object::BufferMemory),
            Step::Bind(Object::BufferMemory),
            Step::MapMemory(Object::BufferMemory),
        ],
        Builder::ImportedCaptureBuffer => vec![
            Step::Create(Object::CommandPool),
            Step::AllocateCommands,
            Step::Create(Object::Fence),
            Step::ImportHostBuffer,
        ],
        Builder::HostImport => vec![
            Step::QueryHostPointer,
            Step::Create(Object::Buffer),
            Step::ChooseMemory(Object::BufferMemory),
            Step::Create(Object::BufferMemory),
            Step::Bind(Object::BufferMemory),
        ],
        Builder::ModelScratch => vec![
            Step::Create(Object::Image),
            Step::ChooseMemory(Object::ImageMemory),
            Step::Create(Object::ImageMemory),
            Step::Bind(Object::ImageMemory),
            Step::Create(Object::Buffer),
            Step::ChooseMemory(Object::BufferMemory),
            Step::Create(Object::BufferMemory),
            Step::Bind(Object::BufferMemory),
            Step::MapMemory(Object::BufferMemory),
            Step::MakeEncodeTarget,
        ],
        Builder::StorageImage => vec![
            Step::Create(Object::Image),
            Step::ChooseMemory(Object::ImageMemory),
            Step::Create(Object::ImageMemory),
            Step::Bind(Object::ImageMemory),
            Step::Create(Object::ImageView),
        ],
        Builder::SizedSlot => vec![
            Step::CreateImages,
            Step::Create(Object::StagingBuffer),
            Step::ChooseMemory(Object::StagingMemory),
            Step::Create(Object::StagingMemory),
            Step::Bind(Object::StagingMemory),
            Step::MapMemory(Object::StagingMemory),
            Step::Create(Object::CachedBuffer),
            Step::ChooseMemory(Object::CachedMemory),
            Step::Create(Object::CachedMemory),
            Step::Bind(Object::CachedMemory),
            Step::Create(Object::CurrentBuffer),
            Step::ChooseMemory(Object::CurrentMemory),
            Step::Create(Object::CurrentMemory),
            Step::Bind(Object::CurrentMemory),
        ],
        Builder::ComposeSlot => vec![
            Step::AllocateSet,
            Step::AllocateCommands,
            Step::Create(Object::Fence),
        ],
        Builder::Compose => vec![
            Step::Create(Object::DescriptorSetLayout),
            Step::Create(Object::PipelineLayout),
            Step::ReadShader,
            Step::Create(Object::ShaderModule),
            Step::Create(Object::Pipeline),
            Step::Release(Object::ShaderModule),
            Step::Create(Object::DescriptorPool),
            Step::Create(Object::CommandPool),
            Step::Create(Object::SyncSlot),
            Step::Create(Object::AsyncSlot0),
            Step::Create(Object::AsyncSlot1),
        ],
        Builder::EncodePass => vec![
            Step::Create(Object::DescriptorSetLayout),
            Step::Create(Object::PipelineLayout),
            Step::ReadShader,
            Step::Create(Object::ShaderModule),
            Step::Create(Object::Pipeline),
            Step::Release(Object::ShaderModule),
            Step::Create(Object::DescriptorPool),
        ],
        Builder::CapturePipeline => vec![
            Step::Create(Object::CaptureBuffer0),
            Step::Create(Object::CaptureBuffer1),
        ],
    }
}

/// What to release, in order, when step `failed` of `b` fails.
pub fn unwind(b: Builder, failed: usize) -> (list: Vec<Object>)
    requires
        failed < steps_of(b).len(),
    ensures
        list@ == unwind_of(b, failed as int),
{
    match b {
        Builder::CaptureBuffer => {
            if failed == 0 {
                Vec::new()
            } else if failed == 1 || failed == 2 {
                vec![Object::CommandPool]
            } else if failed == 3 {
                vec![Object::Fence, Object::CommandPool]
            } else if failed == 4 || failed == 5 {
                vec![Object::Buffer, Object::Fence, Object::CommandPool]
            } else {
                vec![Object::BufferMemory, Object::Buffer, Object::Fence, Object::CommandPool]
            }
        },
        Builder::ImportedCaptureBuffer => {
            if failed == 0 {
                Vec::new()
            } else if failed == 1 || failed == 2 {
                vec![Object::CommandPool]
            } else {
                vec![Object::Fence, Object::CommandPool]
            }
        },
        Builder::HostImport => {
            if failed == 0 || failed == 1 {
                Vec::new()
            } else if failed == 2 || failed == 3 {
                vec![Object::Buffer]
            } else {
                vec![Object::BufferMemory, Object::Buffer]
            }
        },
        Builder::ModelScratch => {
            if failed == 0 {
                Vec::new()
            } else if failed == 1 || failed == 2 {
                vec![Object::Image]
            } else if failed == 3 {
                vec![Object::ImageMemory, Object::Image]
            } else if failed == 4 {
                vec![Object::Image, Object::ImageMemory]
            } else if failed == 5 || failed == 6 {
                vec![Object::Buffer, Object::Image, Object::ImageMemory]
            } else {
                vec![Object::BufferMemory, Object::Buffer, Object::Image, Object::ImageMemory]
            }
        },
        Builder::StorageImage => {
            if failed == 0 {
                Vec::new()
            } else if failed == 1 || failed == 2 {
                vec![Object::Image]
            } else {
                vec![Object::ImageMemory, Object::Image]
            }
        },
        Builder::SizedSlot => {
            if failed == 0 || failed == 1 {
                Vec::new()
            } else if failed == 2 || failed == 3 {
                vec![Object::StagingBuffer]
            } else if failed == 4 || failed == 5 {
                vec![Object::StagingMemory, Object::StagingBuffer]
            } else if failed == 6 {
                vec![
                    Object::StagingBuffer,
                    Object::StagingMemory,
                    Object::OriginalImage,
                    Object::AnswerImage,
                    Object::ProxyImage,
                    Object::OutputImage,
                ]
            } else if failed == 7 || failed == 8 {
                vec![
                    Object::CachedBuffer,
                    Object::StagingBuffer,
                    Object::StagingMemory,
                    Object::OriginalImage,
                    Object::AnswerImage,
                    Object::ProxyImage,
                    Object::OutputImage,
                ]
            } else if failed == 9 {
                vec![
                    Object::CachedMemory,
                    Object::CachedBuffer,
                    Object::StagingBuffer,
                    Object::StagingMemory,
                    Object::OriginalImage,
                    Object::AnswerImage,
                    Object::ProxyImage,
                    Object::OutputImage,
                ]
            } else if failed == 10 {
                Vec::new()
            } else if failed == 11 || failed == 12 {
                vec![Object::CurrentBuffer]
            } else {
                vec![Object::CurrentMemory, Object::CurrentBuffer]
            }
        },
        Builder::ComposeSlot => {
            Vec::new()
        },
        Builder::Compose => {
            if failed == 0 {
                Vec::new()
            } else if failed == 1 {
                vec![Object::DescriptorSetLayout]
            } else if failed == 2 || failed == 3 {
                vec![Object::PipelineLayout, Object::DescriptorSetLayout]
            } else if failed == 4 {
                vec![Object::ShaderModule, Object::PipelineLayout, Object::DescriptorSetLayout]
            } else if failed == 5 {
                vec![Object::Pipeline, Object::ShaderModule, Object::PipelineLayout, Object::DescriptorSetLayout]
            } else if failed == 6 {
                vec![Object::Pipeline, Object::PipelineLayout, Object::DescriptorSetLayout]
            } else if failed == 7 {
                vec![Object::DescriptorPool, Object::Pipeline, Object::PipelineLayout, Object::DescriptorSetLayout]
            } else if failed == 8 {
                vec![
                    Object::CommandPool,
                    Object::DescriptorPool,
                    Object::Pipeline,
                    Object::PipelineLayout,
                    Object::DescriptorSetLayout,
                ]
            } else if failed == 9 {
                vec![
                    Object::SyncSlot,
                    Object::CommandPool,
                    Object::DescriptorPool,
                    Object::Pipeline,
                    Object::PipelineLayout,
                    Object::DescriptorSetLayout,
                ]
            } else {
                vec![
                    Object::SyncSlot,
                    Object::AsyncSlot0,
                    Object::CommandPool,
                    Object::DescriptorPool,
                    Object::Pipeline,
                    Object::PipelineLayout,
                    Object::DescriptorSetLayout,
                ]
            }
        },
        Builder::EncodePass => {
            if failed == 0 {
                Vec::new()
            } else if failed == 1 {
                vec![Object::DescriptorSetLayout]
            } else if failed == 2 || failed == 3 {
                vec![Object::PipelineLayout, Object::DescriptorSetLayout]
            } else if failed == 4 {
                vec![Object::ShaderModule, Object::PipelineLayout, Object::DescriptorSetLayout]
            } else if failed == 5 {
                vec![Object::Pipeline, Object::ShaderModule, Object::PipelineLayout, Object::DescriptorSetLayout]
            } else {
                vec![Object::Pipeline, Object::PipelineLayout, Object::DescriptorSetLayout]
            }
        },
        Builder::CapturePipeline => {
            if failed == 0 {
                Vec::new()
            } else {
                vec![Object::CaptureBuffer0]
            }
        },
    }
}

/// What to release, in order, when a finished `b` is no longer needed. An object that was not made is
/// passed over.
pub fn teardown(b: Builder) -> (list: Vec<Object>)
    ensures
        list@ == teardown_of(b),
{
    match b {
        Builder::CaptureBuffer => vec![Object::Fence, Object::Buffer, Object::BufferMemory, Object::CommandPool],
        Builder::ImportedCaptureBuffer => vec![
            Object::Fence,
            Object::Buffer,
            Object::BufferMemory,
            Object::CommandPool,
        ],
        Builder::HostImport => vec![Object::Buffer, Object::BufferMemory],
        Builder::ModelScratch => vec![
            Object::EncodeSet,
            Object::EncodeView,
            Object::Image,
            Object::ImageMemory,
            Object::Buffer,
            Object::BufferMemory,
        ],
        Builder::StorageImage => vec![Object::ImageView, Object::Image, Object::ImageMemory],
        Builder::SizedSlot => vec![
            Object::OriginalImage,
            Object::AnswerImage,
            Object::ProxyImage,
            Object::OutputImage,
            Object::StagingBuffer,
            Object::StagingMemory,
            Object::CachedBuffer,
            Object::CachedMemory,
            Object::CurrentBuffer,
            Object::CurrentMemory,
        ],
        Builder::ComposeSlot => vec![Object::Fence],
        Builder::Compose => vec![
            Object::SyncSlot,
            Object::AsyncSlot0,
            Object::AsyncSlot1,
            Object::CommandPool,
            Object::DescriptorPool,
            Object::Pipeline,
            Object::PipelineLayout,
            Object::DescriptorSetLayout,
        ],
        Builder::EncodePass => vec![
            Object::DescriptorPool,
            Object::Pipeline,
            Object::PipelineLayout,
            Object::DescriptorSetLayout,
        ],
        Builder::CapturePipeline => vec![Object::CaptureBuffer0, Object::CaptureBuffer1],
    }
}

/// The objects alive after one more step.
pub open spec fn after_step(live: Set<Object>, s: Step) -> Set<Object> {
    match s {
        Step::Create(o) => live.insert(o),
        Step::CreateImages => live.insert(Object::OriginalImage).insert(Object::AnswerImage).insert(
            Object::ProxyImage,
        ).insert(Object::OutputImage),
        Step::ImportHostBuffer => live.insert(Object::Buffer).insert(Object::BufferMemory),
        Step::Release(o) => live.remove(o),
        Step::MakeEncodeTarget => live.insert(Object::EncodeView).insert(Object::EncodeSet),
        _ => live,
    }
}

/// The objects alive after a list of steps.
pub open spec fn live(list: Seq<Step>) -> Set<Object>
    decreases list.len(),
{
    if list.len() == 0 {
        Set::empty()
    } else {
        after_step(live(list.drop_last()), list.last())
    }
}

/// Whether a failure of step `failed` leaves objects behind. It is the rebuild of a compose slot
/// that does: a failure over its staging buffer does not release the four images, and one over
/// its last buffer releases nothing but that buffer.
pub open spec fn leaves_objects_behind(b: Builder, failed: int) -> bool {
    b == Builder::SizedSlot && (1 <= failed <= 5 || 10 <= failed)
}

/// Whether an object is alive after the first `n` steps.
spec fn is_alive(list: Seq<Step>, n: int, o: Object) -> bool
    decreases n,
{
    if n <= 0 {
        false
    } else {
        match list[n - 1] {
            Step::Create(made) => made == o || is_alive(list, n - 1, o),
            Step::CreateImages => o == Object::OriginalImage || o == Object::AnswerImage || o == Object::ProxyImage || o
                == Object::OutputImage || is_alive(list, n - 1, o),
            Step::ImportHostBuffer => o == Object::Buffer || o == Object::BufferMemory || is_alive(list, n - 1, o),
            Step::Release(gone) => gone != o && is_alive(list, n - 1, o),
            Step::MakeEncodeTarget => o == Object::EncodeView || o == Object::EncodeSet || is_alive(list, n - 1, o),
            _ => is_alive(list, n - 1, o),
        }
    }
}

/// Whether an object is among the first `n` of a list.
spec fn is_listed(list: Seq<Object>, n: int, o: Object) -> bool
    decreases n,
{
    n > 0 && (list[n - 1] == o || is_listed(list, n - 1, o))
}

proof fn lemma_alive(list: Seq<Step>, n: int, o: Object)
    requires
        0 <= n <= list.len(),
    ensures
        is_alive(list, n, o) == live(list.take(n)).contains(o),
    decreases n,
{
    if n > 0 {
        lemma_alive(list, n - 1, o);
        assert(list.take(n).drop_last() =~= list.take(n - 1));
    }
}

proof fn lemma_listed(list: Seq<Object>, n: int, o: Object)
    requires
        0 <= n <= list.len(),
    ensures
        is_listed(list, n, o) <==> exists|i: int| 0 <= i < n && list[i] == o,
    decreases n,
{
    if n > 0 {
        lemma_listed(list, n - 1, o);
    }
}

/// A list that holds the objects alive after the first `n` steps, one by one, holds them as a set.
proof fn lemma_same_objects(steps: Seq<Step>, n: int, objects: Seq<Object>)
    requires
        0 <= n <= steps.len(),
        forall|o: Object| is_listed(objects, objects.len() as int, o) == is_alive(steps, n, o),
    ensures
        objects.to_set() == live(steps.take(n)),
{
    assert forall|o: Object| objects.to_set().contains(o) == live(steps.take(n)).contains(o) by {
        lemma_alive(steps, n, o);
        lemma_listed(objects, objects.len() as int, o);
    }
    assert(objects.to_set() =~= live(steps.take(n)));
}

/// Each builder releases what is alive, object by object.
proof fn lemma_accounts(b: Builder, failed: int, o: Object)
    requires
        0 <= failed < steps_of(b).len(),
    ensures
        !leaves_objects_behind(b, failed) ==> is_listed(unwind_of(b, failed), unwind_of(b, failed).len() as int, o)
            == is_alive(steps_of(b), failed, o),
        is_listed(teardown_of(b), teardown_of(b).len() as int, o) == is_alive(
            steps_of(b),
            steps_of(b).len() as int,
            o,
        ),
{
    reveal_with_fuel(is_alive, 16);
    reveal_with_fuel(is_listed, 12);
}

/// Whether `o` speaks of `other`, and so must be released before it.
pub open spec fn speaks_of(o: Object, other: Object) -> bool {
    ||| o == Object::EncodeSet && other == Object::EncodeView
    ||| o == Object::EncodeView && other == Object::Image
    ||| o == Object::ImageView && other == Object::Image
}

/// A descriptor set goes before the view that it speaks of, and a view before its image.
pub proof fn what_is_spoken_of_goes_later(b: Builder, i: int, j: int)
    requires
        0 <= i < teardown_of(b).len(),
        0 <= j < teardown_of(b).len(),
        speaks_of(teardown_of(b)[i], teardown_of(b)[j]),
    ensures
        i < j,
{
}

/// A builder that fails releases exactly the objects that its earlier steps made, each of them
/// once; and a finished one is released completely.
pub proof fn nothing_is_leaked(b: Builder, failed: int)
    requires
        0 <= failed < steps_of(b).len(),
        !leaves_objects_behind(b, failed),
    ensures
        unwind_of(b, failed).no_duplicates(),
        unwind_of(b, failed).to_set() == live(steps_of(b).take(failed)),
        teardown_of(b).no_duplicates(),
        teardown_of(b).to_set() == live(steps_of(b)),
{
    let steps = steps_of(b);
    assert forall|o: Object| is_listed(unwind_of(b, failed), unwind_of(b, failed).len() as int, o) == is_alive(
        steps,
        failed,
        o,
    ) by {
        lemma_accounts(b, failed, o);
    }
    lemma_same_objects(steps, failed, unwind_of(b, failed));
    assert forall|o: Object| is_listed(teardown_of(b), teardown_of(b).len() as int, o) == is_alive(
        steps,
        steps.len() as int,
        o,
    ) by {
        lemma_accounts(b, failed, o);
    }
    lemma_same_objects(steps, steps.len() as int, teardown_of(b));
    assert(steps.take(steps.len() as int) =~= steps);
}

/// What a memory is for.
pub open spec fn holder_of(memory: Object) -> Option<Object> {
    match memory {
        Object::BufferMemory => Some(Object::Buffer),
        Object::ImageMemory => Some(Object::Image),
        Object::StagingMemory => Some(Object::StagingBuffer),
        Object::CachedMemory => Some(Object::CachedBuffer),
        Object::CurrentMemory => Some(Object::CurrentBuffer),
        _ => None,
    }
}

/// A memory is allocated right after the object that it is for was made and its type chosen, and bound
/// to it at once. Of those, what the CPU reads or fills is mapped next: the staging buffer's, and every
/// buffer's that is not imported.
pub proof fn a_memory_is_bound_to_what_it_is_for(b: Builder, i: int, memory: Object)
    requires
        0 <= i < steps_of(b).len(),
        holder_of(memory) is Some,
    ensures
        ({
            let steps = steps_of(b);
            let mapped = memory == Object::StagingMemory || memory == Object::BufferMemory && b != Builder::HostImport;
            &&& steps[i] == Step::Create(memory) ==> {
                &&& 2 <= i && i + 1 < steps.len()
                &&& steps[i - 2] == Step::Create(holder_of(memory)->0)
                &&& steps[i - 1] == Step::ChooseMemory(memory)
                &&& steps[i + 1] == Step::Bind(memory)
                &&& mapped ==> i + 2 < steps.len() && steps[i + 2] == Step::MapMemory(memory)
            }
            &&& steps[i] == Step::Create(holder_of(memory)->0) ==> i + 2 < steps.len() && steps[i + 2] == Step::Create(
                memory,
            )
            &&& steps[i] == Step::ChooseMemory(memory) ==> i + 1 < steps.len() && steps[i + 1] == Step::Create(memory)
            &&& steps[i] == Step::Bind(memory) ==> 1 <= i && steps[i - 1] == Step::Create(memory)
            &&& steps[i] == Step::MapMemory(memory) ==> mapped && 1 <= i && steps[i - 1] == Step::Bind(memory)
        }),
{
}

/// A pipeline is made of its layout and its shader's module, which is decoded first and let go right
/// behind it; the layout speaks of the layout of its sets. A view is made of an image that has its
/// memory. Commands are allocated from a pool that there is.
pub proof fn parts_are_made_first(b: Builder, i: int)
    requires
        0 <= i < steps_of(b).len(),
    ensures
        ({
            let steps = steps_of(b);
            &&& steps[i] == Step::Create(Object::Pipeline) ==> {
                &&& 4 <= i && i + 1 < steps.len()
                &&& steps[i - 4] == Step::Create(Object::DescriptorSetLayout)
                &&& steps[i - 3] == Step::Create(Object::PipelineLayout)
                &&& steps[i - 2] == Step::ReadShader
                &&& steps[i - 1] == Step::Create(Object::ShaderModule)
                &&& steps[i + 1] == Step::Release(Object::ShaderModule)
            }
            &&& steps[i] == Step::Create(Object::ImageView) ==> 1 <= i && steps[i - 1] == Step::Bind(Object::ImageMemory)
            &&& steps[i] == Step::AllocateCommands && b != Builder::ComposeSlot ==> i == 1 && steps[0] == Step::Create(
                Object::CommandPool,
            ) && steps[2] == Step::Create(Object::Fence)
            &&& steps[i] == Step::Create(Object::SyncSlot) ==> 2 <= i && steps[i - 2] == Step::Create(
                Object::DescriptorPool,
            ) && steps[i - 1] == Step::Create(Object::CommandPool)
            &&& steps[i] == Step::ImportHostBuffer ==> b == Builder::ImportedCaptureBuffer && i == 3
            &&& steps[i] == Step::QueryHostPointer ==> b == Builder::HostImport && i == 0
            &&& steps[i] == Step::MakeEncodeTarget ==> b == Builder::ModelScratch && i + 1 == steps.len()
            &&& steps[i] == Step::CreateImages ==> b == Builder::SizedSlot && i == 0
            &&& steps[i] == Step::AllocateSet ==> b == Builder::ComposeSlot
        }),
{
}

/// The objects that a finished builder has.
pub proof fn a_finished_builder_has_its_objects(b: Builder, o: Object)
    ensures
        live(steps_of(b)).contains(o) <==> match b {
            Builder::CaptureBuffer | Builder::ImportedCaptureBuffer => o == Object::CommandPool || o == Object::Fence
                || o == Object::Buffer || o == Object::BufferMemory,
            Builder::HostImport => o == Object::Buffer || o == Object::BufferMemory,
            Builder::ModelScratch => o == Object::Image || o == Object::ImageMemory || o == Object::Buffer || o
                == Object::BufferMemory || o == Object::EncodeView || o == Object::EncodeSet,
            Builder::StorageImage => o == Object::Image || o == Object::ImageMemory || o == Object::ImageView,
            Builder::SizedSlot => o == Object::OriginalImage || o == Object::AnswerImage || o == Object::ProxyImage || o
                == Object::OutputImage || o == Object::StagingBuffer || o == Object::StagingMemory || o
                == Object::CachedBuffer || o == Object::CachedMemory || o == Object::CurrentBuffer || o
                == Object::CurrentMemory,
            Builder::ComposeSlot => o == Object::Fence,
            Builder::Compose => o == Object::DescriptorSetLayout || o == Object::PipelineLayout || o == Object::Pipeline
                || o == Object::DescriptorPool || o == Object::CommandPool || o == Object::SyncSlot || o
                == Object::AsyncSlot0 || o == Object::AsyncSlot1,
            Builder::EncodePass => o == Object::DescriptorSetLayout || o == Object::PipelineLayout || o
                == Object::Pipeline || o == Object::DescriptorPool,
            Builder::CapturePipeline => o == Object::CaptureBuffer0 || o == Object::CaptureBuffer1,
        },
{
    let steps = steps_of(b);
    reveal_with_fuel(is_alive, 16);
    lemma_alive(steps, steps.len() as int, o);
    assert(steps.take(steps.len() as int) =~= steps);
}

/// Whether `o` is made of `other`, or lies in it.
pub open spec fn is_made_of(o: Object, other: Object) -> bool {
    ||| holder_of(other) == Some(o)
    ||| o == Object::ImageView && other == Object::Image
    ||| o == Object::EncodeView && other == Object::Image
    ||| o == Object::EncodeSet && other == Object::EncodeView
    ||| o == Object::Pipeline && other == Object::PipelineLayout
    ||| o == Object::PipelineLayout && other == Object::DescriptorSetLayout
    ||| o == Object::DescriptorPool && other == Object::DescriptorSetLayout
    ||| (o == Object::SyncSlot || o == Object::AsyncSlot0 || o == Object::AsyncSlot1) && (other == Object::CommandPool
        || other == Object::DescriptorPool)
    ||| o == Object::Fence && other == Object::CommandPool
}

/// A finished builder releases what is made of something, or lies in it, before that.
pub proof fn what_is_made_of_others_goes_first(b: Builder, i: int, j: int)
    requires
        0 <= i < teardown_of(b).len(),
        0 <= j < teardown_of(b).len(),
        is_made_of(teardown_of(b)[i], teardown_of(b)[j]),
    ensures
        i < j,
{
}

/// Rebuilding a compose slot, a failure over the staging buffer releases that buffer and its memory and
/// keeps the images; one over the second buffer releases all there is; one over the third releases that
/// buffer and its memory alone. A failure of the first step has nothing to release.
pub proof fn a_failed_rebuild_releases_its_own_buffer(failed: int, o: Object)
    requires
        0 <= failed < steps_of(Builder::SizedSlot).len(),
    ensures
        unwind_of(Builder::SizedSlot, failed).contains(o) <==> live(
            steps_of(Builder::SizedSlot).take(failed),
        ).contains(o) && {
            ||| 6 <= failed <= 9
            ||| failed <= 5 && (o == Object::StagingBuffer || o == Object::StagingMemory)
            ||| failed >= 10 && (o == Object::CurrentBuffer || o == Object::CurrentMemory)
        },
        unwind_of(Builder::SizedSlot, failed).no_duplicates(),
{
    let steps = steps_of(Builder::SizedSlot);
    let list = unwind_of(Builder::SizedSlot, failed);
    reveal_with_fuel(is_alive, 16);
    reveal_with_fuel(is_listed, 12);
    lemma_alive(steps, failed, o);
    lemma_listed(list, list.len() as int, o);
}

/// A failed builder, too, releases what is made of something before that.
pub proof fn failures_are_unwound_in_order(b: Builder, failed: int, i: int, j: int)
    requires
        0 <= failed < steps_of(b).len(),
        0 <= i < unwind_of(b, failed).len(),
        0 <= j < unwind_of(b, failed).len(),
        is_made_of(unwind_of(b, failed)[i], unwind_of(b, failed)[j]),
        holder_of(unwind_of(b, failed)[j]) is None,
    ensures
        i < j,
{
}

/// A failed builder releases a memory and what it is bound to one right after the other: the memory
/// first where the step that failed is one on it or on its image's view, and else the other first.
pub proof fn a_memory_goes_with_what_it_is_for(b: Builder, failed: int, i: int, j: int)
    requires
        0 <= failed < steps_of(b).len(),
        steps_of(b)[failed] != Step::MakeEncodeTarget,
        0 <= i < unwind_of(b, failed).len(),
        0 <= j < unwind_of(b, failed).len(),
        holder_of(unwind_of(b, failed)[j]) == Some(unwind_of(b, failed)[i]),
    ensures
        ({
            let memory = unwind_of(b, failed)[j];
            let step = steps_of(b)[failed];
            if step == Step::Bind(memory) || step == Step::MapMemory(memory) || step == Step::Create(Object::ImageView) {
                i == j + 1
            } else {
                j == i + 1
            }
        }),
{
}

/// Whether an object is a slot of the compositor.
pub open spec fn is_slot(o: Object) -> bool {
    o == Object::SyncSlot || o == Object::AsyncSlot0 || o == Object::AsyncSlot1
}

/// Where several objects that a builder made one by one are released, `x` and `y` being the steps that made
/// those at `i` and `j`. What a pass is made of goes in the reverse of the order in which it was made, behind
/// its slots, which go in their own order; so do the buffers of a slot and of a capture pipeline. Of a capture
/// buffer the fence goes first, and the command pool last.
pub proof fn finished_objects_go_in_order(b: Builder, i: int, j: int, x: int, y: int)
    requires
        0 <= i < j < teardown_of(b).len(),
        0 <= x < steps_of(b).len(),
        0 <= y < steps_of(b).len(),
        steps_of(b)[x] == Step::Create(teardown_of(b)[i]),
        steps_of(b)[y] == Step::Create(teardown_of(b)[j]),
    ensures
        holder_of(teardown_of(b)[j]) == Some(teardown_of(b)[i]) ==> j == i + 1,
        b == Builder::Compose || b == Builder::EncodePass ==> (if is_slot(teardown_of(b)[i]) {
            is_slot(teardown_of(b)[j]) ==> x < y
        } else {
            !is_slot(teardown_of(b)[j]) && x > y
        }),
        b == Builder::SizedSlot || b == Builder::CapturePipeline ==> x < y,
        b == Builder::CaptureBuffer || b == Builder::ImportedCaptureBuffer ==> teardown_of(b)[j] != Object::Fence
            && teardown_of(b)[i] != Object::CommandPool,
{
}

/// The four images of a compose slot go before its buffers, in the order frame, answer, proxy and output.
pub proof fn a_slots_images_go_first()
    ensures
        teardown_of(Builder::SizedSlot).take(4) == seq![
            Object::OriginalImage,
            Object::AnswerImage,
            Object::ProxyImage,
            Object::OutputImage,
        ],
{
    assert(teardown_of(Builder::SizedSlot).take(4) =~= seq![
        Object::OriginalImage,
        Object::AnswerImage,
        Object::ProxyImage,
        Object::OutputImage,
    ]);
}

/// The same of what a failed builder releases: all but the slots go in the reverse of the order in which
/// they were made. Of a scratch and of a slot's buffers, the last buffer goes first, then what was finished
/// before it, each object before its memory, and then the images.
pub proof fn failed_objects_go_in_order(b: Builder, failed: int, i: int, j: int, x: int, y: int)
    requires
        0 <= failed < steps_of(b).len(),
        0 <= i < j < unwind_of(b, failed).len(),
        0 <= x < failed,
        0 <= y < failed,
        steps_of(b)[x] == Step::Create(unwind_of(b, failed)[i]),
        steps_of(b)[y] == Step::Create(unwind_of(b, failed)[j]),
    ensures
        ({
            let (o, p) = (unwind_of(b, failed)[i], unwind_of(b, failed)[j]);
            match b {
                Builder::ModelScratch => holder_of(p) == Some(o) || x > y,
                Builder::SizedSlot => holder_of(p) == Some(o) || x > y,
                _ => if is_slot(o) {
                    is_slot(p) ==> x < y
                } else {
                    !is_slot(p) && x > y
                },
            }
        }),
{
}

/// Where a failed rebuild of a slot releases its images, they go last, in the order frame, answer, proxy and
/// output.
pub proof fn a_failed_slots_images_go_last(failed: int)
    requires
        6 <= failed <= 9,
    ensures
        ({
            let list = unwind_of(Builder::SizedSlot, failed);
            list.skip(list.len() - 4) == seq![
                Object::OriginalImage,
                Object::AnswerImage,
                Object::ProxyImage,
                Object::OutputImage,
            ]
        }),
{
    let list = unwind_of(Builder::SizedSlot, failed);
    assert(list.skip(list.len() - 4) =~= seq![
        Object::OriginalImage,
        Object::AnswerImage,
        Object::ProxyImage,
        Object::OutputImage,
    ]);
}

} // verus!
