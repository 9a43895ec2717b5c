# neural-forge-layer

A Vulkan layer that captures the frames of a game, hands them to a helper process that runs a model
on them, and composes the model's answer onto the presented image.

The library under `src/` holds the rules of the layer: what is captured, sent, waited for, composed,
built and released, and every computation that is not floating point. It touches no device, no file
and no clock: each rule is a function, or a state machine that takes an event and gives the next
action, and each is proved against its contract with Verus. `app/` is the ordinary Rust around it: it
performs the actions on the device in the order that the library gives, reads and writes the files,
and holds the floating point.

## Modules

| Module | What it decides |
| --- | --- |
| `present` | one present: what is captured, sent, waited for and composed |
| `present_runs` | what holds of a whole present |
| `capture_step` | one attempt at a capture, and when its objects are rebuilt |
| `readback` | the present that a dump is made from |
| `readback_runs` | what holds of that present as a whole |
| `recording`, `compose_recording`, `commands` | the GPU commands, and what they do to image layouts |
| `contents` | what the GPU commands do to the contents of images and buffers |
| `compose_slots` | which compositor slot works, and what it still holds |
| `building`, `submission`, `memory` | how objects are built, unwound and released |
| `blueprints` | what those objects are made like |
| `swapchains`, `primary`, `present_sync`, `tap` | swapchains, the claim on the session, semaphores, and the images that feed a swapchain |
| `activation`, `ownership`, `text` | in which processes and on which devices the layer works |
| `scaling`, `meter`, `downscale`, `apply`, `encode` | sizes, metering, resampling, composition on the CPU, the check of the encode |
| `dump`, `shader`, `capabilities` | pictures of a frame, shader words, what a device can do |
| `breadcrumbs`, `logging`, `hotkey` | the report on a stall, the log, the toggle key |

Handles, layouts and flags are the raw numbers of the Vulkan API. Floating-point numbers appear in
the library as the bits of their 32-bit encoding, or as a type parameter.

## What is trusted

Four calls are described rather than proved, each beside its doc comment: `str::to_ascii_lowercase`
in `text`, `String::from_utf8_lossy` in `ownership`, the `png` encoder in `dump`, and
`ash::util::read_spv` in `shader`.

## The surroundings

`app/outside.rs` lists what the layer needs from its surroundings: the shared-memory channel to the
helper, the formats that the helper knows, the loader's command buffers, and the tone mapping.
