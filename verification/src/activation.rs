//! Whether the layer does anything, and what it adds to the creation of a device.

use crate::text::same;
use crate::vulkan::RESULT_SUCCESS;
use std::collections::HashSet;
use vstd::prelude::*;
use vstd::string::*;

verus! {

broadcast use vstd::std_specs::hash::group_hash_axioms;

/// The layer's name.
pub const LAYER_NAME: &'static str = "VK_LAYER_neuralforge_neural";

/// The one extension that the layer adds to a device.
pub const EXTERNAL_MEMORY_HOST_EXTENSION: &'static str = "VK_EXT_external_memory_host";

/// Whether a variable of the environment switches something on: it is 1.
pub open spec fn is_set(variable: Option<Seq<char>>) -> bool {
    variable == Some("1"@)
}

/// Whether a variable of the environment switches something on.
pub fn env_flag(variable: Option<&str>) -> (set: bool)
    ensures
        set == is_set(
            match variable {
                Some(v) => Some(v@),
                None => None,
            },
        ),
{
    match variable {
        Some(v) => same(v, "1"),
        None => false,
    }
}

/// Whether the layer does anything: it was switched on, and not off again.
pub fn layer_enabled(enable: Option<&str>, disable: Option<&str>) -> (enabled: bool)
    ensures
        enabled == ((enable matches Some(v) && v@ == "1"@) && !(disable matches Some(v) && v@ == "1"@)),
{
    env_flag(enable) && !env_flag(disable)
}

/// Whether a name is among others.
pub open spec fn is_named(names: Seq<String>, wanted: Seq<char>) -> bool {
    exists|i: int| 0 <= i < names.len() && (#[trigger] names[i])@ == wanted
}

/// Whether a name is among others.
pub fn names_extension(names: &[String], wanted: &str) -> (named: bool)
    ensures
        named == is_named(names@, wanted@),
{
    let mut i: usize = 0;
    while i < names.len()
        invariant
            i <= names@.len(),
            forall|k: int| 0 <= k < i ==> (#[trigger] names@[k])@ != wanted@,
        decreases names@.len() - i,
    {
        if same(names[i].as_str(), wanted) {
            return true;
        }
        i += 1;
    }
    false
}

/// What to do with the creation of a device.
#[derive(Clone, Copy, Debug, PartialEq, Eq, Structural)]
pub enum DeviceStep {
    /// Leave it to the next layer, as it is.
    PassOn,
    /// Ask for the device with the extension added.
    Extended,
    /// Ask for the device as the application did.
    Plain,
    /// The device was created, with the extension added.
    CreatedExtended,
    /// The request of the application had this result.
    Answered { result: i32 },
}

/// How a device is first asked for. The extension is added where the instance is known, the
/// application does not ask for it itself, the device is known to support it and the next layer can
/// be called; else the request goes on untouched.
pub fn plan_device(
    instance_known: bool,
    requested: &[String],
    supported: Option<&[String]>,
    next_known: bool,
) -> (step: DeviceStep)
    ensures
        step == (if instance_known && !is_named(requested@, EXTERNAL_MEMORY_HOST_EXTENSION@) && (
        supported matches Some(names) && is_named(names@, EXTERNAL_MEMORY_HOST_EXTENSION@)) && next_known {
            DeviceStep::Extended
        } else {
            DeviceStep::PassOn
        }),
{
    if !instance_known || names_extension(requested, EXTERNAL_MEMORY_HOST_EXTENSION) {
        return DeviceStep::PassOn;
    }
    let is_supported: bool = match supported {
        Some(names) => names_extension(names, EXTERNAL_MEMORY_HOST_EXTENSION),
        None => false,
    };
    if is_supported && next_known {
        DeviceStep::Extended
    } else {
        DeviceStep::PassOn
    }
}

/// The extensions of a request that the layer extends: those of the application and its own.
pub fn extended_names(requested: &[String]) -> (names: Vec<String>)
    ensures
        names@.len() == requested@.len() + 1,
        forall|i: int| 0 <= i < requested@.len() ==> (#[trigger] names@[i])@ == requested@[i]@,
        names@.last()@ == EXTERNAL_MEMORY_HOST_EXTENSION@,
{
    let mut names: Vec<String> = Vec::new();
    let mut i: usize = 0;
    while i < requested.len()
        invariant
            i <= requested@.len(),
            names@.len() == i,
            forall|k: int| 0 <= k < i ==> (#[trigger] names@[k])@ == requested@[k]@,
        decreases requested@.len() - i,
    {
        names.push(requested[i].clone());
        i += 1;
    }
    names.push(EXTERNAL_MEMORY_HOST_EXTENSION.to_owned());
    names
}

/// What follows a request for a device and its result.
pub open spec fn device_step_after(step: DeviceStep, result: i32) -> DeviceStep {
    match step {
        DeviceStep::Extended => if result == RESULT_SUCCESS {
            DeviceStep::CreatedExtended
        } else {
            DeviceStep::Plain
        },
        DeviceStep::Plain => DeviceStep::Answered { result },
        _ => step,
    }
}

/// What follows a request for a device: where it is refused with the extension, it is made again as
/// the application made it.
pub fn after_device_request(step: DeviceStep, result: i32) -> (next: DeviceStep)
    ensures
        next == device_step_after(step, result),
{
    match step {
        DeviceStep::Extended => if result == RESULT_SUCCESS {
            DeviceStep::CreatedExtended
        } else {
            DeviceStep::Plain
        },
        DeviceStep::Plain => DeviceStep::Answered { result },
        _ => step,
    }
}

/// The result that the application sees, where the device answers `extended` to the extended request
/// and `plain` to its own.
pub open spec fn creation_result(step: DeviceStep, extended: i32, plain: i32) -> i32 {
    match step {
        DeviceStep::Extended => match device_step_after(step, extended) {
            DeviceStep::CreatedExtended => RESULT_SUCCESS,
            _ => match device_step_after(DeviceStep::Plain, plain) {
                DeviceStep::Answered { result } => result,
                _ => plain,
            },
        },
        _ => plain,
    }
}

/// A device that would have been created without the layer is created with it, and a failure is
/// always the one that the application's own request met.
pub proof fn the_layer_never_fails_a_device(step: DeviceStep, extended: i32, plain: i32)
    requires
        step == DeviceStep::Extended || step == DeviceStep::PassOn,
    ensures
        plain == RESULT_SUCCESS ==> creation_result(step, extended, plain) == RESULT_SUCCESS,
        creation_result(step, extended, plain) != RESULT_SUCCESS ==> creation_result(step, extended, plain) == plain,
{
}

/// The devices that were created with the extension added, until they are asked about.
pub struct ExtendedDevices {
    pub devices: HashSet<u64>,
}

impl ExtendedDevices {
    /// No device.
    pub fn new() -> (d: ExtendedDevices)
        ensures
            d.devices@ == Set::<u64>::empty(),
    {
        ExtendedDevices { devices: HashSet::new() }
    }

    /// Notes a device.
    pub fn note(&mut self, device: u64)
        ensures
            final(self).devices@ == old(self).devices@.insert(device),
    {
        self.devices.insert(device);
    }

    /// Whether a device has the extension from the layer. The device is forgotten.
    pub fn take_external_memory_host_enabled(&mut self, device: u64) -> (enabled: bool)
        ensures
            enabled == old(self).devices@.contains(device),
            final(self).devices@ == old(self).devices@.remove(device),
    {
        self.devices.remove(&device)
    }
}

/// A device that was noted is found once: the second time it is asked about it is gone, and no other
/// device is touched.
pub proof fn a_noted_device_is_found_once(devices: Set<u64>, device: u64, other: u64)
    ensures
        devices.insert(device).contains(device),
        !devices.insert(device).remove(device).contains(device),
        other != device ==> devices.insert(device).remove(device).contains(other) == devices.contains(other),
{
}

/// Something is switched on by the one character 1, and by nothing else.
pub proof fn only_a_one_switches_on(text: Seq<char>)
    ensures
        is_set(Some(text)) <==> text.len() == 1 && text[0] == '1',
        !is_set(None),
{
    reveal_strlit("1");
    if text.len() == 1 && text[0] == '1' {
        assert(text =~= "1"@);
    }
}

/// A name is among others where one of them is it, to the last character.
pub proof fn names_are_found_as_they_are(names: Seq<String>, wanted: Seq<char>)
    ensures
        is_named(names, wanted) <==> names.map_values(|n: String| n@).contains(wanted),
        EXTERNAL_MEMORY_HOST_EXTENSION@ == "VK_EXT_external_memory_host"@,
        LAYER_NAME@ == "VK_LAYER_neuralforge_neural"@,
{
    let views = names.map_values(|n: String| n@);
    if is_named(names, wanted) {
        let i = choose|i: int| 0 <= i < names.len() && (#[trigger] names[i])@ == wanted;
        assert(views[i] == wanted);
    }
    if views.contains(wanted) {
        let i = choose|i: int| 0 <= i < views.len() && views[i] == wanted;
        assert(names[i]@ == wanted);
    }
}

/// A device counts as created with the extension only where that request succeeded, which is the
/// result 0 and no other; every other result leads to the request that the application made, whose
/// result is what it sees.
pub proof fn only_success_keeps_the_extension(extended: i32, plain: i32)
    ensures
        device_step_after(DeviceStep::Extended, extended) == (if extended == 0 {
            DeviceStep::CreatedExtended
        } else {
            DeviceStep::Plain
        }),
        device_step_after(DeviceStep::Plain, plain) == (DeviceStep::Answered { result: plain }),
        creation_result(DeviceStep::Extended, extended, plain) == (if extended == 0 {
            0
        } else {
            plain
        }),
        creation_result(DeviceStep::PassOn, extended, plain) == plain,
        device_step_after(DeviceStep::PassOn, plain) == DeviceStep::PassOn,
{
}

} // verus!
