use vstd::prelude::*;

use crate::device::{contains_name, has_name};
use crate::error::SetupError;

verus! {

/// The layer the connection is opened with.
pub const VALIDATION_LAYER: &'static str = "VK_LAYER_KHRONOS_validation";

/// The names that a list of strings holds, as character sequences.
pub open spec fn names_view(names: Seq<String>) -> Seq<Seq<char>> {
    names.map_values(|s: String| s@)
}

pub open spec fn surface_extension() -> Seq<char> {
    "VK_KHR_surface"@
}

pub open spec fn debug_utils_extension() -> Seq<char> {
    "VK_EXT_debug_utils"@
}

pub open spec fn swapchain_extension() -> Seq<char> {
    "VK_KHR_swapchain"@
}

/// The encoding of a version number into one `u32`.
pub open spec fn api_version_of(variant: u32, major: u32, minor: u32, patch: u32) -> u32 {
    (variant << 29u32) | (major << 22u32) | (minor << 12u32) | patch
}

/// Relies on ash::khr::surface::NAME: the name of the surface extension.
#[verifier::external_body]
fn surface_extension_name() -> (r: String)
    ensures
        r@ == surface_extension(),
{
    ash::khr::surface::NAME.to_string_lossy().into_owned()
}

/// Relies on ash::ext::debug_utils::NAME: the name of the debug-utils extension.
#[verifier::external_body]
fn debug_utils_extension_name() -> (r: String)
    ensures
        r@ == debug_utils_extension(),
{
    ash::ext::debug_utils::NAME.to_string_lossy().into_owned()
}

/// Relies on ash::khr::swapchain::NAME: the name of the swap-chain extension.
#[verifier::external_body]
fn swapchain_extension_name() -> (r: String)
    ensures
        r@ == swapchain_extension(),
{
    ash::khr::swapchain::NAME.to_string_lossy().into_owned()
}

/// Relies on ash::vk::make_api_version: variant, major, minor and patch packed
/// into bits 29.., 22.., 12.. and 0.. of one word.
#[verifier::external_body]
fn make_api_version(variant: u32, major: u32, minor: u32, patch: u32) -> (r: u32)
    ensures
        r == api_version_of(variant, major, minor, patch),
{
    ash::vk::make_api_version(variant, major, minor, patch)
}

/// The fixed requirements the pipeline runs with.
#[derive(Debug)]
pub struct PipelineConfig {
    pub required_layers: Vec<String>,
    pub required_device_extensions: Vec<String>,
}

impl PipelineConfig {
    /// The validation layer, and the swap-chain extension on the device.
    pub fn standard() -> (r: Self)
        ensures
            names_view(r.required_layers@) == seq![VALIDATION_LAYER@],
            names_view(r.required_device_extensions@) == seq![swapchain_extension()],
    {
        let mut required_layers: Vec<String> = Vec::new();
        required_layers.push(VALIDATION_LAYER.to_string());
        let mut required_device_extensions: Vec<String> = Vec::new();
        required_device_extensions.push(swapchain_extension_name());
        proof {
            assert(names_view(required_layers@) =~= seq![VALIDATION_LAYER@]);
            assert(names_view(required_device_extensions@) =~= seq![swapchain_extension()]);
        }
        PipelineConfig { required_layers, required_device_extensions }
    }
}

/// The connection parameters handed to the driver.
#[derive(Debug)]
pub struct InstanceSettings {
    pub application_name: String,
    pub engine_name: String,
    pub api_version: u32,
    pub engine_version: u32,
    pub layers: Vec<String>,
    pub extensions: Vec<String>,
}

/// The required names that `available` lacks, in the order they are required.
pub open spec fn missing_names(required: Seq<String>, available: Seq<String>) -> Seq<String> {
    required.filter(|name: String| !has_name(available, name@))
}

/// `names`, with `extra` added at the end unless it is already there.
pub open spec fn with_name(names: Seq<Seq<char>>, extra: Seq<char>) -> Seq<Seq<char>> {
    if names.contains(extra) {
        names
    } else {
        names.push(extra)
    }
}

/// The platform's extensions, then the surface and debug-utils extensions
/// where the platform did not already list them.
pub open spec fn required_extensions(platform: Option<Seq<Seq<char>>>) -> Seq<Seq<char>> {
    let base = match platform {
        Some(p) => p,
        None => Seq::empty(),
    };
    with_name(with_name(base, surface_extension()), debug_utils_extension())
}

fn copy_names(names: &Vec<String>) -> (r: Vec<String>)
    ensures
        r@ == names@,
{
    let mut out: Vec<String> = Vec::new();
    let mut i: usize = 0;
    while i < names.len()
        invariant
            0 <= i <= names@.len(),
            out@ == names@.subrange(0, i as int),
        decreases names@.len() - i,
    {
        out.push(names[i].clone());
        proof {
            assert(out@ =~= names@.subrange(0, i + 1));
        }
        i = i + 1;
    }
    proof {
        assert(names@.subrange(0, names@.len() as int) =~= names@);
    }
    out
}

/// Checks that the driver offers every required layer. The error lists all
/// the absent ones, not only the first.
pub fn check_validation_layer_support(available: &Vec<String>, required: &Vec<String>) -> (r: Result<
    (),
    SetupError,
>)
    ensures
        missing_names(required@, available@).len() == 0 ==> r is Ok,
        missing_names(required@, available@).len() > 0 ==> (r matches Err(
            SetupError::MissingCapability { missing },
        ) && missing@ == missing_names(required@, available@)),
{
    let ghost pred = |name: String| !has_name(available@, name@);
    let mut missing: Vec<String> = Vec::new();
    let mut i: usize = 0;
    while i < required.len()
        invariant
            0 <= i <= required@.len(),
            pred == (|name: String| !has_name(available@, name@)),
            missing@ == required@.subrange(0, i as int).filter(pred),
        decreases required@.len() - i,
    {
        proof {
            reveal(Seq::filter);
            assert(required@.subrange(0, i + 1).drop_last() =~= required@.subrange(0, i as int));
        }
        if !contains_name(available, &required[i]) {
            missing.push(required[i].clone());
        }
        i = i + 1;
    }
    proof {
        assert(required@.subrange(0, required@.len() as int) =~= required@);
    }
    if missing.len() == 0 {
        Ok(())
    } else {
        Err(SetupError::MissingCapability { missing })
    }
}

fn push_absent(names: &mut Vec<String>, extra: String)
    ensures
        names_view(final(names)@) == with_name(names_view(old(names)@), extra@),
{
    let ghost before = names_view(names@);
    let mut j: usize = 0;
    while j < names.len()
        invariant
            0 <= j <= names@.len(),
            before == names_view(names@),
            forall|k: int| 0 <= k < j ==> names@[k]@ != extra@,
        decreases names@.len() - j,
    {
        if names[j] == extra {
            proof {
                assert(before[j as int] == extra@);
            }
            return;
        }
        j = j + 1;
    }
    proof {
        assert(!before.contains(extra@)) by {
            if before.contains(extra@) {
                let k = choose|k: int| 0 <= k < before.len() && before[k] == extra@;
                assert(names@[k]@ == extra@);
            }
        }
    }
    names.push(extra);
    proof {
        assert(names_view(names@) =~= before.push(extra@));
    }
}

/// The connection's extensions: those the windowing platform asks for, joined
/// with the surface and debug-utils extensions.
pub fn get_extension_names(platform: Option<Vec<String>>) -> (r: Vec<String>)
    ensures
        names_view(r@) == required_extensions(
            match platform {
                Some(p) => Some(names_view(p@)),
                None => None,
            },
        ),
{
    let mut names: Vec<String> = match platform {
        Some(p) => p,
        None => Vec::new(),
    };
    proof {
        assert(names_view(Seq::<String>::empty()) =~= Seq::<Seq<char>>::empty());
    }
    push_absent(&mut names, surface_extension_name());
    push_absent(&mut names, debug_utils_extension_name());
    names
}

/// What the connection is opened with: the application's identity, version 1.0
/// of the API, the required layers and the extensions.
pub fn instance_settings(config: &PipelineConfig, platform: Option<Vec<String>>) -> (r:
    InstanceSettings)
    ensures
        r.application_name@ == "Tutorial Vulkan Application"@,
        r.engine_name@ == "No Engine"@,
        r.api_version == api_version_of(0, 1, 0, 0),
        r.engine_version == api_version_of(0, 1, 0, 0),
        r.layers@ == config.required_layers@,
        names_view(r.extensions@) == required_extensions(
            match platform {
                Some(p) => Some(names_view(p@)),
                None => None,
            },
        ),
{
    InstanceSettings {
        application_name: "Tutorial Vulkan Application".to_string(),
        engine_name: "No Engine".to_string(),
        api_version: make_api_version(0, 1, 0, 0),
        engine_version: make_api_version(0, 1, 0, 0),
        layers: copy_names(&config.required_layers),
        extensions: get_extension_names(platform),
    }
}

} // verus!
