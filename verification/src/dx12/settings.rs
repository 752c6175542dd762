//! Settings that the environment gives.

use vstd::prelude::*;

use crate::text::{eq_ignore_ascii_case, same_but_for_case, same_text};

verus! {

/// The adapter identifier of the software rasterizer.
pub const WARP_ADAPTER_ID: u32 = 0xffff_ffff;

/// The values of the variables that configure the back end; `None` where one is not
/// set or not text.
pub struct Environment {
    pub force_warp: Option<String>,
    pub disable_reserved_buffers: Option<String>,
    pub no_debug: Option<String>,
    pub debug: Option<String>,
    pub gbv: Option<String>,
    pub no_dred: Option<String>,
    pub dred: Option<String>,
}

/// The setting is `1`, or `true` in letters of any case.
pub open spec fn switched_on(setting: Option<String>) -> bool {
    setting is Some && (setting->Some_0@ == "1"@ || same_but_for_case(
        setting->Some_0@,
        "true"@,
    ))
}

/// The setting is `1` or `true`.
pub open spec fn plainly_on(setting: Option<String>) -> bool {
    setting is Some && (setting->Some_0@ == "1"@ || setting->Some_0@ == "true"@)
}

fn is_switched_on(setting: &Option<String>) -> (on: bool)
    ensures
        on == switched_on(*setting),
{
    match setting {
        Some(value) => same_text(value.as_str(), "1") || eq_ignore_ascii_case(
            value.as_str(),
            "true",
        ),
        None => false,
    }
}

fn is_plainly_on(setting: &Option<String>) -> (on: bool)
    ensures
        on == plainly_on(*setting),
{
    match setting {
        Some(value) => same_text(value.as_str(), "1") || same_text(value.as_str(), "true"),
        None => false,
    }
}

/// The debug layer is wanted: in debug builds, or where it is asked for, unless it is
/// switched off.
pub open spec fn debug_wanted(env: Environment, debug_build: bool) -> bool {
    !plainly_on(env.no_debug) && (debug_build || plainly_on(env.debug))
}

/// Whether the software rasterizer is to be used whatever hardware there is.
pub fn env_force_warp(env: &Environment) -> (force: bool)
    ensures
        force == switched_on(env.force_warp),
{
    is_switched_on(&env.force_warp)
}

/// Whether the software rasterizer may be used.
pub fn env_allow_warp(env: &Environment) -> (allow: bool)
    ensures
        allow == switched_on(env.force_warp),
{
    env_force_warp(env)
}

/// Whether reserved buffers are switched off.
pub fn env_disable_reserved_buffers(env: &Environment) -> (disable: bool)
    ensures
        disable == (switched_on(env.disable_reserved_buffers) || (
        env.disable_reserved_buffers is Some && same_but_for_case(
            env.disable_reserved_buffers->Some_0@,
            "yes"@,
        ))),
{
    if is_switched_on(&env.disable_reserved_buffers) {
        return true;
    }
    match &env.disable_reserved_buffers {
        Some(value) => eq_ignore_ascii_case(value.as_str(), "yes"),
        None => false,
    }
}

/// Whether the debug layer will be enabled.
pub fn is_debug_mode(env: &Environment, debug_build: bool) -> (debug: bool)
    ensures
        debug == debug_wanted(*env, debug_build),
{
    !is_plainly_on(&env.no_debug) && (debug_build || is_plainly_on(&env.debug))
}

/// Whether validation on the GPU is asked for.
pub fn env_enable_gbv(env: &Environment) -> (enable: bool)
    ensures
        enable == switched_on(env.gbv),
{
    is_switched_on(&env.gbv)
}

/// Whether data about a removed device is collected: with the debug layer, or where
/// it is asked for, unless it is switched off.
pub fn env_enable_dred(env: &Environment, debug_build: bool) -> (enable: bool)
    ensures
        enable == (!switched_on(env.no_dred) && (debug_wanted(*env, debug_build) || switched_on(
            env.dred,
        ))),
{
    if is_switched_on(&env.no_dred) {
        return false;
    }
    is_debug_mode(env, debug_build) || is_switched_on(&env.dred)
}

/// Code of the exception that the debug layer raises on a violation.
pub const DEBUG_LAYER_EXCEPTION: u32 = 0x87d;

/// What an exception filter answers: the exception of the debug layer continues
/// execution, any other is left to the next handler. `code` is zero where there is no
/// exception record.
pub fn exception_filter(code: u32) -> (answer: i32)
    ensures
        answer == (if code == DEBUG_LAYER_EXCEPTION {
            -1i32
        } else {
            0i32
        }),
{
    if code == DEBUG_LAYER_EXCEPTION {
        -1
    } else {
        0
    }
}

/// Notes a removed device. Tells whether this is the first time, so that it has to be
/// reported. A fence that reads as its largest value means that the device is gone.
pub fn first_touch_device_removed(device_removed: &mut bool, completed: u64) -> (report: bool)
    ensures
        report == (completed == u64::MAX && !*old(device_removed)),
        *final(device_removed) == (*old(device_removed) || completed == u64::MAX),
{
    if completed != u64::MAX {
        return false;
    }
    let first = !*device_removed;
    *device_removed = true;
    first
}

/// Whether a module path of some length was read whole into a buffer.
pub fn module_path_fits(len: usize, capacity: usize) -> (fits: bool)
    ensures
        fits == (0 < len < capacity),
{
    0 < len && len < capacity
}

} // verus!
