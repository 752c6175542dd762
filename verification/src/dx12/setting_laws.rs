//! What settings, labels and messages come to.

use vstd::prelude::*;

use super::commands::GpuCommand;
use super::device::{is_fence_complete, message_line, message_lines, DebugMessage};
use super::settings::{
    env_disable_reserved_buffers, env_enable_dred, env_force_warp, first_touch_device_removed,
    is_debug_mode, Environment,
};
use super::submit::stream_labels;

verus! {

broadcast use vstd::std_specs::hash::group_hash_axioms;

/// A setting that says to switch the debug layer off is obeyed whatever else is set; the
/// layer is wanted in debug builds and where it is asked for.
pub proof fn debug_layer_is_on_unless_switched_off(
    env: &Environment,
    debug_build: bool,
    debug: bool,
)
    requires
        call_ensures(is_debug_mode, (env, debug_build), debug),
    ensures
        env.no_debug is Some && (env.no_debug->0@ == "1"@ || env.no_debug->0@ == "true"@) ==> !debug,
        env.no_debug is None && debug_build ==> debug,
        env.no_debug is None && env.debug is Some && (env.debug->0@ == "1"@ || env.debug->0@
            == "true"@) ==> debug,
        !debug_build && env.debug is None ==> !debug,
{
}

/// Data about a removed device is collected wherever the debug layer is on, and wherever it
/// is asked for, unless it is switched off.
pub proof fn removal_data_goes_with_the_debug_layer(
    env: &Environment,
    debug_build: bool,
    debug: bool,
    enable: bool,
)
    requires
        call_ensures(is_debug_mode, (env, debug_build), debug),
        call_ensures(env_enable_dred, (env, debug_build), enable),
    ensures
        env.no_dred is Some && env.no_dred->0@ == "1"@ ==> !enable,
        env.no_dred is None && debug ==> enable,
        env.no_dred is None && env.dred is Some && env.dred->0@ == "1"@ ==> enable,
        env.dred is None && !debug ==> !enable,
{
}

/// The software rasterizer is used, and reserved buffers are switched off, only where that
/// is set.
pub proof fn nothing_is_forced_unless_set(env: &Environment, force: bool, disable: bool)
    requires
        call_ensures(env_force_warp, (env,), force),
        call_ensures(env_disable_reserved_buffers, (env,), disable),
    ensures
        env.force_warp is None ==> !force,
        env.force_warp is Some && env.force_warp->0@ == "1"@ ==> force,
        env.disable_reserved_buffers is None ==> !disable,
        env.disable_reserved_buffers is Some && env.disable_reserved_buffers->0@ == "1"@ ==> disable,
{
}

/// A device that is gone is reported once: the first time that a fence says so, and never
/// again.
pub proof fn removed_device_is_reported_once(
    first: &mut bool,
    completed: u64,
    report: bool,
    again: &mut bool,
    completed_again: u64,
    report_again: bool,
)
    requires
        call_ensures(first_touch_device_removed, (first, completed), report),
        call_ensures(first_touch_device_removed, (again, completed_again), report_again),
        *old(again) == *final(first),
    ensures
        report ==> completed == u64::MAX && *final(first) && !report_again,
        completed == u64::MAX ==> *final(first),
        *old(first) ==> *final(first) && !report,
        completed != u64::MAX ==> *final(first) == *old(first) && !report,
{
}

/// A value that a fence has reached stays reached while the fence goes on.
pub proof fn reached_values_stay_reached(
    completed: Option<u64>,
    token: u64,
    complete: bool,
    later: Option<u64>,
    later_complete: bool,
)
    requires
        call_ensures(is_fence_complete, (completed, token), complete),
        call_ensures(is_fence_complete, (later, token), later_complete),
    ensures
        completed is Some && later is Some && completed->0 <= later->0 && complete ==> later_complete,
        completed == Some(token) ==> complete,
        completed is None ==> !complete,
        complete ==> completed->0 >= token,
{
}

/// Each message is a line of its own in the text, behind the lines of the messages before
/// it.
pub proof fn each_message_is_a_line(messages: Seq<DebugMessage>, i: int)
    requires
        0 <= i < messages.len(),
    ensures
        ({
            let before = message_lines(messages.take(i));
            let line = message_line(messages[i]);
            let all = message_lines(messages);
            &&& before.len() + line.len() <= all.len()
            &&& all.take(before.len() as int) == before
            &&& all.subrange(before.len() as int, (before.len() + line.len()) as int) == line
        }),
    decreases messages.len(),
{
    let rest = messages.drop_last();
    let before = message_lines(messages.take(i));
    let line = message_line(messages[i]);
    let all = message_lines(messages);
    if i < rest.len() {
        each_message_is_a_line(rest, i);
        assert(rest.take(i) =~= messages.take(i));
        let shorter = message_lines(rest);
        assert(all.take(before.len() as int) =~= shorter.take(before.len() as int));
        assert(all.subrange(before.len() as int, (before.len() + line.len()) as int)
            =~= shorter.subrange(before.len() as int, (before.len() + line.len()) as int));
    } else {
        assert(messages.take(i) =~= rest);
        assert(all.take(before.len() as int) =~= before);
        assert(all.subrange(before.len() as int, (before.len() + line.len()) as int) =~= line);
    }
}

/// The label of a command that dispatches.
pub open spec fn label_of(cmd: GpuCommand) -> Option<&'static str> {
    if cmd is Dispatch {
        cmd->Dispatch_label
    } else if cmd is DispatchIndirect {
        cmd->DispatchIndirect_label
    } else {
        cmd->DispatchBatch_label
    }
}

/// Each command that dispatches has its own label among those of its stream, behind the
/// labels of the commands before it; no other command has one.
pub proof fn each_dispatch_has_its_label(commands: Seq<GpuCommand>, i: int)
    requires
        0 <= i < commands.len(),
    ensures
        ({
            let before = stream_labels(commands.take(i));
            let upto = stream_labels(commands.take(i + 1));
            let all = stream_labels(commands);
            let dispatches = commands[i] is Dispatch || commands[i] is DispatchIndirect
                || commands[i] is DispatchBatch;
            &&& before.len() <= all.len()
            &&& all.take(before.len() as int) == before
            &&& dispatches ==> before.len() < all.len() && all[before.len() as int] == label_of(
                commands[i],
            )
            &&& upto.len() == before.len() + if dispatches {
                1int
            } else {
                0
            }
        }),
    decreases commands.len(),
{
    let rest = commands.drop_last();
    let before = stream_labels(commands.take(i));
    let all = stream_labels(commands);
    assert(commands.take(i + 1).drop_last() =~= commands.take(i));
    assert(commands.take(i + 1).last() == commands[i]);
    if i < rest.len() {
        each_dispatch_has_its_label(rest, i);
        assert(rest.take(i) =~= commands.take(i));
        let shorter = stream_labels(rest);
        assert(all.take(before.len() as int) =~= shorter.take(before.len() as int));
    } else {
        assert(commands.take(i) =~= rest);
        assert(all.take(before.len() as int) =~= before);
    }
}

} // verus!
