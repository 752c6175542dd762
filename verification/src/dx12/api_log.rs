//! Trace of native calls: one JSON object per line.

use vstd::prelude::*;

use crate::text::{
    decimal, push_decimal, push_signed, push_truth, same_text, signed_decimal, truth,
};

verus! {

/// Lines that wait for the writer at most; further ones are dropped.
pub const CHAN_CAP: usize = 4096;

/// Where the trace goes, and whether each line is written before the call goes on.
pub struct ApiLogConfig {
    pub path: String,
    pub sync: bool,
}

impl ApiLogConfig {
    /// Reads the configuration from the settings of `GOLDY_API_LOG` and
    /// `GOLDY_API_LOG_SYNC`. Without a path nothing is traced.
    pub fn from_env(log: Option<String>, sync: Option<String>) -> (config: Option<ApiLogConfig>)
        ensures
            match config {
                Some(c) => log == Some(c.path) && c.path@.len() > 0 && c.sync == (sync is Some
                    && sync->Some_0@ == "1"@),
                None => log is None || log->Some_0@.len() == 0,
            },
    {
        match log {
            None => None,
            Some(path) => {
                if path.as_str().unicode_len() == 0 {
                    return None;
                }
                let sync = match sync {
                    Some(value) => same_text(value.as_str(), "1"),
                    None => false,
                };
                Some(ApiLogConfig { path, sync })
            },
        }
    }
}

/// When and on which thread a call was made. The time is in microseconds, as it is to
/// be written.
pub struct Stamp {
    pub t_us: String,
    pub tid: String,
}

/// What every line begins with.
pub open spec fn line_start(stamp: Stamp) -> Seq<char> {
    "{\"t_us\":"@ + stamp.t_us@ + ",\"tid\":\""@ + stamp.tid@ + "\",\"op\":\""@
}

fn start_line(stamp: &Stamp) -> (line: String)
    ensures
        line@ == line_start(*stamp),
{
    let mut line: String = String::from_str("{\"t_us\":");
    line.append(stamp.t_us.as_str());
    line.append(",\"tid\":\"");
    line.append(stamp.tid.as_str());
    line.append("\",\"op\":\"");
    line
}

/// The line of `device_create`: `D3D12CreateDevice` succeeded.
pub fn log_device_create(stamp: &Stamp, adapter_id: u32, device: u64) -> (line: String)
    ensures
        line@ == line_start(*stamp)
            + "device_create\",\"adapter_id\":"@ + decimal(adapter_id as nat)
            + ",\"device\":"@ + decimal(device as nat) + "}"@,
{
    let mut line = start_line(stamp);
    line.append("device_create\",\"adapter_id\":");
    push_decimal(&mut line, adapter_id as u64);
    line.append(",\"device\":");
    push_decimal(&mut line, device);
    line.append("}");
    line
}

/// The line of `device_destroy`: a device is being torn down.
pub fn log_device_destroy(stamp: &Stamp, device: u64) -> (line: String)
    ensures
        line@ == line_start(*stamp)
            + "device_destroy\",\"device\":"@ + decimal(device as nat) + "}"@,
{
    let mut line = start_line(stamp);
    line.append("device_destroy\",\"device\":");
    push_decimal(&mut line, device);
    line.append("}");
    line
}

/// The line of `context_create`: a submission context with its queue was created.
pub fn log_context_create(stamp: &Stamp, device: u64, ctx: u64, is_warp: bool) -> (line: String)
    ensures
        line@ == line_start(*stamp)
            + "context_create\",\"device\":"@ + decimal(device as nat)
            + ",\"ctx\":"@ + decimal(ctx as nat)
            + ",\"is_warp\":"@ + truth(is_warp) + "}"@,
{
    let mut line = start_line(stamp);
    line.append("context_create\",\"device\":");
    push_decimal(&mut line, device);
    line.append(",\"ctx\":");
    push_decimal(&mut line, ctx);
    line.append(",\"is_warp\":");
    push_truth(&mut line, is_warp);
    line.append("}");
    line
}

/// The line of `context_destroy`: the queue, fence and frame table of a context were torn down.
pub fn log_context_destroy(stamp: &Stamp, device: u64, ctx: u64) -> (line: String)
    ensures
        line@ == line_start(*stamp)
            + "context_destroy\",\"device\":"@ + decimal(device as nat)
            + ",\"ctx\":"@ + decimal(ctx as nat) + "}"@,
{
    let mut line = start_line(stamp);
    line.append("context_destroy\",\"device\":");
    push_decimal(&mut line, device);
    line.append(",\"ctx\":");
    push_decimal(&mut line, ctx);
    line.append("}");
    line
}

/// The line of `queue_wait`: a queue waits for the fence of another context. Queues and fences are named by their identities.
pub fn log_queue_wait(stamp: &Stamp, queue: u64, producer_fence: u64, value: u64) -> (line: String)
    ensures
        line@ == line_start(*stamp)
            + "queue_wait\",\"queue\":"@ + decimal(queue as nat)
            + ",\"producer_fence\":"@ + decimal(producer_fence as nat)
            + ",\"value\":"@ + decimal(value as nat) + "}"@,
{
    let mut line = start_line(stamp);
    line.append("queue_wait\",\"queue\":");
    push_decimal(&mut line, queue);
    line.append(",\"producer_fence\":");
    push_decimal(&mut line, producer_fence);
    line.append(",\"value\":");
    push_decimal(&mut line, value);
    line.append("}");
    line
}

/// The line of `execute_command_lists`: command lists were submitted to a queue.
pub fn log_execute_command_lists(stamp: &Stamp, queue: u64, num_lists: usize) -> (line: String)
    ensures
        line@ == line_start(*stamp)
            + "execute_command_lists\",\"queue\":"@ + decimal(queue as nat)
            + ",\"num_lists\":"@ + decimal(num_lists as nat) + "}"@,
{
    let mut line = start_line(stamp);
    line.append("execute_command_lists\",\"queue\":");
    push_decimal(&mut line, queue);
    line.append(",\"num_lists\":");
    push_decimal(&mut line, num_lists as u64);
    line.append("}");
    line
}

/// The line of `queue_signal`: a queue signals the fence of its context.
pub fn log_queue_signal(stamp: &Stamp, queue: u64, ctx_fence: u64, value: u64) -> (line: String)
    ensures
        line@ == line_start(*stamp)
            + "queue_signal\",\"queue\":"@ + decimal(queue as nat)
            + ",\"ctx_fence\":"@ + decimal(ctx_fence as nat)
            + ",\"value\":"@ + decimal(value as nat) + "}"@,
{
    let mut line = start_line(stamp);
    line.append("queue_signal\",\"queue\":");
    push_decimal(&mut line, queue);
    line.append(",\"ctx_fence\":");
    push_decimal(&mut line, ctx_fence);
    line.append(",\"value\":");
    push_decimal(&mut line, value);
    line.append("}");
    line
}

/// The line of `fence_wait_cpu`: the host waits for a fence.
pub fn log_fence_wait_cpu(stamp: &Stamp, location: &str, target_value: u64) -> (line: String)
    ensures
        line@ == line_start(*stamp)
            + "fence_wait_cpu\",\"location\":\""@ + location@
            + "\",\"target_value\":"@ + decimal(target_value as nat) + "}"@,
{
    let mut line = start_line(stamp);
    line.append("fence_wait_cpu\",\"location\":\"");
    line.append(location);
    line.append("\",\"target_value\":");
    push_decimal(&mut line, target_value);
    line.append("}");
    line
}

/// The line of `device_removed`: a fence read as its largest value: the device is gone.
pub fn log_device_removed(stamp: &Stamp, device: u64, hresult: i32) -> (line: String)
    ensures
        line@ == line_start(*stamp)
            + "device_removed\",\"device\":"@ + decimal(device as nat)
            + ",\"hresult\":"@ + signed_decimal(hresult as int) + "}"@,
{
    let mut line = start_line(stamp);
    line.append("device_removed\",\"device\":");
    push_decimal(&mut line, device);
    line.append(",\"hresult\":");
    push_signed(&mut line, hresult as i64);
    line.append("}");
    line
}

} // verus!
