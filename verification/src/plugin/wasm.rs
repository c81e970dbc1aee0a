//! WASM plugins: the file manifest a WASM plugin ships with, and the rules
//! of the guest ABI — bounds checks on guest memory, the meaning of the
//! values the guest returns, and the order in which guest buffers are
//! released.
//!
//! The runtime executes the guest module; every decision about what the
//! guest handed back is made here.

use vstd::prelude::*;
use crate::error::{SwarmError, SwarmResult};
use crate::identity::PluginId;
use crate::plugin::manifest::{
    action_view, PluginAction, PluginCapabilityKind, PluginManifest, WasmPermission,
};
use crate::text::{decimal_spec, decimal_text, owned, signed_decimal_spec, signed_decimal_text};

verus! {

/// One action entry of a WASM plugin's manifest file.
#[derive(Debug)]
pub struct WasmActionEntry {
    /// The action name.
    pub name: String,
    /// Human-readable description (empty when the file gives none).
    pub description: String,
    /// JSON schema of the expected input.
    pub input_schema: Option<serde_json::Value>,
    /// JSON schema of the output.
    pub output_schema: Option<serde_json::Value>,
}

/// The `[plugin]` section of a WASM plugin's manifest file.
#[derive(Debug)]
pub struct WasmPluginSection {
    /// A stable identifier; a fresh one is made when absent.
    pub id: Option<PluginId>,
    /// The plugin's name.
    pub name: String,
    /// The plugin's version.
    pub version: String,
    /// The plugin's author.
    pub author: String,
    /// A short description.
    pub description: String,
    /// Minimum host version (`0.1.0` when the file gives none).
    pub min_host_version: String,
    /// Path of the `.wasm` binary, relative to the manifest file.
    pub wasm_file: String,
    /// Capabilities the plugin provides.
    pub capabilities: Vec<PluginCapabilityKind>,
    /// Actions the plugin exposes.
    pub actions: Vec<WasmActionEntry>,
    /// Framework permissions the plugin requires.
    pub required_permissions: Vec<String>,
    /// Sandbox permissions the plugin requires.
    pub wasm_permissions: Vec<WasmPermission>,
}

/// A WASM plugin's manifest file.
#[derive(Debug)]
pub struct WasmManifestFile {
    /// The `[plugin]` section.
    pub plugin: WasmPluginSection,
}

/// The minimum host version a manifest file gets when it names none.
pub fn default_min_host_version() -> (r: String)
    ensures
        r@ == "0.1.0"@,
{
    owned("0.1.0")
}

impl WasmManifestFile {
    /// The runtime manifest described by the file: every field carried over
    /// as is, the identifier made fresh when the file gives none.
    pub fn into_plugin_manifest(self) -> (r: PluginManifest)
        ensures
            self.plugin.id matches Some(id) ==> r.id == id,
            r.name == self.plugin.name,
            r.version == self.plugin.version,
            r.author == self.plugin.author,
            r.description == self.plugin.description,
            r.min_host_version == self.plugin.min_host_version,
            r.capabilities == self.plugin.capabilities,
            r.required_permissions == self.plugin.required_permissions,
            r.wasm_permissions == self.plugin.wasm_permissions,
            r.actions@.len() == self.plugin.actions@.len(),
            forall|i: int| 0 <= i < r.actions@.len() ==> action_view(#[trigger] r.actions@[i]) == (
                self.plugin.actions@[i].name@,
                self.plugin.actions@[i].description@,
                self.plugin.actions@[i].input_schema,
                self.plugin.actions@[i].output_schema,
            ),
    {
        let p = self.plugin;
        let id = match p.id {
            Some(id) => id,
            None => PluginId::new(),
        };
        let ghost entries = p.actions@;
        let mut rest = p.actions;
        let mut actions: Vec<PluginAction> = Vec::new();
        let n = rest.len();
        let mut k: usize = 0;
        while k < n
            invariant
                k <= n == entries.len(),
                rest@ == entries.skip(k as int),
                actions@.len() == k,
                forall|i: int| 0 <= i < k ==> action_view(#[trigger] actions@[i]) == (
                    entries[i].name@,
                    entries[i].description@,
                    entries[i].input_schema,
                    entries[i].output_schema,
                ),
            decreases n - k,
        {
            let a = rest.remove(0);
            proof {
                assert(entries.skip(k as int)[0] == entries[k as int]);
                assert(rest@ =~= entries.skip(k + 1));
            }
            actions.push(
                PluginAction {
                    name: a.name,
                    description: a.description,
                    input_schema: a.input_schema,
                    output_schema: a.output_schema,
                },
            );
            k = k + 1;
        }
        PluginManifest {
            id,
            name: p.name,
            version: p.version,
            author: p.author,
            description: p.description,
            min_host_version: p.min_host_version,
            capabilities: p.capabilities,
            actions,
            required_permissions: p.required_permissions,
            wasm_permissions: p.wasm_permissions,
        }
    }
}

/// The capacity of the result buffer handed to the guest: 256 KiB.
pub const RESULT_BUFFER_CAPACITY: i32 = 262144i32;

/// A byte range `start..end` of guest linear memory.
pub type MemoryRange = (usize, usize);

/// Whether `ptr` with length `len` denotes a range inside a linear memory
/// of `memory_len` bytes: the pointer is not negative and the end neither
/// overflows nor passes the memory's size.
pub open spec fn range_fits(memory_len: usize, ptr: i32, len: usize) -> bool {
    ptr >= 0 && ptr + len <= usize::MAX && ptr + len <= memory_len
}

/// Check a guest pointer and length against the size of linear memory and
/// return the byte range. A negative pointer, an overflowing end or a range
/// past the end of memory is `PluginOperationFailed`, the reason starting
/// with `context`.
pub fn checked_memory_range(plugin_name: &str, memory_len: usize, ptr: i32, len: usize, context: &str) -> (r: SwarmResult<MemoryRange>)
    ensures
        range_fits(memory_len, ptr, len) ==> r == Ok::<MemoryRange, SwarmError>(
            (ptr as usize, (ptr + len) as usize),
        ),
        ptr < 0 ==> (r matches Err(SwarmError::PluginOperationFailed { name, reason })
            && name@ == plugin_name@ && reason@ == context@ + ": negative pointer "@
            + signed_decimal_spec(ptr as int)),
        ptr >= 0 && ptr + len > usize::MAX ==> (r matches Err(
            SwarmError::PluginOperationFailed { name, reason },
        ) && name@ == plugin_name@ && reason@ == context@ + ": pointer "@ + signed_decimal_spec(
            ptr as int,
        ) + " with length "@ + decimal_spec(len as nat) + " overflows"@),
        ptr >= 0 && ptr + len <= usize::MAX && ptr + len > memory_len ==> (r matches Err(
            SwarmError::PluginOperationFailed { name, reason },
        ) && name@ == plugin_name@ && reason@ == context@ + ": range "@ + decimal_spec(
            ptr as nat,
        ) + ".."@ + decimal_spec((ptr + len) as nat) + " exceeds linear memory size "@
            + decimal_spec(memory_len as nat)),
{
    proof {
        reveal_strlit(": negative pointer ");
        reveal_strlit(": pointer ");
        reveal_strlit(" with length ");
        reveal_strlit(" overflows");
        reveal_strlit(": range ");
        reveal_strlit("..");
        reveal_strlit(" exceeds linear memory size ");
    }
    if ptr < 0 {
        let mut reason = owned(context);
        reason.append(": negative pointer ");
        reason.append(signed_decimal_text(ptr as i64).as_str());
        return Err(SwarmError::PluginOperationFailed { name: owned(plugin_name), reason });
    }
    let start: usize = ptr as usize;
    if start > usize::MAX - len {
        let mut reason = owned(context);
        reason.append(": pointer ");
        reason.append(signed_decimal_text(ptr as i64).as_str());
        reason.append(" with length ");
        reason.append(decimal_text(len as u64).as_str());
        reason.append(" overflows");
        return Err(SwarmError::PluginOperationFailed { name: owned(plugin_name), reason });
    }
    let end: usize = start + len;
    if end > memory_len {
        let mut reason = owned(context);
        reason.append(": range ");
        reason.append(decimal_text(start as u64).as_str());
        reason.append("..");
        reason.append(decimal_text(end as u64).as_str());
        reason.append(" exceeds linear memory size ");
        reason.append(decimal_text(memory_len as u64).as_str());
        return Err(SwarmError::PluginOperationFailed { name: owned(plugin_name), reason });
    }
    Ok((start, end))
}

/// What the value `swarm_invoke` returned asks the host to do.
#[derive(Debug, Clone, Copy, PartialEq, Eq, Structural)]
pub enum InvokeReturn {
    /// Success: read `len` bytes of JSON result from the result buffer.
    ReadResult { len: usize },
    /// Failure: read `len` bytes of UTF-8 error message from the result buffer.
    ReadError { len: usize },
    /// Failure without a message (the guest returned `-1`).
    Unspecified,
    /// The guest claimed more bytes than the result buffer holds.
    Oversized { success: bool, len: usize },
}

/// How a `swarm_invoke` return value `ret` is read: `ret >= 0` is a result
/// of `ret` bytes, `-1` an error without message, any other negative value
/// an error message of `-ret` bytes; a length past `capacity` is refused.
pub open spec fn invoke_return_spec(ret: i32, capacity: i32) -> InvokeReturn {
    if ret >= 0 {
        if ret > capacity {
            InvokeReturn::Oversized { success: true, len: ret as usize }
        } else {
            InvokeReturn::ReadResult { len: ret as usize }
        }
    } else if ret == -1 {
        InvokeReturn::Unspecified
    } else if -ret > capacity {
        InvokeReturn::Oversized { success: false, len: (-ret) as usize }
    } else {
        InvokeReturn::ReadError { len: (-ret) as usize }
    }
}

/// Read a `swarm_invoke` return value against the result buffer capacity.
pub fn classify_invoke_return(ret: i32, capacity: i32) -> (r: InvokeReturn)
    requires
        capacity >= 0,
    ensures
        r == invoke_return_spec(ret, capacity),
{
    if ret >= 0 {
        if ret > capacity {
            InvokeReturn::Oversized { success: true, len: ret as usize }
        } else {
            InvokeReturn::ReadResult { len: ret as usize }
        }
    } else if ret == -1 {
        InvokeReturn::Unspecified
    } else {
        let magnitude: i64 = 0i64 - (ret as i64);
        if magnitude > capacity as i64 {
            InvokeReturn::Oversized { success: false, len: magnitude as usize }
        } else {
            InvokeReturn::ReadError { len: magnitude as usize }
        }
    }
}

/// The error an invocation reports for a return value that carries no
/// result: `Unspecified` and `Oversized` become `PluginOperationFailed`
/// with a fixed message; a result or error message still has to be read.
pub fn invoke_return_error(plugin_name: &str, ret: InvokeReturn) -> (r: Option<SwarmError>)
    ensures
        ret is ReadResult ==> r is None,
        ret is ReadError ==> r is None,
        ret is Unspecified ==> (r matches Some(SwarmError::PluginOperationFailed { name, reason })
            && name@ == plugin_name@ && reason@ == "WASM plugin returned an unspecified error"@),
        ret matches InvokeReturn::Oversized { success, len } ==> (r matches Some(
            SwarmError::PluginOperationFailed { name, reason },
        ) && name@ == plugin_name@ && reason@ == (if success {
            "WASM plugin returned success length "@
        } else {
            "WASM plugin returned error length "@
        }) + decimal_spec(len as nat) + " exceeding result buffer capacity "@ + decimal_spec(
            RESULT_BUFFER_CAPACITY as nat,
        )),
{
    proof {
        reveal_strlit("WASM plugin returned an unspecified error");
        reveal_strlit("WASM plugin returned success length ");
        reveal_strlit("WASM plugin returned error length ");
        reveal_strlit(" exceeding result buffer capacity ");
    }
    match ret {
        InvokeReturn::ReadResult { .. } => None,
        InvokeReturn::ReadError { .. } => None,
        InvokeReturn::Unspecified => Some(
            SwarmError::PluginOperationFailed {
                name: owned(plugin_name),
                reason: owned("WASM plugin returned an unspecified error"),
            },
        ),
        InvokeReturn::Oversized { success, len } => {
            let mut reason = if success {
                owned("WASM plugin returned success length ")
            } else {
                owned("WASM plugin returned error length ")
            };
            reason.append(decimal_text(len as u64).as_str());
            reason.append(" exceeding result buffer capacity ");
            reason.append(decimal_text(RESULT_BUFFER_CAPACITY as u64).as_str());
            Some(SwarmError::PluginOperationFailed { name: owned(plugin_name), reason })
        },
    }
}

/// The outcome of an invocation once the guest buffers were released: a
/// failure of the call itself wins; otherwise a failure to release is
/// reported; otherwise the call's result stands.
pub fn settle_invocation<T>(result: SwarmResult<T>, cleanup: SwarmResult<()>) -> (r: SwarmResult<T>)
    ensures
        result is Err ==> r == result,
        result is Ok && cleanup is Err ==> (r matches Err(e) && cleanup == Err::<(), SwarmError>(e)),
        result is Ok && cleanup is Ok ==> r == result,
{
    match (result, cleanup) {
        (Ok(value), Ok(())) => Ok(value),
        (Ok(_), Err(cleanup_err)) => Err(cleanup_err),
        (Err(primary_err), _) => Err(primary_err),
    }
}

/// A guest allocation: pointer and length.
#[derive(Debug, Clone, Copy, PartialEq, Eq, Structural)]
pub struct GuestAllocation {
    /// The guest pointer.
    pub ptr: i32,
    /// The allocation's length.
    pub len: i32,
}

/// The guest buffers an invocation allocated, in allocation order.
#[derive(Debug)]
pub struct GuestAllocations {
    /// The allocations, oldest first.
    pub items: Vec<GuestAllocation>,
}

impl GuestAllocations {
    /// No allocations.
    pub fn new() -> (r: Self)
        ensures
            r.items@.len() == 0,
    {
        GuestAllocations { items: Vec::new() }
    }

    /// Record an allocation.
    pub fn push(&mut self, ptr: i32, len: i32)
        ensures
            final(self).items@ == old(self).items@.push(GuestAllocation { ptr, len }),
    {
        self.items.push(GuestAllocation { ptr, len });
    }

    /// The allocations in the order they are released: newest first.
    pub fn release_order(self) -> (r: Vec<GuestAllocation>)
        ensures
            r@ == self.items@.reverse(),
    {
        let mut out: Vec<GuestAllocation> = Vec::new();
        let n = self.items.len();
        let mut i: usize = n;
        while i > 0
            invariant
                i <= n == self.items@.len(),
                out@ == self.items@.subrange(i as int, n as int).reverse(),
            decreases i,
        {
            i = i - 1;
            out.push(self.items[i]);
            proof {
                assert(out@ =~= self.items@.subrange(i as int, n as int).reverse());
            }
        }
        proof {
            assert(self.items@.subrange(0, n as int) =~= self.items@);
        }
        out
    }
}

/// The error kept while releasing guest buffers: the first one seen.
pub fn keep_first_error(first: Option<SwarmError>, next: SwarmResult<()>) -> (r: Option<SwarmError>)
    ensures
        first is Some ==> r == first,
        first is None ==> r == match next {
            Ok(()) => None,
            Err(e) => Some(e),
        },
{
    match first {
        Some(e) => Some(e),
        None => match next {
            Ok(()) => None,
            Err(e) => Some(e),
        },
    }
}

/// The verdict on a lifecycle call's return code: `0` is success; any other
/// code is a failure whose reason is `"<export> returned <code>"` (for
/// `on_load`, `"swarm_on_load returned error code <code>"`).
pub fn lifecycle_code_error(plugin_name: &str, export_reason: &str, code: i32) -> (r: Option<String>)
    ensures
        code == 0 ==> r is None,
        code != 0 ==> (r matches Some(s) && s@ == export_reason@ + signed_decimal_spec(code as int)),
{
    if code == 0 {
        None
    } else {
        let mut s = owned(export_reason);
        s.append(signed_decimal_text(code as i64).as_str());
        Some(s)
    }
}

/// Loads WASM plugins from a binary or from a manifest file.
#[derive(Debug, Clone, Copy)]
pub struct WasmPluginLoader;

} // verus!
