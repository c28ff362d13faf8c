//! What a tool reports.
use vstd::prelude::*;

verus! {

/// A file that a tool found. `modified` counts seconds since the epoch.
#[derive(Debug)]
pub struct FoundFile {
    pub path: String,
    pub size_bytes: u64,
    pub modified: Option<u64>,
}

/// A file that a tool found, in mathematical terms.
pub struct FoundView {
    pub path: Seq<char>,
    pub size_bytes: u64,
    pub modified: Option<u64>,
}

impl View for FoundFile {
    type V = FoundView;

    open spec fn view(&self) -> FoundView {
        FoundView { path: self.path@, size_bytes: self.size_bytes, modified: self.modified }
    }
}

/// The files in `v`, in mathematical terms.
pub open spec fn found_views(v: Seq<FoundFile>) -> Seq<FoundView> {
    v.map_values(|f: FoundFile| f@)
}

/// The space on one disk.
#[derive(Debug)]
pub struct DiskSpace {
    pub name: String,
    pub total_bytes: u64,
    pub available_bytes: u64,
}

/// The findings of a tool.
#[derive(Debug)]
pub enum ToolData {
    Files { files: Vec<FoundFile>, truncated: bool },
    LargeFiles { files: Vec<FoundFile>, threshold_mb: u64, truncated: bool },
    /// The load is held as the bits of a single-precision number.
    System {
        storage: Vec<DiskSpace>,
        ram_total_bytes: u64,
        ram_used_bytes: u64,
        cpu_load_percent_bits: u32,
        running_apps: Vec<String>,
    },
    Network { connected: bool, ssid: Option<String>, signal_strength: Option<u8> },
    Logs { service_name: String, lines: u32, logs: String },
    Applied { applied: bool },
}

/// A finished run of a tool.
#[derive(Debug)]
pub struct ToolExecution {
    pub tool: String,
    pub summary: String,
    pub data: ToolData,
}

/// The request was refused with `text`.
pub open spec fn refused<T>(r: Result<T, String>, text: Seq<char>) -> bool {
    r matches Err(e) && e@ == text
}

} // verus!
