//! The profile: what the user declares to exist and to be routed.

use crate::json::{json_equal, values_equal};
use crate::number::{Real32, MINUS_ONE_BITS};
use crate::text::{decimal, decimal_text};
use vstd::prelude::*;
use vstd::string::*;

verus! {

/// Equality of declared values: texts by their characters, numbers as numbers.
pub trait Same: Sized {
    /// Whether the two values declare the same.
    spec fn same(self, other: Self) -> bool;

    /// Decides whether the two values declare the same.
    fn same_as(&self, other: &Self) -> (r: bool)
        ensures
            r == self.same(*other),
    ;
}

/// Equality of two lists, place by place.
pub open spec fn all_same<T: Same>(a: Seq<T>, b: Seq<T>) -> bool {
    a.len() == b.len() && forall|i: int| 0 <= i < a.len() ==> (#[trigger] a[i]).same(b[i])
}

/// Decides the equality of two lists.
pub fn lists_same<T: Same>(a: &Vec<T>, b: &Vec<T>) -> (r: bool)
    ensures
        r == all_same(a@, b@),
{
    if a.len() != b.len() {
        return false;
    }
    let mut i: usize = 0;
    while i < a.len()
        invariant
            a.len() == b.len(),
            i <= a.len(),
            forall|j: int| 0 <= j < i ==> (#[trigger] a@[j]).same(b@[j]),
        decreases a.len() - i,
    {
        if !a[i].same_as(&b[i]) {
            assert(!a@[i as int].same(b@[i as int]));
            return false;
        }
        i = i + 1;
    }
    true
}

impl<T: Same> Same for Option<T> {
    open spec fn same(self, other: Option<T>) -> bool {
        match (self, other) {
            (Some(a), Some(b)) => a.same(b),
            (None, None) => true,
            _ => false,
        }
    }

    fn same_as(&self, other: &Option<T>) -> bool {
        match (self, other) {
            (Some(a), Some(b)) => a.same_as(b),
            (None, None) => true,
            _ => false,
        }
    }
}

impl<T: Same> Same for Vec<T> {
    open spec fn same(self, other: Vec<T>) -> bool {
        all_same(self@, other@)
    }

    fn same_as(&self, other: &Vec<T>) -> bool {
        lists_same(self, other)
    }
}

impl Same for String {
    open spec fn same(self, other: String) -> bool {
        self@ == other@
    }

    fn same_as(&self, other: &String) -> bool {
        *self == *other
    }
}

impl Same for Real32 {
    open spec fn same(self, other: Real32) -> bool {
        Real32::same(self, other)
    }

    fn same_as(&self, other: &Real32) -> bool {
        Real32::same_as(self, other)
    }
}

impl Same for serde_json::Value {
    open spec fn same(self, other: serde_json::Value) -> bool {
        json_equal(self, other)
    }

    fn same_as(&self, other: &serde_json::Value) -> bool {
        values_equal(self, other)
    }
}

impl Same for u16 {
    open spec fn same(self, other: u16) -> bool {
        self == other
    }

    fn same_as(&self, other: &u16) -> bool {
        *self == *other
    }
}

impl Same for u32 {
    open spec fn same(self, other: u32) -> bool {
        self == other
    }

    fn same_as(&self, other: &u32) -> bool {
        *self == *other
    }
}

impl Same for bool {
    open spec fn same(self, other: bool) -> bool {
        self == other
    }

    fn same_as(&self, other: &bool) -> bool {
        *self == *other
    }
}

/// A setting that is either left to the router or fixed.
#[derive(Debug, Clone, Copy, PartialEq, Eq, Structural)]
pub enum AutoOrU32 {
    Auto,
    Value(u32),
}

impl AutoOrU32 {
    /// The fixed value.
    pub open spec fn value(self) -> Option<u32> {
        match self {
            AutoOrU32::Auto => None,
            AutoOrU32::Value(v) => Some(v),
        }
    }

    /// The fixed value.
    pub fn as_value(&self) -> (r: Option<u32>)
        ensures
            r == self.value(),
    {
        match self {
            AutoOrU32::Auto => None,
            AutoOrU32::Value(v) => Some(*v),
        }
    }
}

impl Same for AutoOrU32 {
    open spec fn same(self, other: AutoOrU32) -> bool {
        self == other
    }

    fn same_as(&self, other: &AutoOrU32) -> bool {
        *self == *other
    }
}

/// A setting that is either left to the router or fixed.
#[derive(Debug, Clone, Copy, PartialEq, Eq, Structural)]
pub enum AutoOrU16 {
    Auto,
    Value(u16),
}

impl AutoOrU16 {
    /// The fixed value.
    pub open spec fn value(self) -> Option<u16> {
        match self {
            AutoOrU16::Auto => None,
            AutoOrU16::Value(v) => Some(v),
        }
    }

    /// The fixed value.
    pub fn as_value(&self) -> (r: Option<u16>)
        ensures
            r == self.value(),
    {
        match self {
            AutoOrU16::Auto => None,
            AutoOrU16::Value(v) => Some(*v),
        }
    }
}

impl Same for AutoOrU16 {
    open spec fn same(self, other: AutoOrU16) -> bool {
        self == other
    }

    fn same_as(&self, other: &AutoOrU16) -> bool {
        *self == *other
    }
}

/// The audio settings.
#[derive(Debug, Clone, PartialEq)]
pub struct AudioConfig {
    pub sample_rate: AutoOrU32,
    pub channels: AutoOrU16,
    pub buffer_frames: u32,
    pub format: String,
    pub latency_mode: String,
}

impl Same for AudioConfig {
    open spec fn same(self, other: AudioConfig) -> bool {
        &&& self.sample_rate.same(other.sample_rate)
        &&& self.channels.same(other.channels)
        &&& self.buffer_frames.same(other.buffer_frames)
        &&& self.format.same(other.format)
        &&& self.latency_mode.same(other.latency_mode)
    }

    fn same_as(&self, other: &AudioConfig) -> bool {
        self.sample_rate.same_as(&other.sample_rate)
            && self.channels.same_as(&other.channels)
            && self.buffer_frames.same_as(&other.buffer_frames)
            && self.format.same_as(&other.format)
            && self.latency_mode.same_as(&other.latency_mode)
    }
}

/// A device that applications play into.
#[derive(Debug, PartialEq)]
pub struct VirtualOutputDevice {
    pub id: String,
    pub name: String,
    pub channels: Option<u16>,
    pub uid: Option<String>,
    pub hidden: bool,
}

impl Clone for VirtualOutputDevice {
    fn clone(&self) -> (r: VirtualOutputDevice)
        ensures
            r == *self,
    {
        VirtualOutputDevice {
            id: self.id.clone(),
            name: self.name.clone(),
            channels: self.channels,
            uid: self.uid.clone(),
            hidden: self.hidden,
        }
    }
}

impl Same for VirtualOutputDevice {
    open spec fn same(self, other: VirtualOutputDevice) -> bool {
        &&& self.id.same(other.id)
        &&& self.name.same(other.name)
        &&& self.channels.same(other.channels)
        &&& self.uid.same(other.uid)
        &&& self.hidden.same(other.hidden)
    }

    fn same_as(&self, other: &VirtualOutputDevice) -> bool {
        self.id.same_as(&other.id)
            && self.name.same_as(&other.name)
            && self.channels.same_as(&other.channels)
            && self.uid.same_as(&other.uid)
            && self.hidden.same_as(&other.hidden)
    }
}

/// How the contributions to a node are combined.
#[derive(Debug, Clone, Copy, PartialEq, Eq, Structural)]
pub enum MixMode {
    Sum,
    Average,
}

impl Same for MixMode {
    open spec fn same(self, other: MixMode) -> bool {
        self == other
    }

    fn same_as(&self, other: &MixMode) -> bool {
        *self == *other
    }
}

/// How a node mixes.
#[derive(Debug, Clone, Copy, PartialEq)]
pub struct MixConfig {
    pub limiter: bool,
    pub limit_dbfs: Real32,
    pub mode: MixMode,
}

impl Same for MixConfig {
    open spec fn same(self, other: MixConfig) -> bool {
        &&& self.limiter.same(other.limiter)
        &&& self.limit_dbfs.same(other.limit_dbfs)
        &&& self.mode.same(other.mode)
    }

    fn same_as(&self, other: &MixConfig) -> bool {
        self.limiter.same_as(&other.limiter)
            && self.limit_dbfs.same_as(&other.limit_dbfs)
            && self.mode.same_as(&other.mode)
    }
}

/// A device that applications record from.
#[derive(Debug, PartialEq)]
pub struct VirtualInputDevice {
    pub id: String,
    pub name: String,
    pub channels: Option<u16>,
    pub uid: Option<String>,
    pub mix: Option<MixConfig>,
}

impl Clone for VirtualInputDevice {
    fn clone(&self) -> (r: VirtualInputDevice)
        ensures
            r == *self,
    {
        VirtualInputDevice {
            id: self.id.clone(),
            name: self.name.clone(),
            channels: self.channels,
            uid: self.uid.clone(),
            mix: self.mix,
        }
    }
}

impl Same for VirtualInputDevice {
    open spec fn same(self, other: VirtualInputDevice) -> bool {
        &&& self.id.same(other.id)
        &&& self.name.same(other.name)
        &&& self.channels.same(other.channels)
        &&& self.uid.same(other.uid)
        &&& self.mix.same(other.mix)
    }

    fn same_as(&self, other: &VirtualInputDevice) -> bool {
        self.id.same_as(&other.id)
            && self.name.same_as(&other.name)
            && self.channels.same_as(&other.channels)
            && self.uid.same_as(&other.uid)
            && self.mix.same_as(&other.mix)
    }
}

/// The virtual devices.
#[derive(Debug, Clone, PartialEq)]
pub struct VirtualDevices {
    pub outputs: Vec<VirtualOutputDevice>,
    pub inputs: Vec<VirtualInputDevice>,
}

impl Same for VirtualDevices {
    open spec fn same(self, other: VirtualDevices) -> bool {
        &&& self.outputs.same(other.outputs)
        &&& self.inputs.same(other.inputs)
    }

    fn same_as(&self, other: &VirtualDevices) -> bool {
        self.outputs.same_as(&other.outputs)
            && self.inputs.same_as(&other.inputs)
    }
}

/// A node that mixes and passes on.
#[derive(Debug, PartialEq)]
pub struct Bus {
    pub id: String,
    pub channels: Option<u16>,
    pub mix: Option<MixConfig>,
}

impl Clone for Bus {
    fn clone(&self) -> (r: Bus)
        ensures
            r == *self,
    {
        Bus {
            id: self.id.clone(),
            channels: self.channels,
            mix: self.mix,
        }
    }
}

impl Same for Bus {
    open spec fn same(self, other: Bus) -> bool {
        &&& self.id.same(other.id)
        &&& self.channels.same(other.channels)
        &&& self.mix.same(other.mix)
    }

    fn same_as(&self, other: &Bus) -> bool {
        self.id.same_as(&other.id)
            && self.channels.same_as(&other.channels)
            && self.mix.same_as(&other.mix)
    }
}

/// How a device is attached.
#[derive(Debug, Clone, Copy, PartialEq, Eq, Structural)]
pub enum TransportType {
    BuiltIn,
    Usb,
    Bluetooth,
    Thunderbolt,
    Hdmi,
    DisplayPort,
    Virtual,
    Aggregate,
    Unknown,
}

impl Same for TransportType {
    open spec fn same(self, other: TransportType) -> bool {
        self == other
    }

    fn same_as(&self, other: &TransportType) -> bool {
        *self == *other
    }
}

/// What an external device has to be like.
#[derive(Debug, PartialEq)]
pub struct DeviceMatch {
    pub uid: Option<String>,
    pub name: Option<String>,
    pub name_regex: Option<String>,
    pub manufacturer: Option<String>,
    pub transport: Option<TransportType>,
}

impl Clone for DeviceMatch {
    fn clone(&self) -> (r: DeviceMatch)
        ensures
            r == *self,
    {
        DeviceMatch {
            uid: self.uid.clone(),
            name: self.name.clone(),
            name_regex: self.name_regex.clone(),
            manufacturer: self.manufacturer.clone(),
            transport: self.transport,
        }
    }
}

impl Same for DeviceMatch {
    open spec fn same(self, other: DeviceMatch) -> bool {
        &&& self.uid.same(other.uid)
        &&& self.name.same(other.name)
        &&& self.name_regex.same(other.name_regex)
        &&& self.manufacturer.same(other.manufacturer)
        &&& self.transport.same(other.transport)
    }

    fn same_as(&self, other: &DeviceMatch) -> bool {
        self.uid.same_as(&other.uid)
            && self.name.same_as(&other.name)
            && self.name_regex.same_as(&other.name_regex)
            && self.manufacturer.same_as(&other.manufacturer)
            && self.transport.same_as(&other.transport)
    }
}

/// An external device to capture from.
#[derive(Debug, PartialEq)]
pub struct ExternalInput {
    pub id: String,
    pub criteria: DeviceMatch,
    pub channels: Option<u16>,
}

impl Clone for ExternalInput {
    fn clone(&self) -> (r: ExternalInput)
        ensures
            r == *self,
    {
        ExternalInput {
            id: self.id.clone(),
            criteria: self.criteria.clone(),
            channels: self.channels,
        }
    }
}

impl Same for ExternalInput {
    open spec fn same(self, other: ExternalInput) -> bool {
        &&& self.id.same(other.id)
        &&& self.criteria.same(other.criteria)
        &&& self.channels.same(other.channels)
    }

    fn same_as(&self, other: &ExternalInput) -> bool {
        self.id.same_as(&other.id)
            && self.criteria.same_as(&other.criteria)
            && self.channels.same_as(&other.channels)
    }
}

/// An external device to play to.
#[derive(Debug, PartialEq)]
pub struct ExternalOutput {
    pub id: String,
    pub criteria: DeviceMatch,
    pub channels: Option<u16>,
}

impl Clone for ExternalOutput {
    fn clone(&self) -> (r: ExternalOutput)
        ensures
            r == *self,
    {
        ExternalOutput {
            id: self.id.clone(),
            criteria: self.criteria.clone(),
            channels: self.channels,
        }
    }
}

impl Same for ExternalOutput {
    open spec fn same(self, other: ExternalOutput) -> bool {
        &&& self.id.same(other.id)
        &&& self.criteria.same(other.criteria)
        &&& self.channels.same(other.channels)
    }

    fn same_as(&self, other: &ExternalOutput) -> bool {
        self.id.same_as(&other.id)
            && self.criteria.same_as(&other.criteria)
            && self.channels.same_as(&other.channels)
    }
}

/// The external devices.
#[derive(Debug, Clone, PartialEq)]
pub struct ExternalDevices {
    pub inputs: Vec<ExternalInput>,
    pub outputs: Vec<ExternalOutput>,
}

impl Same for ExternalDevices {
    open spec fn same(self, other: ExternalDevices) -> bool {
        &&& self.inputs.same(other.inputs)
        &&& self.outputs.same(other.outputs)
    }

    fn same_as(&self, other: &ExternalDevices) -> bool {
        self.inputs.same_as(&other.inputs)
            && self.outputs.same_as(&other.outputs)
    }
}

/// A connection between two nodes with like channels.
#[derive(Debug, PartialEq)]
pub struct Pipe {
    pub from: String,
    pub to: String,
    pub enabled: bool,
    pub gain_db: Real32,
    pub mute: bool,
    pub pan: Real32,
    pub delay_ms: Real32,
}

impl Clone for Pipe {
    fn clone(&self) -> (r: Pipe)
        ensures
            r == *self,
    {
        Pipe {
            from: self.from.clone(),
            to: self.to.clone(),
            enabled: self.enabled,
            gain_db: self.gain_db,
            mute: self.mute,
            pan: self.pan,
            delay_ms: self.delay_ms,
        }
    }
}

impl Same for Pipe {
    open spec fn same(self, other: Pipe) -> bool {
        &&& self.from.same(other.from)
        &&& self.to.same(other.to)
        &&& self.enabled.same(other.enabled)
        &&& self.gain_db.same(other.gain_db)
        &&& self.mute.same(other.mute)
        &&& self.pan.same(other.pan)
        &&& self.delay_ms.same(other.delay_ms)
    }

    fn same_as(&self, other: &Pipe) -> bool {
        self.from.same_as(&other.from)
            && self.to.same_as(&other.to)
            && self.enabled.same_as(&other.enabled)
            && self.gain_db.same_as(&other.gain_db)
            && self.mute.same_as(&other.mute)
            && self.pan.same_as(&other.pan)
            && self.delay_ms.same_as(&other.delay_ms)
    }
}

/// The gains from each source channel (column) to each destination channel (row).
#[derive(Debug, Clone, PartialEq)]
pub struct RouteMatrix {
    pub rows: u16,
    pub cols: u16,
    pub coefficients: Vec<Vec<Real32>>,
}

impl Same for RouteMatrix {
    open spec fn same(self, other: RouteMatrix) -> bool {
        &&& self.rows.same(other.rows)
        &&& self.cols.same(other.cols)
        &&& self.coefficients.same(other.coefficients)
    }

    fn same_as(&self, other: &RouteMatrix) -> bool {
        self.rows.same_as(&other.rows)
            && self.cols.same_as(&other.cols)
            && self.coefficients.same_as(&other.coefficients)
    }
}

/// A connection between two nodes by a channel matrix.
#[derive(Debug, Clone, PartialEq)]
pub struct Route {
    pub id: String,
    pub from: String,
    pub to: String,
    pub enabled: bool,
    pub matrix: RouteMatrix,
    pub chain: Option<String>,
    pub gain_db: Real32,
    pub mute: bool,
    pub pan: Real32,
    pub delay_ms: Real32,
}

impl Same for Route {
    open spec fn same(self, other: Route) -> bool {
        &&& self.id.same(other.id)
        &&& self.from.same(other.from)
        &&& self.to.same(other.to)
        &&& self.enabled.same(other.enabled)
        &&& self.matrix.same(other.matrix)
        &&& self.chain.same(other.chain)
        &&& self.gain_db.same(other.gain_db)
        &&& self.mute.same(other.mute)
        &&& self.pan.same(other.pan)
        &&& self.delay_ms.same(other.delay_ms)
    }

    fn same_as(&self, other: &Route) -> bool {
        self.id.same_as(&other.id)
            && self.from.same_as(&other.from)
            && self.to.same_as(&other.to)
            && self.enabled.same_as(&other.enabled)
            && self.matrix.same_as(&other.matrix)
            && self.chain.same_as(&other.chain)
            && self.gain_db.same_as(&other.gain_db)
            && self.mute.same_as(&other.mute)
            && self.pan.same_as(&other.pan)
            && self.delay_ms.same_as(&other.delay_ms)
    }
}

/// What a processor does.
#[derive(Debug, Clone, Copy, PartialEq, Eq, Structural)]
pub enum ProcessorKind {
    Eq,
    Dynamics,
    Denoise,
    TimeShift,
    Au,
}

impl Same for ProcessorKind {
    open spec fn same(self, other: ProcessorKind) -> bool {
        self == other
    }

    fn same_as(&self, other: &ProcessorKind) -> bool {
        *self == *other
    }
}

/// A processor and its settings.
#[derive(Debug, PartialEq)]
pub struct ProcessorDefinition {
    pub id: String,
    pub kind: ProcessorKind,
    pub config: serde_json::Value,
}

impl Clone for ProcessorDefinition {
    fn clone(&self) -> (r: ProcessorDefinition)
        ensures
            r == *self,
    {
        ProcessorDefinition {
            id: self.id.clone(),
            kind: self.kind,
            config: self.config.clone(),
        }
    }
}

impl Same for ProcessorDefinition {
    open spec fn same(self, other: ProcessorDefinition) -> bool {
        &&& self.id.same(other.id)
        &&& self.kind.same(other.kind)
        &&& self.config.same(other.config)
    }

    fn same_as(&self, other: &ProcessorDefinition) -> bool {
        self.id.same_as(&other.id)
            && self.kind.same_as(&other.kind)
            && self.config.same_as(&other.config)
    }
}

/// Processors that run one after another.
#[derive(Debug, Clone, PartialEq)]
pub struct ProcessorChain {
    pub id: String,
    pub processors: Vec<String>,
}

impl Same for ProcessorChain {
    open spec fn same(self, other: ProcessorChain) -> bool {
        &&& self.id.same(other.id)
        &&& self.processors.same(other.processors)
    }

    fn same_as(&self, other: &ProcessorChain) -> bool {
        self.id.same_as(&other.id)
            && self.processors.same_as(&other.processors)
    }
}

/// Which processes a tap captures.
#[derive(Debug, PartialEq)]
pub enum ProcessTapSelector {
    Pid { pid: u32 },
    BundleId { bundle_id: String },
}

impl Clone for ProcessTapSelector {
    fn clone(&self) -> (r: ProcessTapSelector)
        ensures
            r == *self,
    {
        match self {
            ProcessTapSelector::Pid { pid } => ProcessTapSelector::Pid { pid: *pid },
            ProcessTapSelector::BundleId { bundle_id } => ProcessTapSelector::BundleId {
                bundle_id: bundle_id.clone(),
            },
        }
    }
}

impl Same for ProcessTapSelector {
    open spec fn same(self, other: ProcessTapSelector) -> bool {
        match (self, other) {
            (ProcessTapSelector::Pid { pid: a }, ProcessTapSelector::Pid { pid: b }) => a == b,
            (
                ProcessTapSelector::BundleId { bundle_id: a },
                ProcessTapSelector::BundleId { bundle_id: b },
            ) => a@ == b@,
            _ => false,
        }
    }

    fn same_as(&self, other: &ProcessTapSelector) -> bool {
        match (self, other) {
            (ProcessTapSelector::Pid { pid: a }, ProcessTapSelector::Pid { pid: b }) => *a == *b,
            (
                ProcessTapSelector::BundleId { bundle_id: a },
                ProcessTapSelector::BundleId { bundle_id: b },
            ) => *a == *b,
            _ => false,
        }
    }
}

/// A tap on the output of chosen processes.
#[derive(Debug, PartialEq)]
pub struct ProcessTap {
    pub id: String,
    pub selector: ProcessTapSelector,
    pub channels: Option<u16>,
}

impl Clone for ProcessTap {
    fn clone(&self) -> (r: ProcessTap)
        ensures
            r == *self,
    {
        ProcessTap {
            id: self.id.clone(),
            selector: self.selector.clone(),
            channels: self.channels,
        }
    }
}

impl Same for ProcessTap {
    open spec fn same(self, other: ProcessTap) -> bool {
        &&& self.id.same(other.id)
        &&& self.selector.same(other.selector)
        &&& self.channels.same(other.channels)
    }

    fn same_as(&self, other: &ProcessTap) -> bool {
        self.id.same_as(&other.id)
            && self.selector.same_as(&other.selector)
            && self.channels.same_as(&other.channels)
    }
}

/// Which output of the system a tap captures.
#[derive(Debug, Clone, Copy, PartialEq, Eq, Structural)]
pub enum SystemTapMode {
    DefaultOutput,
    AllOutput,
}

impl Same for SystemTapMode {
    open spec fn same(self, other: SystemTapMode) -> bool {
        self == other
    }

    fn same_as(&self, other: &SystemTapMode) -> bool {
        *self == *other
    }
}

/// A tap on the output of the whole system.
#[derive(Debug, PartialEq)]
pub struct SystemTap {
    pub id: String,
    pub mode: SystemTapMode,
    pub channels: Option<u16>,
}

impl Clone for SystemTap {
    fn clone(&self) -> (r: SystemTap)
        ensures
            r == *self,
    {
        SystemTap {
            id: self.id.clone(),
            mode: self.mode,
            channels: self.channels,
        }
    }
}

impl Same for SystemTap {
    open spec fn same(self, other: SystemTap) -> bool {
        &&& self.id.same(other.id)
        &&& self.mode.same(other.mode)
        &&& self.channels.same(other.channels)
    }

    fn same_as(&self, other: &SystemTap) -> bool {
        self.id.same_as(&other.id)
            && self.mode.same_as(&other.mode)
            && self.channels.same_as(&other.channels)
    }
}

/// The taps.
#[derive(Debug, Clone, PartialEq)]
pub struct CaptureConfig {
    pub process_taps: Vec<ProcessTap>,
    pub system_taps: Vec<SystemTap>,
}

impl Same for CaptureConfig {
    open spec fn same(self, other: CaptureConfig) -> bool {
        &&& self.process_taps.same(other.process_taps)
        &&& self.system_taps.same(other.system_taps)
    }

    fn same_as(&self, other: &CaptureConfig) -> bool {
        self.process_taps.same_as(&other.process_taps)
            && self.system_taps.same_as(&other.system_taps)
    }
}

/// The format of a recording.
#[derive(Debug, Clone, Copy, PartialEq, Eq, Structural)]
pub enum FileSinkFormat {
    Wav,
    Caf,
}

impl Same for FileSinkFormat {
    open spec fn same(self, other: FileSinkFormat) -> bool {
        self == other
    }

    fn same_as(&self, other: &FileSinkFormat) -> bool {
        *self == *other
    }
}

/// A recording of a node.
#[derive(Debug, PartialEq)]
pub struct FileSink {
    pub id: String,
    pub source: String,
    pub path: String,
    pub format: FileSinkFormat,
    pub channels: Option<u16>,
}

impl Clone for FileSink {
    fn clone(&self) -> (r: FileSink)
        ensures
            r == *self,
    {
        FileSink {
            id: self.id.clone(),
            source: self.source.clone(),
            path: self.path.clone(),
            format: self.format,
            channels: self.channels,
        }
    }
}

impl Same for FileSink {
    open spec fn same(self, other: FileSink) -> bool {
        &&& self.id.same(other.id)
        &&& self.source.same(other.source)
        &&& self.path.same(other.path)
        &&& self.format.same(other.format)
        &&& self.channels.same(other.channels)
    }

    fn same_as(&self, other: &FileSink) -> bool {
        self.id.same_as(&other.id)
            && self.source.same_as(&other.source)
            && self.path.same_as(&other.path)
            && self.format.same_as(&other.format)
            && self.channels.same_as(&other.channels)
    }
}

/// A stream of a node to some endpoint.
#[derive(Debug, PartialEq)]
pub struct StreamSink {
    pub id: String,
    pub source: String,
    pub transport: String,
    pub endpoint: String,
    pub options: serde_json::Value,
    pub channels: Option<u16>,
}

impl Clone for StreamSink {
    fn clone(&self) -> (r: StreamSink)
        ensures
            r == *self,
    {
        StreamSink {
            id: self.id.clone(),
            source: self.source.clone(),
            transport: self.transport.clone(),
            endpoint: self.endpoint.clone(),
            options: self.options.clone(),
            channels: self.channels,
        }
    }
}

impl Same for StreamSink {
    open spec fn same(self, other: StreamSink) -> bool {
        &&& self.id.same(other.id)
        &&& self.source.same(other.source)
        &&& self.transport.same(other.transport)
        &&& self.endpoint.same(other.endpoint)
        &&& self.options.same(other.options)
        &&& self.channels.same(other.channels)
    }

    fn same_as(&self, other: &StreamSink) -> bool {
        self.id.same_as(&other.id)
            && self.source.same_as(&other.source)
            && self.transport.same_as(&other.transport)
            && self.endpoint.same_as(&other.endpoint)
            && self.options.same_as(&other.options)
            && self.channels.same_as(&other.channels)
    }
}

/// The recordings and streams.
#[derive(Debug, Clone, PartialEq)]
pub struct SinkConfig {
    pub files: Vec<FileSink>,
    pub streams: Vec<StreamSink>,
}

impl Same for SinkConfig {
    open spec fn same(self, other: SinkConfig) -> bool {
        &&& self.files.same(other.files)
        &&& self.streams.same(other.streams)
    }

    fn same_as(&self, other: &SinkConfig) -> bool {
        self.files.same_as(&other.files)
            && self.streams.same_as(&other.streams)
    }
}

/// All that is declared.
#[derive(Debug, Clone, PartialEq)]
pub struct Profile {
    pub version: u32,
    pub name: Option<String>,
    pub description: Option<String>,
    pub audio: AudioConfig,
    pub virtual_devices: VirtualDevices,
    pub buses: Vec<Bus>,
    pub external: ExternalDevices,
    pub pipes: Vec<Pipe>,
    pub routes: Vec<Route>,
    pub processors: Vec<ProcessorDefinition>,
    pub processor_chains: Vec<ProcessorChain>,
    pub captures: CaptureConfig,
    pub sinks: SinkConfig,
}

/// The profile format that the router understands.
pub const PROFILE_VERSION: u32 = 2;

/// The number of frames in a buffer where nothing else is said.
pub const DEFAULT_BUFFER_FRAMES: u32 = 256;

/// The sample rate where nothing else is said.
pub const DEFAULT_SAMPLE_RATE: u32 = 48_000;

/// The number of channels where nothing else is said.
pub const DEFAULT_CHANNELS: u16 = 2;

impl Default for MixConfig {
    fn default() -> (r: MixConfig)
        ensures
            r == default_mix(),
    {
        MixConfig {
            limiter: false,
            limit_dbfs: Real32 { bits: MINUS_ONE_BITS },
            mode: MixMode::Sum,
        }
    }
}

/// How a node mixes where nothing is said: a plain sum.
pub open spec fn default_mix() -> MixConfig {
    MixConfig { limiter: false, limit_dbfs: Real32 { bits: MINUS_ONE_BITS }, mode: MixMode::Sum }
}

impl Default for DeviceMatch {
    fn default() -> (r: DeviceMatch)
        ensures
            r.uid is None,
            r.name is None,
            r.name_regex is None,
            r.manufacturer is None,
            r.transport is None,
    {
        DeviceMatch {
            uid: None,
            name: None,
            name_regex: None,
            manufacturer: None,
            transport: None,
        }
    }
}

impl Default for AudioConfig {
    fn default() -> (r: AudioConfig)
        ensures
            r.sample_rate == AutoOrU32::Auto,
            r.channels == AutoOrU16::Auto,
            r.buffer_frames == DEFAULT_BUFFER_FRAMES,
            r.format@.len() == 0,
            r.latency_mode@.len() == 0,
    {
        AudioConfig {
            sample_rate: AutoOrU32::Auto,
            channels: AutoOrU16::Auto,
            buffer_frames: DEFAULT_BUFFER_FRAMES,
            format: String::new(),
            latency_mode: String::new(),
        }
    }
}

impl Default for Profile {
    fn default() -> (r: Profile)
        ensures
            r.version == PROFILE_VERSION,
            r.name is None,
            r.description is None,
            r.audio.sample_rate == AutoOrU32::Auto,
            r.audio.channels == AutoOrU16::Auto,
            r.audio.buffer_frames == DEFAULT_BUFFER_FRAMES,
            r.audio.format@.len() == 0,
            r.audio.latency_mode@.len() == 0,
            r.virtual_devices.outputs@.len() == 0,
            r.virtual_devices.inputs@.len() == 0,
            r.buses@.len() == 0,
            r.external.inputs@.len() == 0,
            r.external.outputs@.len() == 0,
            r.pipes@.len() == 0,
            r.routes@.len() == 0,
            r.processors@.len() == 0,
            r.processor_chains@.len() == 0,
            r.captures.process_taps@.len() == 0,
            r.captures.system_taps@.len() == 0,
            r.sinks.files@.len() == 0,
            r.sinks.streams@.len() == 0,
    {
        Profile {
            version: PROFILE_VERSION,
            name: None,
            description: None,
            audio: AudioConfig::default(),
            virtual_devices: VirtualDevices { outputs: Vec::new(), inputs: Vec::new() },
            buses: Vec::new(),
            external: ExternalDevices { inputs: Vec::new(), outputs: Vec::new() },
            pipes: Vec::new(),
            routes: Vec::new(),
            processors: Vec::new(),
            processor_chains: Vec::new(),
            captures: CaptureConfig { process_taps: Vec::new(), system_taps: Vec::new() },
            sinks: SinkConfig { files: Vec::new(), streams: Vec::new() },
        }
    }
}

/// The number of channels of a node that does not name one.
pub open spec fn default_channels(profile: Profile) -> u16 {
    match profile.audio.channels.value() {
        Some(c) => c,
        None => DEFAULT_CHANNELS,
    }
}

/// The sample rate of the profile.
pub open spec fn effective_sample_rate(profile: Profile) -> u32 {
    match profile.audio.sample_rate.value() {
        Some(rate) => rate,
        None => DEFAULT_SAMPLE_RATE,
    }
}

impl Profile {
    /// The number of channels of a node that does not name one.
    pub fn default_channels(&self) -> (r: u16)
        ensures
            r == default_channels(*self),
    {
        self.audio.channels.as_value().unwrap_or(DEFAULT_CHANNELS)
    }

    /// The sample rate of the profile.
    pub fn effective_sample_rate(&self) -> (r: u32)
        ensures
            r == effective_sample_rate(*self),
    {
        self.audio.sample_rate.as_value().unwrap_or(DEFAULT_SAMPLE_RATE)
    }
}

/// A choice of channels, or the default.
pub open spec fn channels_or(channels: Option<u16>, default: u16) -> u16 {
    match channels {
        Some(c) => c,
        None => default,
    }
}

/// What a node of the routing graph is.
#[derive(Debug, Clone, Copy, PartialEq, Eq, Structural)]
pub enum NodeKind {
    VirtualOutput,
    VirtualInput,
    ExternalInput,
    ExternalOutput,
    Bus,
}

impl Same for NodeKind {
    open spec fn same(self, other: NodeKind) -> bool {
        self == other
    }

    fn same_as(&self, other: &NodeKind) -> bool {
        *self == *other
    }
}

impl NodeKind {
    /// Whether audio can be taken from the node.
    pub open spec fn source(self) -> bool {
        self == NodeKind::VirtualOutput || self == NodeKind::ExternalInput || self == NodeKind::Bus
    }

    /// Whether audio can be sent to the node.
    pub open spec fn sink(self) -> bool {
        self == NodeKind::VirtualInput || self == NodeKind::ExternalOutput || self == NodeKind::Bus
    }

    /// Whether audio can be taken from the node.
    pub fn is_source(&self) -> (r: bool)
        ensures
            r == self.source(),
    {
        matches!(*self, NodeKind::VirtualOutput | NodeKind::ExternalInput | NodeKind::Bus)
    }

    /// Whether audio can be sent to the node.
    pub fn is_sink(&self) -> (r: bool)
        ensures
            r == self.sink(),
    {
        matches!(*self, NodeKind::VirtualInput | NodeKind::ExternalOutput | NodeKind::Bus)
    }
}

/// Only profiles of the current version are taken.
pub fn check_profile_version(version: u32) -> (r: Result<(), String>)
    ensures
        r is Ok <==> version == PROFILE_VERSION,
        r matches Err(text) ==> text@ == "unsupported profile version "@ + decimal(version as nat)
            + " (expected "@ + decimal(PROFILE_VERSION as nat) + ")"@,
{
    if version == PROFILE_VERSION {
        return Ok(());
    }
    let mut text = String::from_str("unsupported profile version ");
    text.append(decimal_text(version as u64).as_str());
    text.append(" (expected ");
    text.append(decimal_text(PROFILE_VERSION as u64).as_str());
    text.append(")");
    Err(text)
}

} // verus!
