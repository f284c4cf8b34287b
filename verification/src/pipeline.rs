//! The two compute kernel variants and their caches.
//!
//! A single shader program carries both metering entry points; it is
//! specialized into a "Histogram" and an "Average" variant, compiled once
//! each and cached under that two-value key. The kernel parameter block has
//! a fixed binary layout shared with the compute kernels, reproduced here
//! byte for byte.

use vstd::prelude::*;

verus! {

broadcast use vstd::string::group_string_axioms;

/// The two specializations of the metering shader.
#[derive(PartialEq, Eq, Structural, Hash, Clone, Copy, Debug)]
pub enum Pass {
    /// The per-pixel histogram accumulation kernel.
    Histogram,
    /// The single-invocation trimmed-average kernel.
    Average,
}

/// The kernel parameter block, one 32-bit field at a time, in the order the
/// kernels expect. Fields that the kernels read as floating point are held
/// as their 32-bit bit patterns; the percentile fields are plain integers.
#[derive(PartialEq, Eq, Structural, Clone, Copy, Debug)]
pub struct AutoExposureParams {
    /// Bit pattern of the range's lower end, as the kernel's float field.
    pub min_log_lum: u32,
    /// Bit pattern of the reciprocal of the covered range.
    pub inv_log_lum_range: u32,
    /// Bit pattern of the covered range.
    pub log_lum_range: u32,
    /// Percentage of the darkest samples excluded from the average.
    pub low_percent: u32,
    /// Percentage of the brightest samples excluded from the average.
    pub high_percent: u32,
    /// Bit pattern of the brightening rate, scaled by the frame time.
    pub speed_up: u32,
    /// Bit pattern of the darkening rate, scaled by the frame time.
    pub speed_down: u32,
}

/// The four bytes of a 32-bit field, least significant first.
pub open spec fn spec_le_bytes(v: u32) -> Seq<u8> {
    seq![
        (v as int % 256) as u8,
        (v as int / 256 % 256) as u8,
        (v as int / 65536 % 256) as u8,
        (v as int / 16777216) as u8,
    ]
}

/// Appends a 32-bit field to the parameter block, least significant byte
/// first.
fn push_le(out: &mut Vec<u8>, v: u32)
    ensures
        final(out)@ == old(out)@ + spec_le_bytes(v),
{
    out.push((v % 256) as u8);
    out.push((v / 256 % 256) as u8);
    out.push((v / 65536 % 256) as u8);
    out.push((v / 16777216) as u8);
    proof {
        assert(out@ =~= old(out)@ + spec_le_bytes(v));
    }
}

impl AutoExposureParams {
    /// The block's wire format: the seven fields in declaration order, each
    /// little-endian.
    pub open spec fn spec_bytes(self) -> Seq<u8> {
        spec_le_bytes(self.min_log_lum) + spec_le_bytes(self.inv_log_lum_range) + spec_le_bytes(
            self.log_lum_range,
        ) + spec_le_bytes(self.low_percent) + spec_le_bytes(self.high_percent) + spec_le_bytes(
            self.speed_up,
        ) + spec_le_bytes(self.speed_down)
    }

    /// Serializes the block for the kernels: 28 bytes, fields in declaration
    /// order, each little-endian. The layout is part of the binary contract
    /// with the shader and must stay in lock-step with it.
    pub fn to_bytes(&self) -> (r: Vec<u8>)
        ensures
            r@ == self.spec_bytes(),
            r@.len() == 28,
    {
        let mut out: Vec<u8> = Vec::new();
        push_le(&mut out, self.min_log_lum);
        push_le(&mut out, self.inv_log_lum_range);
        push_le(&mut out, self.log_lum_range);
        push_le(&mut out, self.low_percent);
        push_le(&mut out, self.high_percent);
        push_le(&mut out, self.speed_up);
        push_le(&mut out, self.speed_down);
        proof {
            assert(out@ =~= self.spec_bytes());
        }
        out
    }
}

/// What a specialization asks the host's pipeline compiler to build: the
/// shared layout and shader, entered at the pass's entry point.
pub struct ComputePipelineDescriptor {
    /// Identity of the bind group layout both variants share.
    pub layout: u64,
    /// Identity of the shared shader program.
    pub shader: u64,
    /// The kernel entry point to compile.
    pub entry_point: String,
}

/// What one binding of the metering bind group holds.
#[derive(PartialEq, Eq, Structural, Clone, Copy, Debug)]
pub enum BindingKind {
    /// A uniform buffer of at least `min_size` bytes.
    Uniform {
        /// The least buffer size the kernels accept, in bytes.
        min_size: u64,
    },
    /// A sampled, non-filterable 2D float texture.
    Texture2d,
    /// A sampled, non-filterable 1D float texture.
    Texture1d,
    /// A read-write storage buffer of at least `min_size` bytes.
    Storage {
        /// The least buffer size the kernels accept, in bytes.
        min_size: u64,
    },
}

/// One binding slot of the metering bind group.
#[derive(PartialEq, Eq, Structural, Clone, Copy, Debug)]
pub struct BindGroupLayoutEntry {
    /// The slot's binding index in the shader.
    pub binding: u32,
    /// What the slot holds.
    pub kind: BindingKind,
}

/// The metering shader and the bind group layout it is dispatched with,
/// owned once for all cameras. The identities stand for resources the host
/// renderer created.
pub struct AutoExposurePipeline {
    /// Identity of the bind group layout.
    pub histogram_layout: u64,
    /// Identity of the metering shader program.
    pub histogram_shader: u64,
}

impl AutoExposurePipeline {
    /// The layout both kernel variants are bound with, slot by slot: the
    /// parameter block, the source image, the metering mask, the
    /// compensation curve, the 256-counter histogram buffer, and the
    /// exposure-state scalar.
    pub fn layout_entries() -> (r: Vec<BindGroupLayoutEntry>)
        ensures
            r@.len() == 6,
            r@[0] == (BindGroupLayoutEntry {
                binding: 0,
                kind: BindingKind::Uniform { min_size: 28 },
            }),
            r@[1] == (BindGroupLayoutEntry { binding: 1, kind: BindingKind::Texture2d }),
            r@[2] == (BindGroupLayoutEntry { binding: 2, kind: BindingKind::Texture2d }),
            r@[3] == (BindGroupLayoutEntry { binding: 3, kind: BindingKind::Texture1d }),
            r@[4] == (BindGroupLayoutEntry {
                binding: 4,
                kind: BindingKind::Storage { min_size: 1024 },
            }),
            r@[5] == (BindGroupLayoutEntry {
                binding: 5,
                kind: BindingKind::Storage { min_size: 4 },
            }),
    {
        let mut r: Vec<BindGroupLayoutEntry> = Vec::new();
        r.push(BindGroupLayoutEntry { binding: 0, kind: BindingKind::Uniform { min_size: 28 } });
        r.push(BindGroupLayoutEntry { binding: 1, kind: BindingKind::Texture2d });
        r.push(BindGroupLayoutEntry { binding: 2, kind: BindingKind::Texture2d });
        r.push(BindGroupLayoutEntry { binding: 3, kind: BindingKind::Texture1d });
        r.push(BindGroupLayoutEntry { binding: 4, kind: BindingKind::Storage { min_size: 1024 } });
        r.push(BindGroupLayoutEntry { binding: 5, kind: BindingKind::Storage { min_size: 4 } });
        r
    }

    /// Describes the compute pipeline for one pass: the shared layout and
    /// shader, entered at `computeHistogram` or `computeAverage`.
    pub fn specialize(&self, pass: Pass) -> (r: ComputePipelineDescriptor)
        ensures
            r.layout == self.histogram_layout,
            r.shader == self.histogram_shader,
            pass is Histogram ==> r.entry_point@ == "computeHistogram"@,
            pass is Average ==> r.entry_point@ == "computeAverage"@,
    {
        ComputePipelineDescriptor {
            layout: self.histogram_layout,
            shader: self.histogram_shader,
            entry_point: match pass {
                Pass::Histogram => "computeHistogram".to_string(),
                Pass::Average => "computeAverage".to_string(),
            },
        }
    }
}

/// Everything one camera's metering dispatches need this frame: the two
/// pipeline identifiers, the camera's state buffer key, the kernel
/// parameters, and the mask identity.
pub struct ViewAutoExposurePipeline {
    /// Identifier of the compiled Histogram variant.
    pub histogram_pipeline: u32,
    /// Identifier of the compiled Average variant.
    pub mean_luminance_pipeline: u32,
    /// The camera's key in the exposure-state registry.
    pub state: u64,
    /// The kernel parameter block for this frame.
    pub params: AutoExposureParams,
    /// Identity of the metering mask image, if one is configured.
    pub metering_mask: Option<u64>,
}

/// The cache of compiled kernel variants, keyed by `Pass`: each variant is
/// handed out under a stable identifier and compiled at most once.
pub struct SpecializedComputePipelines {
    /// The cached identifier of the Histogram variant.
    pub histogram_id: Option<u32>,
    /// The cached identifier of the Average variant.
    pub average_id: Option<u32>,
    /// The next identifier to hand out.
    pub next_id: u32,
}

impl SpecializedComputePipelines {
    /// The identifier cached for a pass, if that variant was requested
    /// before.
    pub open spec fn spec_get(&self, pass: Pass) -> Option<u32> {
        match pass {
            Pass::Histogram => self.histogram_id,
            Pass::Average => self.average_id,
        }
    }

    /// Cached identifiers were handed out by this cache and never collide.
    pub open spec fn wf(&self) -> bool {
        &&& (self.histogram_id matches Some(h) ==> h < self.next_id)
        &&& (self.average_id matches Some(a) ==> a < self.next_id)
        &&& (self.histogram_id is Some && self.average_id is Some ==> self.histogram_id->Some_0
            != self.average_id->Some_0)
    }

    /// An empty cache: nothing compiled yet.
    pub fn new() -> (c: SpecializedComputePipelines)
        ensures
            c.wf(),
            c.spec_get(Pass::Histogram) is None,
            c.spec_get(Pass::Average) is None,
    {
        SpecializedComputePipelines { histogram_id: None, average_id: None, next_id: 0 }
    }

    /// Returns the pass's pipeline identifier, compiling the variant only on
    /// first request: asking again for a cached pass returns the same
    /// identifier and changes nothing, and the two passes never share one.
    pub fn specialize(&mut self, pass: Pass) -> (id: u32)
        requires
            old(self).wf(),
            old(self).next_id < u32::MAX,
        ensures
            final(self).wf(),
            final(self).spec_get(pass) == Some(id),
            old(self).spec_get(pass) matches Some(cached) ==> id == cached && *final(self) == *old(
                self,
            ),
            old(self).spec_get(pass) is None ==> id == old(self).next_id && final(self).next_id
                == old(self).next_id + 1,
            forall|other: Pass|
                other != pass ==> final(self).spec_get(other) == old(self).spec_get(other),
    {
        match pass {
            Pass::Histogram => {
                match self.histogram_id {
                    Some(id) => id,
                    None => {
                        let id = self.next_id;
                        self.histogram_id = Some(id);
                        self.next_id = self.next_id + 1;
                        id
                    },
                }
            },
            Pass::Average => {
                match self.average_id {
                    Some(id) => id,
                    None => {
                        let id = self.next_id;
                        self.average_id = Some(id);
                        self.next_id = self.next_id + 1;
                        id
                    },
                }
            },
        }
    }
}

} // verus!
