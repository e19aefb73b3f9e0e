use vstd::prelude::*;

verus! {

/// Which of the two compute kernels a pipeline runs.  Both kernels live in
/// one shader module and share one binding layout; only the entry point
/// differs.
#[derive(PartialEq, Eq, Structural, Clone, Copy, Debug, Hash)]
pub enum Pass {
    Histogram,
    Average,
}

/// Entry point of the shader module that runs `pass`.
pub open spec fn entry_point_of(pass: Pass) -> Seq<char> {
    match pass {
        Pass::Histogram => "compute_histogram"@,
        Pass::Average => "compute_average"@,
    }
}

/// Label given to every specialized luminance pipeline.
pub open spec fn pipeline_label_spec() -> Seq<char> {
    "luminance compute pipeline"@
}

impl Pass {
    /// Shader entry point that implements this pass.
    pub fn entry_point(&self) -> (r: &'static str)
        ensures
            r@ == entry_point_of(*self),
    {
        match self {
            Pass::Histogram => "compute_histogram",
            Pass::Average => "compute_average",
        }
    }

    /// Debug label of the pipeline specialized for this pass.
    pub fn label(&self) -> (r: &'static str)
        ensures
            r@ == pipeline_label_spec(),
    {
        "luminance compute pipeline"
    }
}

/// The order in which a view's passes are dispatched within one frame: the
/// histogram must be complete before the average pass reads it.
pub fn dispatch_order() -> (r: [Pass; 2])
    ensures
        r@ == seq![Pass::Histogram, Pass::Average],
{
    let r = [Pass::Histogram, Pass::Average];
    assert(r@ =~= seq![Pass::Histogram, Pass::Average]);
    r
}

/// Build state of one pass's pipeline.
#[derive(PartialEq, Eq, Structural, Clone, Copy, Debug)]
pub enum PipelineState {
    Queued,
    Ready,
    Failed,
}

/// Where a view's exposure comes from this frame.
#[derive(PartialEq, Eq, Structural, Clone, Copy, Debug)]
pub enum ExposureSource {
    /// Both passes run and the state buffer holds the smoothed value.
    Metered,
    /// A pipeline is missing: the view falls back to a fixed exposure.
    Fixed,
}

/// Auto exposure runs for a view only while the pipelines of both passes
/// are ready; a queued or failed build of either one disables it.
pub fn exposure_source(histogram: PipelineState, average: PipelineState) -> (r: ExposureSource)
    ensures
        r == ExposureSource::Metered <==> (histogram == PipelineState::Ready && average
            == PipelineState::Ready),
{
    match (histogram, average) {
        (PipelineState::Ready, PipelineState::Ready) => ExposureSource::Metered,
        _ => ExposureSource::Fixed,
    }
}

} // verus!
