use auto_exposure::pass::{dispatch_order, exposure_source, ExposureSource, Pass, PipelineState};

#[test]
fn histogram_pass_entry_point() {
    assert_eq!(Pass::Histogram.entry_point(), "compute_histogram");
}

#[test]
fn average_pass_entry_point() {
    assert_eq!(Pass::Average.entry_point(), "compute_average");
}

#[test]
fn both_passes_share_label() {
    assert_eq!(Pass::Histogram.label(), "luminance compute pipeline");
    assert_eq!(Pass::Average.label(), Pass::Histogram.label());
}

#[test]
fn histogram_is_dispatched_before_average() {
    assert_eq!(dispatch_order(), [Pass::Histogram, Pass::Average]);
}

#[test]
fn exposure_is_metered_only_with_both_pipelines() {
    assert_eq!(
        exposure_source(PipelineState::Ready, PipelineState::Ready),
        ExposureSource::Metered
    );
    assert_eq!(
        exposure_source(PipelineState::Ready, PipelineState::Failed),
        ExposureSource::Fixed
    );
    assert_eq!(
        exposure_source(PipelineState::Queued, PipelineState::Ready),
        ExposureSource::Fixed
    );
    assert_eq!(
        exposure_source(PipelineState::Failed, PipelineState::Failed),
        ExposureSource::Fixed
    );
}
