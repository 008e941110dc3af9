use visusta::filters::{LuminanceAsciiFilter, LuminanceFilter};
use visusta::pipeline::{
    DataType, Layer, Pipeline, PipelineError, PipelineErrorKind, PipelineLocation, ProcessingStep,
};

fn luma_step() -> ProcessingStep {
    ProcessingStep::ToLuminance(LuminanceFilter::create())
}

fn ascii_step() -> ProcessingStep {
    ProcessingStep::LuminanceToAscii(LuminanceAsciiFilter::create())
}

#[test]
fn empty_pipeline_fails_at_pipeline() {
    let pipeline = Pipeline::new();
    let err = pipeline.validate().unwrap_err();
    assert_eq!(
        err,
        PipelineError {
            kind: PipelineErrorKind::EmptyPipeline,
            location: PipelineLocation::Pipeline,
        }
    );
}

#[test]
fn empty_layer_fails_at_its_index() {
    let pipeline = Pipeline::new()
        .add_layer(Layer::new().add_step(luma_step()))
        .add_layer(Layer::new());
    let err = pipeline.validate().unwrap_err();
    assert_eq!(
        err,
        PipelineError {
            kind: PipelineErrorKind::EmptyLayer,
            location: PipelineLocation::Layer { layer: 1 },
        }
    );
}

#[test]
fn first_step_must_take_raster() {
    let pipeline = Pipeline::new().add_layer(Layer::new().add_step(ProcessingStep::LumaToRgba));
    let err = pipeline.validate().unwrap_err();
    assert_eq!(
        err,
        PipelineError {
            kind: PipelineErrorKind::TypeMismatch {
                expected: DataType::Rgba,
                got: DataType::LumaA,
            },
            location: PipelineLocation::Step { layer: 0, step: 0 },
        }
    );
}

#[test]
fn first_adjacent_mismatch_is_reported() {
    // to_luminance produces LumaA, but the second to_luminance asks for Rgba.
    let pipeline =
        Pipeline::new().add_layer(Layer::new().add_step(luma_step()).add_step(luma_step()));
    let err = pipeline.validate().unwrap_err();
    assert_eq!(
        err,
        PipelineError {
            kind: PipelineErrorKind::TypeMismatch {
                expected: DataType::LumaA,
                got: DataType::Rgba,
            },
            location: PipelineLocation::Step { layer: 0, step: 1 },
        }
    );
}

#[test]
fn ascii_chain_validates_to_char_grid() {
    let pipeline =
        Pipeline::new().add_layer(Layer::new().add_step(luma_step()).add_step(ascii_step()));
    assert_eq!(pipeline.validate(), Ok(DataType::Char));
}

#[test]
fn diverging_layer_shapes_fail_at_second_layer() {
    // One layer ends in a char grid, the other in a raster.
    let pipeline = Pipeline::new()
        .add_layer(Layer::new().add_step(luma_step()).add_step(ascii_step()))
        .add_layer(
            Layer::new().add_step(luma_step()).add_step(ProcessingStep::LumaToRgba),
        );
    let err = pipeline.validate().unwrap_err();
    assert_eq!(
        err,
        PipelineError {
            kind: PipelineErrorKind::LayerOutputMismatch {
                expected: DataType::Char,
                got: DataType::Rgba,
            },
            location: PipelineLocation::Layer { layer: 1 },
        }
    );
}

#[test]
fn validation_is_idempotent() {
    let good =
        Pipeline::new().add_layer(Layer::new().add_step(luma_step()).add_step(ascii_step()));
    assert_eq!(good.validate(), good.validate());

    let bad = Pipeline::new().add_layer(Layer::new());
    assert_eq!(bad.validate(), bad.validate());
}

#[test]
fn layer_validate_returns_final_shape() {
    let layer = Layer::new().add_step(luma_step()).add_step(ProcessingStep::LumaToRgba);
    assert_eq!(layer.validate(7), Ok(DataType::Rgba));
}

#[test]
fn step_signatures_are_fixed() {
    assert_eq!(luma_step().signature(), (DataType::Rgba, DataType::LumaA));
    assert_eq!(ProcessingStep::LumaToRgba.signature(), (DataType::LumaA, DataType::Rgba));
    assert_eq!(ascii_step().signature(), (DataType::LumaA, DataType::Char));
}

#[test]
fn default_pipeline_is_empty() {
    let pipeline: Pipeline = Default::default();
    let err = pipeline.validate().unwrap_err();
    assert_eq!(err.kind, PipelineErrorKind::EmptyPipeline);
    assert_eq!(err.location, PipelineLocation::Pipeline);
}
