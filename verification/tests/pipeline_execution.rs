use visusta::artifact::{CharImage, LumaAImage, RgbaImage};
use visusta::filters::{LuminanceAsciiFilter, LuminanceFilter, SobelAscii, SobelColorData};
use visusta::gaussians::{GaussianBuilder, GaussianColorData};
use visusta::pipeline::{
    DataType, Layer, LayerOutput, Pipeline, PipelineError, PipelineErrorKind, PipelineLocation,
    ProcessingStep,
};
use visusta::provider::VisustaProcessor;

/// A small arithmetic-only provider for exercising the pipeline.
struct TestProcessor;

fn luminance_of(r: u8, g: u8, b: u8) -> u8 {
    ((77 * r as u32 + 150 * g as u32 + 29 * b as u32) / 256) as u8
}

impl VisustaProcessor for TestProcessor {
    fn rgba_to_luma_a(&self, img: &RgbaImage, filter: LuminanceFilter) -> LumaAImage {
        let mut data = Vec::new();
        for p in 0..img.width * img.height {
            let base = 4 * p;
            let lum = luminance_of(img.data[base], img.data[base + 1], img.data[base + 2]);
            let scaled = ((lum as u64 * filter.multiplier as u64) / 1000).min(255) as u8;
            if scaled < filter.min {
                data.push(0);
                data.push(0);
            } else {
                data.push(scaled);
                data.push(img.data[base + 3]);
            }
        }
        LumaAImage { width: img.width, height: img.height, data }
    }

    fn luma_to_rgba(&self, img: &LumaAImage) -> RgbaImage {
        let mut data = Vec::new();
        for p in 0..img.width * img.height {
            let lum = img.data[2 * p];
            data.push(lum);
            data.push(lum);
            data.push(lum);
            data.push(img.data[2 * p + 1]);
        }
        RgbaImage { width: img.width, height: img.height, data }
    }

    fn sobel_to_colour(&self, img: &LumaAImage, _filter: SobelColorData) -> RgbaImage {
        self.luma_to_rgba(img)
    }

    fn sobel_ascii_directional(&self, img: &LumaAImage, filter: SobelAscii) -> CharImage {
        let filter = LuminanceAsciiFilter::create().font_size(filter.font_size);
        self.luminance_to_ascii(img, filter)
    }

    fn gaussian_on_luma(&self, img: &LumaAImage, _builder: GaussianBuilder) -> LumaAImage {
        LumaAImage { width: img.width, height: img.height, data: img.data.clone() }
    }

    fn gaussian_to_coloured(
        &self,
        img: &LumaAImage,
        _builder: GaussianBuilder,
        _filter: GaussianColorData,
    ) -> RgbaImage {
        self.luma_to_rgba(img)
    }

    fn luminance_to_ascii(&self, img: &LumaAImage, filter: LuminanceAsciiFilter) -> CharImage {
        let fs = filter.font_size.max(1);
        let width = img.width.div_ceil(fs);
        let height = img.height.div_ceil(fs);
        let mut data = Vec::new();
        for cy in 0..height {
            for cx in 0..width {
                let mut sum: usize = 0;
                let mut count: usize = 0;
                for py in (cy * fs)..((cy + 1) * fs).min(img.height) {
                    for px in (cx * fs)..((cx + 1) * fs).min(img.width) {
                        if img.data[2 * (py * img.width + px) + 1] > 0 {
                            sum += img.data[2 * (py * img.width + px)] as usize;
                            count += 1;
                        }
                    }
                }
                if count == 0 {
                    data.push(' ');
                } else {
                    let avg = (sum / count) as u8;
                    let discrete = (avg / 26).min(9);
                    data.push(filter.chars[discrete as usize]);
                }
            }
        }
        CharImage { width, height, data }
    }
}

fn uniform_grey(width: usize, height: usize, value: u8) -> RgbaImage {
    let mut data = Vec::new();
    for _ in 0..width * height {
        data.push(value);
        data.push(value);
        data.push(value);
        data.push(255);
    }
    RgbaImage { width, height, data }
}

#[test]
fn ascii_pipeline_on_uniform_grey_gives_uniform_glyphs() {
    let pipeline = Pipeline::new().add_layer(
        Layer::new()
            .add_step(ProcessingStep::ToLuminance(LuminanceFilter::create()))
            .add_step(ProcessingStep::LuminanceToAscii(
                LuminanceAsciiFilter::create().font_size(4),
            )),
    );
    assert_eq!(pipeline.validate(), Ok(DataType::Char));

    let source = uniform_grey(16, 16, 128);
    let outputs = pipeline.execute(&source, &TestProcessor).unwrap();
    assert_eq!(outputs.len(), 1);
    match &outputs[0] {
        LayerOutput::Char(grid) => {
            assert_eq!(grid.width, 4);
            assert_eq!(grid.height, 4);
            // luminance of grey 128 is 128; 128 / 26 quantises to level 4.
            let expected = LuminanceAsciiFilter::create().chars[4];
            assert!(grid.data.iter().all(|c| *c == expected));
        }
        other => panic!("expected a char grid, got {:?}", other.data_type()),
    }
}

#[test]
fn failing_validation_stops_execution_with_that_error() {
    // Layer 0 is fine; layer 1 is empty, so nothing must be produced.
    let pipeline = Pipeline::new()
        .add_layer(
            Layer::new().add_step(ProcessingStep::ToLuminance(LuminanceFilter::create())),
        )
        .add_layer(Layer::new());
    let source = uniform_grey(4, 4, 10);
    let err = pipeline.execute(&source, &TestProcessor).unwrap_err();
    assert_eq!(
        err,
        PipelineError {
            kind: PipelineErrorKind::EmptyLayer,
            location: PipelineLocation::Layer { layer: 1 },
        }
    );
}

#[test]
fn layers_see_only_the_source_bitmap() {
    // Two identical layers produce identical artifacts from the same source.
    let layer = || {
        Layer::new()
            .add_step(ProcessingStep::ToLuminance(LuminanceFilter::create()))
            .add_step(ProcessingStep::LumaToRgba)
    };
    let pipeline = Pipeline::new().add_layer(layer()).add_layer(layer());
    let source = uniform_grey(3, 2, 77);
    let outputs = pipeline.execute(&source, &TestProcessor).unwrap();
    assert_eq!(outputs.len(), 2);
    match (&outputs[0], &outputs[1]) {
        (LayerOutput::Rgba(a), LayerOutput::Rgba(b)) => assert_eq!(a, b),
        _ => panic!("expected raster artifacts"),
    }
}

#[test]
fn layer_execute_reports_shape_mismatch_defensively() {
    // A chain that starts from the luminance shape cannot run on a raster.
    let layer = Layer::new().add_step(ProcessingStep::LumaToRgba);
    let source = uniform_grey(2, 2, 5);
    let err = layer.execute(&TestProcessor, &source).unwrap_err();
    assert_eq!(
        err,
        (
            PipelineErrorKind::ExecutionMismatch {
                expected: DataType::LumaA,
                got: DataType::Rgba,
            },
            0,
        )
    );
}

#[test]
fn executed_artifacts_carry_the_validated_shape() {
    let pipeline = Pipeline::new().add_layer(
        Layer::new()
            .add_step(ProcessingStep::ToLuminance(LuminanceFilter::create()))
            .add_step(ProcessingStep::GaussianOnLuma(GaussianBuilder::create(500, 2250))),
    );
    assert_eq!(pipeline.validate(), Ok(DataType::LumaA));
    let source = uniform_grey(4, 4, 50);
    let outputs = pipeline.execute(&source, &TestProcessor).unwrap();
    assert_eq!(outputs.len(), 1);
    assert_eq!(outputs[0].data_type(), DataType::LumaA);
}
