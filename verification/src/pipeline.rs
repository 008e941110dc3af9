//! The pipeline's type system, validation and sequential execution.
//!
//! A [`Layer`] is an ordered chain of [`ProcessingStep`]s; a [`Pipeline`] is
//! an ordered collection of layers. Every step carries a fixed
//! (input, output) [`DataType`] signature, so a pipeline can be validated
//! before any pixel work runs: each layer must start from the raster shape,
//! adjacent steps must agree, and all layers must end in one common shape.
//! Validation reports the first offending element; execution threads the
//! source bitmap through each layer's steps via a capability provider.

use vstd::prelude::*;

use crate::artifact::{CharImage, LumaAImage, RgbaImage};
use crate::filters::{LuminanceAsciiFilter, LuminanceFilter, SobelAscii, SobelColorData};
use crate::gaussians::{GaussianBuilder, GaussianColorData};
use crate::provider::VisustaProcessor;

verus! {

/// The closed set of shapes an artifact flowing through a pipeline may have.
#[derive(Debug, Clone, Copy, PartialEq, Eq, Structural)]
pub enum DataType {
    Rgba,
    LumaA,
    Char,
}

/// A validation or execution failure, with the exact element it occurred at.
#[derive(Debug, Clone, Copy, PartialEq, Eq, Structural)]
pub struct PipelineError {
    pub kind: PipelineErrorKind,
    pub location: PipelineLocation,
}

#[derive(Debug, Clone, Copy, PartialEq, Eq, Structural)]
pub enum PipelineErrorKind {
    /// During validation, a step's input shape disagreed with what the
    /// chain produces at that point.
    TypeMismatch { expected: DataType, got: DataType },
    /// A layer's final shape disagreed with the shape the first layer set.
    LayerOutputMismatch { expected: DataType, got: DataType },
    /// During execution, an artifact did not have the shape the next step
    /// requires. Unreachable after successful validation, but checked as a
    /// runtime safety net rather than assumed away.
    ExecutionMismatch { expected: DataType, got: DataType },
    EmptyLayer,
    EmptyPipeline,
}

/// Which element of the pipeline an error points at: always the first
/// offending one, never an aggregate.
#[derive(Debug, Clone, Copy, PartialEq, Eq, Structural)]
pub enum PipelineLocation {
    Pipeline,
    Layer { layer: usize },
    Step { layer: usize, step: usize },
}

/// One typed operation: a variant tag, its parameter payload, and a fixed
/// (input, output) shape signature known without running anything.
#[derive(Debug, Clone, Copy)]
pub enum ProcessingStep {
    ToLuminance(LuminanceFilter),
    LumaToRgba,
    SobelToColour(SobelColorData),
    GaussianToColoured(GaussianBuilder, GaussianColorData),
    GaussianOnLuma(GaussianBuilder),
    LuminanceToAscii(LuminanceAsciiFilter),
    SobelAsciiDirectional(SobelAscii),
}

impl ProcessingStep {
    /// The shape this step consumes; a pure function of the variant tag.
    pub open spec fn input_type(&self) -> DataType {
        match self {
            ProcessingStep::ToLuminance(_) => DataType::Rgba,
            ProcessingStep::LumaToRgba => DataType::LumaA,
            ProcessingStep::SobelToColour(_) => DataType::LumaA,
            ProcessingStep::GaussianToColoured(_, _) => DataType::LumaA,
            ProcessingStep::GaussianOnLuma(_) => DataType::LumaA,
            ProcessingStep::LuminanceToAscii(_) => DataType::LumaA,
            ProcessingStep::SobelAsciiDirectional(_) => DataType::LumaA,
        }
    }

    /// The shape this step produces; a pure function of the variant tag.
    pub open spec fn output_type(&self) -> DataType {
        match self {
            ProcessingStep::ToLuminance(_) => DataType::LumaA,
            ProcessingStep::LumaToRgba => DataType::Rgba,
            ProcessingStep::SobelToColour(_) => DataType::Rgba,
            ProcessingStep::GaussianToColoured(_, _) => DataType::Rgba,
            ProcessingStep::GaussianOnLuma(_) => DataType::LumaA,
            ProcessingStep::LuminanceToAscii(_) => DataType::Char,
            ProcessingStep::SobelAsciiDirectional(_) => DataType::Char,
        }
    }

    /// The fixed (input, output) shape pair of this step.
    pub fn signature(&self) -> (r: (DataType, DataType))
        ensures
            r.0 == self.input_type(),
            r.1 == self.output_type(),
    {
        match self {
            ProcessingStep::ToLuminance(_) => (DataType::Rgba, DataType::LumaA),
            ProcessingStep::LumaToRgba => (DataType::LumaA, DataType::Rgba),
            ProcessingStep::SobelToColour(_) => (DataType::LumaA, DataType::Rgba),
            ProcessingStep::GaussianToColoured(_, _) => (DataType::LumaA, DataType::Rgba),
            ProcessingStep::GaussianOnLuma(_) => (DataType::LumaA, DataType::LumaA),
            ProcessingStep::LuminanceToAscii(_) => (DataType::LumaA, DataType::Char),
            ProcessingStep::SobelAsciiDirectional(_) => (DataType::LumaA, DataType::Char),
        }
    }

    /// Run this step on `input` through the provider. Fails defensively with
    /// `ExecutionMismatch` when the artifact does not have the shape the
    /// step requires; succeeds with an artifact of the declared output shape
    /// otherwise.
    fn execute<P: VisustaProcessor>(&self, input: LayerOutput, processor: &P) -> (r: Result<
        LayerOutput,
        PipelineErrorKind,
    >)
        requires
            input.wf(),
        ensures
            input.spec_data_type() == self.input_type() ==> (r matches Ok(out) && out.wf()
                && out.spec_data_type() == self.output_type()),
            input.spec_data_type() != self.input_type() ==> r == Err::<LayerOutput,
                PipelineErrorKind,
            >(PipelineErrorKind::ExecutionMismatch {
                expected: self.input_type(),
                got: input.spec_data_type(),
            }),
    {
        match self {
            ProcessingStep::ToLuminance(filter) => match input.into_rgba() {
                Ok(img) => Ok(LayerOutput::LumaA(processor.rgba_to_luma_a(&img, *filter))),
                Err(e) => Err(e),
            },
            ProcessingStep::LumaToRgba => match input.into_luma() {
                Ok(img) => Ok(LayerOutput::Rgba(processor.luma_to_rgba(&img))),
                Err(e) => Err(e),
            },
            ProcessingStep::SobelToColour(filter) => match input.into_luma() {
                Ok(img) => Ok(LayerOutput::Rgba(processor.sobel_to_colour(&img, *filter))),
                Err(e) => Err(e),
            },
            ProcessingStep::GaussianToColoured(builder, filter) => match input.into_luma() {
                Ok(img) => Ok(
                    LayerOutput::Rgba(processor.gaussian_to_coloured(&img, *builder, *filter)),
                ),
                Err(e) => Err(e),
            },
            ProcessingStep::GaussianOnLuma(builder) => match input.into_luma() {
                Ok(img) => Ok(LayerOutput::LumaA(processor.gaussian_on_luma(&img, *builder))),
                Err(e) => Err(e),
            },
            ProcessingStep::LuminanceToAscii(filter) => match input.into_luma() {
                Ok(img) => Ok(LayerOutput::Char(processor.luminance_to_ascii(&img, *filter))),
                Err(e) => Err(e),
            },
            ProcessingStep::SobelAsciiDirectional(filter) => match input.into_luma() {
                Ok(img) => Ok(
                    LayerOutput::Char(processor.sobel_ascii_directional(&img, *filter)),
                ),
                Err(e) => Err(e),
            },
        }
    }
}

/// The artifact a layer (or a step within it) produced, tagged by shape.
#[derive(Debug)]
pub enum LayerOutput {
    Rgba(RgbaImage),
    LumaA(LumaAImage),
    Char(CharImage),
}

impl LayerOutput {
    /// The shape of the payload.
    pub open spec fn spec_data_type(&self) -> DataType {
        match self {
            LayerOutput::Rgba(_) => DataType::Rgba,
            LayerOutput::LumaA(_) => DataType::LumaA,
            LayerOutput::Char(_) => DataType::Char,
        }
    }

    /// The payload's buffer is sized to its dimensions.
    pub open spec fn wf(&self) -> bool {
        match self {
            LayerOutput::Rgba(img) => img.wf(),
            LayerOutput::LumaA(img) => img.wf(),
            LayerOutput::Char(img) => img.wf(),
        }
    }

    pub fn data_type(&self) -> (r: DataType)
        ensures
            r == self.spec_data_type(),
    {
        match self {
            LayerOutput::Rgba(_) => DataType::Rgba,
            LayerOutput::LumaA(_) => DataType::LumaA,
            LayerOutput::Char(_) => DataType::Char,
        }
    }

    /// Unwrap a raster artifact, or report the shape actually found.
    pub fn into_rgba(self) -> (r: Result<RgbaImage, PipelineErrorKind>)
        ensures
            self matches LayerOutput::Rgba(img) ==> r == Ok::<RgbaImage, PipelineErrorKind>(img),
            !(self is Rgba) ==> r == Err::<RgbaImage, PipelineErrorKind>(
                PipelineErrorKind::ExecutionMismatch {
                    expected: DataType::Rgba,
                    got: self.spec_data_type(),
                },
            ),
    {
        match self {
            LayerOutput::Rgba(img) => Ok(img),
            _ => Err(PipelineErrorKind::ExecutionMismatch {
                expected: DataType::Rgba,
                got: self.data_type(),
            }),
        }
    }

    /// Unwrap a luminance artifact, or report the shape actually found.
    pub fn into_luma(self) -> (r: Result<LumaAImage, PipelineErrorKind>)
        ensures
            self matches LayerOutput::LumaA(img) ==> r == Ok::<LumaAImage, PipelineErrorKind>(img),
            !(self is LumaA) ==> r == Err::<LumaAImage, PipelineErrorKind>(
                PipelineErrorKind::ExecutionMismatch {
                    expected: DataType::LumaA,
                    got: self.spec_data_type(),
                },
            ),
    {
        match self {
            LayerOutput::LumaA(img) => Ok(img),
            _ => Err(PipelineErrorKind::ExecutionMismatch {
                expected: DataType::LumaA,
                got: self.data_type(),
            }),
        }
    }

    /// Unwrap a character-grid artifact, or report the shape actually found.
    pub fn into_char(self) -> (r: Result<CharImage, PipelineErrorKind>)
        ensures
            self matches LayerOutput::Char(img) ==> r == Ok::<CharImage, PipelineErrorKind>(img),
            !(self is Char) ==> r == Err::<CharImage, PipelineErrorKind>(
                PipelineErrorKind::ExecutionMismatch {
                    expected: DataType::Char,
                    got: self.spec_data_type(),
                },
            ),
    {
        match self {
            LayerOutput::Char(img) => Ok(img),
            _ => Err(PipelineErrorKind::ExecutionMismatch {
                expected: DataType::Char,
                got: self.data_type(),
            }),
        }
    }
}

/// Walks the chain's shapes from step `i` with current shape `cur`.
/// Succeeds with the final shape, or stops at the first step whose declared
/// input disagrees, reporting `(step index, step's input, current shape)`.
pub open spec fn type_walk(steps: Seq<ProcessingStep>, i: int, cur: DataType) -> Result<
    DataType,
    (int, DataType, DataType),
>
    decreases steps.len() - i,
{
    if i >= steps.len() {
        Ok(cur)
    } else if steps[i].input_type() != cur {
        Err((i, steps[i].input_type(), cur))
    } else {
        type_walk(steps, i + 1, steps[i].output_type())
    }
}

/// The adjacent pair ending at step `j` agrees: step `j`'s declared input
/// is what its predecessor produces.
pub open spec fn link_ok(steps: Seq<ProcessingStep>, j: int) -> bool {
    steps[j].input_type() == steps[j - 1].output_type()
}

/// Every adjacent pair of steps agrees.
pub open spec fn adjacent_match(steps: Seq<ProcessingStep>) -> bool {
    forall|j: int| 0 < j < steps.len() ==> #[trigger] link_ok(steps, j)
}

/// What layer validation checks: a non-empty chain that starts from the
/// raster shape and whose adjacent steps agree.
pub open spec fn layer_valid(steps: Seq<ProcessingStep>) -> bool {
    &&& steps.len() > 0
    &&& steps[0].input_type() == DataType::Rgba
    &&& adjacent_match(steps)
}

/// The shape a non-empty chain ends in, re-derived from its last step.
pub open spec fn chain_output(steps: Seq<ProcessingStep>) -> DataType
    recommends
        steps.len() > 0,
{
    steps.last().output_type()
}

/// The exact validation outcome of one layer's chain, with `layer` as the
/// index the layer occupies in its pipeline.
pub open spec fn spec_layer_validate(steps: Seq<ProcessingStep>, layer: usize) -> Result<
    DataType,
    PipelineError,
> {
    if steps.len() == 0 {
        Err(
            PipelineError {
                kind: PipelineErrorKind::EmptyLayer,
                location: PipelineLocation::Layer { layer },
            },
        )
    } else if steps[0].input_type() != DataType::Rgba {
        Err(
            PipelineError {
                kind: PipelineErrorKind::TypeMismatch {
                    expected: DataType::Rgba,
                    got: steps[0].input_type(),
                },
                location: PipelineLocation::Step { layer, step: 0 },
            },
        )
    } else {
        match type_walk(steps, 1, steps[0].output_type()) {
            Ok(out) => Ok(out),
            Err((i, step_in, cur)) => Err(
                PipelineError {
                    kind: PipelineErrorKind::TypeMismatch { expected: cur, got: step_in },
                    location: PipelineLocation::Step { layer, step: i as usize },
                },
            ),
        }
    }
}

/// If every remaining adjacent pair agrees, the walk runs to the end and
/// yields the last step's output shape.
proof fn lemma_type_walk_ok(steps: Seq<ProcessingStep>, i: int)
    requires
        0 < i <= steps.len(),
        forall|j: int| i <= j < steps.len() ==> #[trigger] link_ok(steps, j),
    ensures
        type_walk(steps, i, steps[i - 1].output_type()) == Ok::<
            DataType,
            (int, DataType, DataType),
        >(steps.last().output_type()),
    decreases steps.len() - i,
{
    if i < steps.len() {
        assert(link_ok(steps, i));
        lemma_type_walk_ok(steps, i + 1);
    }
}

/// If the walk runs to the end, every remaining adjacent pair agrees.
proof fn lemma_type_walk_ok_links(steps: Seq<ProcessingStep>, i: int)
    requires
        0 < i <= steps.len(),
        type_walk(steps, i, steps[i - 1].output_type()) is Ok,
    ensures
        forall|j: int| i <= j < steps.len() ==> #[trigger] link_ok(steps, j),
    decreases steps.len() - i,
{
    if i < steps.len() {
        assert(link_ok(steps, i));
        lemma_type_walk_ok_links(steps, i + 1);
    }
}

/// The walk stops exactly at the first adjacent pair that disagrees,
/// reporting that step's declared input against the shape actually reached.
proof fn lemma_type_walk_err(steps: Seq<ProcessingStep>, i: int, k: int)
    requires
        0 < i <= k < steps.len(),
        !link_ok(steps, k),
        forall|j: int| i <= j < k ==> #[trigger] link_ok(steps, j),
    ensures
        type_walk(steps, i, steps[i - 1].output_type()) == Err::<
            DataType,
            (int, DataType, DataType),
        >((k, steps[k].input_type(), steps[k - 1].output_type())),
    decreases k - i,
{
    if i < k {
        assert(link_ok(steps, i));
        lemma_type_walk_err(steps, i + 1, k);
    }
}

/// A layer validates successfully exactly when it is non-empty, starts
/// from the raster shape, and every adjacent step pair agrees; on success
/// the result is the chain's final shape, and on failure the first
/// offending element is the one reported.
pub proof fn lemma_layer_validation_complete(steps: Seq<ProcessingStep>, layer: usize)
    ensures
        (spec_layer_validate(steps, layer) is Ok) <==> layer_valid(steps),
        layer_valid(steps) ==> spec_layer_validate(steps, layer) == Ok::<DataType, PipelineError>(
            chain_output(steps),
        ),
        steps.len() == 0 ==> spec_layer_validate(steps, layer) == Err::<DataType, PipelineError>(
            PipelineError {
                kind: PipelineErrorKind::EmptyLayer,
                location: PipelineLocation::Layer { layer },
            },
        ),
        steps.len() > 0 && steps[0].input_type() != DataType::Rgba ==> spec_layer_validate(
            steps,
            layer,
        ) == Err::<DataType, PipelineError>(
            PipelineError {
                kind: PipelineErrorKind::TypeMismatch {
                    expected: DataType::Rgba,
                    got: steps[0].input_type(),
                },
                location: PipelineLocation::Step { layer, step: 0 },
            },
        ),
        forall|k: int|
            0 < k < steps.len() && steps[0].input_type() == DataType::Rgba && !(#[trigger] link_ok(
                steps,
                k,
            )) && (forall|j: int| 0 < j < k ==> #[trigger] link_ok(steps, j))
                ==> spec_layer_validate(steps, layer) == Err::<DataType, PipelineError>(
                PipelineError {
                    kind: PipelineErrorKind::TypeMismatch {
                        expected: steps[k - 1].output_type(),
                        got: steps[k].input_type(),
                    },
                    location: PipelineLocation::Step { layer, step: k as usize },
                },
            ),
{
    if steps.len() > 0 && steps[0].input_type() == DataType::Rgba {
        if adjacent_match(steps) {
            lemma_type_walk_ok(steps, 1);
        }
        if type_walk(steps, 1, steps[0].output_type()) is Ok {
            lemma_type_walk_ok_links(steps, 1);
        }
        assert forall|k: int|
            0 < k < steps.len() && !(#[trigger] link_ok(steps, k)) && (forall|j: int|
                0 < j < k ==> #[trigger] link_ok(steps, j)) implies spec_layer_validate(
            steps,
            layer,
        ) == Err::<DataType, PipelineError>(
            PipelineError {
                kind: PipelineErrorKind::TypeMismatch {
                    expected: steps[k - 1].output_type(),
                    got: steps[k].input_type(),
                },
                location: PipelineLocation::Step { layer, step: k as usize },
            },
        ) by {
            lemma_type_walk_err(steps, 1, k);
        }
    }
}

/// One independent transformation chain, evaluated against the unmodified
/// source bitmap. The `output_type` field caches the declared output shape
/// as steps are appended; validation never trusts it and always re-derives
/// the shape from a full walk.
#[derive(Debug, Clone)]
pub struct Layer {
    pub steps: Vec<ProcessingStep>,
    pub output_type: DataType,
}

impl View for Layer {
    type V = Seq<ProcessingStep>;

    open spec fn view(&self) -> Seq<ProcessingStep> {
        self.steps@
    }
}

impl Layer {
    /// The cached declared output shape agrees with the chain.
    pub open spec fn wf(&self) -> bool {
        self.output_type == if self@.len() == 0 {
            DataType::Rgba
        } else {
            chain_output(self@)
        }
    }

    pub fn new() -> (r: Self)
        ensures
            r@.len() == 0,
            r.wf(),
    {
        Layer { steps: Vec::new(), output_type: DataType::Rgba }
    }

    /// Append one step and recompute the declared output shape.
    pub fn add_step(self, step: ProcessingStep) -> (r: Self)
        ensures
            r@ == self@.push(step),
            r.wf(),
    {
        let (_, res_type) = step.signature();
        let mut steps = self.steps;
        steps.push(step);
        Layer { steps, output_type: res_type }
    }

    /// Check this layer's chain, reporting errors at index `self_idx`.
    /// Returns the chain's final shape, re-derived by a full walk.
    pub fn validate(&self, self_idx: usize) -> (r: Result<DataType, PipelineError>)
        ensures
            r == spec_layer_validate(self@, self_idx),
    {
        if self.steps.len() == 0 {
            return Err(
                PipelineError {
                    kind: PipelineErrorKind::EmptyLayer,
                    location: PipelineLocation::Layer { layer: self_idx },
                },
            );
        }
        let (first_in, first_out) = self.steps[0].signature();
        if first_in != DataType::Rgba {
            return Err(
                PipelineError {
                    kind: PipelineErrorKind::TypeMismatch {
                        expected: DataType::Rgba,
                        got: first_in,
                    },
                    location: PipelineLocation::Step { layer: self_idx, step: 0 },
                },
            );
        }
        let mut out = first_out;
        let mut step: usize = 1;
        while step < self.steps.len()
            invariant
                1 <= step <= self@.len(),
                spec_layer_validate(self@, self_idx) == (match type_walk(
                    self@,
                    step as int,
                    out,
                ) {
                    Ok(o) => Ok::<DataType, PipelineError>(o),
                    Err((i, step_in, cur)) => Err(
                        PipelineError {
                            kind: PipelineErrorKind::TypeMismatch { expected: cur, got: step_in },
                            location: PipelineLocation::Step { layer: self_idx, step: i as usize },
                        },
                    ),
                }),
            decreases self@.len() - step,
        {
            let (next_in, next_out) = self.steps[step].signature();
            if out != next_in {
                return Err(
                    PipelineError {
                        kind: PipelineErrorKind::TypeMismatch { expected: out, got: next_in },
                        location: PipelineLocation::Step { layer: self_idx, step },
                    },
                );
            }
            out = next_out;
            step = step + 1;
        }
        Ok(out)
    }

    /// Seed the chain with the source bitmap and thread it through every
    /// step in order. Succeeds with the final artifact whenever the chain's
    /// shapes line up from the raster shape; otherwise stops at the first
    /// step whose required shape is not met, reporting that step's index.
    pub fn execute<P: VisustaProcessor>(&self, processor: &P, img: &RgbaImage) -> (r: Result<
        LayerOutput,
        (PipelineErrorKind, usize),
    >)
        requires
            img.wf(),
        ensures
            match type_walk(self@, 0, DataType::Rgba) {
                Ok(t) => (r matches Ok(out) && out.wf() && out.spec_data_type() == t),
                Err((k, step_in, cur)) => r == Err::<LayerOutput, (PipelineErrorKind, usize)>(
                    (
                        PipelineErrorKind::ExecutionMismatch { expected: step_in, got: cur },
                        k as usize,
                    ),
                ),
            },
    {
        let mut current = LayerOutput::Rgba(img.clone());
        let mut step_index: usize = 0;
        while step_index < self.steps.len()
            invariant
                step_index <= self@.len(),
                current.wf(),
                type_walk(self@, 0, DataType::Rgba) == type_walk(
                    self@,
                    step_index as int,
                    current.spec_data_type(),
                ),
            decreases self@.len() - step_index,
        {
            match self.steps[step_index].execute(current, processor) {
                Ok(next) => {
                    current = next;
                },
                Err(kind) => {
                    return Err((kind, step_index));
                },
            }
            step_index = step_index + 1;
        }
        Ok(current)
    }
}

/// If a chain passes validation, executing it can never meet a shape
/// mismatch: the walk from the raster shape succeeds and ends in the
/// chain's declared output shape. An empty chain trivially keeps the
/// raster shape.
pub proof fn lemma_valid_layer_executes(steps: Seq<ProcessingStep>)
    ensures
        layer_valid(steps) ==> type_walk(steps, 0, DataType::Rgba) == Ok::<
            DataType,
            (int, DataType, DataType),
        >(chain_output(steps)),
        steps.len() == 0 ==> type_walk(steps, 0, DataType::Rgba) == Ok::<
            DataType,
            (int, DataType, DataType),
        >(DataType::Rgba),
{
    if layer_valid(steps) {
        lemma_type_walk_ok(steps, 1);
    }
}

/// The exact validation outcome of the layers after the first, each against
/// the expected shape the first layer set.
pub open spec fn pipeline_walk(layers: Seq<Layer>, i: int, expected: DataType) -> Result<
    DataType,
    PipelineError,
>
    decreases layers.len() - i,
{
    if i >= layers.len() {
        Ok(expected)
    } else {
        match spec_layer_validate(layers[i]@, i as usize) {
            Err(e) => Err(e),
            Ok(out) => if out != expected {
                Err(
                    PipelineError {
                        kind: PipelineErrorKind::LayerOutputMismatch { expected, got: out },
                        location: PipelineLocation::Layer { layer: i as usize },
                    },
                )
            } else {
                pipeline_walk(layers, i + 1, expected)
            },
        }
    }
}

/// The exact validation outcome of a whole pipeline.
pub open spec fn spec_pipeline_validate(layers: Seq<Layer>) -> Result<DataType, PipelineError> {
    if layers.len() == 0 {
        Err(
            PipelineError {
                kind: PipelineErrorKind::EmptyPipeline,
                location: PipelineLocation::Pipeline,
            },
        )
    } else {
        match spec_layer_validate(layers[0]@, 0) {
            Err(e) => Err(e),
            Ok(expected) => pipeline_walk(layers, 1, expected),
        }
    }
}

/// What pipeline validation checks: at least one layer, every layer valid
/// on its own, and every layer ending in the first layer's shape.
pub open spec fn pipeline_valid(layers: Seq<Layer>) -> bool {
    &&& layers.len() > 0
    &&& forall|i: int| 0 <= i < layers.len() ==> layer_valid(#[trigger] layers[i]@)
    &&& forall|i: int|
        0 <= i < layers.len() ==> chain_output(#[trigger] layers[i]@) == chain_output(layers[0]@)
}

/// An ordered collection of layers, validated to converge on one shape and
/// executed to produce one artifact per layer.
#[derive(Debug, Clone)]
pub struct Pipeline {
    pub layers: Vec<Layer>,
}

impl View for Pipeline {
    type V = Seq<Layer>;

    open spec fn view(&self) -> Seq<Layer> {
        self.layers@
    }
}

impl Default for Pipeline {
    fn default() -> (r: Self)
        ensures
            r@.len() == 0,
    {
        Pipeline { layers: Vec::new() }
    }
}

impl Pipeline {
    pub fn new() -> (r: Self)
        ensures
            r@.len() == 0,
    {
        Pipeline { layers: Vec::new() }
    }

    pub fn add_layer(self, layer: Layer) -> (r: Self)
        ensures
            r@ == self@.push(layer),
    {
        let mut layers = self.layers;
        layers.push(layer);
        Pipeline { layers }
    }

    /// Check the whole pipeline: fails on an empty pipeline, on the first
    /// invalid layer, or on the first layer whose shape disagrees with the
    /// shape layer 0 set. Pure: the result depends on the pipeline value
    /// alone, so repeated calls return identical results.
    pub fn validate(&self) -> (r: Result<DataType, PipelineError>)
        ensures
            r == spec_pipeline_validate(self@),
    {
        if self.layers.len() == 0 {
            return Err(
                PipelineError {
                    kind: PipelineErrorKind::EmptyPipeline,
                    location: PipelineLocation::Pipeline,
                },
            );
        }
        let expected_out = match self.layers[0].validate(0) {
            Ok(out) => out,
            Err(e) => {
                return Err(e);
            },
        };
        let mut layer_idx: usize = 1;
        while layer_idx < self.layers.len()
            invariant
                1 <= layer_idx <= self@.len(),
                spec_pipeline_validate(self@) == pipeline_walk(
                    self@,
                    layer_idx as int,
                    expected_out,
                ),
            decreases self@.len() - layer_idx,
        {
            let out = match self.layers[layer_idx].validate(layer_idx) {
                Ok(out) => out,
                Err(e) => {
                    return Err(e);
                },
            };
            if expected_out != out {
                return Err(
                    PipelineError {
                        kind: PipelineErrorKind::LayerOutputMismatch {
                            expected: expected_out,
                            got: out,
                        },
                        location: PipelineLocation::Layer { layer: layer_idx },
                    },
                );
            }
            layer_idx = layer_idx + 1;
        }
        Ok(expected_out)
    }

    /// Re-validate, then execute every layer against the same unmodified
    /// source bitmap and collect one artifact per layer, in layer order.
    /// If validation fails, its error is returned and no artifact list is
    /// produced; a validated pipeline always executes completely, every
    /// artifact carrying the validated shape.
    pub fn execute<P: VisustaProcessor>(&self, img: &RgbaImage, processor: &P) -> (r: Result<
        Vec<LayerOutput>,
        PipelineError,
    >)
        requires
            img.wf(),
        ensures
            spec_pipeline_validate(self@) matches Err(e) ==> (r == Err::<
                Vec<LayerOutput>,
                PipelineError,
            >(e)),
            spec_pipeline_validate(self@) matches Ok(shape) ==> (r matches Ok(outputs)
                && outputs@.len() == self@.len() && forall|i: int|
                    0 <= i < outputs@.len() ==> (#[trigger] outputs@[i]).wf()
                        && outputs@[i].spec_data_type() == shape),
    {
        let shape = match self.validate() {
            Ok(shape) => shape,
            Err(e) => {
                return Err(e);
            },
        };
        proof {
            lemma_pipeline_validation_complete(self@);
        }
        let mut outputs: Vec<LayerOutput> = Vec::new();
        let mut layer_index: usize = 0;
        while layer_index < self.layers.len()
            invariant
                layer_index <= self@.len(),
                img.wf(),
                pipeline_valid(self@),
                spec_pipeline_validate(self@) == Ok::<DataType, PipelineError>(shape),
                outputs@.len() == layer_index,
                forall|i: int|
                    0 <= i < outputs@.len() ==> (#[trigger] outputs@[i]).wf()
                        && outputs@[i].spec_data_type() == shape,
            decreases self@.len() - layer_index,
        {
            proof {
                lemma_pipeline_validation_complete(self@);
                lemma_valid_layer_executes(self@[layer_index as int]@);
            }
            match self.layers[layer_index].execute(processor, img) {
                Ok(out) => {
                    outputs.push(out);
                },
                Err(e) => {
                    // Unreachable: the lemmas above show a validated
                    // layer's execution cannot meet a shape mismatch.
                    proof {
                        assert(false);
                    }
                    return Err(
                        PipelineError {
                            kind: e.0,
                            location: PipelineLocation::Step { layer: layer_index, step: e.1 },
                        },
                    );
                },
            }
            layer_index = layer_index + 1;
        }
        Ok(outputs)
    }
}

/// If every layer from `i` on is valid and ends in `expected`, the walk
/// accepts.
proof fn lemma_pipeline_walk_ok(layers: Seq<Layer>, i: int, expected: DataType)
    requires
        0 < i <= layers.len(),
        forall|j: int|
            i <= j < layers.len() ==> layer_valid(#[trigger] layers[j]@) && chain_output(
                layers[j]@,
            ) == expected,
    ensures
        pipeline_walk(layers, i, expected) == Ok::<DataType, PipelineError>(expected),
    decreases layers.len() - i,
{
    if i < layers.len() {
        lemma_layer_validation_complete(layers[i]@, i as usize);
        lemma_pipeline_walk_ok(layers, i + 1, expected);
    }
}

/// If the walk accepts, every layer from `i` on is valid and ends in
/// `expected`.
proof fn lemma_pipeline_walk_ok_layers(layers: Seq<Layer>, i: int, expected: DataType)
    requires
        0 < i <= layers.len(),
        pipeline_walk(layers, i, expected) is Ok,
    ensures
        forall|j: int|
            i <= j < layers.len() ==> layer_valid(#[trigger] layers[j]@) && chain_output(
                layers[j]@,
            ) == expected,
    decreases layers.len() - i,
{
    if i < layers.len() {
        lemma_layer_validation_complete(layers[i]@, i as usize);
        lemma_pipeline_walk_ok_layers(layers, i + 1, expected);
    }
}

/// The walk stops exactly at the first offending layer: an invalid layer's
/// own error is passed through, a diverging shape becomes a
/// `LayerOutputMismatch` at that layer.
proof fn lemma_pipeline_walk_err(layers: Seq<Layer>, i: int, k: int, expected: DataType)
    requires
        0 < i <= k < layers.len(),
        !(layer_valid(layers[k]@) && chain_output(layers[k]@) == expected),
        forall|j: int|
            i <= j < k ==> layer_valid(#[trigger] layers[j]@) && chain_output(layers[j]@)
                == expected,
    ensures
        !layer_valid(layers[k]@) ==> pipeline_walk(layers, i, expected) == spec_layer_validate(
            layers[k]@,
            k as usize,
        ),
        layer_valid(layers[k]@) && chain_output(layers[k]@) != expected ==> pipeline_walk(
            layers,
            i,
            expected,
        ) == Err::<DataType, PipelineError>(
            PipelineError {
                kind: PipelineErrorKind::LayerOutputMismatch {
                    expected,
                    got: chain_output(layers[k]@),
                },
                location: PipelineLocation::Layer { layer: k as usize },
            },
        ),
    decreases k - i,
{
    lemma_layer_validation_complete(layers[k]@, k as usize);
    if i < k {
        lemma_layer_validation_complete(layers[i]@, i as usize);
        lemma_pipeline_walk_err(layers, i + 1, k, expected);
    }
}

/// A pipeline validates successfully exactly when it is non-empty, every
/// layer validates, and all layers' output shapes agree; on success the
/// result is the common shape, and an empty pipeline is rejected at the
/// pipeline itself.
pub proof fn lemma_pipeline_validation_complete(layers: Seq<Layer>)
    ensures
        (spec_pipeline_validate(layers) is Ok) <==> pipeline_valid(layers),
        pipeline_valid(layers) ==> spec_pipeline_validate(layers) == Ok::<DataType, PipelineError>(
            chain_output(layers[0]@),
        ),
        layers.len() == 0 ==> spec_pipeline_validate(layers) == Err::<DataType, PipelineError>(
            PipelineError {
                kind: PipelineErrorKind::EmptyPipeline,
                location: PipelineLocation::Pipeline,
            },
        ),
{
    if layers.len() > 0 {
        lemma_layer_validation_complete(layers[0]@, 0);
        if layer_valid(layers[0]@) {
            let expected = chain_output(layers[0]@);
            if pipeline_valid(layers) {
                lemma_pipeline_walk_ok(layers, 1, expected);
            }
            if pipeline_walk(layers, 1, expected) is Ok {
                lemma_pipeline_walk_ok_layers(layers, 1, expected);
            }
        }
    }
}

/// If layer `j` is the first that fails its own validation, while every
/// earlier layer validates to the expected shape, the pipeline reports
/// layer `j`'s own error unchanged.
pub proof fn lemma_pipeline_first_invalid_layer(layers: Seq<Layer>, j: int)
    requires
        0 <= j < layers.len(),
        !layer_valid(layers[j]@),
        forall|i: int|
            0 <= i < j ==> layer_valid(#[trigger] layers[i]@) && chain_output(layers[i]@)
                == chain_output(layers[0]@),
    ensures
        spec_pipeline_validate(layers) == spec_layer_validate(layers[j]@, j as usize),
{
    lemma_layer_validation_complete(layers[0]@, 0);
    if j > 0 {
        assert(layer_valid(layers[0]@));
        lemma_pipeline_walk_err(layers, 1, j, chain_output(layers[0]@));
    }
}

/// If layer `j` is the first whose output shape disagrees with the shape
/// layer 0 set, while every earlier layer validates to that shape, the
/// pipeline reports a `LayerOutputMismatch` at layer `j`.
pub proof fn lemma_pipeline_first_shape_mismatch(layers: Seq<Layer>, j: int)
    requires
        0 < j < layers.len(),
        layer_valid(layers[j]@),
        chain_output(layers[j]@) != chain_output(layers[0]@),
        forall|i: int|
            0 <= i < j ==> layer_valid(#[trigger] layers[i]@) && chain_output(layers[i]@)
                == chain_output(layers[0]@),
    ensures
        spec_pipeline_validate(layers) == Err::<DataType, PipelineError>(
            PipelineError {
                kind: PipelineErrorKind::LayerOutputMismatch {
                    expected: chain_output(layers[0]@),
                    got: chain_output(layers[j]@),
                },
                location: PipelineLocation::Layer { layer: j as usize },
            },
        ),
{
    lemma_layer_validation_complete(layers[0]@, 0);
    assert(layer_valid(layers[0]@));
    lemma_pipeline_walk_err(layers, 1, j, chain_output(layers[0]@));
}

/// Validation is idempotent: it is a pure function of the pipeline value,
/// so any two validation results for the same pipeline are identical and
/// validating leaves no observable effect behind.
pub proof fn lemma_validation_idempotent(
    layers: Seq<Layer>,
    r1: Result<DataType, PipelineError>,
    r2: Result<DataType, PipelineError>,
)
    requires
        r1 == spec_pipeline_validate(layers),
        r2 == spec_pipeline_validate(layers),
    ensures
        r1 == r2,
{
}

} // verus!
