//! The built-in transformers, one per `$$type`.
pub mod background;
pub mod filter;
pub mod flex;
pub mod misc;
pub mod shadow;
pub mod size;
pub mod transform;

pub use background::{
    BackgroundColorOverlayTransformer, BackgroundGradientOverlayTransformer,
    BackgroundImageOverlaySizeScaleTransformer, BackgroundImageOverlayTransformer,
    BackgroundOverlayTransformer, BackgroundTransformer,
};
pub use filter::FilterTransformer;
pub use flex::FlexTransformer;
pub use misc::{
    ColorStopTransformer, FontFamilyTransformer, PassthroughTransformer,
    PerspectiveOriginTransformer, PositionTransformer, SpanTransformer, StrokeTransformer,
    TransitionTransformer,
};
pub use shadow::ShadowTransformer;
pub use size::{GridTrackSizeTransformer, SizeTransformer};
pub use transform::{
    TransformFunctionsTransformer, TransformMoveTransformer, TransformOriginTransformer,
    TransformRotateTransformer, TransformScaleTransformer, TransformSkewTransformer,
};
