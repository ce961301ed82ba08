use vstd::prelude::*;
use crate::framework::LoopModel;
use crate::pipeline::{
    Canvas, ColorBuffer, ColorWriteMask, DepthBuffer, DepthComparisonOperator, FaceCulling,
    PrimitiveType, Rect, Rgba, State, WindingOrder,
};

verus! {

/// Bit pattern of the single-precision float `0.0`.
pub const ZERO_BITS: u32 = 0x0000_0000;

/// Bit pattern of the single-precision float `1.0`.
pub const ONE_BITS: u32 = 0x3F80_0000;

/// Bit pattern of the single-precision float `0.2`.
pub const BACKGROUND_RED_BITS: u32 = 0x3E4C_CCCD;

/// Bit pattern of the single-precision float `0.3`.
pub const BACKGROUND_GREEN_BITS: u32 = 0x3E99_999A;

/// Bit pattern of the single-precision float `0.3`.
pub const BACKGROUND_BLUE_BITS: u32 = 0x3E99_999A;

/// The whole window as viewport, and as scissor rectangle.
pub open spec fn full_canvas(width: u32, height: u32) -> Canvas {
    let area = Rect { x: 0, y: 0, width: width as i32, height: height as i32 };
    Canvas { viewport_area: area, scissor_area: Some(area) }
}

pub open spec fn all_channels() -> ColorWriteMask {
    ColorWriteMask { red: true, green: true, blue: true, alpha: true }
}

pub open spec fn background() -> Rgba {
    Rgba {
        red: BACKGROUND_RED_BITS,
        green: BACKGROUND_GREEN_BITS,
        blue: BACKGROUND_BLUE_BITS,
        alpha: ONE_BITS,
    }
}

/// Depth test "less than" over the full range, writing depth, clearing to
/// `clear` first if given.
pub open spec fn scene_depth(clear: Option<u32>) -> DepthBuffer {
    DepthBuffer {
        clear,
        range: (ZERO_BITS, ONE_BITS),
        operator: DepthComparisonOperator::LessThan,
        write_mask: true,
        polygon_offset: None,
    }
}

/// A triangle draw over the whole window, with the given clears, writing all
/// colour channels and depth; no stencil, blending, culling or multisampling.
pub open spec fn scene_state<S, B, M>(
    width: u32,
    height: u32,
    color_clear: Option<Rgba>,
    depth_clear: Option<u32>,
) -> State<S, B, M> {
    State {
        canvas: full_canvas(width, height),
        color_buffer: ColorBuffer { clear: color_clear, write_mask: all_channels() },
        depth_buffer: Some(scene_depth(depth_clear)),
        stencil_buffer: None,
        blending: None,
        face_culling: FaceCulling {
            front_face_winding_order: WindingOrder::Clockwise,
            cull_face: None,
        },
        multisampling: None,
        primitive_type: PrimitiveType::Triangles,
    }
}

/// The first draw of a frame: clears colour to the background and depth to
/// `1.0`.
pub open spec fn floor_pass_state_spec<S, B, M>(width: u32, height: u32) -> State<S, B, M> {
    scene_state(width, height, Some(background()), Some(ONE_BITS))
}

/// A later draw of the same frame: clears nothing.
pub open spec fn perspective_pass_state_spec<S, B, M>(width: u32, height: u32) -> State<S, B, M> {
    scene_state(width, height, None, None)
}

fn scene_state_exec<S, B, M>(
    width: u32,
    height: u32,
    color_clear: Option<Rgba>,
    depth_clear: Option<u32>,
) -> (r: State<S, B, M>)
    ensures
        r == scene_state::<S, B, M>(width, height, color_clear, depth_clear),
        width <= i32::MAX && height <= i32::MAX ==> r.wf(),
{
    let area = Rect { x: 0, y: 0, width: width as i32, height: height as i32 };
    State {
        canvas: Canvas { viewport_area: area, scissor_area: Some(area) },
        color_buffer: ColorBuffer {
            clear: color_clear,
            write_mask: ColorWriteMask { red: true, green: true, blue: true, alpha: true },
        },
        depth_buffer: Some(
            DepthBuffer {
                clear: depth_clear,
                range: (ZERO_BITS, ONE_BITS),
                operator: DepthComparisonOperator::LessThan,
                write_mask: true,
                polygon_offset: None,
            },
        ),
        stencil_buffer: None,
        blending: None,
        face_culling: FaceCulling {
            front_face_winding_order: WindingOrder::Clockwise,
            cull_face: None,
        },
        multisampling: None,
        primitive_type: PrimitiveType::Triangles,
    }
}

/// The state of the frame's first draw, for a window of the given size.
pub fn floor_pass_state<S, B, M>(width: u32, height: u32) -> (r: State<S, B, M>)
    ensures
        r == floor_pass_state_spec::<S, B, M>(width, height),
        width <= i32::MAX && height <= i32::MAX ==> r.wf(),
{
    let color = Rgba {
        red: BACKGROUND_RED_BITS,
        green: BACKGROUND_GREEN_BITS,
        blue: BACKGROUND_BLUE_BITS,
        alpha: ONE_BITS,
    };
    scene_state_exec(width, height, Some(color), Some(ONE_BITS))
}

/// The state of the frame's second draw, for a window of the given size.
pub fn perspective_pass_state<S, B, M>(width: u32, height: u32) -> (r: State<S, B, M>)
    ensures
        r == perspective_pass_state_spec::<S, B, M>(width, height),
        width <= i32::MAX && height <= i32::MAX ==> r.wf(),
{
    scene_state_exec(width, height, None, None)
}

/// A frame's draw states are made fresh from the window size alone: two
/// loops that reached the same size, by whatever frames and whether or not
/// they still run, get equal states.
pub proof fn lemma_states_depend_on_size_only<S, B, M>(a: LoopModel, b: LoopModel)
    requires
        a.width == b.width,
        a.height == b.height,
    ensures
        floor_pass_state_spec::<S, B, M>(a.width, a.height) == floor_pass_state_spec::<S, B, M>(
            b.width,
            b.height,
        ),
        perspective_pass_state_spec::<S, B, M>(a.width, a.height)
            == perspective_pass_state_spec::<S, B, M>(b.width, b.height),
{
}

} // verus!
