use vstd::prelude::*;

verus! {

/// A rectangle in window pixels: origin, then size.
#[derive(Clone, Copy, Debug, PartialEq, Eq, Structural)]
pub struct Rect {
    pub x: i32,
    pub y: i32,
    pub width: i32,
    pub height: i32,
}

/// Where a draw lands: the viewport, and the scissor rectangle if any.
#[derive(Clone, Copy, Debug, PartialEq, Eq, Structural)]
pub struct Canvas {
    pub viewport_area: Rect,
    pub scissor_area: Option<Rect>,
}

impl Canvas {
    /// The viewport has no negative extent, and the scissor rectangle, when
    /// present, lies inside it.
    pub open spec fn wf(self) -> bool {
        let v = self.viewport_area;
        &&& v.width >= 0
        &&& v.height >= 0
        &&& match self.scissor_area {
            Some(s) => {
                &&& s.width >= 0
                &&& s.height >= 0
                &&& v.x <= s.x
                &&& v.y <= s.y
                &&& s.x + s.width <= v.x + v.width
                &&& s.y + s.height <= v.y + v.height
            },
            None => true,
        }
    }
}

/// Which colour channels a draw may modify.
#[derive(Clone, Copy, Debug, PartialEq, Eq, Structural)]
pub struct ColorWriteMask {
    pub red: bool,
    pub green: bool,
    pub blue: bool,
    pub alpha: bool,
}

/// A colour whose channels are single-precision floats, each held as its
/// IEEE 754 bit pattern.
#[derive(Clone, Copy, Debug, PartialEq, Eq, Structural)]
pub struct Rgba {
    pub red: u32,
    pub green: u32,
    pub blue: u32,
    pub alpha: u32,
}

#[derive(Clone, Copy, Debug, PartialEq, Eq, Structural)]
pub struct ColorBuffer {
    /// The colour to clear to before the draw, if any.
    pub clear: Option<Rgba>,
    pub write_mask: ColorWriteMask,
}

#[derive(Clone, Copy, Debug, PartialEq, Eq, Structural)]
pub enum DepthComparisonOperator {
    Never,
    LessThan,
    Equal,
    LessThanOrEqual,
    GreaterThan,
    NotEqual,
    GreaterThanOrEqual,
    Always,
}

/// Depth settings of a draw; the single-precision values are held as their
/// IEEE 754 bit patterns.
#[derive(Clone, Copy, Debug, PartialEq, Eq)]
pub struct DepthBuffer {
    /// The depth to clear to before the draw, if any.
    pub clear: Option<u32>,
    /// Near and far ends of the depth range.
    pub range: (u32, u32),
    pub operator: DepthComparisonOperator,
    pub write_mask: bool,
    /// Factor and units of the polygon offset, if any.
    pub polygon_offset: Option<(u32, u32)>,
}

#[derive(Clone, Copy, Debug, PartialEq, Eq, Structural)]
pub enum WindingOrder {
    Clockwise,
    CounterClockwise,
}

#[derive(Clone, Copy, Debug, PartialEq, Eq, Structural)]
pub enum CullFace {
    Front,
    Back,
    Both,
}

#[derive(Clone, Copy, Debug, PartialEq, Eq, Structural)]
pub struct FaceCulling {
    pub front_face_winding_order: WindingOrder,
    /// The faces to cull; culling is off when `None`.
    pub cull_face: Option<CullFace>,
}

#[derive(Clone, Copy, Debug, PartialEq, Eq, Structural)]
pub enum PrimitiveType {
    Points,
    Lines,
    LineStrip,
    LineLoop,
    Triangles,
    TriangleStrip,
    TriangleFan,
}

/// The complete fixed-function state of one draw call. Nothing carries over
/// from an earlier draw: what a field leaves out is switched off. The
/// stencil, blending and multisampling settings are passed through as they
/// are.
pub struct State<S, B, M> {
    pub canvas: Canvas,
    pub color_buffer: ColorBuffer,
    /// Depth testing is off for the draw when `None`.
    pub depth_buffer: Option<DepthBuffer>,
    pub stencil_buffer: Option<S>,
    pub blending: Option<B>,
    pub face_culling: FaceCulling,
    pub multisampling: Option<M>,
    pub primitive_type: PrimitiveType,
}

impl<S, B, M> State<S, B, M> {
    pub open spec fn wf(&self) -> bool {
        self.canvas.wf()
    }
}

/// One step of applying a `State` for a draw.
#[derive(Clone, Copy, Debug, PartialEq, Eq)]
pub enum GpuCommand {
    BindPass,
    Viewport(Rect),
    /// Scissor test on the rectangle, or off.
    Scissor(Option<Rect>),
    ColorMask(ColorWriteMask),
    ClearColor(Rgba),
    /// Depth test with the operator, or off.
    DepthTest(Option<DepthComparisonOperator>),
    DepthRange(u32, u32),
    DepthWrite(bool),
    PolygonOffset(Option<(u32, u32)>),
    ClearDepth(u32),
    /// Apply the descriptor's stencil settings, or switch stenciling off.
    Stencil(bool),
    /// Apply the descriptor's blending settings, or switch blending off.
    Blending(bool),
    FrontFace(WindingOrder),
    /// Cull the faces, or switch culling off.
    CullFace(Option<CullFace>),
    /// Apply the descriptor's multisampling settings, or switch it off.
    Multisampling(bool),
    Draw(PrimitiveType),
}

pub open spec fn color_commands(c: ColorBuffer) -> Seq<GpuCommand> {
    match c.clear {
        Some(rgba) => seq![GpuCommand::ColorMask(c.write_mask), GpuCommand::ClearColor(rgba)],
        None => seq![GpuCommand::ColorMask(c.write_mask)],
    }
}

pub open spec fn depth_commands(d: Option<DepthBuffer>) -> Seq<GpuCommand> {
    match d {
        Some(d) => {
            let set = seq![
                GpuCommand::DepthTest(Some(d.operator)),
                GpuCommand::DepthRange(d.range.0, d.range.1),
                GpuCommand::DepthWrite(d.write_mask),
                GpuCommand::PolygonOffset(d.polygon_offset),
            ];
            match d.clear {
                Some(v) => set.push(GpuCommand::ClearDepth(v)),
                None => set,
            }
        },
        None => seq![GpuCommand::DepthTest(None), GpuCommand::DepthWrite(false)],
    }
}

/// The order in which a draw applies its state: bind the pass, set the
/// canvas, then the colour buffer, the depth buffer (clears come after the
/// canvas and the write masks), stencil, blending, face culling and
/// multisampling, and draw last.
pub open spec fn plan<S, B, M>(s: State<S, B, M>) -> Seq<GpuCommand> {
    seq![
        GpuCommand::BindPass,
        GpuCommand::Viewport(s.canvas.viewport_area),
        GpuCommand::Scissor(s.canvas.scissor_area),
    ] + color_commands(s.color_buffer) + depth_commands(s.depth_buffer) + seq![
        GpuCommand::Stencil(s.stencil_buffer is Some),
        GpuCommand::Blending(s.blending is Some),
        GpuCommand::FrontFace(s.face_culling.front_face_winding_order),
        GpuCommand::CullFace(s.face_culling.cull_face),
        GpuCommand::Multisampling(s.multisampling is Some),
        GpuCommand::Draw(s.primitive_type),
    ]
}

fn push_color_commands(r: &mut Vec<GpuCommand>, c: &ColorBuffer)
    ensures
        final(r)@ == old(r)@ + color_commands(*c),
{
    r.push(GpuCommand::ColorMask(c.write_mask));
    match c.clear {
        Some(rgba) => r.push(GpuCommand::ClearColor(rgba)),
        None => {},
    }
    assert(r@ =~= old(r)@ + color_commands(*c));
}

fn push_depth_commands(r: &mut Vec<GpuCommand>, d: &Option<DepthBuffer>)
    ensures
        final(r)@ == old(r)@ + depth_commands(*d),
{
    match d {
        Some(d) => {
            r.push(GpuCommand::DepthTest(Some(d.operator)));
            r.push(GpuCommand::DepthRange(d.range.0, d.range.1));
            r.push(GpuCommand::DepthWrite(d.write_mask));
            r.push(GpuCommand::PolygonOffset(d.polygon_offset));
            match d.clear {
                Some(v) => r.push(GpuCommand::ClearDepth(v)),
                None => {},
            }
        },
        None => {
            r.push(GpuCommand::DepthTest(None));
            r.push(GpuCommand::DepthWrite(false));
        },
    }
    assert(r@ =~= old(r)@ + depth_commands(*d));
}

impl<S, B, M> State<S, B, M> {
    /// The commands that apply this state for one draw, in order.
    pub fn commands(&self) -> (r: Vec<GpuCommand>)
        ensures
            r@ == plan(*self),
    {
        let mut r: Vec<GpuCommand> = Vec::new();
        r.push(GpuCommand::BindPass);
        r.push(GpuCommand::Viewport(self.canvas.viewport_area));
        r.push(GpuCommand::Scissor(self.canvas.scissor_area));
        push_color_commands(&mut r, &self.color_buffer);
        push_depth_commands(&mut r, &self.depth_buffer);
        r.push(GpuCommand::Stencil(self.stencil_buffer.is_some()));
        r.push(GpuCommand::Blending(self.blending.is_some()));
        r.push(GpuCommand::FrontFace(self.face_culling.front_face_winding_order));
        r.push(GpuCommand::CullFace(self.face_culling.cull_face));
        r.push(GpuCommand::Multisampling(self.multisampling.is_some()));
        r.push(GpuCommand::Draw(self.primitive_type));
        assert(r@ =~= plan(*self));
        r
    }
}

/// The depth state of the device: the depth test's operator, or `None` when
/// the test is off, and whether draws write depth.
pub struct DepthState {
    pub test: Option<DepthComparisonOperator>,
    pub write: bool,
}

pub open spec fn apply_depth(g: DepthState, c: GpuCommand) -> DepthState {
    match c {
        GpuCommand::DepthTest(t) => DepthState { test: t, ..g },
        GpuCommand::DepthWrite(w) => DepthState { write: w, ..g },
        _ => g,
    }
}

/// The depth state after the commands, starting from `g`.
pub open spec fn depth_after(g: DepthState, cmds: Seq<GpuCommand>) -> DepthState
    decreases cmds.len(),
{
    if cmds.len() == 0 {
        g
    } else {
        apply_depth(depth_after(g, cmds.drop_last()), cmds.last())
    }
}

proof fn lemma_depth_after_append(g: DepthState, a: Seq<GpuCommand>, b: Seq<GpuCommand>)
    ensures
        depth_after(g, a + b) == depth_after(depth_after(g, a), b),
    decreases b.len(),
{
    if b.len() == 0 {
        assert(a + b =~= a);
    } else {
        assert((a + b).drop_last() =~= a + b.drop_last());
        lemma_depth_after_append(g, a, b.drop_last());
    }
}

proof fn lemma_depth_after_untouched(g: DepthState, b: Seq<GpuCommand>)
    requires
        forall|i: int|
            0 <= i < b.len() ==> !(#[trigger] b[i] is DepthTest) && !(b[i] is DepthWrite),
    ensures
        depth_after(g, b) == g,
    decreases b.len(),
{
    if b.len() > 0 {
        lemma_depth_after_untouched(g, b.drop_last());
        assert(b.last() == b[b.len() - 1]);
    }
}

/// A draw whose state has no depth buffer runs with the depth test off and
/// depth writes off, whatever depth state earlier draws left behind, and
/// clears no depth.
pub proof fn lemma_no_depth_without_buffer<S, B, M>(s: State<S, B, M>, prior: DepthState)
    requires
        s.depth_buffer is None,
    ensures
        depth_after(prior, plan(s)) == (DepthState { test: None, write: false }),
        forall|i: int| 0 <= i < plan(s).len() ==> !(#[trigger] plan(s)[i] is ClearDepth),
{
    let head = seq![
        GpuCommand::BindPass,
        GpuCommand::Viewport(s.canvas.viewport_area),
        GpuCommand::Scissor(s.canvas.scissor_area),
    ] + color_commands(s.color_buffer);
    let d = depth_commands(s.depth_buffer);
    let tail = seq![
        GpuCommand::Stencil(s.stencil_buffer is Some),
        GpuCommand::Blending(s.blending is Some),
        GpuCommand::FrontFace(s.face_culling.front_face_winding_order),
        GpuCommand::CullFace(s.face_culling.cull_face),
        GpuCommand::Multisampling(s.multisampling is Some),
        GpuCommand::Draw(s.primitive_type),
    ];
    lemma_depth_after_append(prior, head + d, tail);
    lemma_depth_after_append(prior, head, d);
    lemma_depth_after_untouched(depth_after(prior, head + d), tail);
    let g = depth_after(prior, head);
    assert(d.drop_last() =~= seq![GpuCommand::DepthTest(None)]);
    assert(d.drop_last().drop_last() =~= Seq::<GpuCommand>::empty());
    assert(depth_after(g, d.drop_last().drop_last()) == g);
    assert(depth_after(g, d.drop_last()) == DepthState { test: None, ..g });
    assert(depth_after(g, d) == DepthState { test: None, write: false });
}

/// A draw clears exactly the buffers its state asks to clear, to the values
/// asked, and every clear comes before the draw, which is the last command.
pub proof fn lemma_clears_precede_draw<S, B, M>(s: State<S, B, M>)
    ensures
        plan(s).last() == GpuCommand::Draw(s.primitive_type),
        forall|i: int| 0 <= i < plan(s).len() - 1 ==> !(#[trigger] plan(s)[i] is Draw),
        forall|i: int|
            0 <= i < plan(s).len() && #[trigger] plan(s)[i] is ClearColor
                ==> s.color_buffer.clear == Some(plan(s)[i]->ClearColor_0),
        forall|i: int|
            0 <= i < plan(s).len() && #[trigger] plan(s)[i] is ClearDepth
                ==> s.depth_buffer is Some && s.depth_buffer->Some_0.clear == Some(plan(s)[i]->ClearDepth_0),
        s.color_buffer.clear is Some ==> exists|i: int|
            0 <= i < plan(s).len() - 1 && #[trigger] plan(s)[i] == GpuCommand::ClearColor(s.color_buffer.clear->Some_0),
        s.depth_buffer is Some && s.depth_buffer->Some_0.clear is Some ==> exists|i: int|
            0 <= i < plan(s).len() - 1 && #[trigger] plan(s)[i] == GpuCommand::ClearDepth(s.depth_buffer->Some_0.clear->Some_0),
{
    let c = color_commands(s.color_buffer);
    let d = depth_commands(s.depth_buffer);
    let p = plan(s);
    assert(p.len() == 3 + c.len() + d.len() + 6);
    assert forall|i: int| 0 <= i < p.len() implies
        (#[trigger] p[i] is ClearColor ==> s.color_buffer.clear == Some(p[i]->ClearColor_0))
        && (p[i] is ClearDepth ==> s.depth_buffer is Some && s.depth_buffer->Some_0.clear == Some(p[i]->ClearDepth_0))
        && (i < p.len() - 1 ==> !(p[i] is Draw)) by {
        if i < 3 {
        } else if i < 3 + c.len() {
            assert(p[i] == c[i - 3]);
        } else if i < 3 + c.len() + d.len() {
            assert(p[i] == d[i - 3 - c.len()]);
        }
    }
    if s.color_buffer.clear is Some {
        assert(p[4] == c[1]);
    }
    if s.depth_buffer is Some && s.depth_buffer->Some_0.clear is Some {
        assert(p[3 + c.len() as int + 4] == d[4]);
    }
}

} // verus!
