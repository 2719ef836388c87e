//! A drawable entity: its mesh, pose, atlas state and animation clock.
use crate::animation::{
    backward_animation, backward_frame, forward_animation, forward_frame, random_frame,
    AnimationConfig, AnimationMode, AtlasConfig,
};
use crate::fixed::{fixed_product, mul_fixed, Vec3, FULL_TURN, UNIT};
use vstd::prelude::*;

verus! {

/// Ids of the GPU objects that hold an entity's mesh.
#[derive(Clone, Copy, Debug, PartialEq, Eq, Structural)]
pub struct GpuHandles {
    pub vao: u32,
    pub position_vbo: u32,
    pub tex_vbo: u32,
}

/// How many times a texture repeats across a mesh, horizontally and
/// vertically, in fixed point.
#[derive(Clone, Copy, Debug, PartialEq, Eq, Structural)]
pub struct TilingConfig {
    pub horizontal_scalar: i64,
    pub vertical_scalar: i64,
}

/// Why an entity could not be built.
#[derive(Clone, Copy, Debug, PartialEq, Eq, Structural)]
pub enum MeshError {
    /// The vertex and texture-coordinate arrays differ in length, or do not
    /// hold whole `(x, y)` pairs.
    InvalidMeshData,
}

/// What an entity holds, as mathematical values.
pub ghost struct EntityModel {
    pub name: Seq<char>,
    pub vertex_data: Seq<i64>,
    pub texture_coords: Seq<i64>,
    pub shader_program: u32,
    pub texture_id: Option<u32>,
    pub gpu: Option<GpuHandles>,
    pub position: Vec3,
    pub rotation: i64,
    pub scale: i64,
    pub atlas_config: Option<AtlasConfig>,
    pub animation_config: Option<AnimationConfig>,
    pub elapsed_time: u64,
}

/// A mesh given as `(x, y)` vertex pairs with one `(u, v)` pair per vertex.
pub open spec fn mesh_ok(vertex_data: Seq<i64>, texture_coords: Seq<i64>) -> bool {
    vertex_data.len() == texture_coords.len() && vertex_data.len() % 2 == 0
}

/// An angle brought into `[0, FULL_TURN)`.
pub open spec fn normalize_angle(a: int) -> int {
    a % (FULL_TURN as int)
}

/// The atlas grid has at least one cell.
pub open spec fn atlas_has_cells(a: AtlasConfig) -> bool {
    a.atlas_columns > 0 && a.atlas_rows > 0
}

/// `x` capped at `i64::MAX`.
pub open spec fn cap_i64(x: int) -> i64 {
    if x > i64::MAX { i64::MAX } else { x as i64 }
}

/// The quad's texture coordinates for the atlas cell of `frame`, normalised
/// to the whole atlas: `(u2, v1), (u2, v2), (u1, v2), (u1, v1)`. A frame past
/// the last row keeps counting rows downward; a `v` too large for an `i64`
/// is capped.
pub open spec fn atlas_quad(frame: int, columns: int, rows: int) -> Seq<i64> {
    let col = frame % columns;
    let row = frame / columns;
    let u1 = (col * UNIT / columns) as i64;
    let u2 = ((col + 1) * UNIT / columns) as i64;
    let v1 = cap_i64(row * UNIT / rows);
    let v2 = cap_i64((row + 1) * UNIT / rows);
    seq![u2, v1, u2, v2, u1, v2, u1, v1]
}

/// Texture coordinates after they are refreshed from the atlas.
pub open spec fn refreshed_coords(atlas: Option<AtlasConfig>, coords: Seq<i64>) -> Seq<i64> {
    match atlas {
        Some(a) => if atlas_has_cells(a) {
            atlas_quad(a.current_frame as int, a.atlas_columns as int, a.atlas_rows as int)
        } else {
            coords
        },
        None => coords,
    }
}

/// The frame that a step of `advance` frames leads to; `pick` is the frame
/// drawn for random animation. An empty frame range keeps the frame.
pub open spec fn stepped_frame(anim: AnimationConfig, current: usize, advance: int, pick: usize) -> usize {
    if !anim.range_ok() {
        current
    } else {
        let start = anim.frame_range.start as int;
        let end = anim.frame_range.end as int;
        match anim.mode {
            AnimationMode::Forward => forward_frame(advance, current as int, start, end, anim.looping) as usize,
            AnimationMode::Backward => backward_frame(advance, current as int, start, end, anim.looping) as usize,
            AnimationMode::Random => pick,
        }
    }
}

/// The animation clock after `delta` more microseconds; it saturates at
/// `u64::MAX`.
pub open spec fn clock_total(elapsed: u64, delta: u64) -> int {
    if elapsed + delta > u64::MAX {
        u64::MAX as int
    } else {
        elapsed + delta
    }
}

/// Whole frames that the clock covers after `delta` more microseconds.
pub open spec fn frames_due(anim: AnimationConfig, elapsed: u64, delta: u64) -> int {
    clock_total(elapsed, delta) / (anim.frame_duration as int)
}

/// The entity after an animation tick of `delta` microseconds, with `pick`
/// as the frame drawn for random animation.
pub open spec fn animated(m: EntityModel, delta: u64, pick: usize) -> EntityModel {
    match (m.atlas_config, m.animation_config) {
        (Some(atlas), Some(anim)) => if anim.frame_duration == 0 {
            EntityModel { texture_coords: refreshed_coords(m.atlas_config, m.texture_coords), ..m }
        } else if frames_due(anim, m.elapsed_time, delta) == 0 {
            EntityModel {
                elapsed_time: clock_total(m.elapsed_time, delta) as u64,
                texture_coords: refreshed_coords(m.atlas_config, m.texture_coords),
                ..m
            }
        } else {
            let frame = stepped_frame(anim, atlas.current_frame, frames_due(anim, m.elapsed_time, delta), pick);
            let new_atlas = Some(AtlasConfig { current_frame: frame, ..atlas });
            EntityModel {
                elapsed_time: (clock_total(m.elapsed_time, delta) % (anim.frame_duration as int)) as u64,
                atlas_config: new_atlas,
                texture_coords: refreshed_coords(new_atlas, m.texture_coords),
                ..m
            }
        },
        (Some(atlas), None) => EntityModel {
            texture_coords: refreshed_coords(m.atlas_config, m.texture_coords),
            ..m
        },
        _ => m,
    }
}

/// `after` is `before` advanced by `delta` microseconds, with `pick` as the
/// frame drawn for a random animation, taken from its frame range.
pub open spec fn drawn_step(before: EntityModel, after: EntityModel, delta: u64, pick: usize) -> bool {
    &&& after == animated(before, delta, pick)
    &&& before.animation_config matches Some(a) ==> a.range_ok() ==> a.frame_range.start <= pick
        < a.frame_range.end
}

/// The `x` coordinates of a mesh's vertices.
pub open spec fn xs(v: Seq<i64>) -> Seq<int> {
    Seq::new(v.len() / 2, |i: int| v[2 * i] as int)
}

/// The `y` coordinates of a mesh's vertices.
pub open spec fn ys(v: Seq<i64>) -> Seq<int> {
    Seq::new(v.len() / 2, |i: int| v[2 * i + 1] as int)
}

/// The least element, 0 for an empty sequence.
pub open spec fn seq_min(s: Seq<int>) -> int
    decreases s.len(),
{
    if s.len() == 0 {
        0
    } else if s.len() == 1 {
        s[0]
    } else if s.last() < seq_min(s.drop_last()) {
        s.last()
    } else {
        seq_min(s.drop_last())
    }
}

/// The greatest element, 0 for an empty sequence.
pub open spec fn seq_max(s: Seq<int>) -> int
    decreases s.len(),
{
    if s.len() == 0 {
        0
    } else if s.len() == 1 {
        s[0]
    } else if s.last() > seq_max(s.drop_last()) {
        s.last()
    } else {
        seq_max(s.drop_last())
    }
}

/// `r` is the square root of `n` rounded down.
pub open spec fn is_floor_sqrt(r: int, n: int) -> bool {
    0 <= r && r * r <= n < (r + 1) * (r + 1)
}

/// The square root of `n` rounded down.
pub open spec fn floor_sqrt(n: int) -> int {
    choose|r: int| is_floor_sqrt(r, n)
}

/// The largest scaled distance from the origin among the first `n`
/// vertices, and never less than 0.
pub open spec fn radius_upto(v: Seq<i64>, n: int, scale: int) -> int
    decreases n,
{
    if n <= 0 {
        0
    } else {
        let d = fixed_product(floor_sqrt(v[2 * (n - 1)] * v[2 * (n - 1)] + v[2 * (n - 1) + 1] * v[2 * (n - 1) + 1]), scale);
        let rest = radius_upto(v, n - 1, scale);
        if d > rest { d } else { rest }
    }
}

/// A drawable entity, keyed by its name. Positions, the scale and the
/// mesh are fixed point; the rotation is in millionths of a radian and kept
/// in `[0, FULL_TURN)`; the animation clock counts microseconds.
#[derive(Debug)]
pub struct Generic2DGraphicsObject {
    name: String,
    vertex_data: Vec<i64>,
    texture_coords: Vec<i64>,
    shader_program: u32,
    texture_id: Option<u32>,
    gpu: Option<GpuHandles>,
    position: Vec3,
    rotation: i64,
    scale: i64,
    atlas_config: Option<AtlasConfig>,
    animation_config: Option<AnimationConfig>,
    elapsed_time: u64,
}

impl View for Generic2DGraphicsObject {
    type V = EntityModel;

    closed spec fn view(&self) -> EntityModel {
        EntityModel {
            name: self.name@,
            vertex_data: self.vertex_data@,
            texture_coords: self.texture_coords@,
            shader_program: self.shader_program,
            texture_id: self.texture_id,
            gpu: self.gpu,
            position: self.position,
            rotation: self.rotation,
            scale: self.scale,
            atlas_config: self.atlas_config,
            animation_config: self.animation_config,
            elapsed_time: self.elapsed_time,
        }
    }
}

impl Clone for Generic2DGraphicsObject {
    fn clone(&self) -> (r: Self)
        ensures
            r@ == self@,
    {
        proof {
            use_type_invariant(self);
        }
        let vertex_data = self.vertex_data.clone();
        let texture_coords = self.texture_coords.clone();
        assert(vertex_data@ =~= self.vertex_data@);
        assert(texture_coords@ =~= self.texture_coords@);
        let animation_config = match &self.animation_config {
            Some(a) => Some(a.clone()),
            None => None,
        };
        Generic2DGraphicsObject {
            name: self.name.clone(),
            vertex_data,
            texture_coords,
            shader_program: self.shader_program,
            texture_id: self.texture_id,
            gpu: self.gpu,
            position: self.position,
            rotation: self.rotation,
            scale: self.scale,
            atlas_config: self.atlas_config,
            animation_config,
            elapsed_time: self.elapsed_time,
        }
    }
}

impl Generic2DGraphicsObject {
    #[verifier::type_invariant]
    spec fn inv(&self) -> bool {
        &&& self.vertex_data@.len() % 2 == 0
        &&& 0 <= self.rotation < FULL_TURN
    }

    /// Builds an entity from its mesh and initial pose. The rotation is
    /// brought into `[0, FULL_TURN)`. No GPU objects are attached yet.
    pub fn new(
        name: String,
        vertex_data: Vec<i64>,
        texture_coords: Vec<i64>,
        shader_program: u32,
        position: Vec3,
        rotation: i64,
        scale: i64,
        texture_id: Option<u32>,
        atlas_config: Option<AtlasConfig>,
        animation_config: Option<AnimationConfig>,
    ) -> (r: Result<Self, MeshError>)
        ensures
            mesh_ok(vertex_data@, texture_coords@) <==> r.is_ok(),
            r is Err ==> r == Err::<Self, MeshError>(MeshError::InvalidMeshData),
            r matches Ok(e) ==> e@ == (EntityModel {
                name: name@,
                vertex_data: vertex_data@,
                texture_coords: texture_coords@,
                shader_program,
                texture_id,
                gpu: None,
                position,
                rotation: normalize_angle(rotation as int) as i64,
                scale,
                atlas_config,
                animation_config,
                elapsed_time: 0,
            }),
    {
        if vertex_data.len() != texture_coords.len() || vertex_data.len() % 2 != 0 {
            return Err(MeshError::InvalidMeshData);
        }
        let rotation = normalize(rotation);
        Ok(Generic2DGraphicsObject {
            name,
            vertex_data,
            texture_coords,
            shader_program,
            texture_id,
            gpu: None,
            position,
            rotation,
            scale,
            atlas_config,
            animation_config,
            elapsed_time: 0,
        })
    }

    pub fn get_name(&self) -> (r: &str)
        ensures
            r@ == self@.name,
    {
        self.name.as_str()
    }

    /// Width and height of the mesh's bounding box, times the scale; zero
    /// for an empty mesh.
    pub fn dimensions(&self) -> (r: (i128, i128))
        ensures
            r.0 == fixed_product(seq_max(xs(self@.vertex_data)) - seq_min(xs(self@.vertex_data)), self@.scale as int),
            r.1 == fixed_product(seq_max(ys(self@.vertex_data)) - seq_min(ys(self@.vertex_data)), self@.scale as int),
    {
        proof {
            use_type_invariant(self);
        }
        let ghost xv = xs(self.vertex_data@);
        let ghost yv = ys(self.vertex_data@);
        let len: usize = self.vertex_data.len();
        let n: usize = len / 2;
        if n == 0 {
            assert(xv.len() == 0 && yv.len() == 0);
            assert(fixed_product(0, self.scale as int) == 0);
            return (0, 0);
        }
        let mut min_x: i64 = self.vertex_data[0];
        let mut max_x: i64 = self.vertex_data[0];
        let mut min_y: i64 = self.vertex_data[1];
        let mut max_y: i64 = self.vertex_data[1];
        let mut i: usize = 1;
        assert(xv.take(1).len() == 1 && xv.take(1)[0] == xv[0]);
        assert(yv.take(1).len() == 1 && yv.take(1)[0] == yv[0]);
        while i < n
            invariant
                1 <= i <= n,
                len == self.vertex_data@.len(),
                n == len / 2,
                self.vertex_data@.len() % 2 == 0,
                xv == xs(self.vertex_data@),
                yv == ys(self.vertex_data@),
                min_x == seq_min(xv.take(i as int)),
                max_x == seq_max(xv.take(i as int)),
                min_y == seq_min(yv.take(i as int)),
                max_y == seq_max(yv.take(i as int)),
            decreases n - i,
        {
            let x = self.vertex_data[2 * i];
            let y = self.vertex_data[2 * i + 1];
            assert(xv.take(i as int + 1).drop_last() =~= xv.take(i as int));
            assert(yv.take(i as int + 1).drop_last() =~= yv.take(i as int));
            if x < min_x {
                min_x = x;
            }
            if x > max_x {
                max_x = x;
            }
            if y < min_y {
                min_y = y;
            }
            if y > max_y {
                max_y = y;
            }
            i += 1;
        }
        assert(xv.take(n as int) =~= xv);
        assert(yv.take(n as int) =~= yv);
        proof {
            lemma_min_le_max(xv);
            lemma_min_le_max(yv);
            let a = choose|a: int| 0 <= a < xv.len() && xv[a] == seq_min(xv);
            let b = choose|b: int| 0 <= b < xv.len() && xv[b] == seq_max(xv);
            let c = choose|c: int| 0 <= c < yv.len() && yv[c] == seq_min(yv);
            let d = choose|d: int| 0 <= d < yv.len() && yv[d] == seq_max(yv);
            assert(xv[a] == self.vertex_data@[2 * a]);
            assert(xv[b] == self.vertex_data@[2 * b]);
            assert(yv[c] == self.vertex_data@[2 * c + 1]);
            assert(yv[d] == self.vertex_data@[2 * d + 1]);
            let w = max_x - min_x;
            let h = max_y - min_y;
            let sc = self.scale as int;
            assert(-0x7fff_ffff_ffff_ffff_ffff_ffff_ffff_ffff <= w * sc <= 0x7fff_ffff_ffff_ffff_ffff_ffff_ffff_ffff)
                by (nonlinear_arith)
                requires 0 <= w <= 0xffff_ffff_ffff_ffff, -0x8000_0000_0000_0000 <= sc <= 0x7fff_ffff_ffff_ffff;
            assert(-0x7fff_ffff_ffff_ffff_ffff_ffff_ffff_ffff <= h * sc <= 0x7fff_ffff_ffff_ffff_ffff_ffff_ffff_ffff)
                by (nonlinear_arith)
                requires 0 <= h <= 0xffff_ffff_ffff_ffff, -0x8000_0000_0000_0000 <= sc <= 0x7fff_ffff_ffff_ffff;
        }
        let width = mul_fixed(max_x as i128 - min_x as i128, self.scale as i128);
        let height = mul_fixed(max_y as i128 - min_y as i128, self.scale as i128);
        (width, height)
    }

    /// The radius of the circle about the origin that holds every vertex,
    /// times the scale: the largest scaled vertex distance, rounded down, and
    /// never below 0.
    pub fn get_radius(&self) -> (r: i128)
        ensures
            r == radius_upto(self@.vertex_data, (self@.vertex_data.len() / 2) as int, self@.scale as int),
    {
        proof {
            use_type_invariant(self);
        }
        let len: usize = self.vertex_data.len();
        let n: usize = len / 2;
        let mut best: i128 = 0;
        let mut i: usize = 0;
        while i < n
            invariant
                i <= n,
                len == self.vertex_data@.len(),
                n == len / 2,
                self.vertex_data@.len() % 2 == 0,
                best == radius_upto(self.vertex_data@, i as int, self.scale as int),
            decreases n - i,
        {
            let x = self.vertex_data[2 * i];
            let y = self.vertex_data[2 * i + 1];
            let xm: u128 = if x < 0 { (-(x as i128)) as u128 } else { x as u128 };
            let ym: u128 = if y < 0 { (-(y as i128)) as u128 } else { y as u128 };
            proof {
                assert(xm * xm <= 0x4000_0000_0000_0000_0000_0000_0000_0000) by (nonlinear_arith)
                    requires xm <= 0x8000_0000_0000_0000;
                assert(ym * ym <= 0x4000_0000_0000_0000_0000_0000_0000_0000) by (nonlinear_arith)
                    requires ym <= 0x8000_0000_0000_0000;
                assert(xm * xm == x * x) by (nonlinear_arith)
                    requires xm == x || xm == -x;
                assert(ym * ym == y * y) by (nonlinear_arith)
                    requires ym == y || ym == -y;
            }
            let root = isqrt(xm * xm + ym * ym);
            proof {
                assert(root * root <= 0x8000_0000_0000_0000_0000_0000_0000_0000);
                assert(root <= 0xb504_f334_f9de_6484) by (nonlinear_arith)
                    requires root * root <= 0x8000_0000_0000_0000_0000_0000_0000_0000, root >= 0;
                assert(-0x7fff_ffff_ffff_ffff_ffff_ffff_ffff_ffff <= root * self.scale
                    <= 0x7fff_ffff_ffff_ffff_ffff_ffff_ffff_ffff) by (nonlinear_arith)
                    requires 0 <= root <= 0xb504_f334_f9de_6484, -0x8000_0000_0000_0000 <= self.scale
                        <= 0x7fff_ffff_ffff_ffff;
            }
            let d = mul_fixed(root as i128, self.scale as i128);
            if d > best {
                best = d;
            }
            i += 1;
        }
        best
    }

    /// Whether this entity is stored under `name`.
    pub fn has_name(&self, name: &String) -> (r: bool)
        ensures
            r == (self@.name == name@),
    {
        self.name == *name
    }

    pub fn get_position(&self) -> (r: Vec3)
        ensures
            r == self@.position,
    {
        self.position
    }

    pub fn set_position(&mut self, position: Vec3)
        ensures
            final(self)@ == (EntityModel { position, ..old(self)@ }),
    {
        proof {
            use_type_invariant(&*self);
        }
        self.position = position;
    }

    pub fn get_rotation(&self) -> (r: i64)
        ensures
            r == self@.rotation,
            0 <= r < FULL_TURN,
    {
        proof {
            use_type_invariant(self);
        }
        self.rotation
    }

    /// Stores `rotation` modulo a full turn, always in `[0, FULL_TURN)`.
    pub fn set_rotation(&mut self, rotation: i64)
        ensures
            final(self)@ == (EntityModel { rotation: normalize_angle(rotation as int) as i64, ..old(self)@ }),
    {
        proof {
            use_type_invariant(&*self);
        }
        self.rotation = normalize(rotation);
    }

    pub fn get_scale(&self) -> (r: i64)
        ensures
            r == self@.scale,
    {
        self.scale
    }

    pub fn set_scale(&mut self, scale: i64)
        ensures
            final(self)@ == (EntityModel { scale, ..old(self)@ }),
    {
        proof {
            use_type_invariant(&*self);
        }
        self.scale = scale;
    }

    pub fn get_atlas_config(&self) -> (r: Option<AtlasConfig>)
        ensures
            r == self@.atlas_config,
    {
        self.atlas_config
    }

    pub fn set_atlas_config(&mut self, atlas_config: Option<AtlasConfig>)
        ensures
            final(self)@ == (EntityModel { atlas_config, ..old(self)@ }),
    {
        proof {
            use_type_invariant(&*self);
        }
        self.atlas_config = atlas_config;
    }

    pub fn get_animation_config(&self) -> (r: Option<AnimationConfig>)
        ensures
            r == self@.animation_config,
    {
        match &self.animation_config {
            Some(a) => Some(a.clone()),
            None => None,
        }
    }

    pub fn set_animation_config(&mut self, animation_config: Option<AnimationConfig>)
        ensures
            final(self)@ == (EntityModel { animation_config, ..old(self)@ }),
    {
        proof {
            use_type_invariant(&*self);
        }
        self.animation_config = animation_config;
    }

    pub fn get_vertex_data(&self) -> (r: &Vec<i64>)
        ensures
            r@ == self@.vertex_data,
    {
        &self.vertex_data
    }

    pub fn get_texture_coords(&self) -> (r: &Vec<i64>)
        ensures
            r@ == self@.texture_coords,
    {
        &self.texture_coords
    }

    pub fn get_shader_program(&self) -> (r: u32)
        ensures
            r == self@.shader_program,
    {
        self.shader_program
    }

    pub fn get_texture_id(&self) -> (r: Option<u32>)
        ensures
            r == self@.texture_id,
    {
        self.texture_id
    }

    pub fn get_gpu_handles(&self) -> (r: Option<GpuHandles>)
        ensures
            r == self@.gpu,
    {
        self.gpu
    }

    /// Records the GPU objects that now hold this entity's mesh.
    pub fn set_gpu_handles(&mut self, gpu: Option<GpuHandles>)
        ensures
            final(self)@ == (EntityModel { gpu, ..old(self)@ }),
    {
        proof {
            use_type_invariant(&*self);
        }
        self.gpu = gpu;
    }

    pub fn get_elapsed_time(&self) -> (r: u64)
        ensures
            r == self@.elapsed_time,
    {
        self.elapsed_time
    }

    /// Recomputes the quad's texture coordinates from the atlas frame. An
    /// entity without an atlas, or whose atlas has no columns or no rows,
    /// keeps its coordinates.
    pub fn update_texture_coords(&mut self)
        ensures
            final(self)@ == (EntityModel {
                texture_coords: refreshed_coords(old(self)@.atlas_config, old(self)@.texture_coords),
                ..old(self)@
            }),
    {
        proof {
            use_type_invariant(&*self);
        }
        if let Some(atlas) = self.atlas_config {
            if atlas.atlas_columns > 0 && atlas.atlas_rows > 0 {
                self.texture_coords = atlas_coords(atlas.current_frame, atlas.atlas_columns, atlas.atlas_rows);
            }
        }
    }

    /// Advances the animation clock by `delta_time` microseconds. Each whole
    /// frame duration that has passed steps the atlas by one frame in the
    /// animation's mode, and the remainder is kept; `random_pick` is the frame
    /// shown when a random animation steps. The texture coordinates are
    /// refreshed from the atlas on every call.
    pub fn update_animation_with(&mut self, delta_time: u64, random_pick: usize)
        ensures
            final(self)@ == animated(old(self)@, delta_time, random_pick),
    {
        proof {
            use_type_invariant(&*self);
        }
        if self.atlas_config.is_none() {
            return;
        }
        if let Some(anim) = &self.animation_config {
            if anim.frame_duration != 0 {
                let total: u64 = self.elapsed_time.saturating_add(delta_time);
                let frame_advance: u64 = total / anim.frame_duration;
                if frame_advance > 0 {
                    self.elapsed_time = total % anim.frame_duration;
                    let mut atlas = self.atlas_config.unwrap();
                    if anim.frame_range.start < anim.frame_range.end {
                        atlas.current_frame = match anim.mode {
                            AnimationMode::Forward => forward_animation(frame_advance, &mut atlas, anim),
                            AnimationMode::Backward => backward_animation(frame_advance, &mut atlas, anim),
                            AnimationMode::Random => random_pick,
                        };
                    }
                    self.atlas_config = Some(atlas);
                } else {
                    self.elapsed_time = total;
                }
            }
        }
        self.update_texture_coords();
    }

    /// Advances the animation clock by `delta_time` microseconds, drawing the
    /// frame of a random animation from its frame range.
    pub fn update_animation(&mut self, delta_time: u64)
        ensures
            exists|pick: usize| drawn_step(old(self)@, final(self)@, delta_time, pick),
    {
        proof {
            use_type_invariant(&*self);
        }
        let pick: usize = match &self.animation_config {
            Some(a) => if a.mode == AnimationMode::Random && a.frame_range.start < a.frame_range.end {
                random_frame(a.frame_range.start, a.frame_range.end)
            } else {
                a.frame_range.start
            },
            None => 0,
        };
        self.update_animation_with(delta_time, pick);
        assert(drawn_step(old(self)@, self@, delta_time, pick));
    }
}

/// `a` modulo a full turn, in `[0, FULL_TURN)`.
fn normalize(a: i64) -> (r: i64)
    ensures
        r == normalize_angle(a as int),
        0 <= r < FULL_TURN,
{
    match a.checked_rem_euclid(FULL_TURN) {
        Some(r) => r,
        None => 0,
    }
}

/// The quad coordinates of an atlas cell.
fn atlas_coords(frame: usize, columns: usize, rows: usize) -> (r: Vec<i64>)
    requires
        columns > 0,
        rows > 0,
    ensures
        r@ == atlas_quad(frame as int, columns as int, rows as int),
{
    let col: u128 = (frame % columns) as u128;
    let row: u128 = (frame / columns) as u128;
    let c: u128 = columns as u128;
    let h: u128 = rows as u128;
    let unit: u128 = UNIT as u128;
    proof {
        assert(col * unit <= (col + 1) * unit <= c * unit) by (nonlinear_arith)
            requires col + 1 <= c, unit == UNIT;
        assert((c * unit) / (c as int) == unit) by (nonlinear_arith) requires c > 0;
        lemma_div_le((col + 1) * unit, c * unit, c as int);
        lemma_div_le(col * unit, (col + 1) * unit, c as int);
        assert((row + 1) * unit <= 0x1_0000_0000_0000_0000 * 1_000_000) by (nonlinear_arith)
            requires row < 0x1_0000_0000_0000_0000, unit == UNIT;
    }
    let u1 = (col * unit / c) as i64;
    let u2 = ((col + 1) * unit / c) as i64;
    let v1 = cap(row * unit / h);
    let v2 = cap((row + 1) * unit / h);
    let r = vec![u2, v1, u2, v2, u1, v2, u1, v1];
    assert(r@ =~= atlas_quad(frame as int, columns as int, rows as int));
    r
}

/// The square root of `n` rounded down.
fn isqrt(n: u128) -> (r: u128)
    ensures
        r == floor_sqrt(n as int),
        is_floor_sqrt(r as int, n as int),
{
    let mut lo: u128 = 0;
    let mut hi: u128 = 0x1_0000_0000_0000_0000;
    proof {
        assert(hi * hi > n) by (nonlinear_arith)
            requires hi == 0x1_0000_0000_0000_0000, n <= 0xffff_ffff_ffff_ffff_ffff_ffff_ffff_ffff;
    }
    while hi - lo > 1
        invariant
            lo < hi <= 0x1_0000_0000_0000_0000,
            lo * lo <= n,
            n < hi * hi,
        decreases hi - lo,
    {
        let mid: u128 = lo + (hi - lo) / 2;
        proof {
            assert(mid * mid < 0x1_0000_0000_0000_0000_0000_0000_0000_0000) by (nonlinear_arith)
                requires mid < 0x1_0000_0000_0000_0000;
        }
        if mid * mid <= n {
            lo = mid;
        } else {
            hi = mid;
        }
    }
    proof {
        assert(hi == lo + 1);
        lemma_floor_sqrt_unique(lo as int, n as int);
    }
    lo
}

proof fn lemma_floor_sqrt_unique(r: int, n: int)
    requires
        is_floor_sqrt(r, n),
    ensures
        floor_sqrt(n) == r,
{
    let s = floor_sqrt(n);
    assert(is_floor_sqrt(s, n));
    if s < r {
        assert((s + 1) * (s + 1) <= r * r) by (nonlinear_arith)
            requires 0 <= s, s + 1 <= r;
    }
    if r < s {
        assert((r + 1) * (r + 1) <= s * s) by (nonlinear_arith)
            requires 0 <= r, r + 1 <= s;
    }
}

proof fn lemma_min_le_max(s: Seq<int>)
    ensures
        seq_min(s) <= seq_max(s),
        s.len() > 0 ==> exists|i: int| 0 <= i < s.len() && s[i] == seq_min(s),
        s.len() > 0 ==> exists|i: int| 0 <= i < s.len() && s[i] == seq_max(s),
    decreases s.len(),
{
    if s.len() > 1 {
        lemma_min_le_max(s.drop_last());
        let i = choose|i: int| 0 <= i < s.len() - 1 && s.drop_last()[i] == seq_min(s.drop_last());
        let j = choose|j: int| 0 <= j < s.len() - 1 && s.drop_last()[j] == seq_max(s.drop_last());
        assert(s[i] == seq_min(s.drop_last()));
        assert(s[j] == seq_max(s.drop_last()));
    } else if s.len() == 1 {
        assert(s[0] == seq_min(s));
    }
}

/// `x` capped at `i64::MAX`.
fn cap(x: u128) -> (r: i64)
    ensures
        r == cap_i64(x as int),
{
    if x > i64::MAX as u128 {
        i64::MAX
    } else {
        x as i64
    }
}

proof fn lemma_div_le(a: int, b: int, d: int)
    requires
        0 <= a <= b,
        d > 0,
    ensures
        a / d <= b / d,
{
    vstd::arithmetic::div_mod::lemma_div_is_ordered(a, b, d);
}

/// Normalising an angle twice gives what normalising it once gives: storing
/// a stored rotation again leaves it unchanged.
pub proof fn lemma_rotation_idempotent(a: int)
    ensures
        normalize_angle(normalize_angle(a)) == normalize_angle(a),
        0 <= normalize_angle(a) < FULL_TURN,
{
    vstd::arithmetic::div_mod::lemma_mod_twice(a, FULL_TURN as int);
}

} // verus!
