use crate::canvas::{Canvas, CanvasView};
use vstd::prelude::*;

verus! {

/// Number of vertices of the quad that carries the canvas texture: two
/// triangles.
pub const QUAD_VERTICES: u32 = 6;

/// One step for the GPU backend to carry out. The pixel bytes, the view
/// transform and the projection themselves are read from the canvas when the
/// step is carried out.
#[derive(Clone, Copy, Debug, PartialEq, Eq, Structural)]
pub enum GpuCommand {
    /// Allocate the canvas texture at this size in pixels, and the vertex
    /// buffer of the quad of that size (see `quad`). Any earlier texture
    /// and quad are dropped.
    CreateTexture { width: u32, height: u32 },
    /// Copy the whole pixel buffer of the canvas into the texture.
    UploadPixels { bytes_per_row: u32, rows_per_image: u32 },
    /// Write the uniform buffer: the orthographic projection of a viewport of
    /// this size, and the view transform of the canvas.
    WriteUniform { viewport_width: u32, viewport_height: u32 },
    /// Configure the output surface at this size.
    ConfigureSurface { width: u32, height: u32 },
    /// Draw the quad with the texture and the uniform buffer bound, and
    /// present the frame.
    Draw { vertices: u32 },
}

/// One corner of the quad that carries the canvas texture: where it lies, in
/// canvas pixels, and which corner of the texture it shows, `0` for the
/// left or top edge and `1` for the right or bottom edge.
#[derive(Clone, Copy, Debug, PartialEq, Eq, Structural)]
pub struct Vertex {
    pub x: u32,
    pub y: u32,
    pub u: u8,
    pub v: u8,
}

/// The quad of a canvas of the given size: two triangles that cover the
/// canvas from corner to corner, each vertex showing its own corner of the
/// texture.
pub open spec fn quad_of(width: u32, height: u32) -> Seq<Vertex> {
    seq![
        Vertex { x: width, y: 0, u: 1, v: 0 },
        Vertex { x: 0, y: 0, u: 0, v: 0 },
        Vertex { x: 0, y: height, u: 0, v: 1 },
        Vertex { x: width, y: 0, u: 1, v: 0 },
        Vertex { x: 0, y: height, u: 0, v: 1 },
        Vertex { x: width, y: height, u: 1, v: 1 },
    ]
}

/// Computes [`quad_of`].
pub fn quad(width: u32, height: u32) -> (vertices: Vec<Vertex>)
    ensures
        vertices@ == quad_of(width, height),
        vertices@.len() == QUAD_VERTICES,
{
    let top_right = Vertex { x: width, y: 0, u: 1, v: 0 };
    let top_left = Vertex { x: 0, y: 0, u: 0, v: 0 };
    let bottom_left = Vertex { x: 0, y: height, u: 0, v: 1 };
    let bottom_right = Vertex { x: width, y: height, u: 1, v: 1 };
    let mut vertices: Vec<Vertex> = Vec::new();
    vertices.push(top_right);
    vertices.push(top_left);
    vertices.push(bottom_left);
    vertices.push(top_right);
    vertices.push(bottom_left);
    vertices.push(bottom_right);
    assert(vertices@ =~= quad_of(width, height));
    vertices
}

/// Why the mirror could not follow the canvas.
#[derive(Clone, Copy, Debug, PartialEq, Eq, Structural)]
pub enum MirrorError {
    /// A row of the canvas is longer in bytes, or the canvas has more rows,
    /// than a texture upload can describe.
    CanvasTooLarge,
}

/// What the mirror is, mathematically.
pub struct MirrorView {
    /// Size of the texture on the GPU; `None` before a canvas was attached.
    pub texture: Option<(nat, nat)>,
    /// Size at which the output surface is configured.
    pub surface: (nat, nat),
}

/// Whether a texture upload can describe a canvas of this size.
pub open spec fn fits_texture(width: nat, height: nat) -> bool {
    width * 4 <= u32::MAX && height <= u32::MAX
}

/// A surface dimension as it is configured: never zero.
pub open spec fn surface_extent(extent: nat) -> nat {
    if extent > 0 {
        extent
    } else {
        1
    }
}

/// The steps that bring a texture of size `texture` up to date with the
/// pixels of `canvas`: a new texture first where the sizes differ, then the
/// upload of the whole buffer.
pub open spec fn upload_steps(texture: Option<(nat, nat)>, canvas: CanvasView) -> Seq<GpuCommand> {
    let upload = GpuCommand::UploadPixels {
        bytes_per_row: (canvas.width * 4) as u32,
        rows_per_image: canvas.height as u32,
    };
    if texture == Some((canvas.width, canvas.height)) {
        seq![upload]
    } else {
        seq![
            GpuCommand::CreateTexture { width: canvas.width as u32, height: canvas.height as u32 },
            upload,
        ]
    }
}

/// The GPU-side copy of a canvas, as far as the core decides about it: what
/// exists on the GPU and which steps bring it up to date. The mirror has no
/// state of its own to lose; it is rebuilt from the canvas.
#[derive(Debug)]
pub struct Mirror {
    texture: Option<(u32, u32)>,
    surface_width: u32,
    surface_height: u32,
}

impl View for Mirror {
    type V = MirrorView;

    closed spec fn view(&self) -> MirrorView {
        MirrorView {
            texture: match self.texture {
                Some((width, height)) => Some((width as nat, height as nat)),
                None => None,
            },
            surface: (self.surface_width as nat, self.surface_height as nat),
        }
    }
}

/// A surface dimension as it is configured: never zero.
fn extent(requested: u32) -> (granted: u32)
    ensures
        granted == surface_extent(requested as nat),
{
    if requested > 0 {
        requested
    } else {
        1
    }
}

impl Mirror {
    /// The mirror of no canvas yet, presenting to a surface of the given
    /// size.
    pub fn new(surface_width: u32, surface_height: u32) -> (mirror: Mirror)
        ensures
            mirror@ == (MirrorView {
                texture: None,
                surface: (surface_extent(surface_width as nat), surface_extent(surface_height as nat)),
            }),
    {
        Mirror {
            texture: None,
            surface_width: extent(surface_width),
            surface_height: extent(surface_height),
        }
    }

    /// Whether a canvas was attached.
    pub fn is_attached(&self) -> (attached: bool)
        ensures
            attached == self@.texture.is_some(),
    {
        self.texture.is_some()
    }

    /// The steps that bring a texture of size `texture` up to date with
    /// `canvas`, or the reason why there are none.
    fn upload(texture: Option<(u32, u32)>, canvas: &Canvas) -> (steps: Result<
        Vec<GpuCommand>,
        MirrorError,
    >)
        ensures
            fits_texture(canvas@.width, canvas@.height) ==> steps.is_ok() && steps.unwrap()@
                == upload_steps(
                match texture {
                    Some((width, height)) => Some((width as nat, height as nat)),
                    None => None,
                },
                canvas@,
            ),
            !fits_texture(canvas@.width, canvas@.height) ==> steps == Err::<
                Vec<GpuCommand>,
                MirrorError,
            >(MirrorError::CanvasTooLarge),
    {
        let width: usize = canvas.width();
        let height: usize = canvas.height();
        if width > 0x3fff_ffff || height > 0xffff_ffff {
            return Err(MirrorError::CanvasTooLarge);
        }
        let mut steps: Vec<GpuCommand> = Vec::new();
        let current = match texture {
            Some((w, h)) => w as usize == width && h as usize == height,
            None => false,
        };
        if !current {
            steps.push(GpuCommand::CreateTexture { width: width as u32, height: height as u32 });
        }
        steps.push(
            GpuCommand::UploadPixels {
                bytes_per_row: (width * 4) as u32,
                rows_per_image: height as u32,
            },
        );
        assert(steps@ =~= upload_steps(
            match texture {
                Some((w, h)) => Some((w as nat, h as nat)),
                None => None,
            },
            canvas@,
        ));
        Ok(steps)
    }

    /// Starts mirroring `canvas`: a texture of the size of the canvas, the
    /// upload of all its pixels, and the uniform buffer for the surface as it
    /// is configured. A canvas too large for a texture upload is refused and
    /// the mirror stays as it was.
    pub fn attach(&mut self, canvas: &Canvas) -> (steps: Result<Vec<GpuCommand>, MirrorError>)
        ensures
            fits_texture(canvas@.width, canvas@.height) ==> steps.is_ok() && steps.unwrap()@
                == upload_steps(None, canvas@).push(
                GpuCommand::WriteUniform {
                    viewport_width: old(self)@.surface.0 as u32,
                    viewport_height: old(self)@.surface.1 as u32,
                },
            ) && final(self)@ == (MirrorView {
                texture: Some((canvas@.width, canvas@.height)),
                ..old(self)@
            }),
            !fits_texture(canvas@.width, canvas@.height) ==> steps == Err::<
                Vec<GpuCommand>,
                MirrorError,
            >(MirrorError::CanvasTooLarge) && final(self)@ == old(self)@,
    {
        match Mirror::upload(None, canvas) {
            Ok(mut steps) => {
                steps.push(
                    GpuCommand::WriteUniform {
                        viewport_width: self.surface_width,
                        viewport_height: self.surface_height,
                    },
                );
                self.texture = Some((canvas.width() as u32, canvas.height() as u32));
                Ok(steps)
            },
            Err(error) => Err(error),
        }
    }

    /// Brings the texture up to date after pixels were written: the whole
    /// buffer is uploaded again, into a new texture where the canvas is not
    /// of the size of the old one. Before a canvas was attached there is
    /// nothing to do. A canvas too large for a texture upload is refused and
    /// the mirror stays as it was.
    pub fn update_pixels(&mut self, canvas: &Canvas) -> (steps: Result<
        Vec<GpuCommand>,
        MirrorError,
    >)
        ensures
            old(self)@.texture.is_none() ==> steps.is_ok() && steps.unwrap()@ == Seq::<
                GpuCommand,
            >::empty() && final(self)@ == old(self)@,
            old(self)@.texture.is_some() && fits_texture(canvas@.width, canvas@.height)
                ==> steps.is_ok() && steps.unwrap()@ == upload_steps(old(self)@.texture, canvas@)
                && final(self)@ == (MirrorView {
                texture: Some((canvas@.width, canvas@.height)),
                ..old(self)@
            }),
            old(self)@.texture.is_some() && !fits_texture(canvas@.width, canvas@.height) ==> steps
                == Err::<Vec<GpuCommand>, MirrorError>(MirrorError::CanvasTooLarge) && final(self)@
                == old(self)@,
    {
        if self.texture.is_none() {
            return Ok(Vec::new());
        }
        match Mirror::upload(self.texture, canvas) {
            Ok(steps) => {
                self.texture = Some((canvas.width() as u32, canvas.height() as u32));
                Ok(steps)
            },
            Err(error) => Err(error),
        }
    }

    /// Brings the uniform buffer up to date after the view of the canvas or
    /// the viewport changed: the projection for a viewport of the given size
    /// and the view transform are written again. Before a canvas was
    /// attached there is nothing to do. The mirror itself stays as it was.
    pub fn update_view(&self, viewport_width: u32, viewport_height: u32) -> (steps: Vec<
        GpuCommand,
    >)
        ensures
            steps@ == (if self@.texture.is_some() {
                seq![GpuCommand::WriteUniform { viewport_width, viewport_height }]
            } else {
                Seq::empty()
            }),
    {
        let mut steps: Vec<GpuCommand> = Vec::new();
        if self.texture.is_some() {
            steps.push(GpuCommand::WriteUniform { viewport_width, viewport_height });
        }
        steps
    }

    /// The viewport changed size: the output surface is configured anew, at
    /// least one pixel wide and high. The canvas texture is not touched.
    pub fn resize(&mut self, width: u32, height: u32) -> (steps: Vec<GpuCommand>)
        ensures
            final(self)@ == (MirrorView {
                surface: (surface_extent(width as nat), surface_extent(height as nat)),
                ..old(self)@
            }),
            steps@ == seq![
                GpuCommand::ConfigureSurface {
                    width: surface_extent(width as nat) as u32,
                    height: surface_extent(height as nat) as u32,
                },
            ],
    {
        self.surface_width = extent(width);
        self.surface_height = extent(height);
        let mut steps: Vec<GpuCommand> = Vec::new();
        steps.push(
            GpuCommand::ConfigureSurface { width: self.surface_width, height: self.surface_height },
        );
        steps
    }

    /// One frame: the quad is drawn and presented. Before a canvas was
    /// attached there is nothing to draw.
    pub fn render(&self) -> (steps: Vec<GpuCommand>)
        ensures
            steps@ == (if self@.texture.is_some() {
                seq![GpuCommand::Draw { vertices: QUAD_VERTICES }]
            } else {
                Seq::empty()
            }),
    {
        let mut steps: Vec<GpuCommand> = Vec::new();
        if self.texture.is_some() {
            steps.push(GpuCommand::Draw { vertices: QUAD_VERTICES });
        }
        steps
    }

    /// The viewport changed size: the output surface is configured anew, at
    /// least one pixel wide and high, and where a canvas is attached the
    /// uniform buffer is written for a viewport of the size so configured.
    pub fn change_size(&mut self, width: u32, height: u32) -> (steps: Vec<GpuCommand>)
        ensures
            final(self)@ == (MirrorView {
                surface: (surface_extent(width as nat), surface_extent(height as nat)),
                ..old(self)@
            }),
            steps@ == seq![
                GpuCommand::ConfigureSurface {
                    width: surface_extent(width as nat) as u32,
                    height: surface_extent(height as nat) as u32,
                },
            ] + (if old(self)@.texture.is_some() {
                seq![
                    GpuCommand::WriteUniform {
                        viewport_width: surface_extent(width as nat) as u32,
                        viewport_height: surface_extent(height as nat) as u32,
                    },
                ]
            } else {
                Seq::empty()
            }),
    {
        let mut steps = self.resize(width, height);
        let mut view = self.update_view(self.surface_width, self.surface_height);
        steps.append(&mut view);
        steps
    }

    /// A redraw was asked for: the texture is brought up to date with the
    /// pixels of `canvas`, the uniform buffer with its view and with the
    /// surface as it is configured, and the frame is drawn. Before a canvas
    /// was attached there is nothing to do. A canvas too large for a texture
    /// upload is refused and the mirror stays as it was.
    pub fn redraw(&mut self, canvas: &Canvas) -> (steps: Result<Vec<GpuCommand>, MirrorError>)
        ensures
            old(self)@.texture.is_none() ==> steps.is_ok() && steps.unwrap()@ == Seq::<
                GpuCommand,
            >::empty() && final(self)@ == old(self)@,
            old(self)@.texture.is_some() && fits_texture(canvas@.width, canvas@.height)
                ==> steps.is_ok() && steps.unwrap()@ == upload_steps(old(self)@.texture, canvas@)
                + seq![
                GpuCommand::WriteUniform {
                    viewport_width: old(self)@.surface.0 as u32,
                    viewport_height: old(self)@.surface.1 as u32,
                },
                GpuCommand::Draw { vertices: QUAD_VERTICES },
            ] && final(self)@ == (MirrorView {
                texture: Some((canvas@.width, canvas@.height)),
                ..old(self)@
            }),
            old(self)@.texture.is_some() && !fits_texture(canvas@.width, canvas@.height) ==> steps
                == Err::<Vec<GpuCommand>, MirrorError>(MirrorError::CanvasTooLarge) && final(self)@
                == old(self)@,
    {
        match self.update_pixels(canvas) {
            Ok(mut steps) => {
                let mut view = self.update_view(self.surface_width, self.surface_height);
                let mut frame = self.render();
                steps.append(&mut view);
                steps.append(&mut frame);
                Ok(steps)
            },
            Err(error) => Err(error),
        }
    }
}

} // verus!
