//! Plain render-side descriptions: vertex attribute layouts, window
//! settings, and handles to GPU programs. Creating windows, compiling shaders
//! and issuing draw calls is left to the host.

use vstd::prelude::*;

verus! {

pub const POSITION_SIZE: u32 = 3;

pub const COLOR_SIZE: u32 = 4;

#[derive(Debug, Clone, Copy, PartialEq, Eq, PartialOrd, Ord, Hash, Structural)]
pub enum AttributeType {
    Position,
    Color,
}

pub open spec fn attribute_name(t: AttributeType) -> Seq<char> {
    match t {
        AttributeType::Position => "position"@,
        AttributeType::Color => "color"@,
    }
}

pub open spec fn attribute_size(t: AttributeType) -> u32 {
    match t {
        AttributeType::Position => POSITION_SIZE,
        AttributeType::Color => COLOR_SIZE,
    }
}

impl AttributeType {
    /// The attribute's name in the shader.
    pub fn name(&self) -> (r: &'static str)
        ensures
            r@ == attribute_name(*self),
    {
        match self {
            AttributeType::Position => "position",
            AttributeType::Color => "color",
        }
    }

    /// The number of floats per vertex.
    pub fn size(&self) -> (r: u32)
        ensures
            r == attribute_size(*self),
    {
        match self {
            AttributeType::Position => POSITION_SIZE,
            AttributeType::Color => COLOR_SIZE,
        }
    }
}

/// One attribute of a vertex layout.
#[derive(Debug, Clone)]
pub struct VertexAttribute {
    pub name: String,
    pub size: u32,
    pub attribute_type: AttributeType,
}

impl VertexAttribute {
    pub fn new(attribute_type: &AttributeType) -> (a: VertexAttribute)
        ensures
            a.name@ == attribute_name(*attribute_type),
            a.size == attribute_size(*attribute_type),
            a.attribute_type == *attribute_type,
    {
        let name = attribute_type.name();
        VertexAttribute {
            name: String::from_str(name),
            size: attribute_type.size(),
            attribute_type: *attribute_type,
        }
    }

    pub fn attribute_type(&self) -> (r: AttributeType)
        ensures
            r == self.attribute_type,
    {
        self.attribute_type
    }
}

/// A handle to a linked GPU program.
#[derive(Debug, PartialEq, Eq, PartialOrd, Ord, Hash)]
pub struct Shader(u32);

impl Shader {
    /// The program id.
    pub closed spec fn id(&self) -> u32 {
        self.0
    }

    pub fn from_program(id: u32) -> (s: Shader)
        ensures
            s.id() == id,
    {
        Shader(id)
    }

    pub fn program(&self) -> (r: u32)
        ensures
            r == self.id(),
    {
        self.0
    }
}

/// A shader program together with how it is applied.
#[derive(Debug, PartialEq, Eq, PartialOrd, Ord, Hash)]
pub struct Material {
    shader: Shader,
}

impl Material {
    pub closed spec fn shader_spec(&self) -> Shader {
        self.shader
    }

    pub fn new(shader: Shader) -> (m: Material)
        ensures
            m.shader_spec() == shader,
    {
        Material { shader }
    }

    pub fn shader(&self) -> (r: &Shader)
        ensures
            *r == self.shader_spec(),
    {
        &self.shader
    }
}

#[derive(Debug, Clone, Copy, PartialEq, Eq, Structural)]
pub enum WindowMode {
    Windowed,
    Fullscreen,
}

/// Multisampling level.
#[derive(Debug, Clone, Copy, PartialEq, Eq, Structural)]
pub enum Samples {
    Disabled,
    X2,
    X4,
    X8,
    X16,
}

impl Samples {
    /// The sample count to request, or `None` for no multisampling.
    pub fn to_glfw_samples(&self) -> (r: Option<u32>)
        ensures
            r == match *self {
                Samples::Disabled => None,
                Samples::X2 => Some(2u32),
                Samples::X4 => Some(4u32),
                Samples::X8 => Some(8u32),
                Samples::X16 => Some(16u32),
            },
    {
        match self {
            Samples::Disabled => None,
            Samples::X2 => Some(2),
            Samples::X4 => Some(4),
            Samples::X8 => Some(8),
            Samples::X16 => Some(16),
        }
    }
}

impl Default for Samples {
    fn default() -> (s: Samples)
        ensures
            s == Samples::Disabled,
    {
        Samples::Disabled
    }
}

/// How the window is to be created.
#[derive(Debug)]
pub struct WindowConfig<'a> {
    pub width: u32,
    pub height: u32,
    pub title: &'a str,
    pub resizable: bool,
    pub vsync: bool,
    pub samples: Samples,
    pub mode: WindowMode,
    pub debug: bool,
}

impl<'a> WindowConfig<'a> {
    pub fn with_width(self, width: u32) -> (c: WindowConfig<'a>)
        ensures
            c == (WindowConfig { width, ..self }),
    {
        WindowConfig { width, ..self }
    }

    pub fn with_height(self, height: u32) -> (c: WindowConfig<'a>)
        ensures
            c == (WindowConfig { height, ..self }),
    {
        WindowConfig { height, ..self }
    }

    /// Sets width and height from a `(width, height)` pair.
    pub fn with_size(self, size: (u32, u32)) -> (c: WindowConfig<'a>)
        ensures
            c == (WindowConfig { width: size.0, height: size.1, ..self }),
    {
        let (width, height) = size;
        WindowConfig { width, height, ..self }
    }

    pub fn with_title(self, title: &'a str) -> (c: WindowConfig<'a>)
        ensures
            c == (WindowConfig { title, ..self }),
    {
        WindowConfig { title, ..self }
    }

    pub fn with_resizable(self, resizable: bool) -> (c: WindowConfig<'a>)
        ensures
            c == (WindowConfig { resizable, ..self }),
    {
        WindowConfig { resizable, ..self }
    }

    pub fn with_vsync(self, vsync: bool) -> (c: WindowConfig<'a>)
        ensures
            c == (WindowConfig { vsync, ..self }),
    {
        WindowConfig { vsync, ..self }
    }

    pub fn with_samples(self, samples: Samples) -> (c: WindowConfig<'a>)
        ensures
            c == (WindowConfig { samples, ..self }),
    {
        WindowConfig { samples, ..self }
    }

    pub fn with_mode(self, mode: WindowMode) -> (c: WindowConfig<'a>)
        ensures
            c == (WindowConfig { mode, ..self }),
    {
        WindowConfig { mode, ..self }
    }
}

impl Default for WindowConfig<'_> {
    /// An 800x600 fixed-size window with vsync and no multisampling.
    fn default() -> (c: Self)
        ensures
            c.width == 800,
            c.height == 600,
            c.title@ == "Paper Window"@,
            !c.resizable,
            c.vsync,
            c.samples == Samples::Disabled,
            c.mode == WindowMode::Windowed,
            !c.debug,
    {
        WindowConfig {
            width: 800,
            height: 600,
            title: "Paper Window",
            resizable: false,
            vsync: true,
            samples: Samples::Disabled,
            mode: WindowMode::Windowed,
            debug: false,
        }
    }
}

/// An instance store backed by a ring buffer; not used yet.
#[derive(Debug, Clone, Copy, PartialEq, Eq, PartialOrd, Ord, Hash)]
pub struct RingBufferInstance {}

/// An instance store backed by a storage buffer; not used yet.
#[derive(Debug, Clone, Copy, PartialEq, Eq, PartialOrd, Ord, Hash)]
pub struct StorageBufferInstance {}

} // verus!
