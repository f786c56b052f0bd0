//! The meshes that boxes are drawn with: unit rectangles that differ in the
//! colours of their four corners. Also the pixels of a texture that is white
//! throughout and differs in opacity only.

use vstd::prelude::*;

verus! {

/// A named colour of the palette.
#[derive(Clone, Copy, Debug, PartialEq, Eq, Structural)]
pub enum Paint {
    Red,
    White,
    Green,
    Blue,
    Yellow,
    Purple,
    Orange,
}

/// A unit rectangle with a colour at each corner.
#[derive(Clone, Copy, Debug, PartialEq, Eq, Structural)]
pub struct Mesh {
    pub first: Paint,
    pub second: Paint,
    pub third: Paint,
    pub fourth: Paint,
}

/// The corner colours of the meshes, one line for each mesh.
pub open spec fn vertex_colors() -> Seq<Mesh> {
    seq![
        Mesh { first: Paint::Red, second: Paint::White, third: Paint::Green, fourth: Paint::Blue },
        Mesh {
            first: Paint::Yellow,
            second: Paint::White,
            third: Paint::Purple,
            fourth: Paint::Red,
        },
        Mesh {
            first: Paint::Orange,
            second: Paint::Blue,
            third: Paint::White,
            fourth: Paint::Yellow,
        },
        Mesh {
            first: Paint::Purple,
            second: Paint::Yellow,
            third: Paint::White,
            fourth: Paint::Blue,
        },
    ]
}

/// The meshes to choose from: the four of `vertex_colors`.
#[derive(Debug)]
pub struct Meshes {
    meshes: Vec<Mesh>,
}

impl Meshes {
    #[verifier::type_invariant]
    spec fn holds_the_table(self) -> bool {
        self.meshes@ == vertex_colors()
    }
}

impl View for Meshes {
    type V = Seq<Mesh>;

    closed spec fn view(&self) -> Seq<Mesh> {
        self.meshes@
    }
}

/// `rand::random::<usize>()`: a number drawn by the thread's generator.
/// Nothing is known of it.
#[verifier::external_body]
fn random_usize() -> usize {
    rand::random::<usize>()
}

impl Meshes {
    pub fn len(&self) -> (n: usize)
        ensures
            n == self@.len(),
    {
        self.meshes.len()
    }

    /// The mesh at `index`.
    pub fn get(&self, index: usize) -> (mesh: Option<Mesh>)
        ensures
            mesh == if index < self@.len() {
                Some(self@[index as int])
            } else {
                None
            },
    {
        if index < self.meshes.len() {
            Some(self.meshes[index])
        } else {
            None
        }
    }

    /// The mesh that the drawn number `draw` selects.
    pub fn pick(&self, draw: usize) -> (mesh: Mesh)
        ensures
            self@ == vertex_colors(),
            mesh == self@[(draw as int) % 4],
    {
        proof {
            use_type_invariant(self);
        }
        self.meshes[draw % self.meshes.len()]
    }

    /// One of the meshes, drawn at random.
    pub fn get_random(&self) -> (mesh: Mesh)
        ensures
            self@.contains(mesh),
    {
        let draw = random_usize();
        self.pick(draw)
    }
}

/// Builds the meshes.
pub fn generate_textures() -> (meshes: Meshes)
    ensures
        meshes@ == vertex_colors(),
{
    let mut meshes: Vec<Mesh> = Vec::new();
    meshes.push(
        Mesh { first: Paint::Red, second: Paint::White, third: Paint::Green, fourth: Paint::Blue },
    );
    meshes.push(
        Mesh {
            first: Paint::Yellow,
            second: Paint::White,
            third: Paint::Purple,
            fourth: Paint::Red,
        },
    );
    meshes.push(
        Mesh {
            first: Paint::Orange,
            second: Paint::Blue,
            third: Paint::White,
            fourth: Paint::Yellow,
        },
    );
    meshes.push(
        Mesh {
            first: Paint::Purple,
            second: Paint::Yellow,
            third: Paint::White,
            fourth: Paint::Blue,
        },
    );
    assert(meshes@ =~= vertex_colors());
    Meshes { meshes }
}

/// Width and height of a texture, in pixels.
pub const TEXTURE_SIZE: u32 = 512;

/// The bytes of white pixels with the given opacities: red, green, blue and
/// opacity of the first pixel, then of the second, and so on.
pub open spec fn white_with_alpha(alphas: Seq<u8>) -> Seq<u8> {
    Seq::new(
        4 * alphas.len(),
        |i: int|
            if i % 4 == 3 {
                alphas[i / 4]
            } else {
                255u8
            },
    )
}

/// Lays out white pixels of the given opacities as bytes.
pub fn white_pixels(alphas: &Vec<u8>) -> (pixels: Vec<u8>)
    ensures
        pixels@ == white_with_alpha(alphas@),
{
    let mut pixels: Vec<u8> = Vec::new();
    let mut i: usize = 0;
    while i < alphas.len()
        invariant
            i <= alphas.len(),
            pixels@ == white_with_alpha(alphas@.take(i as int)),
        decreases alphas.len() - i,
    {
        pixels.push(255);
        pixels.push(255);
        pixels.push(255);
        pixels.push(alphas[i]);
        i = i + 1;
    }
    pixels
}

} // verus!
