//! Editor-side data: entity names, gizmo and request enums, texture sources
//! and the procedural checkerboard texture.
use crate::text::{decimal, u32_decimal, u8_decimal};
use vstd::prelude::*;
use vstd::string::StringExecFns;

verus! {

/// Human-readable name shown in the hierarchy.
#[derive(Clone)]
pub struct Name(pub String);

impl Name {
    pub fn new(name: &str) -> (n: Name)
        ensures
            n.0@ == name@,
    {
        Name(name.to_owned())
    }
}

#[derive(Clone, Copy, PartialEq, Eq, Structural)]
pub enum GizmoMode {
    Translate,
    Rotate,
    Scale,
}

impl Default for GizmoMode {
    fn default() -> (m: Self)
        ensures
            m == GizmoMode::Translate,
    {
        GizmoMode::Translate
    }
}

#[derive(Clone, Copy, PartialEq, Eq, Structural)]
pub enum Axis {
    X,
    Y,
    Z,
}

#[derive(Clone, Copy)]
pub enum DragTarget {
    Axis(Axis),
    Free,
}

/// The axes a gizmo offers: X, Y and Z in 3D, X and Y in 2D.
pub fn axes(is_3d: bool) -> (a: Vec<Axis>)
    ensures
        a@ == if is_3d {
            seq![Axis::X, Axis::Y, Axis::Z]
        } else {
            seq![Axis::X, Axis::Y]
        },
{
    let mut a = Vec::new();
    a.push(Axis::X);
    a.push(Axis::Y);
    if is_3d {
        a.push(Axis::Z);
    }
    proof {
        if is_3d {
            assert(a@ =~= seq![Axis::X, Axis::Y, Axis::Z]);
        } else {
            assert(a@ =~= seq![Axis::X, Axis::Y]);
        }
    }
    a
}

#[derive(Clone, Copy)]
pub enum PlayRequest {
    Start,
    Stop,
}

/// What an editor I/O menu action wants to do.
#[derive(Clone, Copy)]
pub enum IoRequest {
    Save,
    Load,
}

/// Where a texture comes from, so procedural textures round-trip in scenes.
#[derive(Clone, PartialEq, Eq, Debug)]
pub enum TextureSource {
    Checker { size: u32, cells: u32 },
    Solid { rgba: [u8; 4] },
    File { path: String },
}

/// `[a, b, c, d]`, as `{:?}` writes a `[u8; 4]`.
pub open spec fn bytes_debug(b: Seq<u8>) -> Seq<char> {
    "["@ + decimal(b[0] as nat) + ", "@ + decimal(b[1] as nat) + ", "@ + decimal(b[2] as nat) + ", "@
        + decimal(b[3] as nat) + "]"@
}

impl TextureSource {
    /// The deduplication key of this source.
    pub open spec fn spec_key(&self) -> Seq<char> {
        match self {
            TextureSource::Checker { size, cells } => "checker:"@ + decimal(*size as nat) + ":"@
                + decimal(*cells as nat),
            TextureSource::Solid { rgba } => "solid:"@ + bytes_debug(rgba@),
            TextureSource::File { path } => "file:"@ + path@,
        }
    }

    pub fn key(&self) -> (k: String)
        ensures
            k@ == self.spec_key(),
    {
        match self {
            TextureSource::Checker { size, cells } => {
                let mut k = "checker:".to_owned();
                k.append(u32_decimal(*size).as_str());
                k.append(":");
                k.append(u32_decimal(*cells).as_str());
                k
            },
            TextureSource::Solid { rgba } => {
                let mut k = "solid:[".to_owned();
                k.append(u8_decimal(rgba[0]).as_str());
                k.append(", ");
                k.append(u8_decimal(rgba[1]).as_str());
                k.append(", ");
                k.append(u8_decimal(rgba[2]).as_str());
                k.append(", ");
                k.append(u8_decimal(rgba[3]).as_str());
                k.append("]");
                proof {
                    reveal_strlit("solid:[");
                    reveal_strlit("solid:");
                    reveal_strlit("[");
                    assert("solid:["@ =~= "solid:"@ + "["@);
                    assert(k@ =~= self.spec_key());
                }
                k
            },
            TextureSource::File { path } => "file:".to_owned().concat(path.as_str()),
        }
    }
}

/// Side of a checkerboard cell, in pixels: the texture size over the cell
/// count, at least one.
pub open spec fn cell_side(size: u32, cells: u32) -> nat {
    let c = size as nat / cells as nat;
    if c >= 1 {
        c
    } else {
        1
    }
}

/// Whether pixel `(x, y)` lies on a light cell.
pub open spec fn is_light(cell: nat, x: nat, y: nat) -> bool {
    ((x / cell) + (y / cell)) % 2 == 0
}

/// Channel `c` of a pixel on a light or dark cell (RGBA, opaque).
pub open spec fn channel(light: bool, c: nat) -> u8 {
    if c == 3 {
        255
    } else if light {
        if c == 2 {
            245
        } else {
            235
        }
    } else {
        if c == 2 {
            95
        } else {
            70
        }
    }
}

/// Byte `k` of the RGBA8 checkerboard of side `size` with `cells` cells per
/// side, rows top to bottom.
pub open spec fn checker_byte(size: u32, cells: u32, k: nat) -> u8 {
    let p = k / 4;
    channel(is_light(cell_side(size, cells), p % size as nat, p / size as nat), k % 4)
}

proof fn lemma_pixel_index(size: nat, x: nat, y: nat, c: nat)
    requires
        x < size,
        c < 4,
    ensures
        ({
            let k = 4 * (y * size + x) + c;
            &&& k / 4 == y * size + x
            &&& k % 4 == c
            &&& (y * size + x) % size == x
            &&& (y * size + x) / size == y
        }),
{
    let p = y * size + x;
    vstd::arithmetic::div_mod::lemma_fundamental_div_mod_converse((4 * p + c) as int, 4, p as int, c as int);
    vstd::arithmetic::div_mod::lemma_fundamental_div_mod_converse(p as int, size as int, y as int, x as int);
    assert(y * size == size * y) by (nonlinear_arith);
}

/// An RGBA8 checkerboard of side `size`, split into `cells` light and dark
/// cells per side (light in the top-left corner).
pub fn checkerboard(size: u32, cells: u32) -> (pixels: Vec<u8>)
    requires
        cells > 0,
        size * size * 4 <= u32::MAX,
    ensures
        pixels@.len() == size * size * 4,
        forall|k: int| 0 <= k < pixels@.len() ==> #[trigger] pixels@[k] == checker_byte(size, cells, k as nat),
{
    let quot = size / cells;
    let cell = if quot >= 1 {
        quot
    } else {
        1
    };
    let mut pixels: Vec<u8> = Vec::with_capacity((size * size * 4) as usize);
    let mut y: u32 = 0;
    while y < size
        invariant
            cells > 0,
            size * size * 4 <= u32::MAX,
            cell == cell_side(size, cells),
            y <= size,
            pixels@.len() == 4 * (y * size),
            forall|k: int| 0 <= k < pixels@.len() ==> #[trigger] pixels@[k] == checker_byte(size, cells, k as nat),
        decreases size - y,
    {
        let mut x: u32 = 0;
        while x < size
            invariant
                cells > 0,
                size * size * 4 <= u32::MAX,
                cell == cell_side(size, cells),
                y < size,
                x <= size,
                pixels@.len() == 4 * (y * size + x),
                forall|k: int| 0 <= k < pixels@.len() ==> #[trigger] pixels@[k] == checker_byte(size, cells, k as nat),
            decreases size - x,
        {
            proof {
                assert(size <= 65535) by (nonlinear_arith)
                    requires
                        size * size * 4 <= u32::MAX,
                ;
                assert(x / cell <= x) by (nonlinear_arith)
                    requires
                        cell >= 1,
                ;
                assert(y / cell <= y) by (nonlinear_arith)
                    requires
                        cell >= 1,
                ;
            }
            let on = ((x / cell) + (y / cell)) % 2 == 0;
            let (r, g, b) = if on {
                (235u8, 235u8, 245u8)
            } else {
                (70u8, 70u8, 95u8)
            };
            proof {
                assert((y + 1) * size == y * size + size) by (nonlinear_arith);
                assert((y + 1) * size <= size * size) by (nonlinear_arith)
                    requires y < size;
                assert(on == is_light(cell as nat, x as nat, y as nat));
                lemma_pixel_index(size as nat, x as nat, y as nat, 0);
                lemma_pixel_index(size as nat, x as nat, y as nat, 1);
                lemma_pixel_index(size as nat, x as nat, y as nat, 2);
                lemma_pixel_index(size as nat, x as nat, y as nat, 3);
            }
            let ghost base = pixels@.len();
            pixels.push(r);
            pixels.push(g);
            pixels.push(b);
            pixels.push(255u8);
            proof {
                assert forall|k: int| 0 <= k < pixels@.len() implies #[trigger] pixels@[k] == checker_byte(
                    size,
                    cells,
                    k as nat,
                ) by {
                    if k >= base {
                        let c = (k - base) as nat;
                        lemma_pixel_index(size as nat, x as nat, y as nat, c);
                    }
                }
            }
            x = x + 1;
        }
        proof {
            assert(4 * (y * size + size) == 4 * ((y + 1) * size)) by (nonlinear_arith);
        }
        y = y + 1;
    }
    pixels
}

} // verus!
