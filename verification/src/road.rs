//! Road surface pieces: which texture each pavement pattern uses, and how a
//! texture name becomes the atlas path of its image.

use crate::tilemap::PavementLayout;
use vstd::prelude::*;

verus! {

/// The textures a road tile can show.
#[derive(PartialEq, Eq, Structural, Debug, Clone, Copy)]
pub enum RoadTexture {
    Pavement,
    PavementTurn,
    PavementT,
    PavementCross,
}

impl RoadTexture {
    /// Each texture's name in the atlas manifest.
    pub open spec fn spec_name(self) -> Seq<char> {
        match self {
            RoadTexture::Pavement => "pavement"@,
            RoadTexture::PavementTurn => "pavement_turn"@,
            RoadTexture::PavementT => "pavement_t"@,
            RoadTexture::PavementCross => "pavement_cross"@,
        }
    }

    /// The texture's name in the atlas manifest.
    pub fn texture_name(&self) -> (r: &'static str)
        ensures
            r@ == self.spec_name(),
    {
        match self {
            RoadTexture::Pavement => "pavement",
            RoadTexture::PavementTurn => "pavement_turn",
            RoadTexture::PavementT => "pavement_t",
            RoadTexture::PavementCross => "pavement_cross",
        }
    }
}

/// A road piece of a tile, carrying the texture it shows.
pub struct Road {
    pub texture: RoadTexture,
}

/// The texture that paves each pavement pattern.
pub fn layout_texture(layout: PavementLayout) -> (t: RoadTexture)
    ensures
        t == match layout {
            PavementLayout::Cross => RoadTexture::PavementCross,
            PavementLayout::TJunction => RoadTexture::PavementT,
            PavementLayout::Straight => RoadTexture::Pavement,
            PavementLayout::Turn => RoadTexture::PavementTurn,
        },
{
    match layout {
        PavementLayout::Cross => RoadTexture::PavementCross,
        PavementLayout::TJunction => RoadTexture::PavementT,
        PavementLayout::Straight => RoadTexture::Pavement,
        PavementLayout::Turn => RoadTexture::PavementTurn,
    }
}

/// The path of a texture's image inside the asset tree: the texture's name
/// as a directory, then the name again with the image suffix.
pub fn texture_path(name: &str) -> (r: String)
    ensures
        r@ == name@ + "/"@ + name@ + ".png"@,
{
    String::from_str(name).concat("/").concat(name).concat(".png")
}

} // verus!
