//! Colours and materials named in colony description files.
use vstd::prelude::*;

verus! {

/// Colour of a light placed in a colony.
#[derive(Debug, Clone, Copy, PartialEq, Eq, Structural)]
pub enum ColorAsset {
    White,
    OrangeRed,
    SeaGreen,
    LimeGreen,
    Red,
    Unknwon,
}

impl Default for ColorAsset {
    /// A light whose colour is not given is `Unknwon`.
    fn default() -> (r: Self)
        ensures
            r == ColorAsset::Unknwon,
    {
        ColorAsset::Unknwon
    }
}

/// Material of a zone or node placed in a colony.
#[derive(Debug, Clone, Copy, PartialEq, Eq, Structural)]
pub enum MaterialAsset {
    Green,
    Blue,
    OrangeRed,
    SeaGreen,
    Unknown,
}

impl Default for MaterialAsset {
    /// A zone whose material is not given is `Unknown`.
    fn default() -> (r: Self)
        ensures
            r == MaterialAsset::Unknown,
    {
        MaterialAsset::Unknown
    }
}

/// The loaded material handles of the client, one per catalogue entry.
pub struct MaterialAssets<H> {
    pub green_material: H,
    pub blue_material: H,
    pub orange_red: H,
    pub sea_green: H,
    pub pink_material: H,
}

impl<H> MaterialAssets<H> {
    /// The handle that renders `asset_material`; materials that are not
    /// known are drawn pink.
    pub fn get_material(&self, asset_material: &MaterialAsset) -> (r: &H)
        ensures
            *r == match *asset_material {
                MaterialAsset::Green => self.green_material,
                MaterialAsset::Blue => self.blue_material,
                MaterialAsset::OrangeRed => self.orange_red,
                MaterialAsset::SeaGreen => self.sea_green,
                MaterialAsset::Unknown => self.pink_material,
            },
    {
        match asset_material {
            MaterialAsset::Green => &self.green_material,
            MaterialAsset::Blue => &self.blue_material,
            MaterialAsset::OrangeRed => &self.orange_red,
            MaterialAsset::SeaGreen => &self.sea_green,
            MaterialAsset::Unknown => &self.pink_material,
        }
    }
}

/// Colour of a colony element, as written in a colony file.
#[derive(Debug, Clone, Copy, PartialEq, Eq, Structural)]
pub enum AssetColor {
    OrangeRed,
    SeaGreen,
    LimeGreen,
    Red,
    Unknwon,
}

impl Default for AssetColor {
    /// An element whose colour is not given is `Unknwon`.
    fn default() -> (r: Self)
        ensures
            r == AssetColor::Unknwon,
    {
        AssetColor::Unknwon
    }
}

/// The named colours of the renderer's palette that colony elements use.
#[derive(Debug, Clone, Copy, PartialEq, Eq, Structural)]
pub enum PaletteColor {
    OrangeRed,
    SeaGreen,
    LimeGreen,
    Red,
    Pink,
}

/// The palette colour drawn for each colony colour.
pub open spec fn palette_of(color: AssetColor) -> PaletteColor {
    match color {
        AssetColor::OrangeRed => PaletteColor::OrangeRed,
        AssetColor::SeaGreen => PaletteColor::SeaGreen,
        AssetColor::LimeGreen => PaletteColor::LimeGreen,
        AssetColor::Red => PaletteColor::Red,
        AssetColor::Unknwon => PaletteColor::Pink,
    }
}

impl AssetColor {
    /// The palette colour to draw; an unknown colour is drawn pink.
    pub fn get_color(&self) -> (r: PaletteColor)
        ensures
            r == palette_of(*self),
    {
        match self {
            AssetColor::OrangeRed => PaletteColor::OrangeRed,
            AssetColor::SeaGreen => PaletteColor::SeaGreen,
            AssetColor::LimeGreen => PaletteColor::LimeGreen,
            AssetColor::Red => PaletteColor::Red,
            AssetColor::Unknwon => PaletteColor::Pink,
        }
    }
}

} // verus!
