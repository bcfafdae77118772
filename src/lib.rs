//! Color catalog core: hex parsing, RGB to HSL conversion, family
//! classification, per-library catalogs and a wrap-around list model.

pub mod conversion;
pub mod infinite_model;
pub mod library;
pub mod model;

pub use conversion::{classify_family, hex_to_rgb, rgb_to_hsl};
pub use infinite_model::{InfiniteListModel, DEFAULT_MULTIPLIER, MAX_COUNT};
pub use library::{hue_order, load_solid_coated_colors, load_tcx_colors, sort_by_hue, ColorDatabase};
pub use model::{ColorFamily, ColorLibrary, Hsl, PantoneColor, Rgb, SortOrder};
