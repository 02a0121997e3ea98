//! Recovering the bundled asset files of an installed Minecraft version.
//!
//! The library locates the installation root for a platform, names the
//! version's archive under it, and picks out of the archive's bytes the
//! entries under `assets/minecraft`, each with the path it is to be written
//! to. Reading the environment and the archive file, and writing the picked
//! files, is left to the caller.

pub mod archive;
pub mod error;
pub mod extract;
pub mod locate;
pub mod name;

pub use error::{EnvError, MinecraftError, MinecraftResult};
pub use name::{is_asset_name, sanitize_filename};
pub use extract::{extract_entries, extract_entry, fetch_assets, AssetFile, Extraction};
pub use locate::{vanilla_root_path, version_archive_path, LocalPath, Platform};
