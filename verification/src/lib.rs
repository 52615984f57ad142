//! A catalog of launchable desktop applications for a launcher to list and
//! to start.
//!
//! The library decides and the host acts: it reads no file and runs no
//! program. A [`Scan`] tells the host which directory to list and which file
//! to read, and builds the catalog from what the host found; [`get_entries`]
//! lists the records that match a query; [`handle_selection`] and
//! [`execute_gio_launch`] tell the host, step by step, which program to run
//! to start a selected application.
//!
//! - [`text`]: whitespace, trimming, lines, search.
//! - [`paths`]: what a scan asks of a path.
//! - [`descriptor`]: the record of an application and the parser of descriptors.
//! - [`environment`]: the home directory and the shared data directories.
//! - [`catalog`]: the directories of a scan, and the catalog with its one record per name.
//! - [`scan`]: the scan, step by step.
//! - [`entries`]: the listing for a query.
//! - [`launch`]: the launch, step by step.
//! - [`plugin`]: the plugin's card and its configuration.

pub mod catalog;
pub mod descriptor;
pub mod entries;
pub mod environment;
pub mod launch;
pub mod paths;
pub mod plugin;
pub mod scan;
pub mod text;

pub use crate::catalog::{load_applications, Catalog, CatalogError, DescriptorFile};
pub use crate::descriptor::{parse_desktop_file, AppInfo};
pub use crate::entries::{filter_applications, get_entries, Entry, EntryList};
pub use crate::launch::{
    command_line, execute_gio_launch, handle_selection, CommandLine, LaunchEvent, LaunchStep,
};
pub use crate::plugin::{init_config, plugin_info, PluginInfo};
pub use crate::scan::{Scan, ScanAction, ScanEvent};
