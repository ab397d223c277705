//! Where things are kept under the data root.
//!
//! The library opens no file. It names places, and leaves it to its caller
//! to turn a place into a path of the host and to read or write there.

use vstd::prelude::*;
use crate::mapping::PortMapping;

verus! {

/// A place directly under a data root: the root, and the name of the file
/// or folder in it.
#[derive(Debug, Clone, PartialEq, Eq)]
pub struct DataPath {
    /// The data root, as the caller gave it.
    pub root: String,
    /// The name of the file or folder under the root.
    pub name: String,
}

/// The name of the mapping file.
pub open spec fn mapping_file_name() -> Seq<char> {
    "port_mapping.yml"@
}

/// The folder that holds the user interface of `app_id`: it is named after
/// the application and lies directly under the data root.
pub fn app_ui_folder_path(data_root: String, app_id: String) -> (folder: DataPath)
    ensures
        folder.root@ == data_root@,
        folder.name@ == app_id@,
{
    DataPath { root: data_root, name: app_id }
}

impl PortMapping {
    /// The mapping file: it lies directly under the data root.
    pub fn path(data_root: String) -> (file: DataPath)
        ensures
            file.root@ == data_root@,
            file.name@ == mapping_file_name(),
    {
        DataPath { root: data_root, name: "port_mapping.yml".to_string() }
    }
}

} // verus!
