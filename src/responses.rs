//! Shapes of the data exchanged with the front end.

use vstd::prelude::*;

verus! {

/// A file shown to the user.
#[derive(Debug)]
pub struct FileMeta {
    pub name: String,
    pub file_type: String,
    pub path: String,
}

/// Raw and processed files of a processing step.
#[derive(Debug)]
pub struct FilesResponse {
    pub raw: Vec<FileMeta>,
    pub processed: Vec<FileMeta>,
}

/// A processing step's status, report and files.
#[derive(Debug)]
pub struct StandardResponse<T> {
    pub status: String,
    pub report: T,
    pub files: FilesResponse,
}

/// A group of samples taken at one location.
#[derive(Debug)]
pub struct SampleGroup {
    pub id: String,
    pub loc_id: String,
}

/// A measurement channel of an instrument.
#[derive(Debug)]
pub struct Channel {
    pub channel_id: i32,
    pub long_name: String,
}

} // verus!
