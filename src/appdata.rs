use vstd::prelude::*;

use std::collections::HashMap;

use crate::capture::CaptureError;
use crate::files::{dark_map_exp_of, parse_dark_map_file_name};
use vstd::string::StringSliceAdditionalSpecFns;

verus! {

broadcast use vstd::std_specs::hash::group_hash_axioms;

/// Where the correction maps found on disk live: one dark-map file per exposure time and the
/// defect-map file, if any.
pub struct AppData {
    dark_maps_files: HashMap<u32, String>,
    defect_map: Option<String>,
}

impl AppData {
    /// The dark-map file for each exposure time.
    pub closed spec fn dark_files(&self) -> Map<u32, String> {
        self.dark_maps_files@
    }

    /// The defect-map file, if any.
    pub closed spec fn defect_file(&self) -> Option<String> {
        self.defect_map
    }

    /// No dark-map file yet, and the given defect-map file.
    pub fn new(defect_map: Option<String>) -> (r: AppData)
        ensures
            r.dark_files() == Map::<u32, String>::empty(),
            r.defect_file() == defect_map,
    {
        AppData { dark_maps_files: HashMap::new(), defect_map }
    }

    /// Records the file `path` found in the dark-map directory under the name `file_name`:
    /// a name `DarkMap_<digits>ms.tif` is recorded for its exposure time, any other name is
    /// ignored. Returns the exposure time recorded.
    pub fn add_dark_map_file(&mut self, file_name: &str, path: String) -> (r: Option<u32>)
        ensures
            r == dark_map_exp_of(file_name.spec_bytes()),
            r is Some ==> final(self).dark_files() == old(self).dark_files().insert(r->0, path),
            r is None ==> final(self).dark_files() == old(self).dark_files(),
            final(self).defect_file() == old(self).defect_file(),
    {
        let exp = parse_dark_map_file_name(file_name);
        match exp {
            Some(e) => {
                self.dark_maps_files.insert(e, path);
            },
            None => {},
        }
        exp
    }

    /// The dark-map file for `exp_time`; `Unknown` when there is none.
    pub fn dark_map(&self, exp_time: u32) -> (r: Result<&String, CaptureError>)
        ensures
            self.dark_files().contains_key(exp_time) ==> r is Ok && *r->Ok_0 == self.dark_files()[exp_time],
            !self.dark_files().contains_key(exp_time) ==> r == Err::<&String, CaptureError>(
                CaptureError::Unknown,
            ),
    {
        match self.dark_maps_files.get(&exp_time) {
            Some(path) => Ok(path),
            None => Err(CaptureError::Unknown),
        }
    }

    /// All dark-map files, by exposure time.
    pub fn dark_maps(&self) -> (r: &HashMap<u32, String>)
        ensures
            r@ == self.dark_files(),
    {
        &self.dark_maps_files
    }

    /// The defect-map file, if any.
    pub fn defect_map(&self) -> (r: Option<&String>)
        ensures
            r is Some <==> self.defect_file() is Some,
            r is Some ==> *r->0 == self.defect_file()->0,
    {
        self.defect_map.as_ref()
    }
}

} // verus!
