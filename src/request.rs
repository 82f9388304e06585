use vstd::prelude::*;

verus! {

/// One file to place in the archive: where to read it, and the name it gets
/// inside the archive.
pub struct FileRequest {
    pub path: String,
    pub arcname: String,
}

impl FileRequest {
    pub fn new(path: String, arcname: String) -> (r: FileRequest)
        ensures
            r.path@ == path@,
            r.arcname@ == arcname@,
    {
        FileRequest { path, arcname }
    }
}

} // verus!
