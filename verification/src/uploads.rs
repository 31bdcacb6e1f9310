//! The verified part of multipart file uploads: recognizing a multipart
//! request and describing upload destinations.  The stream parsing and the
//! writes to disk or object storage belong to the host around the library.

use vstd::prelude::*;

verus! {

use vstd::string::StringExecFns;
use crate::strutil::str_eq;

/// Whether the content type names a multipart form submission.
pub fn is_multipart_request(content_type: String) -> (r: bool)
    ensures
        r == (content_type@ == "multipart/form-data"@),
{
    str_eq(content_type.as_str(), "multipart/form-data")
}

/// An upload destination on the local file system.
#[derive(Debug)]
pub struct DirectoryUploadDestination {
    pub directory: String,
}

impl DirectoryUploadDestination {
    pub fn new(directory: &str) -> (r: Self)
        ensures
            r.directory@ == directory@,
    {
        Self { directory: String::from_str(directory) }
    }

    pub fn get_directory(&self) -> (r: &str)
        ensures
            r@ == self.directory@,
    {
        self.directory.as_str()
    }
}

/// An upload destination in an S3-compatible object store.
#[derive(Debug)]
pub struct S3UploadDestination {
    pub endpoint: String,
    pub region: String,
    pub bucket: String,
    pub key: String,
    pub secret: String,
    pub path_prefix: String,
}

impl S3UploadDestination {
    /// The object name under which a file is stored: the prefix, a `/`,
    /// and the file name.
    pub fn object_name(&self, file_name: &str) -> (r: String)
        ensures
            r@ == self.path_prefix@ + "/"@ + file_name@,
    {
        let mut s = self.path_prefix.clone();
        s.append("/");
        s.append(file_name);
        s
    }
}

} // verus!
