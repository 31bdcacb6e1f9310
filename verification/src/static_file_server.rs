//! A static-file-serving middleware's verified part: the folder-path
//! normalization at construction and the file-location computation.  The
//! file I/O itself belongs to the host around the library.

use vstd::prelude::*;

verus! {

use vstd::string::StrSliceExecFns;
use vstd::string::StringExecFns;

/// Serves files from a folder, keyed by the request path.
#[derive(Clone, Debug)]
pub struct StaticFileServer {
    pub folder_path: String,
}

/// The folder path with one trailing `/` stripped.
pub open spec fn spec_strip_slash(p: Seq<char>) -> Seq<char> {
    if p.len() >= 1 && p.last() == '/' {
        p.drop_last()
    } else {
        p
    }
}

impl StaticFileServer {
    /// Records the folder, with one trailing `/` stripped.
    pub fn create(folder_path: &str) -> (r: StaticFileServer)
        ensures
            r.folder_path@ == spec_strip_slash(folder_path@),
    {
        let len = folder_path.unicode_len();
        if len >= 1 && folder_path.get_char(len - 1) == '/' {
            let stripped = String::from_str(folder_path.substring_char(0, len - 1));
            proof {
                assert(stripped@ =~= folder_path@.drop_last());
            }
            StaticFileServer { folder_path: stripped }
        } else {
            StaticFileServer { folder_path: String::from_str(folder_path) }
        }
    }

    /// The on-disk location backing a request path: the folder followed by
    /// the path.
    pub fn file_location(&self, path: &str) -> (r: String)
        ensures
            r@ == self.folder_path@ + path@,
    {
        let mut s = self.folder_path.clone();
        s.append(path);
        s
    }
}

/// A static file server over the folder.
pub fn static_server(folder_path: &str) -> (r: StaticFileServer)
    ensures
        r.folder_path@ == spec_strip_slash(folder_path@),
{
    StaticFileServer::create(folder_path)
}

} // verus!
