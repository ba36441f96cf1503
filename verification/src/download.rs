//! Names and places of the texture archives offered by ambientCG.
use vstd::prelude::*;
use std::path::{Path, PathBuf};

verus! {

#[verifier::external_type_specification]
#[verifier::external_body]
pub struct ExPathBuf(PathBuf);

/// The path `root.join(file)` makes: `file` adjoined to `root` as `PathBuf::push` does it.
pub uninterp spec fn path_joined(root: PathBuf, file: Seq<char>) -> PathBuf;

/// `Path::join`: a new path with `file` adjoined to `root`.
#[verifier::external_body]
fn path_join(root: &PathBuf, file: &str) -> (r: PathBuf)
    ensures
        r == path_joined(*root, file@),
{
    Path::join(root, file)
}

/// The resolutions in which a texture can be fetched.
#[allow(non_camel_case_types)]
#[derive(Clone, Copy, Debug, PartialEq, Eq)]
pub enum ACGQuality {
    PNG_1K,
    PNG_2K,
    PNG_4K,
}

impl ACGQuality {
    /// The name of the resolution as the archive names spell it.
    pub open spec fn label(self) -> Seq<char> {
        match self {
            ACGQuality::PNG_1K => "1K-PNG"@,
            ACGQuality::PNG_2K => "2K-PNG"@,
            ACGQuality::PNG_4K => "4K-PNG"@,
        }
    }

    /// The name of the resolution as the archive names spell it.
    pub fn to_string(&self) -> (r: String)
        ensures
            r@ == self.label(),
    {
        match self {
            ACGQuality::PNG_1K => String::from_str("1K-PNG"),
            ACGQuality::PNG_2K => String::from_str("2K-PNG"),
            ACGQuality::PNG_4K => String::from_str("4K-PNG"),
        }
    }
}

/// Fetches texture archives into a local directory.
pub struct ACGDownloader {
    root: PathBuf,
    qual: ACGQuality,
}

impl ACGDownloader {
    /// The directory that holds the archives.
    pub closed spec fn root_spec(self) -> PathBuf {
        self.root
    }

    /// The resolution that is fetched.
    pub closed spec fn quality(self) -> ACGQuality {
        self.qual
    }

    /// The archive name of the texture `name`: `<name>_<quality>.zip`.
    pub open spec fn filename_spec(self, name: Seq<char>) -> Seq<char> {
        name + "_"@ + self.quality().label() + ".zip"@
    }

    /// A downloader that keeps its archives in `root`. The directory itself
    /// is made by the caller.
    pub fn new(root: PathBuf, qual: ACGQuality) -> (r: Self)
        ensures
            r.root_spec() == root,
            r.quality() == qual,
    {
        ACGDownloader { root, qual }
    }

    /// The archive name of the texture `name`.
    pub fn filename(&self, name: &str) -> (r: String)
        ensures
            r@ == self.filename_spec(name@),
    {
        let mut r = String::from_str(name);
        r.append("_");
        let q = self.qual.to_string();
        r.append(q.as_str());
        r.append(".zip");
        proof {
            reveal_strlit("_");
            reveal_strlit(".zip");
        }
        r
    }

    /// Where the archive of the texture `name` is kept.
    pub fn fullname(&self, name: &str) -> (r: PathBuf)
        ensures
            r == path_joined(self.root_spec(), self.filename_spec(name@)),
    {
        let file = self.filename(name);
        path_join(&self.root, file.as_str())
    }

    /// The address from which the archive of the texture `name` is fetched.
    pub fn download_url(&self, name: &str) -> (r: String)
        ensures
            r@ == "https://ambientcg.com/get?file="@ + self.filename_spec(name@),
    {
        let mut r = String::from_str("https://ambientcg.com/get?file=");
        let file = self.filename(name);
        r.append(file.as_str());
        r
    }
}

} // verus!
