//! Package identities.

use crate::doc_id::DocId;
use crate::version::{Version, VersionView, version_chars};
use vstd::prelude::*;

verus! {

/// Mathematical model of a package identity.
pub struct CrateIdView {
    pub name: Seq<char>,
    pub version: VersionView,
}

/// A specified name and version of a package.
#[derive(Debug)]
pub struct CrateId {
    pub name: String,
    pub version: Version,
}

impl View for CrateId {
    type V = CrateIdView;

    open spec fn view(&self) -> CrateIdView {
        CrateIdView { name: self.name@, version: self.version@ }
    }
}

/// The canonical path of a package: `name/version`.
pub open spec fn crate_path_chars(c: CrateIdView) -> Seq<char> {
    c.name + seq!['/'] + version_chars(c.version)
}

/// The canonical document key of a package: `registry/name/version`.
pub open spec fn crate_doc_key(c: CrateIdView) -> Seq<char> {
    "registry/"@ + c.name + seq!['/'] + version_chars(c.version)
}

impl Clone for CrateId {
    /// A clone carries the same model.
    fn clone(&self) -> (r: Self)
        ensures
            r@ == self@,
    {
        CrateId { name: self.name.clone(), version: self.version.clone() }
    }
}

impl CrateId {
    /// Pair a package name with a version.
    pub fn new(name: String, version: Version) -> (r: Self)
        ensures
            r@.name == name@,
            r@.version == version@,
    {
        CrateId { name, version }
    }

    /// The two identities hold the same model.
    pub fn same_as(&self, other: &CrateId) -> (r: bool)
        ensures
            r == (self@ == other@),
    {
        self.name == other.name && self.version.same_as(&other.version)
    }

    /// The canonical path string, `name/version`.
    pub fn path(&self) -> (r: String)
        ensures
            r@ == crate_path_chars(self@),
    {
        proof {
            reveal_strlit("/");
        }
        let mut out = self.name.clone();
        out.append("/");
        let vtext = self.version.to_text();
        out.append(vtext.as_str());
        proof {
            assert(out@ =~= crate_path_chars(self@));
        }
        out
    }

    /// The canonical document key, `registry/name/version`.
    pub fn into_doc_id(&self) -> (r: DocId)
        ensures
            r@ == crate_doc_key(self@),
    {
        proof {
            reveal_strlit("registry/");
            reveal_strlit("/");
        }
        let mut out = "registry/".to_owned();
        out.append(self.name.as_str());
        out.append("/");
        let vtext = self.version.to_text();
        out.append(vtext.as_str());
        proof {
            assert(out@ =~= crate_doc_key(self@));
        }
        DocId::new(out)
    }
}

} // verus!
