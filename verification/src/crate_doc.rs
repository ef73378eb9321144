//! The stored document of a package.

use crate::crate_id::{CrateId, CrateIdView, crate_doc_key};
use crate::doc_id::{DocId, HasDocId};
use crate::error::ApiError;
use crate::manifest::{ManifestPackage, MaybeLocal, TextOrFlag};
use crate::text::{clone_string_vec, opt_chars, texts_of};
use crate::version::{Version, parse_matches};
use vstd::prelude::*;

verus! {

/// Mathematical model of a package document.
pub struct CrateDocView {
    pub key: Seq<char>,
    pub crate_id: CrateIdView,
    pub readme: Seq<char>,
    pub repository: Option<Seq<char>>,
    pub description: Option<Seq<char>>,
    pub keywords: Seq<Seq<char>>,
    pub authors: Seq<Seq<char>>,
}

/// Extracted package information from a manifest, stored once per package
/// identity; materializing the same identity again rewrites the same key.
#[derive(Debug)]
pub struct CrateDoc {
    /// The stored key, derived from the package identity.
    pub id: DocId,
    pub crate_id: CrateId,
    pub readme: String,
    pub repository: Option<String>,
    pub description: Option<String>,
    pub keywords: Vec<String>,
    pub authors: Vec<String>,
}

impl View for CrateDoc {
    type V = CrateDocView;

    open spec fn view(&self) -> CrateDocView {
        CrateDocView {
            key: self.id@,
            crate_id: self.crate_id@,
            readme: self.readme@,
            repository: opt_chars(self.repository),
            description: opt_chars(self.description),
            keywords: texts_of(self.keywords@),
            authors: texts_of(self.authors@),
        }
    }
}

impl HasDocId for CrateDoc {
    open spec fn key_spec(&self) -> Seq<char> {
        self@.key
    }

    fn doc_id(&self) -> (r: DocId) {
        self.id.clone()
    }
}

impl Clone for CrateDoc {
    /// A clone carries the same model.
    fn clone(&self) -> (r: Self)
        ensures
            r@ == self@,
    {
        let r = CrateDoc {
            id: self.id.clone(),
            crate_id: self.crate_id.clone(),
            readme: self.readme.clone(),
            repository: crate::manifest::clone_opt(&self.repository),
            description: crate::manifest::clone_opt(&self.description),
            keywords: clone_string_vec(&self.keywords),
            authors: clone_string_vec(&self.authors),
        };
        proof {
            assert(r@.keywords =~= self@.keywords);
            assert(r@.authors =~= self@.authors);
        }
        r
    }
}

/// The version text a package declaration settles on: its own local
/// version, or the fallback `0.0.1` where none is declared locally.
pub open spec fn version_text_spec(v: Option<MaybeLocal<String>>) -> Seq<char> {
    match v {
        Some(MaybeLocal::Local(t)) => t@,
        _ => "0.0.1"@,
    }
}

/// The readme a declaration settles on: a locally declared path, else the
/// conventional `README.md`.
pub open spec fn readme_chars(v: Option<MaybeLocal<TextOrFlag>>) -> Seq<char> {
    match v {
        Some(MaybeLocal::Local(TextOrFlag::Text(t))) => t@,
        _ => "README.md"@,
    }
}

/// A locally declared text, or nothing.
pub open spec fn inherited_chars(v: Option<MaybeLocal<String>>) -> Option<Seq<char>> {
    match v {
        Some(MaybeLocal::Local(t)) => Some(t@),
        _ => None,
    }
}

/// A locally declared text list, or an empty one.
pub open spec fn inherited_texts(v: Option<MaybeLocal<Vec<String>>>) -> Seq<Seq<char>> {
    match v {
        Some(MaybeLocal::Local(l)) => texts_of(l@),
        _ => Seq::empty(),
    }
}

/// The readme a declaration settles on.
fn map_readme(readme: &Option<MaybeLocal<TextOrFlag>>) -> (r: String)
    ensures
        r@ == readme_chars(*readme),
{
    match readme {
        Some(MaybeLocal::Local(TextOrFlag::Text(val))) => val.clone(),
        _ => "README.md".to_owned(),
    }
}

/// A locally declared text, or nothing.
fn map_inherited(val: &Option<MaybeLocal<String>>) -> (r: Option<String>)
    ensures
        opt_chars(r) == inherited_chars(*val),
{
    match val {
        Some(MaybeLocal::Local(v)) => Some(v.clone()),
        _ => None,
    }
}

/// A locally declared text list, or an empty one.
fn unwrap_inherited(val: &Option<MaybeLocal<Vec<String>>>) -> (r: Vec<String>)
    ensures
        texts_of(r@) == inherited_texts(*val),
{
    match val {
        Some(MaybeLocal::Local(v)) => {
            let r = clone_string_vec(v);
            proof {
                assert(texts_of(r@) =~= inherited_texts(*val));
            }
            r
        },
        _ => {
            let r: Vec<String> = Vec::new();
            proof {
                assert(texts_of(r@) =~= Seq::<Seq<char>>::empty());
            }
            r
        },
    }
}

impl CrateDoc {
    /// Derive the stored package document from a package declaration.  The
    /// declared version (or the `0.0.1` fallback) must be a semantic
    /// version; anything else is malformed input.
    pub fn from_package(pkg: &ManifestPackage) -> (r: Result<CrateDoc, ApiError>)
        ensures
            match r {
                Ok(doc) => {
                    &&& doc@.crate_id.name == pkg.name@
                    &&& parse_matches(version_text_spec(pkg.version), Some(doc@.crate_id.version))
                    &&& doc@.key == crate_doc_key(doc@.crate_id)
                    &&& doc@.readme == readme_chars(pkg.readme)
                    &&& doc@.description == inherited_chars(pkg.description)
                    &&& doc@.repository == inherited_chars(pkg.repository)
                    &&& doc@.keywords == inherited_texts(pkg.keywords)
                    &&& doc@.authors == inherited_texts(pkg.authors)
                },
                Err(e) => e is Input && parse_matches(version_text_spec(pkg.version), None),
            },
    {
        let version_text: &str = match &pkg.version {
            Some(MaybeLocal::Local(t)) => t.as_str(),
            _ => "0.0.1",
        };
        let version = match Version::parse(version_text) {
            Some(v) => v,
            None => {
                return Err(ApiError::Input("the package version is not a semantic version".to_owned()));
            },
        };
        let crate_id = CrateId::new(pkg.name.clone(), version);
        let id = crate_id.into_doc_id();
        Ok(CrateDoc {
            id,
            crate_id,
            readme: map_readme(&pkg.readme),
            description: map_inherited(&pkg.description),
            repository: map_inherited(&pkg.repository),
            keywords: unwrap_inherited(&pkg.keywords),
            authors: unwrap_inherited(&pkg.authors),
        })
    }

    /// The document's key always follows its package identity.
    pub open spec fn wf(&self) -> bool {
        self@.key == crate_doc_key(self@.crate_id)
    }

    /// The identity of the package this document describes.
    pub fn crate_id(&self) -> (r: &CrateId)
        ensures
            r@ == self@.crate_id,
    {
        &self.crate_id
    }
}

} // verus!
