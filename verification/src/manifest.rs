//! Per-package manifest data and entry-file resolution.
//!
//! Each library dependency's own manifest, located under a local
//! package-cache root keyed by name and version, may declare an entry-file
//! override; absent one, a fixed conventional library entry path is used.
//! Parsing the manifest bytes is delegated to an outside TOML parser; the
//! rest of the resolution is verified against the named parse result.

use vstd::prelude::*;

verus! {

/// Language edition a package opts into.
#[derive(Debug, PartialEq, Eq, Structural, Clone, Copy)]
pub enum Edition {
    E2015,
    E2018,
    E2021,
    E2024,
}

/// What plan generation reads from a dependency's manifest: the declared
/// library entry-file override, if any, and the language edition.
pub struct ManifestInfo {
    /// The `path` declared for the library product, when one is given.
    pub lib_path: Option<String>,
    /// The package's declared language edition.
    pub edition: Edition,
}

/// The outcome of parsing manifest bytes: `None` when the bytes are not a
/// well-formed manifest with a package section and a resolvable edition,
/// otherwise the declared library entry override and whether the edition
/// is the 2018 one. The outcome depends on the bytes alone.
pub uninterp spec fn manifest_info(bytes: Seq<u8>) -> Option<(Option<Seq<char>>, bool)>;

/// What a parsed manifest stands for: the declared entry override and
/// whether the package opted into the 2018 edition.
pub open spec fn info_view(m: ManifestInfo) -> (Option<Seq<char>>, bool) {
    (
        match m.lib_path {
            Some(p) => Some(p@),
            None => None,
        },
        m.edition is E2018,
    )
}

/// Relies on `cargo_toml::Manifest::from_slice` to parse manifest bytes;
/// parsing is a pure function of the bytes. Yields `None` when the parser
/// rejects the bytes, when no `[package]` section is present, or when the
/// edition is inherited from an absent workspace; otherwise the library
/// `path` override and the package's edition (any edition the parser may
/// add in the future is read as the earliest one, which the plan treats
/// the same way).
#[verifier::external_body]
pub(crate) fn parse_manifest(bytes: &Vec<u8>) -> (r: Option<ManifestInfo>)
    ensures
        match r {
            None => manifest_info(bytes@) is None,
            Some(m) => manifest_info(bytes@) == Some(info_view(m)),
        },
{
    let m = match cargo_toml::Manifest::from_slice(bytes.as_slice()) {
        Ok(m) => m,
        Err(_) => return None,
    };
    let edition = match m.package?.edition {
        cargo_toml::Inheritable::Set(cargo_toml::Edition::E2018) => Edition::E2018,
        cargo_toml::Inheritable::Set(cargo_toml::Edition::E2021) => Edition::E2021,
        cargo_toml::Inheritable::Set(cargo_toml::Edition::E2024) => Edition::E2024,
        cargo_toml::Inheritable::Set(_) => Edition::E2015,
        cargo_toml::Inheritable::Inherited => return None,
    };
    Some(ManifestInfo { lib_path: m.lib.and_then(|l| l.path), edition })
}

/// The flag value a package's edition compiles under: `2018` for the 2018
/// edition, `2015` for every other.
pub open spec fn edition_text(is_2018: bool) -> Seq<char> {
    if is_2018 {
        "2018"@
    } else {
        "2015"@
    }
}

/// Maps a language edition to the flag value handed to the compiler.
/// Editions other than 2018 are all compiled as 2015.
pub fn edition(ed: Edition) -> (r: &'static str)
    ensures
        r@ == edition_text(ed is E2018),
{
    match ed {
        Edition::E2018 => "2018",
        _ => "2015",
    }
}

/// The entry file named by a parsed manifest: the declared override when
/// one is given, the conventional library entry path otherwise.
pub open spec fn entry_of(lib_path: Option<Seq<char>>) -> Seq<char> {
    match lib_path {
        Some(p) => p,
        None => "src/lib.rs"@,
    }
}

/// Resolves a parsed manifest to the package's entry file: the declared
/// override when present, the conventional library entry path otherwise.
pub fn resolve_entry(info: &ManifestInfo) -> (r: String)
    ensures
        r@ == entry_of(info_view(*info).0),
{
    match &info.lib_path {
        Some(p) => p.clone(),
        None => String::from_str("src/lib.rs"),
    }
}

} // verus!
