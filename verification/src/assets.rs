//! Assets: the files that scripts and other resources are loaded from.

use std::path::PathBuf;
use vstd::prelude::*;
use vstd::slice::slice_to_vec;
use vstd::string::{to_string_from_display_ensures, StringSliceAdditionalSpecFns};
use vstd::utf8::valid_utf8;

verus! {

/// A path of the file system, as the standard library holds it. Nothing of
/// what it holds is known here.
#[verifier::external_type_specification]
#[verifier::external_body]
pub struct ExPathBuf(std::path::PathBuf);

/// `PathBuf`'s `clone` gives a path equal to the one it was called on.
pub assume_specification[ <std::path::PathBuf as Clone>::clone ](path: &std::path::PathBuf) -> (r:
    std::path::PathBuf)
    ensures
        r == *path,
;

/// What `str::to_lowercase` makes of a text.
pub uninterp spec fn lowercase(text: Seq<char>) -> Seq<char>;

/// `str::to_lowercase`: the text with every character in lower case, as
/// Unicode defines it. The result depends on the text alone.
#[verifier::external_body]
fn lowercase_of(text: &str) -> (r: String)
    ensures
        r@ == lowercase(text@),
{
    text.to_lowercase()
}

/// `Path::extension`: the part of the path's file name after its last dot,
/// if it has one, handed on as text. How a path is taken apart depends on
/// the platform, so nothing is claimed of the result.
#[verifier::external_body]
fn extension_of(path: &PathBuf) -> (r: Option<String>) {
    match path.extension() {
        Some(extension) => Some(extension.to_string_lossy().into_owned()),
        None => None,
    }
}

/// `std::str::from_utf8`: the text that `data` encodes, where it is valid
/// UTF-8; else the length of the longest beginning of `data` that is valid.
#[verifier::external_body]
fn utf8_of(data: &[u8]) -> (r: Result<&str, usize>)
    ensures
        r is Ok <==> valid_utf8(data@),
        r matches Ok(text) ==> text.spec_bytes() == data@,
        r matches Err(n) ==> n <= data@.len() && valid_utf8(data@.subrange(0, n as int))
            && forall|m: int| n < m <= data@.len() ==> !valid_utf8(#[trigger] data@.subrange(0, m)),
{
    match std::str::from_utf8(data) {
        Ok(text) => Ok(text),
        Err(e) => Err(e.valid_up_to()),
    }
}

/// What kind of resource an asset holds.
#[derive(Debug, Copy, Clone, PartialEq, Eq, Structural)]
pub enum AssetType {
    GlslVertexShader,
    GlslFragmentShader,
    BoenthoeScript,
    PngImage,
    JpegImage,
    GltfModel,
    Unknown,
}

/// The kind of resource that a file with the given extension holds. Upper
/// and lower case make no difference.
pub open spec fn kind_of(extension: Option<Seq<char>>) -> AssetType {
    match extension {
        None => AssetType::Unknown,
        Some(ext) => {
            let lower = lowercase(ext);
            if lower == "vert"@ {
                AssetType::GlslVertexShader
            } else if lower == "frag"@ {
                AssetType::GlslFragmentShader
            } else if lower == "boe"@ {
                AssetType::BoenthoeScript
            } else if lower == "png"@ {
                AssetType::PngImage
            } else if lower == "jpg"@ {
                AssetType::JpegImage
            } else if lower == "gltf"@ || lower == "glb"@ {
                AssetType::GltfModel
            } else {
                AssetType::Unknown
            }
        },
    }
}

impl AssetType {
    /// The kind of resource that a file with the given extension holds.
    pub fn from_extension(extension: Option<&str>) -> (r: AssetType)
        ensures
            r == kind_of(
                match extension {
                    Some(ext) => Some(ext@),
                    None => None,
                },
            ),
    {
        match extension {
            None => AssetType::Unknown,
            Some(ext) => {
                let lower = lowercase_of(ext);
                let lower = lower.as_str();
                if lower.eq("vert") {
                    AssetType::GlslVertexShader
                } else if lower.eq("frag") {
                    AssetType::GlslFragmentShader
                } else if lower.eq("boe") {
                    AssetType::BoenthoeScript
                } else if lower.eq("png") {
                    AssetType::PngImage
                } else if lower.eq("jpg") {
                    AssetType::JpegImage
                } else if lower.eq("gltf") || lower.eq("glb") {
                    AssetType::GltfModel
                } else {
                    AssetType::Unknown
                }
            },
        }
    }
}

/// Why an asset cannot be used.
#[derive(Debug)]
pub enum EngineError {
    UnsupportedAssetFormat { path: PathBuf, expected: String },
    AssetParseError { path: PathBuf, message: String },
    AssetLoadError { path: PathBuf, message: String },
    AssetNotLoaded { path: PathBuf },
}

/// A file and the state of its loading.
#[derive(Debug)]
pub enum Asset {
    /// Not read yet.
    Pending { path: PathBuf },
    /// Read from the file.
    Ready { path: PathBuf, data: Vec<u8> },
    /// Reading failed.
    Error { path: PathBuf, message: String },
    /// Given with its content, without a file behind it.
    Preloaded { path: PathBuf, data: Vec<u8> },
}

/// The decimal digits of `n`.
pub open spec fn decimal_text(n: nat) -> Seq<char>
    decreases n,
{
    if n < 10 {
        seq![(48 + n) as char]
    } else {
        decimal_text(n / 10).push((48 + n % 10) as char)
    }
}

/// The message for data that stops being valid UTF-8 at `at`.
pub open spec fn utf8_message(at: nat) -> Seq<char> {
    "UTF-8 error at "@ + decimal_text(at)
}

/// Appends the decimal digits of `n` to `out`.
fn push_decimal(out: &mut String, n: usize)
    ensures
        final(out)@ == old(out)@ + decimal_text(n as nat),
    decreases n,
{
    if n < 10 {
        out.push((48 + n as u8) as char);
        assert(final(out)@ =~= old(out)@ + decimal_text(n as nat));
    } else {
        push_decimal(out, n / 10);
        out.push((48 + (n % 10) as u8) as char);
        assert(final(out)@ =~= old(out)@ + decimal_text(n as nat));
    }
}

impl Asset {
    /// The asset at `path` with the content `data`, ready for use.
    pub fn preload(path: PathBuf, data: &[u8]) -> (r: Asset)
        ensures
            r matches Asset::Ready { path: p, data: d } && p == path && d@ == data@,
    {
        Asset::Ready { path, data: slice_to_vec(data) }
    }

    /// The path of the asset, as a specification.
    pub open spec fn spec_path(&self) -> PathBuf {
        match self {
            Asset::Pending { path } => *path,
            Asset::Ready { path, .. } => *path,
            Asset::Error { path, .. } => *path,
            Asset::Preloaded { path, .. } => *path,
        }
    }

    /// What kind of resource the asset holds, going by the extension of its
    /// path: the kind that [`kind_of`] gives for that extension. Which
    /// extension a path has is for the platform to say and is not known here.
    pub fn get_type(&self) -> (r: AssetType)
        ensures
            exists|extension: Option<Seq<char>>| r == #[trigger] kind_of(extension),
    {
        let extension = extension_of(self.path());
        let r = match &extension {
            Some(ext) => AssetType::from_extension(Some(ext.as_str())),
            None => AssetType::from_extension(None),
        };
        proof {
            let found = match extension {
                Some(ext) => Some(ext@),
                None => None,
            };
            assert(r == kind_of(found));
        }
        r
    }

    /// The path of the asset.
    pub fn path(&self) -> (r: &PathBuf)
        ensures
            *r == self.spec_path(),
    {
        match self {
            Asset::Pending { path } => path,
            Asset::Ready { path, .. } => path,
            Asset::Error { path, .. } => path,
            Asset::Preloaded { path, .. } => path,
        }
    }

    /// The content of the asset: there for an asset that is ready or
    /// preloaded. An asset whose loading failed gives `AssetLoadError` with
    /// the failure's message, a pending one `AssetNotLoaded`.
    pub fn data(&self) -> (r: Result<&Vec<u8>, EngineError>)
        ensures
            match *self {
                Asset::Ready { data, .. } => r == Ok::<&Vec<u8>, EngineError>(&data),
                Asset::Preloaded { data, .. } => r == Ok::<&Vec<u8>, EngineError>(&data),
                Asset::Error { path, message } => r matches Err(
                    EngineError::AssetLoadError { path: p, message: m },
                ) && p == path && m@ == message@,
                Asset::Pending { path } => r matches Err(EngineError::AssetNotLoaded { path: p })
                    && p == path,
            },
    {
        match self {
            Asset::Ready { data, .. } => Ok(data),
            Asset::Preloaded { data, .. } => Ok(data),
            Asset::Error { path, message } => Err(
                EngineError::AssetLoadError { path: path.clone(), message: message.clone() },
            ),
            Asset::Pending { path } => Err(EngineError::AssetNotLoaded { path: path.clone() }),
        }
    }

    /// The content of the asset as text. Where there is no content, the error
    /// of [`Asset::data`]; where the content is not valid UTF-8,
    /// `AssetParseError` with a message that names the length of the longest
    /// valid beginning.
    pub fn to_utf8(&self) -> (r: Result<&str, EngineError>)
        ensures
            match *self {
                Asset::Ready { path, data } | Asset::Preloaded { path, data } => if valid_utf8(
                    data@,
                ) {
                    r matches Ok(text) && text.spec_bytes() == data@
                } else {
                    r matches Err(EngineError::AssetParseError { path: p, message: m }) && p
                        == path && exists|n: nat|
                        n <= data@.len() && valid_utf8(data@.subrange(0, n as int)) && m@
                            == #[trigger] utf8_message(n)
                },
                Asset::Error { path, message } => r matches Err(
                    EngineError::AssetLoadError { path: p, message: m },
                ) && p == path && m@ == message@,
                Asset::Pending { path } => r matches Err(EngineError::AssetNotLoaded { path: p })
                    && p == path,
            },
    {
        let data = match self.data() {
            Ok(data) => data,
            Err(e) => {
                return Err(e);
            },
        };
        match utf8_of(data.as_slice()) {
            Ok(text) => Ok(text),
            Err(at) => {
                let mut message = "UTF-8 error at ".to_owned();
                push_decimal(&mut message, at);
                assert(message@ == utf8_message(at as nat));
                Err(EngineError::AssetParseError { path: self.path().clone(), message })
            },
        }
    }

    /// The asset as it is before loading: a ready asset becomes pending, any
    /// other stays as it is.
    pub fn to_pending(&self) -> (r: Asset)
        ensures
            match *self {
                Asset::Ready { path, .. } => r matches Asset::Pending { path: p } && p == path,
                Asset::Pending { path } => r matches Asset::Pending { path: p } && p == path,
                Asset::Error { path, message } => r matches Asset::Error { path: p, message: m }
                    && p == path && m@ == message@,
                Asset::Preloaded { path, data } => r matches Asset::Preloaded { path: p, data: d }
                    && p == path && d@ == data@,
            },
    {
        match self {
            Asset::Ready { path, .. } => Asset::Pending { path: path.clone() },
            Asset::Pending { path } => Asset::Pending { path: path.clone() },
            Asset::Error { path, message } => Asset::Error {
                path: path.clone(),
                message: message.clone(),
            },
            Asset::Preloaded { path, data } => Asset::Preloaded {
                path: path.clone(),
                data: data.clone(),
            },
        }
    }
}

impl EngineError {
    /// The error for an asset whose content could not be read as what it
    /// should hold, with `error` as its message.
    pub fn parse_error<T>(asset: &Asset, error: T) -> (r: EngineError) where T: std::fmt::Display
        ensures
            r matches EngineError::AssetParseError { path, message } && path == asset.spec_path()
                && to_string_from_display_ensures::<T>(&error, message),
    {
        EngineError::AssetParseError { path: asset.path().clone(), message: error.to_string() }
    }

    /// The error for an asset that holds another kind of resource than the
    /// `expected` one.
    pub fn unsupported_asset_format(asset: &Asset, expected: &str) -> (r: EngineError)
        ensures
            r matches EngineError::UnsupportedAssetFormat { path, expected: e } && path
                == asset.spec_path() && e@ == expected@,
    {
        EngineError::UnsupportedAssetFormat {
            path: asset.path().clone(),
            expected: expected.to_owned(),
        }
    }
}

} // verus!
