use vstd::prelude::*;

use crate::base64::{base64_encode, base64_encode_counted, base64_lines};
use crate::text::{decimal, push_decimal};
use crate::error::GntpError;
use crate::text::{replace_char, replace_char_spec, same_text};

verus! {

/// How an icon is delivered to the Growl server.
#[derive(Clone, Debug, PartialEq, Eq, Structural)]
pub enum IconMode {
    /// Binary resources sent after the headers, as the GNTP specification describes.
    Binary,
    /// A `file://` URL to the icon's file on disk.
    FileUrl,
    /// A `data:` URL that embeds the icon in base64.
    DataUrl,
    /// An HTTP/HTTPS URL held in the resource's source path.
    HttpUrl,
    /// Left to the library; it currently means `DataUrl`.
    Auto,
}

/// An icon: its bytes, its MIME type, a unique identifier and, when it came from a file,
/// the file's path.
#[derive(Clone)]
pub struct Resource {
    /// Unique identifier of the resource (a version 4 UUID).
    pub identifier: String,
    /// The icon's bytes.
    pub data: Vec<u8>,
    /// Path of the file the icon was read from (or, for `IconMode::HttpUrl`, its URL).
    pub source_path: Option<String>,
    /// MIME type, such as `image/png`.
    pub mime_type: String,
}

/// The mathematical value of a `Resource`.
pub struct ResourceView {
    pub identifier: Seq<char>,
    pub data: Seq<u8>,
    pub source_path: Option<Seq<char>>,
    pub mime_type: Seq<char>,
}

/// The view of an optional string.
pub open spec fn opt_text(o: Option<String>) -> Option<Seq<char>> {
    match o {
        Some(s) => Some(s@),
        None => None,
    }
}

impl View for Resource {
    type V = ResourceView;

    open spec fn view(&self) -> ResourceView {
        ResourceView {
            identifier: self.identifier@,
            data: self.data@,
            source_path: opt_text(self.source_path),
            mime_type: self.mime_type@,
        }
    }
}

/// `c` is a lowercase hexadecimal digit.
pub open spec fn is_lower_hex(c: char) -> bool {
    ('0' <= c <= '9') || ('a' <= c <= 'f')
}

/// `s` is the hyphenated lowercase text of a random (version 4, RFC 4122 variant) UUID,
/// such as `67e55044-10b1-426f-9247-bb680e5fe0c8`.
pub open spec fn is_uuid_v4_text(s: Seq<char>) -> bool {
    &&& s.len() == 36
    &&& forall|i: int|
        0 <= i < 36 ==> if i == 8 || i == 13 || i == 18 || i == 23 {
            #[trigger] s[i] == '-'
        } else {
            is_lower_hex(s[i])
        }
    &&& s[14] == '4'
    &&& (s[19] == '8' || s[19] == '9' || s[19] == 'a' || s[19] == 'b')
}

/// `uuid::Uuid::new_v4` rendered with its `Display` impl (`to_string`).
/// The bits come from the operating system's random source, so nothing is said of which
/// UUID comes back; the source shows the hyphenated lowercase form, with the version nibble
/// set to 4 and the variant bits to `10`. The crate panics when the random source fails,
/// which depends on the machine and is not stated here.
#[verifier::external_body]
fn new_v4_identifier() -> (r: String)
    ensures
        is_uuid_v4_text(r@),
{
    uuid::Uuid::new_v4().to_string()
}

/// The extension of a path as `std::path::Path::extension` computes it (path syntax is that
/// of the platform the library is built for).
pub uninterp spec fn path_extension(path: Seq<char>) -> Option<Seq<char>>;

/// `std::path::Path::extension` on a path given as text, the extension converted back to text.
/// The result is named (`path_extension`): it depends on the path alone, and how a path is cut
/// into components is not restated here.
#[verifier::external_body]
fn extension_of(path: &str) -> (r: Option<String>)
    ensures
        opt_text(r) == path_extension(path@),
{
    match std::path::Path::new(path).extension() {
        Some(ext) => match ext.to_str() {
            Some(t) => Some(t.to_string()),
            None => None,
        },
        None => None,
    }
}

/// The MIME type that goes with a file extension.
pub open spec fn mime_for_extension(ext: Option<Seq<char>>) -> Seq<char> {
    match ext {
        Some(e) => if e == "png"@ {
            "image/png"@
        } else if e == "jpg"@ || e == "jpeg"@ {
            "image/jpeg"@
        } else if e == "gif"@ {
            "image/gif"@
        } else if e == "bmp"@ {
            "image/bmp"@
        } else if e == "ico"@ {
            "image/x-icon"@
        } else if e == "svg"@ {
            "image/svg+xml"@
        } else if e == "webp"@ {
            "image/webp"@
        } else {
            "application/octet-stream"@
        },
        None => "application/octet-stream"@,
    }
}

/// The MIME type for a file extension (`png`, `jpg`/`jpeg`, `gif`, `bmp`, `ico`, `svg`, `webp`;
/// anything else, or no extension, is `application/octet-stream`). Case matters.
pub fn mime_type_for_extension(ext: Option<&str>) -> (r: String)
    ensures
        r@ == mime_for_extension(match ext {
            Some(e) => Some(e@),
            None => None,
        }),
{
    match ext {
        Some(e) => if same_text(e, "png") {
            "image/png".to_string()
        } else if same_text(e, "jpg") || same_text(e, "jpeg") {
            "image/jpeg".to_string()
        } else if same_text(e, "gif") {
            "image/gif".to_string()
        } else if same_text(e, "bmp") {
            "image/bmp".to_string()
        } else if same_text(e, "ico") {
            "image/x-icon".to_string()
        } else if same_text(e, "svg") {
            "image/svg+xml".to_string()
        } else if same_text(e, "webp") {
            "image/webp".to_string()
        } else {
            "application/octet-stream".to_string()
        },
        None => "application/octet-stream".to_string(),
    }
}

/// Guesses the MIME type of a file from its path's extension.
pub fn guess_mime_type(path: &str) -> (r: String)
    ensures
        r@ == mime_for_extension(path_extension(path@)),
{
    let ext = extension_of(path);
    match ext {
        Some(e) => mime_type_for_extension(Some(e.as_str())),
        None => mime_type_for_extension(None),
    }
}

/// The `data:` URL of a resource: `data:<mime>;base64,<base64 of the bytes, in lines>`.
pub open spec fn data_url(r: ResourceView) -> Seq<char> {
    "data:"@ + r.mime_type + ";base64,"@ + base64_lines(r.data)
}

/// Whether the icon is referred to by its data URL under the delivery mode: in the data URL
/// and automatic modes, and in the file and HTTP URL modes when the resource has no path.
pub open spec fn uses_data_url(r: ResourceView, mode: IconMode) -> bool {
    match mode {
        IconMode::Binary => false,
        IconMode::FileUrl | IconMode::HttpUrl => r.source_path is None,
        IconMode::DataUrl | IconMode::Auto => true,
    }
}

/// Above this many characters of base64 text, a data URL may be too large for some servers.
pub open spec fn large_data_url_limit() -> nat {
    500000
}

/// The warning for an icon whose base64 text has `n` characters.
pub open spec fn large_icon_warning(n: nat) -> Seq<char> {
    "Warning: Icon size ("@ + decimal(n) + " bytes) may be too large for some GNTP servers"@
}

/// How the icon is referred to in a packet under each delivery mode.
pub open spec fn icon_reference(r: ResourceView, mode: IconMode) -> Seq<char> {
    match mode {
        IconMode::Binary => "x-growl-resource://"@ + r.identifier,
        IconMode::FileUrl => match r.source_path {
            Some(p) => "file:///"@ + replace_char_spec(p, '\\', '/'),
            None => data_url(r),
        },
        IconMode::HttpUrl => match r.source_path {
            Some(p) => p,
            None => data_url(r),
        },
        IconMode::DataUrl | IconMode::Auto => data_url(r),
    }
}

impl Resource {
    /// Builds the resource for an icon file from the file's path and the outcome of reading
    /// it: the bytes, or the reader's error message. A failed read is an `IoError`.
    pub fn from_file(path: &str, contents: Result<Vec<u8>, String>) -> (r: Result<Resource, GntpError>)
        ensures
            match contents {
                Ok(data) => r matches Ok(res) && {
                    &&& res@.data == data@
                    &&& res@.source_path == Some(path@)
                    &&& res@.mime_type == mime_for_extension(path_extension(path@))
                    &&& is_uuid_v4_text(res@.identifier)
                },
                Err(msg) => r matches Err(GntpError::IoError(m))
                    && m@ == "Failed to read file "@ + path@ + ": "@ + msg@,
            },
    {
        match contents {
            Ok(data) => {
                let mime_type = guess_mime_type(path);
                let identifier = new_v4_identifier();
                Ok(Resource { identifier, data, source_path: Some(path.to_string()), mime_type })
            },
            Err(msg) => {
                let m = "Failed to read file ".to_string().concat(path).concat(": ").concat(
                    msg.as_str(),
                );
                Err(GntpError::IoError(m))
            },
        }
    }

    /// `from_file` for a path held in a `String`.
    pub fn from_pathbuf(path: String, contents: Result<Vec<u8>, String>) -> (r: Result<Resource, GntpError>)
        ensures
            match contents {
                Ok(data) => r matches Ok(res) && {
                    &&& res@.data == data@
                    &&& res@.source_path == Some(path@)
                    &&& res@.mime_type == mime_for_extension(path_extension(path@))
                    &&& is_uuid_v4_text(res@.identifier)
                },
                Err(msg) => r matches Err(GntpError::IoError(m))
                    && m@ == "Failed to read file "@ + path@ + ": "@ + msg@,
            },
    {
        Self::from_file(path.as_str(), contents)
    }

    /// A resource made from bytes in memory, with the given MIME type and a fresh identifier.
    pub fn from_bytes(data: Vec<u8>, mime_type: &str) -> (r: Resource)
        ensures
            r@.data == data@,
            r@.mime_type == mime_type@,
            r@.source_path is None,
            is_uuid_v4_text(r@.identifier),
    {
        Resource {
            identifier: new_v4_identifier(),
            data,
            source_path: None,
            mime_type: mime_type.to_string(),
        }
    }

    /// A copy of the resource.
    pub fn duplicate(&self) -> (r: Resource)
        ensures
            r@ == self@,
    {
        let data = self.data.clone();
        assert(data@ =~= self.data@);
        let source_path = match &self.source_path {
            Some(p) => Some(p.clone()),
            None => None,
        };
        Resource {
            identifier: self.identifier.clone(),
            data,
            source_path,
            mime_type: self.mime_type.clone(),
        }
    }

    /// The `data:` URL that embeds the icon.
    pub fn to_data_url(&self) -> (r: String)
        ensures
            r@ == data_url(self@),
    {
        let encoded = base64_encode(self.data.as_slice());
        "data:".to_string().concat(self.mime_type.as_str()).concat(";base64,").concat(
            encoded.as_str(),
        )
    }

    /// The warning to show when the icon travels as a data URL under the delivery mode and
    /// its base64 text is longer than 500,000 characters; `None` otherwise.
    pub fn data_url_warning(&self, mode: &IconMode) -> (r: Option<String>)
        ensures
            r is Some <==> (uses_data_url(self@, *mode) && base64_lines(self@.data).len()
                > large_data_url_limit()),
            r matches Some(w) ==> w@ == large_icon_warning(base64_lines(self@.data).len()),
    {
        let uses = match mode {
            IconMode::Binary => false,
            IconMode::FileUrl | IconMode::HttpUrl => self.source_path.is_none(),
            IconMode::DataUrl | IconMode::Auto => true,
        };
        if !uses {
            return None;
        }
        let (_, n) = base64_encode_counted(self.data.as_slice());
        if n > 500000 {
            let mut w = "Warning: Icon size (".to_string();
            push_decimal(&mut w, n);
            w.append(" bytes) may be too large for some GNTP servers");
            Some(w)
        } else {
            None
        }
    }

    /// The text that refers to the icon in a packet under the given delivery mode.
    pub fn get_reference(&self, mode: &IconMode) -> (r: String)
        ensures
            r@ == icon_reference(self@, *mode),
    {
        match mode {
            IconMode::Binary => "x-growl-resource://".to_string().concat(self.identifier.as_str()),
            IconMode::FileUrl => match &self.source_path {
                Some(p) => {
                    let fixed = replace_char(p.as_str(), '\\', '/');
                    "file:///".to_string().concat(fixed.as_str())
                },
                None => self.to_data_url(),
            },
            IconMode::HttpUrl => match &self.source_path {
                Some(p) => p.clone(),
                None => self.to_data_url(),
            },
            IconMode::DataUrl | IconMode::Auto => self.to_data_url(),
        }
    }
}

} // verus!
