use vstd::prelude::*;

verus! {

#[verifier::external_type_specification]
#[verifier::external_body]
pub struct ExIoError(std::io::Error);

#[verifier::external_type_specification]
#[verifier::external_body]
pub struct ExPngEncodingError(png::EncodingError);

/// Everything that can go wrong while reading a scene and producing its image.
#[derive(Debug)]
pub enum SceneError {
    /// The scene file is not a valid scene description; the text says where and why.
    XmlParse(String),
    /// A file could not be read or written.
    Io(std::io::Error),
    /// The scene refers to something it never defined.
    MissingComponent(String),
    /// Rendering was requested before the scene was complete.
    Render(String),
    /// The PNG encoder refused the image.
    PngEncoding(png::EncodingError),
}

/// The library's result type.
pub type Result<T, E = SceneError> = std::result::Result<T, E>;

} // verus!
