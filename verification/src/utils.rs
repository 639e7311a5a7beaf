//! Small decisions that the command line leaves to the library.
use vstd::prelude::*;
use vstd::string::*;

verus! {

/// How an image is resampled when it is resized.
#[derive(Clone, Copy, Debug, PartialEq, Eq, Structural)]
pub enum Scaling {
    Nearest,
    Triangle,
    Gaussian,
}

/// The resampling that `name` stands for: nearest neighbour and Gaussian by
/// their names, linear for every other name.
pub open spec fn scaling_of(name: Seq<char>) -> Scaling {
    if name == "nearest"@ {
        Scaling::Nearest
    } else if name == "gaussian"@ {
        Scaling::Gaussian
    } else {
        Scaling::Triangle
    }
}

/// True when two strings hold the same characters.
fn same_text(a: &str, b: &str) -> (same: bool)
    ensures
        same == (a@ == b@),
{
    let left = String::from_str(a);
    let right = String::from_str(b);
    left == right
}

/// Picks the resampling by name.
pub fn get_scaling(name: &str) -> (out: Scaling)
    ensures
        out == scaling_of(name@),
{
    if same_text(name, "nearest") {
        Scaling::Nearest
    } else if same_text(name, "gaussian") {
        Scaling::Gaussian
    } else {
        Scaling::Triangle
    }
}

/// Where an image comes from.
#[derive(Clone, Copy, Debug, PartialEq, Eq, Structural)]
pub enum ImageSource {
    /// An address to fetch the image from.
    Remote,
    /// A path in the file system.
    Local,
}

/// What `is_url::is_url` says of a text: whether it has the shape of a URL.
pub uninterp spec fn url_shaped(text: Seq<char>) -> bool;

/// Calls `is_url::is_url`, which matches the text against one fixed
/// pattern. The contract only names what it returns.
#[verifier::external_body]
fn matches_url(text: &str) -> (shaped: bool)
    ensures
        shaped == url_shaped(text@),
{
    is_url::is_url(text)
}

/// The kind of source that results from the test for a URL.
pub open spec fn source_for(shaped: bool) -> ImageSource {
    if shaped {
        ImageSource::Remote
    } else {
        ImageSource::Local
    }
}

/// Tells whether an image is to be fetched or read from a file: fetched
/// exactly when its source has the shape of a URL.
pub fn image_source(source: &str) -> (out: ImageSource)
    ensures
        out == source_for(url_shaped(source@)),
{
    if matches_url(source) {
        ImageSource::Remote
    } else {
        ImageSource::Local
    }
}

} // verus!
