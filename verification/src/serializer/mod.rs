use vstd::prelude::*;

pub mod bin;
pub mod json;
pub mod ron;
pub mod yaml;

pub use bin::Bin;
pub use json::Json;
pub use ron::Ron;
pub use yaml::Yaml;

verus! {

/// The wire formats a store can be created with. Each variant carries the
/// file extension that marks a log written in that format.
#[derive(Debug, Clone)]
pub enum Serializers {
    Bin(String),
    Json(String),
    Yaml(String),
    Ron(String),
}

impl Serializers {
    /// The file extension carried by the format, as a sequence of characters.
    pub open spec fn spec_extension(self) -> Seq<char> {
        match self {
            Serializers::Bin(st) => st@,
            Serializers::Json(st) => st@,
            Serializers::Yaml(st) => st@,
            Serializers::Ron(st) => st@,
        }
    }

    /// The file extension carried by the format.
    pub fn extension(&self) -> (ext: &str)
        ensures
            ext@ == self.spec_extension(),
    {
        match self {
            Serializers::Bin(st) => st.as_str(),
            Serializers::Json(st) => st.as_str(),
            Serializers::Yaml(st) => st.as_str(),
            Serializers::Ron(st) => st.as_str(),
        }
    }
}

/// A wire format, chosen once when a store is built and fixed for the life
/// of its log file.
pub trait Serializer: Sized {
    /// The format descriptor this serializer was built with.
    spec fn spec_format(&self) -> Serializers;

    /// The extension that every log file of this format carries.
    spec fn standard_extension() -> Seq<char>;

    /// A serializer of this format with its standard extension.
    fn create() -> (s: Self)
        ensures
            s.spec_format().spec_extension() == Self::standard_extension(),
    ;

    /// The format descriptor, whose extension names the log file.
    fn format(&self) -> (f: &Serializers)
        ensures
            *f == self.spec_format(),
            f.spec_extension() == Self::standard_extension(),
    ;
}

} // verus!
