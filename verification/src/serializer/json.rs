use super::{Serializer, Serializers};
use vstd::prelude::*;
use vstd::string::StringExecFns;

verus! {

/// The Json wire format. A value of this type always describes itself as
/// `Serializers::Json` with the extension `.json`.
#[derive(Debug)]
pub struct Json {
    format: Serializers,
}

impl Json {
    #[verifier::type_invariant]
    spec fn well_formed(self) -> bool {
        self.format matches Serializers::Json(ext) && ext@ == ".json"@
    }
}

impl Default for Json {
    fn default() -> (s: Json)
        ensures
            s.spec_format() matches Serializers::Json(ext) && ext@ == ".json"@,
    {
        Json { format: Serializers::Json(String::from_str(".json")) }
    }
}

impl Serializer for Json {
    closed spec fn spec_format(&self) -> Serializers {
        self.format
    }

    open spec fn standard_extension() -> Seq<char> {
        ".json"@
    }

    fn create() -> (s: Json) {
        Json::default()
    }

    fn format(&self) -> (f: &Serializers)
        ensures
            *f matches Serializers::Json(ext) && ext@ == ".json"@,
    {
        proof {
            use_type_invariant(self);
        }
        &self.format
    }
}

} // verus!
