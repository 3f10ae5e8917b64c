use super::{Serializer, Serializers};
use vstd::prelude::*;
use vstd::string::StringExecFns;

verus! {

/// The Yaml wire format. A value of this type always describes itself as
/// `Serializers::Yaml` with the extension `.yaml`.
#[derive(Debug)]
pub struct Yaml {
    format: Serializers,
}

impl Yaml {
    #[verifier::type_invariant]
    spec fn well_formed(self) -> bool {
        self.format matches Serializers::Yaml(ext) && ext@ == ".yaml"@
    }
}

impl Default for Yaml {
    fn default() -> (s: Yaml)
        ensures
            s.spec_format() matches Serializers::Yaml(ext) && ext@ == ".yaml"@,
    {
        Yaml { format: Serializers::Yaml(String::from_str(".yaml")) }
    }
}

impl Serializer for Yaml {
    closed spec fn spec_format(&self) -> Serializers {
        self.format
    }

    open spec fn standard_extension() -> Seq<char> {
        ".yaml"@
    }

    fn create() -> (s: Yaml) {
        Yaml::default()
    }

    fn format(&self) -> (f: &Serializers)
        ensures
            *f matches Serializers::Yaml(ext) && ext@ == ".yaml"@,
    {
        proof {
            use_type_invariant(self);
        }
        &self.format
    }
}

} // verus!
