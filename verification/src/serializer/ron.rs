use super::{Serializer, Serializers};
use vstd::prelude::*;
use vstd::string::StringExecFns;

verus! {

/// The Ron wire format. A value of this type always describes itself as
/// `Serializers::Ron` with the extension `.ron`.
#[derive(Debug)]
pub struct Ron {
    format: Serializers,
}

impl Ron {
    #[verifier::type_invariant]
    spec fn well_formed(self) -> bool {
        self.format matches Serializers::Ron(ext) && ext@ == ".ron"@
    }
}

impl Default for Ron {
    fn default() -> (s: Ron)
        ensures
            s.spec_format() matches Serializers::Ron(ext) && ext@ == ".ron"@,
    {
        Ron { format: Serializers::Ron(String::from_str(".ron")) }
    }
}

impl Serializer for Ron {
    closed spec fn spec_format(&self) -> Serializers {
        self.format
    }

    open spec fn standard_extension() -> Seq<char> {
        ".ron"@
    }

    fn create() -> (s: Ron) {
        Ron::default()
    }

    fn format(&self) -> (f: &Serializers)
        ensures
            *f matches Serializers::Ron(ext) && ext@ == ".ron"@,
    {
        proof {
            use_type_invariant(self);
        }
        &self.format
    }
}

} // verus!
