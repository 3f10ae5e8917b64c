use super::{Serializer, Serializers};
use vstd::prelude::*;
use vstd::string::StringExecFns;

verus! {

/// The Bin wire format. A value of this type always describes itself as
/// `Serializers::Bin` with the extension `.bin`.
#[derive(Debug)]
pub struct Bin {
    format: Serializers,
}

impl Bin {
    #[verifier::type_invariant]
    spec fn well_formed(self) -> bool {
        self.format matches Serializers::Bin(ext) && ext@ == ".bin"@
    }
}

impl Default for Bin {
    fn default() -> (s: Bin)
        ensures
            s.spec_format() matches Serializers::Bin(ext) && ext@ == ".bin"@,
    {
        Bin { format: Serializers::Bin(String::from_str(".bin")) }
    }
}

impl Serializer for Bin {
    closed spec fn spec_format(&self) -> Serializers {
        self.format
    }

    open spec fn standard_extension() -> Seq<char> {
        ".bin"@
    }

    fn create() -> (s: Bin) {
        Bin::default()
    }

    fn format(&self) -> (f: &Serializers)
        ensures
            *f matches Serializers::Bin(ext) && ext@ == ".bin"@,
    {
        proof {
            use_type_invariant(self);
        }
        &self.format
    }
}

} // verus!
