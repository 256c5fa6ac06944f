//! Names for the auxiliary structs of enum variants with named fields.
//!
//! The name is a pure function of the enclosing enum's name, the
//! variant's name and the configured strategy, so every definition site
//! and every reference site derive the identical identifier.

use vstd::prelude::*;

use crate::config::{spec_convert, NamingConvention, StructNamingStrategy, Swift};
use crate::text::push_str;

verus! {

/// The auxiliary struct name for `(enum, variant)` under a strategy:
/// the converted variant name plus `Data`, prefixed by the enum's name
/// under `AutoRename`.
pub open spec fn spec_variant_struct_name(
    strategy: StructNamingStrategy,
    naming: NamingConvention,
    enum_name: Seq<char>,
    variant_name: Seq<char>,
) -> Seq<char> {
    match strategy {
        StructNamingStrategy::AutoRename => enum_name + spec_convert(naming, variant_name)
            + "Data"@,
        StructNamingStrategy::KeepOriginal => spec_convert(naming, variant_name) + "Data"@,
    }
}

/// Generate the struct name for an enum variant with named fields.
pub fn generate_variant_struct_name(swift: &Swift, enum_name: &str, variant_name: &str) -> (r:
    String)
    ensures
        r@ == spec_variant_struct_name(
            swift.struct_naming,
            swift.naming,
            enum_name@,
            variant_name@,
        ),
{
    let converted = swift.naming.convert(variant_name);
    let mut result = String::new();
    match swift.struct_naming {
        StructNamingStrategy::AutoRename => {
            push_str(&mut result, enum_name);
            push_str(&mut result, converted.as_str());
            push_str(&mut result, "Data");
        },
        StructNamingStrategy::KeepOriginal => {
            push_str(&mut result, converted.as_str());
            push_str(&mut result, "Data");
        },
    }
    result
}

/// Convert a variant name with the given convention.
pub fn convert_variant_name(variant_name: &str, naming: &NamingConvention) -> (r: String)
    ensures
        r@ == spec_convert(*naming, variant_name@),
{
    naming.convert(variant_name)
}

} // verus!
