//! Export configuration: naming conventions, duplicate-name policy,
//! optional style, variant-struct naming, and the error type.

use vstd::prelude::*;

use crate::case_conversion::{lower_first, snake_to_camel, snake_to_kebab,
    snake_to_screaming_snake, spec_lower_first, spec_snake_to_camel, spec_snake_to_kebab,
    spec_snake_to_screaming_snake, spec_to_pascal_case, spec_to_snake_case, to_pascal_case,
    to_snake_case};
use crate::formatting::spec_join_non_empty;
use crate::text::{push_str, str_to_string};

verus! {

/// Case convention applied to exported type names.
#[derive(Clone, Copy, PartialEq, Eq, Structural, Debug)]
pub enum NamingConvention {
    /// Keep names exactly as registered.
    Keep,
    /// `PascalCase`, the Swift convention for type names.
    PascalCase,
    /// `camelCase`.
    CamelCase,
    /// `snake_case`.
    SnakeCase,
    /// `kebab-case`.
    KebabCase,
    /// `SCREAMING_SNAKE_CASE`.
    ScreamingSnakeCase,
}

/// How `Optional` fields are written in Swift.
#[derive(Clone, Copy, PartialEq, Eq, Structural, Debug)]
pub enum OptionalStyle {
    /// `T?`
    QuestionMark,
    /// `Optional<T>`
    Optional,
}

/// How the auxiliary struct of an enum variant with named fields is
/// named.
#[derive(Clone, Copy, PartialEq, Eq, Structural, Debug)]
pub enum StructNamingStrategy {
    /// Prefix the enclosing enum's name: `ApiResponseSuccessData`.
    AutoRename,
    /// Use only the variant's own name: `SuccessData`.
    KeepOriginal,
}

/// What to do when two registered types resolve to the same Swift name.
#[derive(Clone, Copy, PartialEq, Eq, Structural, Debug)]
pub enum DuplicateNameStrategy {
    /// Keep only the last-registered definition and report the
    /// collision on the diagnostics side channel.
    Warn,
    /// Abort the export with a `DuplicateNames` error.
    Error,
    /// Prefix the case-converted module path to each colliding name.
    Qualify,
    /// Let a caller-supplied namer pick the name; see
    /// [`DuplicateNamer`].
    Custom,
}

/// A caller-supplied renamer for the `Custom` duplicate-name strategy.
/// Its output is used as the colliding type's name and is not
/// re-validated for uniqueness.
pub trait DuplicateNamer {
    /// The replacement name for one registered type.
    fn rename(&self, ndt: &crate::model::NamedDataType) -> String;
}

/// The name a type-name convention gives to `s`.
pub open spec fn spec_convert(conv: NamingConvention, s: Seq<char>) -> Seq<char> {
    match conv {
        NamingConvention::Keep => s,
        NamingConvention::PascalCase => spec_to_pascal_case(s),
        NamingConvention::CamelCase => spec_lower_first(spec_to_pascal_case(s)),
        NamingConvention::SnakeCase => spec_to_snake_case(s),
        NamingConvention::KebabCase => spec_snake_to_kebab(spec_to_snake_case(s)),
        NamingConvention::ScreamingSnakeCase => spec_snake_to_screaming_snake(
            spec_to_snake_case(s),
        ),
    }
}

/// The name every field gets: camelCase of its registered name.
pub open spec fn spec_convert_field(s: Seq<char>) -> Seq<char> {
    spec_snake_to_camel(s)
}

/// The name every enum case gets: lower-camelCase of its registered
/// name.
pub open spec fn spec_convert_enum_case(s: Seq<char>) -> Seq<char> {
    spec_lower_first(spec_to_pascal_case(s))
}

impl NamingConvention {
    /// Apply this convention to a type name.
    pub fn convert(&self, s: &str) -> (r: String)
        ensures
            r@ == spec_convert(*self, s@),
    {
        match self {
            NamingConvention::Keep => str_to_string(s),
            NamingConvention::PascalCase => to_pascal_case(s),
            NamingConvention::CamelCase => {
                let p = to_pascal_case(s);
                lower_first(p.as_str())
            },
            NamingConvention::SnakeCase => to_snake_case(s),
            NamingConvention::KebabCase => {
                let t = to_snake_case(s);
                snake_to_kebab(t.as_str())
            },
            NamingConvention::ScreamingSnakeCase => {
                let t = to_snake_case(s);
                snake_to_screaming_snake(t.as_str())
            },
        }
    }

    /// Convert a field name to Swift's camelCase property convention.
    pub fn convert_field(&self, s: &str) -> (r: String)
        ensures
            r@ == spec_convert_field(s@),
    {
        snake_to_camel(s)
    }

    /// Convert an enum variant name to Swift's lower-camelCase case
    /// convention.
    pub fn convert_enum_case(&self, s: &str) -> (r: String)
        ensures
            r@ == spec_convert_enum_case(s@),
    {
        let p = to_pascal_case(s);
        lower_first(p.as_str())
    }
}

/// The Swift exporter configuration.
#[derive(Clone, Copy, PartialEq, Eq, Structural, Debug)]
pub struct Swift {
    /// Case convention for exported type names.
    pub naming: NamingConvention,
    /// How `Nullable` types are written.
    pub optionals: OptionalStyle,
    /// How variant auxiliary structs are named.
    pub struct_naming: StructNamingStrategy,
    /// What to do about colliding resolved type names.
    pub duplicate_name_strategy: DuplicateNameStrategy,
    /// Whether structs get a generated memberwise initializer.
    pub generate_initializers: bool,
}

impl Swift {
    /// The default configuration: PascalCase type names, `T?`
    /// optionals, auto-renamed variant structs, warn on duplicates, no
    /// initializers.
    pub fn new() -> (r: Swift)
        ensures
            r.naming == NamingConvention::PascalCase,
            r.optionals == OptionalStyle::QuestionMark,
            r.struct_naming == StructNamingStrategy::AutoRename,
            r.duplicate_name_strategy == DuplicateNameStrategy::Warn,
            r.generate_initializers == false,
    {
        Swift {
            naming: NamingConvention::PascalCase,
            optionals: OptionalStyle::QuestionMark,
            struct_naming: StructNamingStrategy::AutoRename,
            duplicate_name_strategy: DuplicateNameStrategy::Warn,
            generate_initializers: false,
        }
    }

    /// Replace the type-name convention.
    pub fn naming(self, naming: NamingConvention) -> (r: Swift)
        ensures
            r == (Swift { naming, ..self }),
    {
        Swift { naming, ..self }
    }

    /// Replace the optional style.
    pub fn optionals(self, optionals: OptionalStyle) -> (r: Swift)
        ensures
            r == (Swift { optionals, ..self }),
    {
        Swift { optionals, ..self }
    }

    /// Replace the variant-struct naming strategy.
    pub fn struct_naming(self, struct_naming: StructNamingStrategy) -> (r: Swift)
        ensures
            r == (Swift { struct_naming, ..self }),
    {
        Swift { struct_naming, ..self }
    }

    /// Replace the duplicate-name strategy.
    pub fn duplicate_name_strategy(self, duplicate_name_strategy: DuplicateNameStrategy) -> (r:
        Swift)
        ensures
            r == (Swift { duplicate_name_strategy, ..self }),
    {
        Swift { duplicate_name_strategy, ..self }
    }

    /// Enable or disable generated memberwise initializers.
    pub fn initializers(self, generate_initializers: bool) -> (r: Swift)
        ensures
            r == (Swift { generate_initializers, ..self }),
    {
        Swift { generate_initializers, ..self }
    }
}

impl Default for Swift {
    /// Same configuration as [`Swift::new`].
    fn default() -> (r: Swift)
        ensures
            r == (Swift {
                naming: NamingConvention::PascalCase,
                optionals: OptionalStyle::QuestionMark,
                struct_naming: StructNamingStrategy::AutoRename,
                duplicate_name_strategy: DuplicateNameStrategy::Warn,
                generate_initializers: false,
            }),
    {
        Swift::new()
    }
}

/// An export failure.
#[derive(Clone, PartialEq, Eq, Debug)]
pub enum Error {
    /// A literal, primitive or representation with no Swift
    /// equivalent; carries a description.
    UnsupportedType(String),
    /// A dangling reference or invalid resolved name; carries a
    /// description.
    InvalidIdentifier(String),
    /// Colliding resolved type names under the `Error` strategy;
    /// carries the colliding names.
    DuplicateNames(Vec<String>),
}

/// The mathematical view of an [`Error`]: the variant with its text.
pub enum ErrView {
    Unsupported(Seq<char>),
    InvalidIdent(Seq<char>),
    Duplicates(Seq<Seq<char>>),
}

impl View for Error {
    type V = ErrView;

    open spec fn view(&self) -> ErrView {
        match self {
            Error::UnsupportedType(m) => ErrView::Unsupported(m@),
            Error::InvalidIdentifier(m) => ErrView::InvalidIdent(m@),
            Error::DuplicateNames(names) => ErrView::Duplicates(
                names@.map_values(|n: String| n@),
            ),
        }
    }
}

/// The outcome of rendering one piece of Swift text: the text, or the
/// error that stopped the export.
pub enum Rendered {
    Text(Seq<char>),
    Fail(ErrView),
}

/// The view of a rendering result.
pub open spec fn render_of(r: Result<String, Error>) -> Rendered {
    match r {
        Result::Ok(s) => Rendered::Text(s@),
        Result::Err(e) => Rendered::Fail(e@),
    }
}

/// The display text of an error value.
pub open spec fn spec_error_message(e: Error) -> Seq<char> {
    match e {
        Error::UnsupportedType(m) => "Unsupported type: "@ + m@,
        Error::InvalidIdentifier(m) => "Invalid identifier: "@ + m@,
        Error::DuplicateNames(names) => "Duplicate type names found: "@ + spec_join_non_empty(
            names@.map_values(|n: String| n@),
            ", "@,
        ),
    }
}

impl Error {
    /// A human-readable description of the failure.
    pub fn message(&self) -> (r: String)
        ensures
            r@ == spec_error_message(*self),
    {
        let mut result = String::new();
        match self {
            Error::UnsupportedType(m) => {
                push_str(&mut result, "Unsupported type: ");
                push_str(&mut result, m.as_str());
            },
            Error::InvalidIdentifier(m) => {
                push_str(&mut result, "Invalid identifier: ");
                push_str(&mut result, m.as_str());
            },
            Error::DuplicateNames(names) => {
                push_str(&mut result, "Duplicate type names found: ");
                let joined = crate::formatting::join_non_empty(names, ", ");
                push_str(&mut result, joined.as_str());
            },
        }
        result
    }
}

} // verus!
