//! Failures and the diagnostics that extraction reports while it skips them.
use vstd::prelude::*;

verus! {

/// Why a type or declaration was not extracted.
#[derive(Clone, Copy, PartialEq, Eq, Debug, Structural)]
pub enum ParseError {
    /// A construct that is left out on purpose; nothing is reported.
    Ignored,
    /// A construct that was not anticipated; it is reported.
    Unsupported,
}

#[derive(Clone, Copy, PartialEq, Eq, Debug, Structural)]
pub enum Reason {
    UnsupportedTypeKind,
    UnsupportedTemplateArgument,
    UnsupportedEvaluation,
    UnsupportedGlobalType,
    NonExternGlobal,
    UnsupportedAliasType,
    UnsupportedFieldType,
    UnsupportedParamType,
    UnsupportedReturnType,
    UnsupportedBaseType,
    MultipleInheritance,
    NonPublicInheritance,
    PrivatePodField,
}

/// The words for each reason.
pub open spec fn reason_text(r: Reason) -> Seq<char> {
    match r {
        Reason::UnsupportedTypeKind => "Unsupported type kind"@,
        Reason::UnsupportedTemplateArgument => "Unsupported template param type"@,
        Reason::UnsupportedEvaluation => "Unsupported evaluation result"@,
        Reason::UnsupportedGlobalType => "Unsupported extern global type"@,
        Reason::NonExternGlobal => "Global without external linkage"@,
        Reason::UnsupportedAliasType => "Unsupported alias type"@,
        Reason::UnsupportedFieldType => "Unsupported field type"@,
        Reason::UnsupportedParamType => "Unsupported param type"@,
        Reason::UnsupportedReturnType => "Unsupported return type"@,
        Reason::UnsupportedBaseType => "Unsupported base type"@,
        Reason::MultipleInheritance => "Multiple inheritance"@,
        Reason::NonPublicInheritance => "Non-public inheritance"@,
        Reason::PrivatePodField => "Private POD field"@,
    }
}

impl Reason {
    /// The reason in words.
    pub fn describe(&self) -> (r: &'static str)
        ensures
            r@ == reason_text(*self),
    {
        match self {
            Reason::UnsupportedTypeKind => "Unsupported type kind",
            Reason::UnsupportedTemplateArgument => "Unsupported template param type",
            Reason::UnsupportedEvaluation => "Unsupported evaluation result",
            Reason::UnsupportedGlobalType => "Unsupported extern global type",
            Reason::NonExternGlobal => "Global without external linkage",
            Reason::UnsupportedAliasType => "Unsupported alias type",
            Reason::UnsupportedFieldType => "Unsupported field type",
            Reason::UnsupportedParamType => "Unsupported param type",
            Reason::UnsupportedReturnType => "Unsupported return type",
            Reason::UnsupportedBaseType => "Unsupported base type",
            Reason::MultipleInheritance => "Multiple inheritance",
            Reason::NonPublicInheritance => "Non-public inheritance",
            Reason::PrivatePodField => "Private POD field",
        }
    }
}

/// A construct that was skipped: why, what it was, and where.
#[derive(Clone, PartialEq, Eq, Debug)]
pub struct Diagnostic {
    pub reason: Reason,
    /// The skipped construct, when it has a name or spelling.
    pub subject: Option<String>,
    /// The enclosing declaration, when there is one with a name.
    pub context: Option<String>,
}

} // verus!
