use vstd::prelude::*;

verus! {

/// The explicit conversions between strings and byte slices.
#[derive(Clone, Copy, Debug, PartialEq, Eq, Structural)]
pub enum ConversionKind {
    StringToBytes,
    BytesToString,
}

/// The textual form of a conversion in bytecode listings.
pub open spec fn conversion_name(kind: ConversionKind) -> &'static str {
    match kind {
        ConversionKind::StringToBytes => "string->[]byte",
        ConversionKind::BytesToString => "[]byte->string",
    }
}

impl ConversionKind {
    /// Returns the textual form of the conversion.
    pub fn render(self) -> (text: &'static str)
        ensures
            text == conversion_name(self),
    {
        match self {
            ConversionKind::StringToBytes => "string->[]byte",
            ConversionKind::BytesToString => "[]byte->string",
        }
    }
}

} // verus!
