//! The character sets an NFO file can be written in.
use vstd::prelude::*;

verus! {

/// One of the legacy encodings an NFO byte stream may use, including the
/// cases where CP 437 content was wrapped in one or two further layers.
#[derive(Clone, Copy, Debug, PartialEq, Eq, Structural)]
pub enum Charset {
    Utf16,
    Utf8Sig,
    Utf8,
    Cp437,
    Cp437InUtf8,
    Cp437InUtf16,
    Cp437Strict,
    Windows1252,
    Cp437InCp437,
    Cp437InCp437InUtf8,
}

impl Charset {
    /// The human-readable label of the charset.
    pub open spec fn label(self) -> Seq<char> {
        match self {
            Charset::Utf16 => "UTF-16"@,
            Charset::Utf8Sig => "UTF-8 (Signature)"@,
            Charset::Utf8 => "UTF-8"@,
            Charset::Cp437 => "CP 437"@,
            Charset::Cp437InUtf8 => "CP 437 (in UTF-8)"@,
            Charset::Cp437InUtf16 => "CP 437 (in UTF-16)"@,
            Charset::Cp437Strict => "CP 437 (strict mode)"@,
            Charset::Windows1252 => "Windows-1252"@,
            Charset::Cp437InCp437 => "CP 437 (double encoded)"@,
            Charset::Cp437InCp437InUtf8 => "CP 437 (double encoded + UTF-8)"@,
        }
    }

    /// Returns the human-readable label of the charset.
    pub fn name(&self) -> (r: &'static str)
        ensures
            r@ == self.label(),
    {
        match self {
            Charset::Utf16 => "UTF-16",
            Charset::Utf8Sig => "UTF-8 (Signature)",
            Charset::Utf8 => "UTF-8",
            Charset::Cp437 => "CP 437",
            Charset::Cp437InUtf8 => "CP 437 (in UTF-8)",
            Charset::Cp437InUtf16 => "CP 437 (in UTF-16)",
            Charset::Cp437Strict => "CP 437 (strict mode)",
            Charset::Windows1252 => "Windows-1252",
            Charset::Cp437InCp437 => "CP 437 (double encoded)",
            Charset::Cp437InCp437InUtf8 => "CP 437 (double encoded + UTF-8)",
        }
    }
}

} // verus!
