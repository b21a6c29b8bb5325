use vstd::prelude::*;

verus! {

/// The standard packages that source files may import.
#[derive(Clone, Copy, Debug, PartialEq, Eq, Structural)]
pub enum ImportedPackage {
    Fmt,
    Strings,
    Bytes,
}

/// The import path of a package.
pub open spec fn package_path(package: ImportedPackage) -> &'static str {
    match package {
        ImportedPackage::Fmt => "fmt",
        ImportedPackage::Strings => "strings",
        ImportedPackage::Bytes => "bytes",
    }
}

impl ImportedPackage {
    /// Returns the path under which the package is imported.
    pub fn import_path(self) -> (path: &'static str)
        ensures
            path == package_path(self),
    {
        match self {
            ImportedPackage::Fmt => "fmt",
            ImportedPackage::Strings => "strings",
            ImportedPackage::Bytes => "bytes",
        }
    }

    /// Returns the name that an import without an alias binds; for every
    /// supported package it is the import path itself.
    pub fn default_binding_name(self) -> (name: &'static str)
        ensures
            name == package_path(self),
    {
        match self {
            ImportedPackage::Fmt => "fmt",
            ImportedPackage::Strings => "strings",
            ImportedPackage::Bytes => "bytes",
        }
    }
}

/// The package functions that the virtual machine implements.
#[derive(Clone, Copy, Debug, PartialEq, Eq, Structural)]
pub enum PackageFunction {
    FmtPrint,
    FmtPrintln,
    FmtSprint,
    StringsCompare,
    StringsClone,
    StringsContains,
    StringsHasPrefix,
    StringsHasSuffix,
    StringsIndex,
    StringsLastIndex,
    StringsIndexByte,
    StringsLastIndexByte,
    StringsCut,
    StringsCutPrefix,
    StringsCutSuffix,
    StringsTrimPrefix,
    StringsTrimSuffix,
    StringsJoin,
    StringsRepeat,
    BytesCompare,
    BytesClone,
    BytesEqual,
    BytesContains,
    BytesHasPrefix,
    BytesHasSuffix,
    BytesIndex,
    BytesLastIndex,
    BytesIndexByte,
    BytesLastIndexByte,
    BytesCut,
    BytesCutPrefix,
    BytesCutSuffix,
    BytesTrimPrefix,
    BytesTrimSuffix,
    BytesJoin,
    BytesRepeat,
}

/// The qualified name of a package function.
pub open spec fn package_function_name(function: PackageFunction) -> &'static str {
    match function {
        PackageFunction::FmtPrint => "fmt.Print",
        PackageFunction::FmtPrintln => "fmt.Println",
        PackageFunction::FmtSprint => "fmt.Sprint",
        PackageFunction::StringsCompare => "strings.Compare",
        PackageFunction::StringsClone => "strings.Clone",
        PackageFunction::StringsContains => "strings.Contains",
        PackageFunction::StringsHasPrefix => "strings.HasPrefix",
        PackageFunction::StringsHasSuffix => "strings.HasSuffix",
        PackageFunction::StringsIndex => "strings.Index",
        PackageFunction::StringsLastIndex => "strings.LastIndex",
        PackageFunction::StringsIndexByte => "strings.IndexByte",
        PackageFunction::StringsLastIndexByte => "strings.LastIndexByte",
        PackageFunction::StringsCut => "strings.Cut",
        PackageFunction::StringsCutPrefix => "strings.CutPrefix",
        PackageFunction::StringsCutSuffix => "strings.CutSuffix",
        PackageFunction::StringsTrimPrefix => "strings.TrimPrefix",
        PackageFunction::StringsTrimSuffix => "strings.TrimSuffix",
        PackageFunction::StringsJoin => "strings.Join",
        PackageFunction::StringsRepeat => "strings.Repeat",
        PackageFunction::BytesCompare => "bytes.Compare",
        PackageFunction::BytesClone => "bytes.Clone",
        PackageFunction::BytesEqual => "bytes.Equal",
        PackageFunction::BytesContains => "bytes.Contains",
        PackageFunction::BytesHasPrefix => "bytes.HasPrefix",
        PackageFunction::BytesHasSuffix => "bytes.HasSuffix",
        PackageFunction::BytesIndex => "bytes.Index",
        PackageFunction::BytesLastIndex => "bytes.LastIndex",
        PackageFunction::BytesIndexByte => "bytes.IndexByte",
        PackageFunction::BytesLastIndexByte => "bytes.LastIndexByte",
        PackageFunction::BytesCut => "bytes.Cut",
        PackageFunction::BytesCutPrefix => "bytes.CutPrefix",
        PackageFunction::BytesCutSuffix => "bytes.CutSuffix",
        PackageFunction::BytesTrimPrefix => "bytes.TrimPrefix",
        PackageFunction::BytesTrimSuffix => "bytes.TrimSuffix",
        PackageFunction::BytesJoin => "bytes.Join",
        PackageFunction::BytesRepeat => "bytes.Repeat",
    }
}

impl PackageFunction {
    /// Returns the qualified name, such as `strings.Join`.
    pub fn render(self) -> (name: &'static str)
        ensures
            name == package_function_name(self),
    {
        match self {
            PackageFunction::FmtPrint => "fmt.Print",
            PackageFunction::FmtPrintln => "fmt.Println",
            PackageFunction::FmtSprint => "fmt.Sprint",
            PackageFunction::StringsCompare => "strings.Compare",
            PackageFunction::StringsClone => "strings.Clone",
            PackageFunction::StringsContains => "strings.Contains",
            PackageFunction::StringsHasPrefix => "strings.HasPrefix",
            PackageFunction::StringsHasSuffix => "strings.HasSuffix",
            PackageFunction::StringsIndex => "strings.Index",
            PackageFunction::StringsLastIndex => "strings.LastIndex",
            PackageFunction::StringsIndexByte => "strings.IndexByte",
            PackageFunction::StringsLastIndexByte => "strings.LastIndexByte",
            PackageFunction::StringsCut => "strings.Cut",
            PackageFunction::StringsCutPrefix => "strings.CutPrefix",
            PackageFunction::StringsCutSuffix => "strings.CutSuffix",
            PackageFunction::StringsTrimPrefix => "strings.TrimPrefix",
            PackageFunction::StringsTrimSuffix => "strings.TrimSuffix",
            PackageFunction::StringsJoin => "strings.Join",
            PackageFunction::StringsRepeat => "strings.Repeat",
            PackageFunction::BytesCompare => "bytes.Compare",
            PackageFunction::BytesClone => "bytes.Clone",
            PackageFunction::BytesEqual => "bytes.Equal",
            PackageFunction::BytesContains => "bytes.Contains",
            PackageFunction::BytesHasPrefix => "bytes.HasPrefix",
            PackageFunction::BytesHasSuffix => "bytes.HasSuffix",
            PackageFunction::BytesIndex => "bytes.Index",
            PackageFunction::BytesLastIndex => "bytes.LastIndex",
            PackageFunction::BytesIndexByte => "bytes.IndexByte",
            PackageFunction::BytesLastIndexByte => "bytes.LastIndexByte",
            PackageFunction::BytesCut => "bytes.Cut",
            PackageFunction::BytesCutPrefix => "bytes.CutPrefix",
            PackageFunction::BytesCutSuffix => "bytes.CutSuffix",
            PackageFunction::BytesTrimPrefix => "bytes.TrimPrefix",
            PackageFunction::BytesTrimSuffix => "bytes.TrimSuffix",
            PackageFunction::BytesJoin => "bytes.Join",
            PackageFunction::BytesRepeat => "bytes.Repeat",
        }
    }
}

} // verus!
