//! Common types: the error taxonomy, supported languages and quality
//! grades.

use vstd::prelude::*;

verus! {

/// Errors reported across the library.
#[derive(Debug)]
pub enum Error {
    /// Invalid path or file not found.
    InvalidPath(String),
    /// No files found in directory.
    NoFilesFound(String),
    /// Unsupported language.
    UnsupportedLanguage(String),
    /// Transpilation error.
    TranspilationError(String),
    /// Validation error.
    ValidationError(String),
    /// Analysis error.
    Analysis(String),
    /// Generic error.
    Other(String),
}

/// The human-readable text of an error.
pub open spec fn error_message(e: Error) -> Seq<char> {
    match e {
        Error::InvalidPath(s) => "Invalid path: "@ + s@,
        Error::NoFilesFound(s) => "No files found in directory: "@ + s@,
        Error::UnsupportedLanguage(s) => "Unsupported language: "@ + s@,
        Error::TranspilationError(s) => "Transpilation failed: "@ + s@,
        Error::ValidationError(s) => "Validation failed: "@ + s@,
        Error::Analysis(s) => "Analysis failed: "@ + s@,
        Error::Other(s) => "Error: "@ + s@,
    }
}

impl Error {
    /// Renders the error as human-readable text.
    pub fn message(&self) -> (r: String)
        ensures
            r@ == error_message(*self),
    {
        match self {
            Error::InvalidPath(s) => {
                let mut m = String::new();
                m.append("Invalid path: ");
                m.append(s.as_str());
                m
            },
            Error::NoFilesFound(s) => {
                let mut m = String::new();
                m.append("No files found in directory: ");
                m.append(s.as_str());
                m
            },
            Error::UnsupportedLanguage(s) => {
                let mut m = String::new();
                m.append("Unsupported language: ");
                m.append(s.as_str());
                m
            },
            Error::TranspilationError(s) => {
                let mut m = String::new();
                m.append("Transpilation failed: ");
                m.append(s.as_str());
                m
            },
            Error::ValidationError(s) => {
                let mut m = String::new();
                m.append("Validation failed: ");
                m.append(s.as_str());
                m
            },
            Error::Analysis(s) => {
                let mut m = String::new();
                m.append("Analysis failed: ");
                m.append(s.as_str());
                m
            },
            Error::Other(s) => {
                let mut m = String::new();
                m.append("Error: ");
                m.append(s.as_str());
                m
            },
        }
    }
}

/// Programming language.
#[derive(Debug, Clone, Copy, PartialEq, Eq, Hash, Structural)]
pub enum Language {
    /// Python.
    Python,
    /// C.
    C,
    /// C++.
    Cpp,
    /// Rust.
    Rust,
    /// Shell/Bash.
    Shell,
    /// JavaScript.
    JavaScript,
    /// Unknown language.
    Unknown,
}

/// The identifier-style name of a language variant, as it is stamped
/// into generated output.
pub open spec fn language_token(l: Language) -> Seq<char> {
    match l {
        Language::Python => "Python"@,
        Language::C => "C"@,
        Language::Cpp => "Cpp"@,
        Language::Rust => "Rust"@,
        Language::Shell => "Shell"@,
        Language::JavaScript => "JavaScript"@,
        Language::Unknown => "Unknown"@,
    }
}

/// The file extensions of each language, in order.
pub open spec fn language_extensions(l: Language) -> Seq<Seq<char>> {
    match l {
        Language::Python => seq!["py"@, "pyw"@],
        Language::C => seq!["c"@, "h"@],
        Language::Cpp => seq!["cpp"@, "cc"@, "cxx"@, "hpp"@, "hxx"@],
        Language::Rust => seq!["rs"@],
        Language::Shell => seq!["sh"@, "bash"@],
        Language::JavaScript => seq!["js"@, "jsx"@, "ts"@, "tsx"@],
        Language::Unknown => Seq::empty(),
    }
}

impl Language {
    /// The identifier-style name of this language.
    pub fn name(self) -> (r: &'static str)
        ensures
            r@ == language_token(self),
    {
        match self {
            Language::Python => "Python",
            Language::C => "C",
            Language::Cpp => "Cpp",
            Language::Rust => "Rust",
            Language::Shell => "Shell",
            Language::JavaScript => "JavaScript",
            Language::Unknown => "Unknown",
        }
    }

    /// Get file extensions for this language.
    pub fn extensions(self) -> (r: Vec<&'static str>)
        ensures
            r@.len() == language_extensions(self).len(),
            forall|i: int| 0 <= i < r@.len() ==> r@[i]@ == language_extensions(self)[i],
    {
        let mut v: Vec<&'static str> = Vec::new();
        match self {
            Language::Python => {
                v.push("py");
                v.push("pyw");
            },
            Language::C => {
                v.push("c");
                v.push("h");
            },
            Language::Cpp => {
                v.push("cpp");
                v.push("cc");
                v.push("cxx");
                v.push("hpp");
                v.push("hxx");
            },
            Language::Rust => {
                v.push("rs");
            },
            Language::Shell => {
                v.push("sh");
                v.push("bash");
            },
            Language::JavaScript => {
                v.push("js");
                v.push("jsx");
                v.push("ts");
                v.push("tsx");
            },
            Language::Unknown => {},
        }
        v
    }
}

/// Letter grades for technical-debt scoring.
#[derive(Debug, Clone, Copy, PartialEq, Eq, Structural)]
pub enum Grade {
    /// 95-100.
    APlus,
    /// 90-94.
    A,
    /// 85-89.
    AMinus,
    /// 80-84.
    BPlus,
    /// 75-79.
    B,
    /// 70-74.
    BMinus,
    /// 60-69.
    C,
    /// 50-59.
    D,
    /// Below 50.
    F,
}

/// The display text of a grade.
pub open spec fn grade_text(g: Grade) -> Seq<char> {
    match g {
        Grade::APlus => "A+"@,
        Grade::A => "A"@,
        Grade::AMinus => "A-"@,
        Grade::BPlus => "B+"@,
        Grade::B => "B"@,
        Grade::BMinus => "B-"@,
        Grade::C => "C"@,
        Grade::D => "D"@,
        Grade::F => "F"@,
    }
}

impl Grade {
    /// The display text of this grade.
    pub fn as_str(self) -> (r: &'static str)
        ensures
            r@ == grade_text(self),
    {
        match self {
            Grade::APlus => "A+",
            Grade::A => "A",
            Grade::AMinus => "A-",
            Grade::BPlus => "B+",
            Grade::B => "B",
            Grade::BMinus => "B-",
            Grade::C => "C",
            Grade::D => "D",
            Grade::F => "F",
        }
    }

    /// Convert an integer percentage score (0 to 100) to a grade.
    pub fn from_points(points: u32) -> (r: Grade)
        ensures
            r == grade_from_points(points),
    {
        if points >= 95 {
            Grade::APlus
        } else if points >= 90 {
            Grade::A
        } else if points >= 85 {
            Grade::AMinus
        } else if points >= 80 {
            Grade::BPlus
        } else if points >= 75 {
            Grade::B
        } else if points >= 70 {
            Grade::BMinus
        } else if points >= 60 {
            Grade::C
        } else if points >= 50 {
            Grade::D
        } else {
            Grade::F
        }
    }
}

/// The grade of an integer percentage score.
pub open spec fn grade_from_points(points: u32) -> Grade {
    if points >= 95 {
        Grade::APlus
    } else if points >= 90 {
        Grade::A
    } else if points >= 85 {
        Grade::AMinus
    } else if points >= 80 {
        Grade::BPlus
    } else if points >= 75 {
        Grade::B
    } else if points >= 70 {
        Grade::BMinus
    } else if points >= 60 {
        Grade::C
    } else if points >= 50 {
        Grade::D
    } else {
        Grade::F
    }
}

} // verus!
