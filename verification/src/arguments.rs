//! What the command line asks for, decided from the values that were given
//! on it.

use crate::text::{contains, has_infix, lowercase, lowercase_of, parse_usize, parsed_usize, same_text};
use vstd::prelude::*;

verus! {

/// Indicates how many reference files are passed.
#[derive(Clone, Debug)]
pub enum Reference {
    One(String),
    Two(String, String),
    Zero,
}

impl Reference {
    /// The names of the reference files, in the order given.
    pub open spec fn names(&self) -> Seq<Seq<char>> {
        match self {
            Reference::One(first) => seq![first@],
            Reference::Two(first, second) => seq![first@, second@],
            Reference::Zero => Seq::empty(),
        }
    }
}

/// The format of the density file, which selects the function that reads it.
#[derive(Clone, Copy, Debug, PartialEq, Eq, Structural)]
pub enum FileType {
    Cube,
    Vasp,
}

/// The file type that a lower-case file name suggests, if any.
pub open spec fn file_type_of_name(lower: Seq<char>) -> Option<FileType> {
    if has_infix(lower, "cube"@) {
        Some(FileType::Cube)
    } else if has_infix(lower, "car"@) {
        Some(FileType::Vasp)
    } else {
        None
    }
}

impl FileType {
    /// The file type that was asked for by name: cube for `cube`, VASP for
    /// anything else.
    pub open spec fn named(name: Seq<char>) -> FileType {
        if name == "cube"@ {
            FileType::Cube
        } else {
            FileType::Vasp
        }
    }

    /// The file type that was asked for by name.
    pub fn from_name(name: &str) -> (file_type: FileType)
        ensures
            file_type == Self::named(name@),
    {
        if same_text(name, "cube") {
            FileType::Cube
        } else {
            FileType::Vasp
        }
    }

    /// The file type that a file name in lower case suggests: cube where
    /// it holds `cube`, else VASP where it holds `car`.
    pub fn from_lowercase(lower: &str) -> (file_type: Option<FileType>)
        ensures
            file_type == file_type_of_name(lower@),
    {
        if contains(lower, "cube") {
            Some(FileType::Cube)
        } else if contains(lower, "car") {
            Some(FileType::Vasp)
        } else {
            None
        }
    }

    /// The file type that a file name suggests, whatever its case.
    pub fn infer(file: &str) -> (file_type: Option<FileType>)
        ensures
            file_type == file_type_of_name(lowercase_of(file@)),
    {
        let lower = lowercase(file);
        Self::from_lowercase(lower.as_str())
    }

    /// Whether the samples of a file of this type have to be transposed
    /// before they are z-fastest.
    pub open spec fn zyx_format(&self) -> bool {
        *self == FileType::Vasp
    }
}

/// The method by which to partition the charge density.
#[derive(Clone, Copy, Debug, PartialEq, Eq, Structural)]
pub enum Method {
    OnGrid,
    NearGrid,
}

impl Method {
    /// The method that was asked for by name: on-grid for `ongrid`,
    /// near-grid for anything else and where none was named.
    pub open spec fn named(name: Option<Seq<char>>) -> Method {
        match name {
            Some(text) => if text == "ongrid"@ {
                Method::OnGrid
            } else {
                Method::NearGrid
            },
            None => Method::NearGrid,
        }
    }

    /// The method that was asked for by name.
    pub fn from_name(name: Option<&str>) -> (method: Method)
        ensures
            method == Self::named(
                match name {
                    Some(text) => Some(text@),
                    None => None,
                },
            ),
    {
        match name {
            Some(text) => {
                if same_text(text, "ongrid") {
                    Method::OnGrid
                } else {
                    Method::NearGrid
                }
            },
            None => Method::NearGrid,
        }
    }
}

/// The cut-off below which charge is considered vacuum.
#[derive(Debug)]
pub enum VacuumTolerance {
    /// The built-in cut-off was asked for.
    Auto,
    /// A cut-off was given; this is its text, still to be read as a number.
    Value(String),
}

impl VacuumTolerance {
    /// The cut-off that a text asks for: the built-in one for `auto`, else
    /// the text itself.
    pub open spec fn describes(&self, text: Seq<char>) -> bool {
        match self {
            VacuumTolerance::Auto => text == "auto"@,
            VacuumTolerance::Value(given) => text != "auto"@ && given@ == text,
        }
    }

    /// The cut-off that a text asks for.
    pub fn from_text(text: &str) -> (tolerance: VacuumTolerance)
        ensures
            tolerance.describes(text@),
    {
        if same_text(text, "auto") {
            VacuumTolerance::Auto
        } else {
            VacuumTolerance::Value(String::from_str(text))
        }
    }
}

/// Why the arguments cannot be used.
#[derive(Clone, Copy, Debug, PartialEq, Eq, Structural)]
pub enum ConfigError {
    /// The number of threads is not a non-negative integer.
    Threads,
    /// Both all-electron files were asked for with a file that is not VASP.
    AllElectron,
}

/// The values given on the command line, as text.
pub struct Matches {
    /// The density file.
    pub file: Option<String>,
    /// The file type, where one was named.
    pub file_type: Option<String>,
    /// The method, where one was named.
    pub method: Option<String>,
    /// The reference files, in the order given.
    pub reference: Vec<String>,
    /// Whether both all-electron files were asked for.
    pub all_electron: bool,
    /// The vacuum tolerance, where one was given.
    pub vacuum_tolerance: Option<String>,
    /// The number of threads.
    pub threads: String,
}

impl Matches {
    /// The name of the density file, empty where none was given.
    pub open spec fn file_name(&self) -> Seq<char> {
        match self.file {
            Some(file) => file@,
            None => Seq::empty(),
        }
    }

    /// The type of the density file: the one named, else the one that the
    /// file name suggests, else VASP.
    pub open spec fn read(&self) -> FileType {
        match self.file_type {
            Some(name) => FileType::named(name@),
            None => match file_type_of_name(lowercase_of(self.file_name())) {
                Some(file_type) => file_type,
                None => FileType::Vasp,
            },
        }
    }

    /// The method that was asked for.
    pub open spec fn method(&self) -> Method {
        Method::named(
            match self.method {
                Some(name) => Some(name@),
                None => None,
            },
        )
    }

    /// The names of the reference files: both all-electron files where they
    /// were asked for, else the one or two files given, else none.
    pub open spec fn references(&self) -> Seq<Seq<char>> {
        if self.all_electron {
            seq!["AECCAR0"@, "AECCAR2"@]
        } else if self.reference.len() == 1 {
            seq![self.reference[0]@]
        } else if self.reference.len() == 2 {
            seq![self.reference[0]@, self.reference[1]@]
        } else {
            Seq::empty()
        }
    }

    /// What is wrong with the arguments, if anything.
    pub open spec fn error(&self) -> Option<ConfigError> {
        if parsed_usize(self.threads@) is None {
            Some(ConfigError::Threads)
        } else if self.all_electron && self.read() != FileType::Vasp {
            Some(ConfigError::AllElectron)
        } else {
            None
        }
    }
}

/// Holds the arguments passed to the program from the command-line.
pub struct Args {
    pub file: String,
    pub read: FileType,
    pub method: Method,
    pub reference: Reference,
    pub threads: usize,
    pub vacuum_tolerance: Option<VacuumTolerance>,
    pub zyx_format: bool,
}

impl Args {
    /// These are the arguments that the given values ask for.
    pub open spec fn agrees(&self, arguments: Matches) -> bool {
        &&& self.file@ == arguments.file_name()
        &&& self.read == arguments.read()
        &&& self.zyx_format == self.read.zyx_format()
        &&& self.method == arguments.method()
        &&& self.reference.names() == arguments.references()
        &&& Some(self.threads) == parsed_usize(arguments.threads@)
        &&& match arguments.vacuum_tolerance {
            Some(text) => self.vacuum_tolerance matches Some(tolerance) && tolerance.describes(
                text@,
            ),
            None => self.vacuum_tolerance is None,
        }
    }

    /// Initialises the structure from the command-line arguments.
    pub fn new(arguments: Matches) -> (r: Result<Args, ConfigError>)
        ensures
            match r {
                Ok(args) => arguments.error() is None && args.agrees(arguments),
                Err(e) => arguments.error() == Some(e),
            },
    {
        let file = match &arguments.file {
            Some(f) => f.clone(),
            None => String::new(),
        };
        let read = match &arguments.file_type {
            Some(ftype) => FileType::from_name(ftype.as_str()),
            None => match FileType::infer(file.as_str()) {
                Some(file_type) => file_type,
                None => FileType::Vasp,
            },
        };
        let zyx_format = match read {
            FileType::Cube => false,
            FileType::Vasp => true,
        };
        let method = match &arguments.method {
            Some(name) => Method::from_name(Some(name.as_str())),
            None => Method::from_name(None),
        };
        let threads = match parse_usize(arguments.threads.as_str()) {
            Some(x) => x,
            None => {
                return Err(ConfigError::Threads);
            },
        };
        let vacuum_tolerance = match &arguments.vacuum_tolerance {
            Some(s) => Some(VacuumTolerance::from_text(s.as_str())),
            None => None,
        };
        let reference = if arguments.all_electron {
            match read {
                FileType::Vasp => {},
                FileType::Cube => {
                    return Err(ConfigError::AllElectron);
                },
            }
            Reference::Two(String::from_str("AECCAR0"), String::from_str("AECCAR2"))
        } else if arguments.reference.len() == 2 {
            Reference::Two(arguments.reference[0].clone(), arguments.reference[1].clone())
        } else if arguments.reference.len() == 1 {
            Reference::One(arguments.reference[0].clone())
        } else {
            Reference::Zero
        };
        Ok(Args { file, read, method, reference, threads, vacuum_tolerance, zyx_format })
    }
}

} // verus!
