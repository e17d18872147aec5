use bader::arguments::{Args, ConfigError, FileType, Matches, Method, Reference, VacuumTolerance};
use bader::text::{contains, parse_usize, same_text};

/// The values of a command line that names a file and nothing else.
fn given(file: &str) -> Matches {
    Matches {
        file: Some(String::from(file)),
        file_type: None,
        method: None,
        reference: Vec::new(),
        all_electron: false,
        vacuum_tolerance: None,
        threads: String::from("0"),
    }
}

#[test]
fn argument_file() {
    let args = Args::new(given("CHGCAR")).unwrap();
    assert_eq!(args.file, String::from("CHGCAR"));
}

#[test]
fn argument_file_missing() {
    let mut matches = given("");
    matches.file = None;
    let args = Args::new(matches).unwrap();
    assert_eq!(args.file, String::new());
    assert_eq!(args.read, FileType::Vasp);
}

#[test]
fn argument_method_ongrid() {
    let mut matches = given("CHGCAR");
    matches.method = Some(String::from("ongrid"));
    let args = Args::new(matches).unwrap();
    assert_eq!(args.method, Method::OnGrid);
}

#[test]
fn argument_method_neargrid() {
    let mut matches = given("CHGCAR");
    matches.method = Some(String::from("neargrid"));
    let args = Args::new(matches).unwrap();
    assert_eq!(args.method, Method::NearGrid);
}

#[test]
fn argument_method_default() {
    let args = Args::new(given("CHGCAR")).unwrap();
    assert_eq!(args.method, Method::NearGrid);
}

#[test]
fn argument_method_by_name() {
    assert_eq!(Method::from_name(Some("ongrid")), Method::OnGrid);
    assert_eq!(Method::from_name(Some("neargrid")), Method::NearGrid);
    assert_eq!(Method::from_name(Some("ongri")), Method::NearGrid);
    assert_eq!(Method::from_name(Some("ongrid ")), Method::NearGrid);
    assert_eq!(Method::from_name(None), Method::NearGrid);
}

#[test]
fn argument_file_type_default_vasp() {
    let args = Args::new(given("CHGCAR")).unwrap();
    assert_eq!(args.read, FileType::Vasp);
    assert!(args.zyx_format);
}

#[test]
fn argument_file_type_default_unknown() {
    let args = Args::new(given("CHG")).unwrap();
    assert_eq!(args.read, FileType::Vasp);
    assert!(args.zyx_format);
    assert_eq!(FileType::infer("CHG"), None);
}

#[test]
fn argument_file_type_vasp() {
    let mut matches = given("CHGCAR");
    matches.file_type = Some(String::from("vasp"));
    let args = Args::new(matches).unwrap();
    assert_eq!(args.read, FileType::Vasp);
}

#[test]
fn argument_file_type_default_cube() {
    let args = Args::new(given("charge.cube")).unwrap();
    assert_eq!(args.read, FileType::Cube);
    assert!(!args.zyx_format);
}

#[test]
fn argument_file_type_cube() {
    let mut matches = given("charge.cube");
    matches.file_type = Some(String::from("cube"));
    let args = Args::new(matches).unwrap();
    assert_eq!(args.read, FileType::Cube);
}

#[test]
fn argument_file_type_named_against_the_name() {
    let mut matches = given("charge.cube");
    matches.file_type = Some(String::from("vasp"));
    assert_eq!(Args::new(matches).unwrap().read, FileType::Vasp);
    let mut matches = given("CHGCAR");
    matches.file_type = Some(String::from("cube"));
    let args = Args::new(matches).unwrap();
    assert_eq!(args.read, FileType::Cube);
    assert!(!args.zyx_format);
}

#[test]
fn argument_file_type_whatever_the_case() {
    assert_eq!(FileType::infer("CHARGE.CUBE"), Some(FileType::Cube));
    assert_eq!(FileType::infer("Density.Cube"), Some(FileType::Cube));
    assert_eq!(FileType::infer("chgcar"), Some(FileType::Vasp));
    assert_eq!(FileType::infer("AECCAR0"), Some(FileType::Vasp));
    assert_eq!(FileType::infer("cube.car"), Some(FileType::Cube));
    assert_eq!(FileType::infer("cub"), None);
    assert_eq!(FileType::infer(""), None);
    assert_eq!(Args::new(given("CHARGE.CUBE")).unwrap().read, FileType::Cube);
}

#[test]
fn argument_file_type_from_lowercase() {
    assert_eq!(FileType::from_lowercase("charge.cube"), Some(FileType::Cube));
    assert_eq!(FileType::from_lowercase("chgcar"), Some(FileType::Vasp));
    assert_eq!(FileType::from_lowercase("CHARGE.CUBE"), None);
    assert_eq!(FileType::from_name("cube"), FileType::Cube);
    assert_eq!(FileType::from_name("Cube"), FileType::Vasp);
    assert_eq!(FileType::from_name("vasp"), FileType::Vasp);
}

#[test]
fn argument_reference_one() {
    let mut matches = given("CHGCAR");
    matches.reference = vec![String::from("CHGCAR_sum")];
    let args = Args::new(matches).unwrap();
    let flag = match args.reference {
        Reference::One(_) => true,
        _ => false,
    };
    assert!(flag)
}

#[test]
fn argument_reference_two() {
    let mut matches = given("CHGCAR");
    matches.reference = vec![String::from("AECCAR0"), String::from("AECCAR2")];
    let args = Args::new(matches).unwrap();
    let flag = match args.reference {
        Reference::Two(_, _) => true,
        _ => false,
    };
    assert!(flag)
}

#[test]
fn argument_reference_none() {
    let args = Args::new(given("CHGCAR")).unwrap();
    let flag = match args.reference {
        Reference::Zero => true,
        _ => false,
    };
    assert!(flag)
}

#[test]
fn argument_reference_names() {
    let mut matches = given("CHGCAR");
    matches.reference = vec![String::from("first"), String::from("second")];
    match Args::new(matches).unwrap().reference {
        Reference::Two(x, y) => assert_eq!((x.as_str(), y.as_str()), ("first", "second")),
        _ => panic!("two references were given"),
    }
    let mut matches = given("CHGCAR");
    matches.reference = vec![String::from("only")];
    match Args::new(matches).unwrap().reference {
        Reference::One(x) => assert_eq!(x, "only"),
        _ => panic!("one reference was given"),
    }
    let mut matches = given("CHGCAR");
    matches.reference = vec![String::from("a"), String::from("b"), String::from("c")];
    assert!(matches!(Args::new(matches).unwrap().reference, Reference::Zero));
}

#[test]
fn argument_aeccar() {
    let mut matches = given("CHGCAR");
    matches.all_electron = true;
    let args = Args::new(matches).unwrap();
    let flag = match args.reference {
        Reference::Two(x, y) => {
            if (x == String::from("AECCAR0"))
               && (y == String::from("AECCAR2"))
            {
                true
            } else {
                false
            }
        }
        _ => false,
    };
    assert!(flag)
}

#[test]
#[should_panic]
fn argument_aeccar_cube() {
    let mut matches = given("charge.cube");
    matches.all_electron = true;
    let _ = Args::new(matches).unwrap();
}

#[test]
fn argument_aeccar_cube_is_an_error() {
    let mut matches = given("charge.cube");
    matches.all_electron = true;
    assert_eq!(Args::new(matches).err(), Some(ConfigError::AllElectron));
    let mut matches = given("CHGCAR");
    matches.all_electron = true;
    matches.file_type = Some(String::from("cube"));
    assert_eq!(Args::new(matches).err(), Some(ConfigError::AllElectron));
    let mut matches = given("charge.cube");
    matches.all_electron = true;
    matches.threads = String::from("many");
    assert_eq!(Args::new(matches).err(), Some(ConfigError::Threads));
}

#[test]
fn argument_vacuum_tolerance_auto() {
    let mut matches = given("CHGCAR");
    matches.vacuum_tolerance = Some(String::from("auto"));
    let args = Args::new(matches).unwrap();
    assert!(matches!(args.vacuum_tolerance, Some(VacuumTolerance::Auto)))
}

#[test]
fn argument_vacuum_tolerance_float() {
    let mut matches = given("CHGCAR");
    matches.vacuum_tolerance = Some(String::from("1E-4"));
    let args = Args::new(matches).unwrap();
    match args.vacuum_tolerance {
        Some(VacuumTolerance::Value(text)) => assert_eq!(text.parse::<f64>(), Ok(1E-4)),
        _ => panic!("a tolerance was given"),
    }
}

#[test]
fn argument_vacuum_tolerance_absent() {
    let args = Args::new(given("CHGCAR")).unwrap();
    assert!(args.vacuum_tolerance.is_none());
    assert!(matches!(VacuumTolerance::from_text("Auto"), VacuumTolerance::Value(_)));
}

#[test]
fn argument_threads_default() {
    let args = Args::new(given("CHGCAR")).unwrap();
    assert_eq!(args.threads, 0)
}

#[test]
fn argument_threads_int() {
    let mut matches = given("CHGCAR");
    matches.threads = String::from("1");
    let args = Args::new(matches).unwrap();
    assert_eq!(args.threads, 1)
}

#[test]
#[should_panic]
fn argument_threads_not_int() {
    let mut matches = given("CHGCAR");
    matches.threads = String::from("0.1");
    let _ = Args::new(matches).unwrap();
}

#[test]
fn argument_threads_not_int_is_an_error() {
    let mut matches = given("CHGCAR");
    matches.threads = String::from("0.1");
    assert_eq!(Args::new(matches).err(), Some(ConfigError::Threads));
}

#[test]
fn text_parse_usize() {
    for text in ["0", "1", "007", "+5", "+0", "42", "18446744073709551615",
                 "18446744073709551616", "99999999999999999999999", "",
                 "+", "-", "-0", "-1", "++1", "1+", " 1", "1 ", "0.1", "1_000",
                 "0x10", "١٢", "4294967295", "4294967296", "9223372036854775808"]
    {
        assert_eq!(parse_usize(text), text.parse::<usize>().ok(), "{:?}", text);
    }
    assert_eq!(parse_usize("1234567890"), Some(1234567890));
    assert_eq!(parse_usize("+17"), Some(17));
    assert_eq!(parse_usize("seventeen"), None);
}

#[test]
fn text_contains() {
    assert!(contains("charge.cube", "cube"));
    assert!(contains("cube", "cube"));
    assert!(contains("a cube b", "cube"));
    assert!(!contains("cub", "cube"));
    assert!(!contains("cu be", "cube"));
    assert!(contains("anything", ""));
    assert!(contains("", ""));
    assert!(!contains("", "car"));
    assert!(contains("chgcar", "car"));
    assert!(contains("ccar", "car"));
    assert!(contains("内容car", "car"));
    assert!(!contains("cacar".trim_end_matches("car"), "car"));
    for (text, pattern) in [("aaab", "aab"), ("abab", "bab"), ("abc", "abcd"), ("abcabd", "abd")] {
        assert_eq!(contains(text, pattern), text.contains(pattern));
    }
}

#[test]
fn text_same_text() {
    assert!(same_text("cube", "cube"));
    assert!(same_text("", ""));
    assert!(!same_text("cube", "cub"));
    assert!(!same_text("cub", "cube"));
    assert!(!same_text("cube", "cubE"));
    assert!(!same_text("", "a"));
}
