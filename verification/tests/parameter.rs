use pattrns::parameter::{
    clone_parameters, find_parameter, set_parameter_value, Parameter, ParameterError,
    ParameterType,
};
use pattrns::text::{eq_ignore_ascii_case, lower_code, same_text};

fn strings(values: &[&str]) -> Vec<String> {
    values.iter().map(|v| v.to_string()).collect()
}

fn boolean(default: i64) -> Result<Parameter, ParameterError> {
    Parameter::new("name", "", "", ParameterType::Boolean, 0, 1_000_000, default, vec![])
}

fn integer(default: i64, min: i64, max: i64) -> Result<Parameter, ParameterError> {
    Parameter::new("name", "", "", ParameterType::Integer, min, max, default, vec![])
}

fn number(default: i64, min: i64, max: i64) -> Result<Parameter, ParameterError> {
    Parameter::new("name", "", "", ParameterType::Float, min, max, default, vec![])
}

fn choice(default: i64, values: &[&str]) -> Result<Parameter, ParameterError> {
    let max = values.len().saturating_sub(1) as i64 * 1_000_000;
    Parameter::new("name", "", "", ParameterType::Enum, 0, max, default, strings(values))
}

#[test]
fn boolean_parameters() {
    assert!(boolean(0).is_ok());
    assert!(boolean(1_000_000).is_ok());
    assert_eq!(boolean(500_000).unwrap_err(), ParameterError::NotWhole);
    assert_eq!(boolean(2_000_000).unwrap_err(), ParameterError::OutOfRange);
    assert_eq!(
        Parameter::new("name", "", "", ParameterType::Boolean, 0, 2_000_000, 0, vec![])
            .unwrap_err(),
        ParameterError::InvalidRange
    );
}

#[test]
fn integer_parameters() {
    assert!(integer(50_000_000, 0, 100_000_000).is_ok());
    assert!(integer(0, -20_000_000, 20_000_000).is_ok());
    // not an integer
    assert_eq!(integer(20_500_000, 0, 100_000_000).unwrap_err(), ParameterError::NotWhole);
    // out of range
    assert_eq!(integer(50_000_000, 1_000_000, 20_000_000).unwrap_err(), ParameterError::OutOfRange);
    // no range
    assert_eq!(integer(0, 1_000_000, 0).unwrap_err(), ParameterError::InvalidRange);
    assert_eq!(integer(0, 0, 1_500_000).unwrap_err(), ParameterError::InvalidRange);
}

#[test]
fn float_parameters() {
    assert!(number(500_000, 0, 1_000_000).is_ok());
    assert!(number(0, -20_000_000, 20_000_000).is_ok());
    assert!(number(500_000, -20_500_000, 20_500_000).is_ok());
    assert_eq!(number(50_000_000, 1_000_000, 20_000_000).unwrap_err(), ParameterError::OutOfRange);
    assert_eq!(number(50_000_000, 100_000_000, 50_000_000).unwrap_err(), ParameterError::InvalidRange);
}

#[test]
fn enum_parameters() {
    assert!(choice(0, &["VALUE", "value2"]).is_ok());
    assert!(choice(1_000_000, &["value", "wurst"]).is_ok());
    // values not unique
    assert_eq!(choice(0, &["a", "b", "A"]).unwrap_err(), ParameterError::InvalidValues);
    assert_eq!(choice(0, &[]).unwrap_err(), ParameterError::InvalidValues);
    // default not in values
    assert_eq!(choice(2_000_000, &["1", "2"]).unwrap_err(), ParameterError::OutOfRange);
    assert_eq!(choice(500_000, &["1", "2"]).unwrap_err(), ParameterError::NotWhole);
    assert_eq!(
        Parameter::new("name", "", "", ParameterType::Enum, 0, 5_000_000, 0, strings(&["1", "2"]))
            .unwrap_err(),
        ParameterError::InvalidRange
    );
}

#[test]
fn a_parameter_holds_what_it_was_made_with() {
    let parameter = Parameter::new(
        "cutoff",
        "Fancy Name",
        "Fancy Description",
        ParameterType::Float,
        -20_500_000,
        20_500_000,
        500_000,
        vec![],
    )
    .unwrap();
    assert_eq!(parameter.id(), "cutoff");
    assert_eq!(parameter.name(), "Fancy Name");
    assert_eq!(parameter.description(), "Fancy Description");
    assert_eq!(parameter.parameter_type(), ParameterType::Float);
    assert_eq!(parameter.range(), (-20_500_000, 20_500_000));
    assert_eq!(parameter.default(), 500_000);
    assert_eq!(parameter.value(), 500_000);
    assert!(parameter.value_strings().is_empty());
    let copy = parameter.duplicate();
    assert_eq!(copy.id(), "cutoff");
    assert_eq!(copy.value(), 500_000);
}

#[test]
fn values_are_set_within_the_range() {
    let mut parameter = integer(5_000_000, 0, 10_000_000).unwrap();
    assert_eq!(parameter.set_value(10_000_000), Ok(()));
    assert_eq!(parameter.value(), 10_000_000);
    assert_eq!(parameter.set_value(10_000_001), Err(ParameterError::OutOfRange));
    assert_eq!(parameter.set_value(-1), Err(ParameterError::OutOfRange));
    assert_eq!(parameter.value(), 10_000_000);
    assert_eq!(parameter.default(), 5_000_000);
}

#[test]
fn enum_values_are_set_by_their_display_strings() {
    let mut parameter = choice(0, &["Up", "Down", "Random"]).unwrap();
    assert_eq!(parameter.set_value_string("down"), Ok(()));
    assert_eq!(parameter.value(), 1_000_000);
    assert_eq!(parameter.set_value_string("RANDOM"), Ok(()));
    assert_eq!(parameter.value(), 2_000_000);
    assert_eq!(parameter.set_value_string("sideways"), Err(ParameterError::OutOfRange));
    assert_eq!(parameter.value(), 2_000_000);
}

#[test]
fn parameters_are_found_by_their_ids() {
    let mut parameters = vec![
        Parameter::new("a", "", "", ParameterType::Float, 0, 1_000_000, 0, vec![]).unwrap(),
        Parameter::new("b", "", "", ParameterType::Float, 0, 2_000_000, 0, vec![]).unwrap(),
        Parameter::new("a", "", "", ParameterType::Float, 0, 3_000_000, 0, vec![]).unwrap(),
    ];
    assert_eq!(find_parameter(&parameters, "a"), Some(0));
    assert_eq!(find_parameter(&parameters, "b"), Some(1));
    assert_eq!(find_parameter(&parameters, "A"), None);
    assert_eq!(find_parameter(&parameters, ""), None);
    assert_eq!(set_parameter_value(&mut parameters, "b", 1_500_000), Ok(()));
    assert_eq!(parameters[1].value(), 1_500_000);
    // the first parameter with the id is the one that counts
    assert_eq!(
        set_parameter_value(&mut parameters, "a", 2_000_000),
        Err(ParameterError::OutOfRange)
    );
    assert_eq!(set_parameter_value(&mut parameters, "c", 0), Err(ParameterError::UnknownId));
    let values: Vec<i64> = parameters.iter().map(|p| p.value()).collect();
    assert_eq!(values, vec![0, 1_500_000, 0]);
    let copies = clone_parameters(&parameters);
    let values: Vec<i64> = copies.iter().map(|p| p.value()).collect();
    assert_eq!(values, vec![0, 1_500_000, 0]);
}

#[test]
fn texts_are_compared_with_and_without_case() {
    assert!(eq_ignore_ascii_case("fnl", "FNL"));
    assert!(eq_ignore_ascii_case("Value2", "vALUE2"));
    assert!(eq_ignore_ascii_case("", ""));
    assert!(!eq_ignore_ascii_case("a", "b"));
    assert!(!eq_ignore_ascii_case("a", "aa"));
    assert!(!eq_ignore_ascii_case("[", "{"));
    assert!(!eq_ignore_ascii_case("@", "`"));
    assert!(eq_ignore_ascii_case("üA", "üa"));
    assert!(!eq_ignore_ascii_case("ü", "Ü"));
    assert!(same_text("abc", "abc"));
    assert!(!same_text("abc", "Abc"));
    assert_eq!(lower_code('A'), 'a' as u32);
    assert_eq!(lower_code('Z'), 'z' as u32);
    assert_eq!(lower_code('a'), 'a' as u32);
    assert_eq!(lower_code('1'), '1' as u32);
}
