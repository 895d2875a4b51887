use hundredyearswar::validation;
use hundredyearswar::graphics::{buffer, texture};
use hundredyearswar::resource::{Error, Resources};
use hundredyearswar::settings::{CLISettingsConfiguration, FileSettingsConfiguration, Settings};
use hundredyearswar::validation::{Path, ValidateInto, Validator};

#[derive(Debug, PartialEq)]
enum LoadError {
    Resource(Error),
    Missing,
}

impl From<Error> for LoadError {
    fn from(e: Error) -> LoadError {
        LoadError::Resource(e)
    }
}

#[test]
fn resources_are_found_by_name_and_id() {
    let mut resources: Resources<i32> = Resources::new();
    assert_eq!(None, resources.id_by_name("first"));
    assert_eq!(Ok(0), resources.insert(String::from("first"), 10));
    assert_eq!(Ok(1), resources.insert(String::from("second"), 20));
    assert_eq!(Some(0), resources.id_by_name("first"));
    assert_eq!(Some(1), resources.id_by_name("second"));
    assert_eq!(None, resources.id_by_name("third"));
    assert_eq!(Some(&20), resources.get(1));
    assert_eq!(None, resources.get(2));
}

#[test]
fn resources_refuse_a_second_resource_of_a_name() {
    let mut resources: Resources<i32> = Resources::new();
    assert_eq!(Ok(0), resources.insert(String::from("first"), 10));
    assert_eq!(Err(Error::Duplicate), resources.insert(String::from("first"), 30));
    assert_eq!(Some(&10), resources.get(0));
    assert_eq!(None, resources.get(1));
}

#[test]
fn resources_insert_what_is_created() {
    let mut resources: Resources<i32> = Resources::new();
    assert_eq!(Ok(0), resources.insert_from(String::from("a"), || Ok::<i32, LoadError>(7)));
    assert_eq!(
        Err(LoadError::Resource(Error::Duplicate)),
        resources.insert_from(String::from("a"), || Ok::<i32, LoadError>(8))
    );
    assert_eq!(Err(LoadError::Missing), resources.insert_from(String::from("b"), || Err(LoadError::Missing)));
    assert_eq!(None, resources.id_by_name("b"));
    assert_eq!(Ok(1), resources.insert_from(String::from("b"), || Ok::<i32, LoadError>(9)));
    assert_eq!(Some(&9), resources.get(1));
}

fn no_arguments() -> CLISettingsConfiguration {
    CLISettingsConfiguration { data_path: None, window_width: None, window_height: None }
}

#[test]
fn settings_start_with_a_window_of_800_by_600() {
    let settings = Settings::load(None, None, no_arguments());
    assert_eq!(("", 800, 600), (settings.data_path().as_str(), settings.window_width(), settings.window_height()));
    let settings = Settings::default();
    assert_eq!(("", 800, 600), (settings.data_path().as_str(), settings.window_width(), settings.window_height()));
    let settings = Settings::load(Some(String::from("/game/data")), None, no_arguments());
    assert_eq!("/game/data", settings.data_path().as_str());
}

#[test]
fn settings_file_sets_the_window() {
    let file = FileSettingsConfiguration { data_path: None, window_width: 1024, window_height: 768 };
    let settings = Settings::load(Some(String::from("/game/data")), Some(file), no_arguments());
    assert_eq!(
        ("/game/data", 1024, 768),
        (settings.data_path().as_str(), settings.window_width(), settings.window_height())
    );
    let file = FileSettingsConfiguration {
        data_path: Some(String::from("/other")),
        window_width: 1024,
        window_height: 768,
    };
    let settings = Settings::load(Some(String::from("/game/data")), Some(file), no_arguments());
    assert_eq!("/other", settings.data_path().as_str());
}

#[test]
fn settings_command_line_comes_last() {
    let file = FileSettingsConfiguration {
        data_path: Some(String::from("/other")),
        window_width: 1024,
        window_height: 768,
    };
    let arguments = CLISettingsConfiguration {
        data_path: Some(String::from("/third")),
        window_width: None,
        window_height: Some(100),
    };
    let settings = Settings::load(None, Some(file), arguments);
    assert_eq!(
        ("/third", 1024, 100),
        (settings.data_path().as_str(), settings.window_width(), settings.window_height())
    );
}

#[test]
fn path_is_written_with_slashes() {
    let mut path = Path::new();
    assert_eq!("", path.to_string());
    path.push_field("button");
    path.push_id(String::from("7"));
    path.push_field("margins");
    assert_eq!("/button/7/margins", path.to_string());
    path.pop();
    assert_eq!("/button/7", path.to_string());
    path.pop();
    path.pop();
    path.pop();
    assert_eq!("", path.to_string());
}

#[test]
fn validator_hands_back_a_valid_value() {
    let mut validator = Validator::new();
    assert_eq!(Ok(3), validator.validate_field("size", "must be > 0", 3, |v| *v > 0));
    let error = validator.validate_field("size", "must be > 0", -3, |v| *v > 0).unwrap_err();
    assert_eq!("must be > 0", error.message().as_str());
    assert_eq!("/size", error.path().as_str());
    assert_eq!(
        Ok(String::from("a")),
        Validator::new().validate_field("name", "must not be empty", String::from("a"), |v| !v.is_empty())
    );
}

struct Pair {
    first: i32,
    second: i32,
}

impl ValidateInto<(i32, i32)> for Pair {
    fn validate_into(self, validator: &mut Validator) -> Result<(i32, i32), validation::Error> {
        Ok((
            validator.validate_field("first", "must be >= 0", self.first, |v| *v >= 0)?,
            validator.validate_field("second", "must be >= 0", self.second, |v| *v >= 0)?,
        ))
    }
}

#[test]
fn validator_follows_the_path_of_nested_values() {
    let mut validator = Validator::new();
    assert_eq!(Ok((1, 2)), validator.validate_field_into("pair", Pair { first: 1, second: 2 }));
    assert_eq!(Ok((1, 2)), validator.validate_into(Pair { first: 1, second: 2 }));
    let error = validator.validate_field_into("pair", Pair { first: 1, second: -2 }).unwrap_err();
    assert_eq!(validation::Error::new(&path_of(&["pair", "second"]), "must be >= 0"), error);
    assert_eq!("/pair/second", error.path().as_str());
    let error = Validator::new().validate_into(Pair { first: -1, second: -2 }).unwrap_err();
    assert_eq!("/first", error.path().as_str());
}

fn path_of(names: &[&'static str]) -> Path {
    let mut path = Path::new();
    for name in names {
        path.push_field(name);
    }
    path
}

#[test]
fn buffer_data_are_checked_in_order() {
    assert_eq!(Ok(()), buffer::validate(12, 2, 2, &vec![0, 1, 2]));
    assert_eq!(Ok(()), buffer::validate(0, 3, 0, &vec![]));
    assert_eq!(Err(buffer::Error::BadCoordinateCount), buffer::validate(13, 2, 2, &vec![0, 1]));
    assert_eq!(Err(buffer::Error::BadIndexCount), buffer::validate(12, 2, 2, &vec![0, 9]));
    assert_eq!(Err(buffer::Error::BadIndex), buffer::validate(12, 2, 2, &vec![0, 3, 2]));
    assert_eq!(Err(buffer::Error::BadIndex), buffer::validate(12, 2, 2, &vec![0, 1, usize::MAX]));
}

#[test]
fn texture_size_is_never_negative() {
    assert_eq!(Ok(()), texture::check_size(0, 0));
    assert_eq!(Err(texture::Error::BadWidth(-1)), texture::check_size(-1, -2));
    assert_eq!(Err(texture::Error::BadHeight(-2)), texture::check_size(1, -2));
}
