use forg::config::Config;
use forg::dates::DateFormat;
use forg::utils::lookup_folder;

fn pair(key: &str, value: &str) -> (String, String) {
    (key.to_string(), value.to_string())
}

#[test]
fn the_default_settings_list_three_kinds_of_files() {
    let config = Config::default();
    assert_eq!(config.file_type_mappings.len(), 26);
    assert_eq!(config.file_type_mappings[0], pair("jpg", "Images"));
    assert_eq!(config.file_type_mappings[8], pair("ico", "Images"));
    assert_eq!(config.file_type_mappings[9], pair("pdf", "Documents"));
    assert_eq!(config.file_type_mappings[15], pair("pages", "Documents"));
    assert_eq!(config.file_type_mappings[16], pair("rs", "Code"));
    assert_eq!(config.file_type_mappings[25], pair("java", "Code"));
}

#[test]
fn the_default_settings_leave_some_names_alone() {
    let config = Config::default();
    assert_eq!(
        config.ignore_patterns,
        vec![".DS_Store", "Thumbs.db", "*.tmp", "*.temp", ".git", ".gitignore", "node_modules"]
    );
}

#[test]
fn the_default_settings_name_the_three_date_formats() {
    let config = Config::default();
    assert_eq!(
        config.date_formats,
        vec![pair("year", "%Y"), pair("month", "%Y-%m"), pair("day", "%Y-%m-%d")]
    );
    for (selector, pattern) in &config.date_formats {
        let format = DateFormat::parse(selector).unwrap();
        assert_eq!(format.pattern(), pattern);
    }
}

#[test]
fn no_default_key_stands_twice() {
    let config = Config::default();
    for (i, (key, _)) in config.file_type_mappings.iter().enumerate() {
        for (other, _) in &config.file_type_mappings[i + 1..] {
            assert_ne!(key, other);
        }
    }
}

#[test]
fn the_default_mappings_agree_with_the_folders_of_the_organizer() {
    let config = Config::default();
    for (extension, folder) in &config.file_type_mappings {
        assert_eq!(lookup_folder(extension), Some(folder.as_str()));
    }
}

#[test]
fn a_new_settings_file_starts_from_the_defaults() {
    assert_eq!(Config::generate_default(), Config::default());
}
