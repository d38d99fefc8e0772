use forg::utils::{get_file_type_folder, lookup_folder, own_folder};

#[test]
fn test_file_type_mapping() {
    assert_eq!(get_file_type_folder("jpg"), "Images");
    assert_eq!(get_file_type_folder("JPG"), "Images");
    assert_eq!(get_file_type_folder("pdf"), "Documents");
    assert_eq!(get_file_type_folder("rs"), "Code");
    assert_eq!(get_file_type_folder("unknown"), "Others");
    assert_eq!(get_file_type_folder("xyz"), "XYZ-Files");
}

#[test]
fn every_group_of_the_table_is_reached() {
    assert_eq!(get_file_type_folder("webp"), "Images");
    assert_eq!(get_file_type_folder("pages"), "Documents");
    assert_eq!(get_file_type_folder("numbers"), "Spreadsheets");
    assert_eq!(get_file_type_folder("key"), "Presentations");
    assert_eq!(get_file_type_folder("3gp"), "Videos");
    assert_eq!(get_file_type_folder("m4a"), "Audio");
    assert_eq!(get_file_type_folder("7z"), "Archives");
    assert_eq!(get_file_type_folder("toml"), "Code");
    assert_eq!(get_file_type_folder("app"), "Applications");
    assert_eq!(get_file_type_folder("woff2"), "Fonts");
    assert_eq!(get_file_type_folder("blend"), "3D-Models");
    assert_eq!(get_file_type_folder("azw3"), "eBooks");
}

#[test]
fn listed_extensions_ignore_case() {
    for (spelling, folder) in [
        ("Jpeg", "Images"),
        ("PDF", "Documents"),
        ("Mp3", "Audio"),
        ("TAR", "Archives"),
        ("Html", "Code"),
        ("EPUB", "eBooks"),
        ("UnKnOwN", "Others"),
    ] {
        assert_eq!(get_file_type_folder(spelling), folder);
        assert_eq!(get_file_type_folder(&spelling.to_lowercase()), folder);
        assert_eq!(get_file_type_folder(&spelling.to_uppercase()), folder);
    }
}

#[test]
fn unlisted_extensions_get_a_folder_of_their_own() {
    assert_eq!(get_file_type_folder("xyz"), "XYZ-Files");
    assert_eq!(get_file_type_folder("Xyz"), "XYZ-Files");
    assert_eq!(get_file_type_folder("log"), "LOG-Files");
    assert_eq!(get_file_type_folder("jpg2"), "JPG2-Files");
    assert_eq!(get_file_type_folder("tar.gz"), "TAR.GZ-Files");
    assert_eq!(get_file_type_folder("é"), "É-Files");
}

#[test]
fn a_missing_extension_goes_to_others() {
    assert_eq!(get_file_type_folder(""), "Others");
    assert_eq!(get_file_type_folder("unknown"), "Others");
    assert_eq!(get_file_type_folder(""), get_file_type_folder("unknown"));
}

#[test]
fn lookup_is_exact_about_its_argument() {
    assert_eq!(lookup_folder("jpg"), Some("Images"));
    assert_eq!(lookup_folder("JPG"), None);
    assert_eq!(lookup_folder("jp"), None);
    assert_eq!(lookup_folder("jpgs"), None);
    assert_eq!(lookup_folder(""), Some("Others"));
    assert_eq!(lookup_folder("xyz"), None);
}

#[test]
fn an_own_folder_is_named_by_the_uppercase_form() {
    assert_eq!(own_folder("XYZ".to_string()), "XYZ-Files");
    assert_eq!(own_folder(String::new()), "-Files");
}
