use leo_synthesis::verification_key::{
    VerificationKeyFile, VerificationKeyFileError, OUTPUTS_DIRECTORY_NAME,
    VERIFICATION_KEY_FILE_EXTENSION,
};

fn path(components: &[&str]) -> Vec<String> {
    components.iter().map(|c| c.to_string()).collect()
}

#[test]
fn new_keeps_the_package_name() {
    let file = VerificationKeyFile::new("token");
    assert_eq!(file.package_name, "token");
}

#[test]
fn names_of_directory_and_extension() {
    assert_eq!(OUTPUTS_DIRECTORY_NAME, "outputs");
    assert_eq!(VERIFICATION_KEY_FILE_EXTENSION, ".lvk");
    assert_eq!(VerificationKeyFile::new("token").file_name(), "token.lvk");
    assert_eq!(VerificationKeyFile::new("").file_name(), ".lvk");
}

#[test]
fn a_path_that_is_no_directory_is_the_file() {
    let file = VerificationKeyFile::new("token");
    let given = path(&["home", "keys", "other.lvk"]);
    assert_eq!(file.full_path(&given, false), given);
    assert_eq!(file.full_path(&path(&["outputs"]), false), path(&["outputs"]));
    assert_eq!(file.full_path(&vec![], false), Vec::<String>::new());
}

#[test]
fn beneath_a_directory_the_file_lies_in_outputs() {
    let file = VerificationKeyFile::new("token");
    assert_eq!(
        file.full_path(&path(&["home", "token"]), true),
        path(&["home", "token", "outputs", "token.lvk"])
    );
    assert_eq!(file.full_path(&vec![], true), path(&["outputs", "token.lvk"]));
    assert_eq!(
        file.full_path(&path(&["outputs", "token"]), true),
        path(&["outputs", "token", "outputs", "token.lvk"])
    );
}

#[test]
fn the_outputs_directory_itself_is_not_entered_twice() {
    let file = VerificationKeyFile::new("token");
    assert_eq!(
        file.full_path(&path(&["home", "token", "outputs"]), true),
        path(&["home", "token", "outputs", "token.lvk"])
    );
    assert_eq!(file.full_path(&path(&["outputs"]), true), path(&["outputs", "token.lvk"]));
    assert_eq!(
        file.setup_file_path(&path(&["outputs"]), true),
        path(&["outputs", "token.lvk"])
    );
}

#[test]
fn the_file_exists_where_its_path_was_found() {
    let file = VerificationKeyFile::new("token");
    let found = vec![
        path(&["home", "token", "outputs", "token.lpk"]),
        path(&["home", "token", "outputs", "token.lvk"]),
    ];
    assert!(file.exists_at(&path(&["home", "token"]), true, &found));
    assert!(file.exists_at(&path(&["home", "token", "outputs"]), true, &found));
    assert!(file.exists_at(&path(&["home", "token", "outputs", "token.lvk"]), false, &found));
    assert!(!file.exists_at(&path(&["home"]), true, &found));
    assert!(!file.exists_at(&path(&["home", "token"]), false, &found));
    assert!(!file.exists_at(&path(&["home", "token"]), true, &vec![]));
    let other = VerificationKeyFile::new("coin");
    assert!(!other.exists_at(&path(&["home", "token"]), true, &found));
}

#[test]
fn reading_gives_the_bytes_or_the_path_that_failed() {
    let file = VerificationKeyFile::new("token");
    let home = path(&["home", "token"]);
    assert_eq!(file.read_from(&home, true, Some(vec![1, 2, 3])), Ok(vec![1, 2, 3]));
    assert_eq!(file.read_from(&home, true, Some(vec![])), Ok(vec![]));
    assert_eq!(
        file.read_from(&home, true, None),
        Err(VerificationKeyFileError::FailedToRead(path(&[
            "home",
            "token",
            "outputs",
            "token.lvk"
        ])))
    );
    assert_eq!(
        file.read_from(&home, false, None),
        Err(VerificationKeyFileError::FailedToRead(home.clone()))
    );
}

#[test]
fn writing_gives_the_path_written_to() {
    let file = VerificationKeyFile::new("token");
    let home = path(&["home", "token"]);
    assert_eq!(
        file.write_to(&home, true, Ok(())),
        Ok(path(&["home", "token", "outputs", "token.lvk"]))
    );
    assert_eq!(file.write_to(&home, false, Ok(())), Ok(home.clone()));
    assert_eq!(
        file.write_to(&home, true, Err("disk full".to_string())),
        Err(VerificationKeyFileError::IoError("disk full".to_string()))
    );
}

#[test]
fn removing_tells_whether_a_file_was_removed() {
    let file = VerificationKeyFile::new("token");
    let home = path(&["home", "token"]);
    assert_eq!(file.remove(&home, true, false, false), Ok(false));
    assert_eq!(file.remove(&home, true, false, true), Ok(false));
    assert_eq!(file.remove(&home, true, true, true), Ok(true));
    assert_eq!(
        file.remove(&home, true, true, false),
        Err(VerificationKeyFileError::FailedToRemove(path(&[
            "home",
            "token",
            "outputs",
            "token.lvk"
        ])))
    );
    assert_eq!(
        file.remove(&home, false, true, false),
        Err(VerificationKeyFileError::FailedToRemove(home.clone()))
    );
}
