use retro_ide::error::{require_directory, require_file};
use retro_ide::text::{begins_with_dot, chars_of, precedes, same_text};
use retro_ide::{FsError, PathKind, Wanted};

#[test]
fn a_missing_path_is_not_found() {
    assert_eq!(require_directory(PathKind::Missing), Err(FsError::NotFound(Wanted::Directory)));
    assert_eq!(require_file(PathKind::Missing), Err(FsError::NotFound(Wanted::File)));
}

#[test]
fn a_file_is_no_directory() {
    assert_eq!(require_directory(PathKind::File), Err(FsError::NotADirectory));
    assert_eq!(require_directory(PathKind::Other), Err(FsError::NotADirectory));
    assert_eq!(require_directory(PathKind::Directory), Ok(()));
}

#[test]
fn a_directory_is_no_file() {
    assert_eq!(require_file(PathKind::Directory), Err(FsError::NotAFile));
    assert_eq!(require_file(PathKind::Other), Err(FsError::NotAFile));
    assert_eq!(require_file(PathKind::File), Ok(()));
}

#[test]
fn each_failure_has_its_message() {
    assert_eq!(FsError::NotFound(Wanted::Directory).message(), "Path does not exist");
    assert_eq!(FsError::NotFound(Wanted::File).message(), "File does not exist");
    assert_eq!(FsError::NotADirectory.message(), "Path is not a directory");
    assert_eq!(FsError::NotAFile.message(), "Path is not a file");
    assert_eq!(FsError::IOError("No space left on device".to_string()).message(), "No space left on device");
    assert_eq!(FsError::DecodeError.message(), "stream did not contain valid UTF-8");
}

#[test]
fn texts_are_compared_character_by_character() {
    assert!(same_text("", ""));
    assert!(same_text("héllo", "héllo"));
    assert!(!same_text("hello", "hellO"));
    assert!(!same_text("hello", "hell"));
    assert!(!same_text("", " "));
    assert_eq!(chars_of("a😀é"), vec!['a', '😀', 'é']);
    assert_eq!(chars_of(""), Vec::<char>::new());
}

#[test]
fn dictionary_order_is_strict_and_total() {
    let words = ["", "a", "A", "ab", "abc", "b", "é", "zz", "😀"];
    for x in words {
        for y in words {
            let before = precedes(&chars_of(x), &chars_of(y));
            assert_eq!(before, x < y, "{:?} before {:?}", x, y);
        }
    }
}

#[test]
fn a_leading_dot_is_seen() {
    assert!(begins_with_dot(".git"));
    assert!(begins_with_dot("."));
    assert!(begins_with_dot(".."));
    assert!(!begins_with_dot(""));
    assert!(!begins_with_dot("a.txt"));
    assert!(!begins_with_dot(" .git"));
}
