use retro_ide::listing::{arrange, list_directory};
use retro_ide::{DirChild, FileEntry, FsError};

fn child(name: &str, is_dir: bool) -> Result<DirChild, String> {
    Ok(DirChild { name: name.to_string(), path: format!("/work/{}", name), is_dir })
}

fn names(entries: &[FileEntry]) -> Vec<String> {
    entries.iter().map(|e| e.name.clone()).collect()
}

fn entry(name: &str, is_dir: bool) -> FileEntry {
    FileEntry { name: name.to_string(), path: format!("/work/{}", name), is_dir, children: None }
}

#[test]
fn directories_come_first_then_names_without_regard_to_case() {
    let listed =
        list_directory(vec![child("beta.txt", false), child("Alpha.txt", false), child("zeta", true)])
            .unwrap();
    assert_eq!(names(&listed), vec!["zeta", "Alpha.txt", "beta.txt"]);
    assert_eq!(listed[0], entry("zeta", true));
    assert_eq!(listed[1], entry("Alpha.txt", false));
    assert_eq!(listed[2], entry("beta.txt", false));
}

#[test]
fn names_that_begin_with_a_dot_are_left_out() {
    let listed =
        list_directory(vec![child(".git", true), child("a.txt", false), child("B.txt", false)])
            .unwrap();
    assert_eq!(names(&listed), vec!["a.txt", "B.txt"]);
}

#[test]
fn uppercase_does_not_sort_before_lowercase() {
    let listed = list_directory(vec![child("b", false), child("a", false), child("C", false), child("B2", false)])
        .unwrap();
    assert_eq!(names(&listed), vec!["a", "b", "B2", "C"]);
}

#[test]
fn names_that_differ_only_in_case_keep_the_order_they_were_found_in() {
    let listed = list_directory(vec![
        child("readme", false),
        child("README", false),
        child("ReadMe", false),
        child("apple", false),
    ])
    .unwrap();
    assert_eq!(names(&listed), vec!["apple", "readme", "README", "ReadMe"]);
    let listed = list_directory(vec![child("README", false), child("readme", false)]).unwrap();
    assert_eq!(names(&listed), vec!["README", "readme"]);
}

#[test]
fn a_prefix_comes_before_its_extensions() {
    let listed = list_directory(vec![
        child("main.rs.bak", false),
        child("main.rs", false),
        child("main", false),
    ])
    .unwrap();
    assert_eq!(names(&listed), vec!["main", "main.rs", "main.rs.bak"]);
}

#[test]
fn directories_are_ordered_among_themselves() {
    let listed = list_directory(vec![
        child("src", true),
        child("Cargo.toml", false),
        child("Docs", true),
        child("assets", true),
        child(".cache", true),
        child("build.rs", false),
    ])
    .unwrap();
    assert_eq!(names(&listed), vec!["assets", "Docs", "src", "build.rs", "Cargo.toml"]);
    assert!(listed.iter().take(3).all(|e| e.is_dir));
    assert!(listed.iter().skip(3).all(|e| !e.is_dir));
}

#[test]
fn names_beyond_ascii_are_folded_too() {
    let listed = list_directory(vec![child("Éclair", false), child("école", false), child("Zebra", false)])
        .unwrap();
    assert_eq!(names(&listed), vec!["Zebra", "Éclair", "école"]);
    let listed = list_directory(vec![child("école", false), child("Éclair", false)]).unwrap();
    assert_eq!(names(&listed), vec!["Éclair", "école"]);
}

#[test]
fn no_entry_of_a_listing_is_expanded() {
    let listed = list_directory(vec![child("src", true), child("lib.rs", false)]).unwrap();
    assert!(listed.iter().all(|e| e.children.is_none()));
    assert_eq!(listed[0].path, "/work/src");
    assert_eq!(listed[1].path, "/work/lib.rs");
}

#[test]
fn an_empty_directory_lists_nothing() {
    assert_eq!(list_directory(vec![]).unwrap(), vec![]);
    assert_eq!(list_directory(vec![child(".hidden", false)]).unwrap(), vec![]);
}

#[test]
fn a_failed_step_fails_the_listing_with_its_message() {
    let r = list_directory(vec![
        child("a", false),
        Err("permission denied".to_string()),
        child("b", false),
        Err("later".to_string()),
    ]);
    assert_eq!(r, Err(FsError::IOError("permission denied".to_string())));
    assert_eq!(r.unwrap_err().message(), "permission denied");
}

#[test]
fn a_failed_step_counts_even_among_hidden_children() {
    let r = list_directory(vec![child(".git", true), Err("gone".to_string())]);
    assert_eq!(r, Err(FsError::IOError("gone".to_string())));
}

#[test]
fn arrange_goes_by_the_folded_names_it_is_given() {
    let listed = arrange(vec![
        ("b".to_string(), entry("first", false)),
        ("a".to_string(), entry("second", false)),
        ("c".to_string(), entry("dir", true)),
    ]);
    assert_eq!(names(&listed), vec!["dir", "second", "first"]);
}

#[test]
fn arrange_keeps_equal_keys_in_their_order() {
    let listed = arrange(vec![
        ("same".to_string(), entry("one", false)),
        ("same".to_string(), entry("two", false)),
        ("same".to_string(), entry("three", true)),
        ("same".to_string(), entry("four", false)),
    ]);
    assert_eq!(names(&listed), vec!["three", "one", "two", "four"]);
}

#[test]
fn arrange_orders_by_code_point() {
    let listed = arrange(vec![
        ("é".to_string(), entry("e-acute", false)),
        ("z".to_string(), entry("z", false)),
        ("".to_string(), entry("empty", false)),
        ("Z".to_string(), entry("upper", false)),
        ("😀".to_string(), entry("face", false)),
        ("\u{ffff}".to_string(), entry("last-of-plane", false)),
    ]);
    assert_eq!(names(&listed), vec!["empty", "upper", "z", "e-acute", "last-of-plane", "face"]);
}

#[test]
fn arrange_agrees_with_the_standard_stable_sort() {
    let mut seed: u32 = 12345;
    let mut items: Vec<(String, FileEntry)> = Vec::new();
    for i in 0..200 {
        seed = seed.wrapping_mul(1103515245).wrapping_add(12345);
        let len = (seed >> 16) % 4;
        let mut key = String::new();
        for _ in 0..len {
            seed = seed.wrapping_mul(1103515245).wrapping_add(12345);
            key.push(['a', 'b', 'é', 'z'][((seed >> 16) % 4) as usize]);
        }
        seed = seed.wrapping_mul(1103515245).wrapping_add(12345);
        items.push((key, entry(&format!("n{}", i), (seed >> 16) % 3 == 0)));
    }
    let mut expected = items.clone();
    expected.sort_by(|a, b| b.1.is_dir.cmp(&a.1.is_dir).then_with(|| a.0.cmp(&b.0)));
    let expected: Vec<FileEntry> = expected.into_iter().map(|p| p.1).collect();
    assert_eq!(arrange(items), expected);
}

#[test]
fn an_entry_is_cloned_with_its_children() {
    let mut dir = entry("src", true);
    dir.children = Some(vec![entry("lib.rs", false), entry("bin", true)]);
    let copy = dir.clone();
    assert_eq!(copy, dir);
    assert_eq!(copy.children.unwrap().len(), 2);
}
