use dir_mapper::app_state::mapping_state::{
    build_file_filter_regex, map_file, FileMapping, MappedDir, MappingState, NUM_CONFIGS,
    NUM_SERIALIZED,
};
use dir_mapper::listing::{load_input_file_list, ListedEntry};
use dir_mapper::renamer::Renamer;

fn file(name: &str) -> ListedEntry {
    ListedEntry { name: name.to_string(), is_dir: false, is_symlink: false }
}

fn dir(name: &str) -> ListedEntry {
    ListedEntry { name: name.to_string(), is_dir: true, is_symlink: false }
}

fn symlink(name: &str) -> ListedEntry {
    ListedEntry { name: name.to_string(), is_dir: false, is_symlink: true }
}

fn columns(path: &str, configs: [&str; 5]) -> [String; 6] {
    [
        path.to_string(),
        configs[0].to_string(),
        configs[1].to_string(),
        configs[2].to_string(),
        configs[3].to_string(),
        configs[4].to_string(),
    ]
}

fn mapped(from: &str, to: &str) -> FileMapping {
    FileMapping::MappedTo { from_name: from.to_string(), to_name: to.to_string() }
}

fn filtered(name: &str) -> FileMapping {
    FileMapping::Filtered { name: name.to_string() }
}

#[test]
fn constants_count_the_columns() {
    assert_eq!(5, NUM_CONFIGS);
    assert_eq!(6, NUM_SERIALIZED);
}

#[test]
fn file_list_keeps_regular_files_sorted() {
    let entries = vec![
        file("zeta.mkv"),
        dir("season1"),
        file("alpha.mkv"),
        symlink("link.mkv"),
        file("Beta.mkv"),
        file("alpha"),
        file("alpha.mk"),
    ];
    assert_eq!(
        vec!["Beta.mkv", "alpha", "alpha.mk", "alpha.mkv", "zeta.mkv"],
        load_input_file_list(&entries)
    );
}

#[test]
fn file_list_orders_as_strings_compare() {
    let names = ["b", "a", "", "ab", "a b", "B", "\u{e9}", "z", "a\u{e9}", "10", "9", "a"];
    let entries: Vec<ListedEntry> = names.iter().map(|n| file(n)).collect();
    let mut expected: Vec<String> = names.iter().map(|n| n.to_string()).collect();
    expected.sort();
    assert_eq!(expected, load_input_file_list(&entries));
}

#[test]
fn file_list_of_nothing_is_empty() {
    assert!(load_input_file_list(&vec![]).is_empty());
    assert!(load_input_file_list(&vec![dir("a"), symlink("b")]).is_empty());
}

#[test]
fn filter_escapes_each_extension() {
    let filter = build_file_filter_regex("mkv,mp4").unwrap();
    assert_eq!("mkv|mp4", filter.pattern());
    let filter = build_file_filter_regex("tar.gz,c++,a|b").unwrap();
    assert_eq!("tar\\.gz|c\\+\\+|a\\|b", filter.pattern());
    let filter = build_file_filter_regex("\\.+*?()|[]{}^$#&-~").unwrap();
    assert_eq!(
        "\\\\\\.\\+\\*\\?\\(\\)\\|\\[\\]\\{\\}\\^\\$\\#\\&\\-\\~",
        filter.pattern()
    );
    let filter = build_file_filter_regex("a b,%,/,!").unwrap();
    assert_eq!("a b|%|/|!", filter.pattern());
}

#[test]
fn filter_of_an_empty_list_matches_everything() {
    let filter = build_file_filter_regex("").unwrap();
    assert_eq!("", filter.pattern());
    assert!(filter.is_match("txt"));
    let filter = build_file_filter_regex("mkv,").unwrap();
    assert_eq!("mkv|", filter.pattern());
    assert!(filter.is_match("txt"));
}

#[test]
fn filter_matches_anywhere_in_the_extension() {
    let filter = build_file_filter_regex("mkv,mp4").unwrap();
    assert!(filter.is_match("mkv"));
    assert!(filter.is_match("mp4"));
    assert!(filter.is_match("xmkvx"));
    assert!(!filter.is_match("txt"));
    assert!(!filter.is_match("MKV"));
    assert!(!filter.is_match(""));
}

#[test]
fn map_file_follows_filter_and_renamer() {
    let filter = build_file_filter_regex("mkv");
    let renamer = Renamer::new("(.+)", "$1_x");
    assert_eq!(mapped("a.mkv", "a_x.mkv"), map_file(&filter, &renamer, "a.mkv"));
    assert_eq!(filtered("a.txt"), map_file(&filter, &renamer, "a.txt"));
    assert_eq!(mapped("noext", "noext_x"), map_file(&filter, &renamer, "noext"));
    assert_eq!(filtered("dot."), map_file(&filter, &renamer, "dot."));
    assert_eq!(mapped("a.b.mkv", "a.b_x.mkv"), map_file(&filter, &renamer, "a.b.mkv"));
    assert_eq!(mapped("a.txt", "a_x.txt"), map_file(&None, &renamer, "a.txt"));
    assert_eq!(mapped("a.mkv", "a.mkv"), map_file(&filter, &None, "a.mkv"));
    assert_eq!(filtered("a.txt"), map_file(&filter, &None, "a.txt"));
    assert_eq!(mapped(".mkv", "$1_x.mkv"), map_file(&filter, &renamer, ".mkv"));
}

#[test]
fn end_to_end_mappings() {
    let entries = vec![file("readme.txt"), file("movie.mkv")];
    let dir = MappedDir::deserialize(
        columns("/media/in/show", ["mkv,mp4", "(.+)", "$1_done", "(.+)", "$1_x"]),
        &entries,
    );
    assert_eq!(
        &vec![mapped("movie.mkv", "movie_x.mkv"), filtered("readme.txt")],
        dir.file_mappings()
    );
    assert_eq!(Some("show_done".to_string()), dir.out_dir_name());
    assert_eq!("show", dir.in_dir_name());
    assert_eq!("/media/in/show", dir.in_dir_path());
    assert!(dir.has_valid_file_filter());
    assert!(dir.has_valid_dir_renamer());
    assert!(dir.has_valid_file_renamer());
}

#[test]
fn file_mappings_follow_the_file_list() {
    let entries = vec![file("c.avi"), file("a.txt"), dir("sub"), file("b"), file("d.mp4")];
    let list = load_input_file_list(&entries);
    let dir = MappedDir::deserialize(
        columns("in", ["avi,mp4", "(.+)", "$1", "(\\w)", "file_$1"]),
        &entries,
    );
    let mappings = dir.file_mappings();
    assert_eq!(list.len(), mappings.len());
    for (name, mapping) in list.iter().zip(mappings.iter()) {
        match mapping {
            FileMapping::MappedTo { from_name, .. } => assert_eq!(name, from_name),
            FileMapping::Filtered { name: filtered } => assert_eq!(name, filtered),
        }
    }
    assert_eq!(
        &vec![
            filtered("a.txt"),
            mapped("b", "file_b"),
            mapped("c.avi", "file_c.avi"),
            mapped("d.mp4", "file_d.mp4"),
        ],
        mappings
    );
}

#[test]
fn invalid_patterns_fall_back() {
    let entries = vec![file("a.mkv"), file("b.txt")];
    let dir = MappedDir::deserialize(columns("in/x", ["mkv", "(", "$1", "[", "$1"]), &entries);
    assert!(dir.has_valid_file_filter());
    assert!(!dir.has_valid_dir_renamer());
    assert!(!dir.has_valid_file_renamer());
    assert_eq!(None, dir.out_dir_name());
    assert_eq!(&vec![mapped("a.mkv", "a.mkv"), filtered("b.txt")], dir.file_mappings());
}

#[test]
fn config_mut_rebuilds_what_depends_on_the_strings() {
    let entries = vec![file("a.mkv"), file("b.txt")];
    let mut dir = MappedDir::deserialize(
        columns("in/x", ["mkv", "(.+)", "$1", "(.+)", "$1"]),
        &entries,
    );
    assert_eq!(&vec![mapped("a.mkv", "a.mkv"), filtered("b.txt")], dir.file_mappings());
    dir.config_mut(0, "txt".to_string());
    assert_eq!("txt", dir.config(0));
    assert_eq!(&vec![filtered("a.mkv"), mapped("b.txt", "b.txt")], dir.file_mappings());
    dir.config_mut(4, "n_$1".to_string());
    assert_eq!(&vec![filtered("a.mkv"), mapped("b.txt", "n_b.txt")], dir.file_mappings());
    dir.config_mut(3, "(".to_string());
    assert!(!dir.has_valid_file_renamer());
    assert_eq!(&vec![filtered("a.mkv"), mapped("b.txt", "b.txt")], dir.file_mappings());
    dir.config_mut(2, "$1!".to_string());
    assert_eq!(Some("x!".to_string()), dir.out_dir_name());
    dir.config_mut(1, "((".to_string());
    assert_eq!(None, dir.out_dir_name());
    assert_eq!("((", dir.config(1));
}

#[test]
fn recomputation_is_idempotent() {
    let entries = vec![file("a.mkv"), file("b.txt"), file("c")];
    let mut dir = MappedDir::deserialize(
        columns("in/x", ["mkv", "(.+)", "$1", "(.)", "$1$1"]),
        &entries,
    );
    let first = dir.file_mappings().clone();
    dir.configs_changed();
    assert_eq!(&first, dir.file_mappings());
    dir.configs_changed();
    assert_eq!(&first, dir.file_mappings());
    assert_eq!(["in/x", "mkv", "(.+)", "$1", "(.)", "$1$1"], dir.serialize());
}

#[test]
fn configs_eq_compares_the_five_strings_only() {
    let a = MappedDir::deserialize(
        columns("in/x", ["mkv", "(.+)", "$1", "(.+)", "$1"]),
        &vec![file("a.mkv")],
    );
    let b = MappedDir::deserialize(columns("in/x", ["mkv", "(.+)", "$1", "(.+)", "$1"]), &vec![]);
    let mut c = b.clone();
    assert!(a.configs_eq(&b));
    assert!(b.configs_eq(&a));
    assert!(a.configs_eq(&c));
    c.config_mut(4, "$1 ".to_string());
    assert!(!a.configs_eq(&c));
    c.config_mut(4, "$1".to_string());
    assert!(a.configs_eq(&c));
}

#[test]
fn serialize_gives_back_what_deserialize_took() {
    let dir = MappedDir::deserialize(
        columns("/a/b/", ["x,y", "m1", "r1", "m2", "r2"]),
        &vec![],
    );
    assert_eq!(["/a/b/", "x,y", "m1", "r1", "m2", "r2"], dir.serialize());
    for (idx, expected) in ["x,y", "m1", "r1", "m2", "r2"].iter().enumerate() {
        assert_eq!(expected, dir.config(idx));
    }
    assert_eq!("", dir.in_dir_name());
}

#[test]
fn clone_keeps_everything() {
    let entries = vec![file("a.mkv"), file("b.txt")];
    let dir = MappedDir::deserialize(
        columns("in/x", ["mkv", "(.+)", "$1_o", "(.+)", "$1_f"]),
        &entries,
    );
    let copy = dir.clone();
    assert_eq!(dir.serialize(), copy.serialize());
    assert_eq!(dir.file_mappings(), copy.file_mappings());
    assert_eq!(dir.out_dir_name(), copy.out_dir_name());
    assert_eq!(dir.has_valid_file_filter(), copy.has_valid_file_filter());
}

#[test]
fn unmapped_state_starts_from_the_defaults() {
    let state = MappingState::from_lookup("/in/show".to_string(), None);
    assert_eq!("show", state.in_dir_name());
    let entries = vec![file("b.mp4"), file("a.avi"), file("notes.txt"), file("c.mkv")];
    let dir = state.to_mapped_dir(&entries);
    assert_eq!(["/in/show", "avi,mkv,mp4", "(.+)", "$1", "(.+)", "$1"], dir.serialize());
    assert_eq!(Some("show".to_string()), dir.out_dir_name());
    assert_eq!(
        &vec![
            mapped("a.avi", "a.avi"),
            mapped("b.mp4", "b.mp4"),
            mapped("c.mkv", "c.mkv"),
            filtered("notes.txt"),
        ],
        dir.file_mappings()
    );
}

#[test]
fn stored_state_hands_out_a_copy() {
    let stored = MappedDir::deserialize(
        columns("/in/show", ["mkv", "(.+)", "$1_d", "(.+)", "$1"]),
        &vec![file("a.mkv")],
    );
    let state = MappingState::from_lookup("/ignored".to_string(), Some(stored));
    assert_eq!("show", state.in_dir_name());
    let dir = state.to_mapped_dir(&vec![file("other.mkv")]);
    assert_eq!(["/in/show", "mkv", "(.+)", "$1_d", "(.+)", "$1"], dir.serialize());
    assert_eq!(&vec![mapped("a.mkv", "a.mkv")], dir.file_mappings());
}

#[test]
fn num_mapped_files_counts_what_passes() {
    let entries = vec![file("a.mkv"), file("b.txt"), file("c"), file("d.mkv"), file("e.jpg")];
    let mut dir = MappedDir::deserialize(
        columns("in/x", ["mkv", "(.+)", "$1", "(.+)", "$1"]),
        &entries,
    );
    assert_eq!(3, dir.num_mapped_files());
    dir.config_mut(0, "".to_string());
    assert_eq!(5, dir.num_mapped_files());
    dir.config_mut(0, "none".to_string());
    assert_eq!(1, dir.num_mapped_files());
    let empty = MappedDir::deserialize(columns("in/x", ["mkv", "(", "$1", "(", "$1"]), &vec![]);
    assert_eq!(0, empty.num_mapped_files());
}
