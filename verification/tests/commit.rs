use dir_mapper::app_state::app_transition::{AppResult, AppTransition};
use dir_mapper::app_state::mapping_state::{MappedDir, MappingState};
use dir_mapper::app_state::selecting_input_state::{CommitAction, SelectingInputState};
use dir_mapper::listing::ListedEntry;

fn entry(name: &str) -> ListedEntry {
    ListedEntry { name: name.to_string(), is_dir: false, is_symlink: false }
}

fn mapping(path: &str, configs: [&str; 5], files: &[&str]) -> MappedDir {
    let entries: Vec<ListedEntry> = files.iter().map(|f| entry(f)).collect();
    MappedDir::deserialize(
        [
            path.to_string(),
            configs[0].to_string(),
            configs[1].to_string(),
            configs[2].to_string(),
            configs[3].to_string(),
            configs[4].to_string(),
        ],
        &entries,
    )
}

fn remove(path: &str) -> CommitAction {
    CommitAction::RemoveDirAll { path: path.to_string() }
}

fn create(path: &str) -> CommitAction {
    CommitAction::CreateDir { path: path.to_string() }
}

fn link(target: &str, link: &str) -> CommitAction {
    CommitAction::Symlink { target: target.to_string(), link: link.to_string() }
}

fn upsert(path: &str, configs: [&str; 5]) -> CommitAction {
    CommitAction::Upsert {
        columns: [
            path.to_string(),
            configs[0].to_string(),
            configs[1].to_string(),
            configs[2].to_string(),
            configs[3].to_string(),
            configs[4].to_string(),
        ],
    }
}

fn unmapped(path: &str) -> MappingState {
    MappingState::from_lookup(path.to_string(), None)
}

fn has_mapping(dir: MappedDir) -> MappingState {
    MappingState::from_lookup(dir.in_dir_path().to_string(), Some(dir))
}

fn list(states: Vec<MappingState>) -> SelectingInputState {
    SelectingInputState::new("in".to_string(), "out".to_string(), states)
}

const E2E: [&str; 5] = ["mkv,mp4", "(.+)", "$1_done", "(.+)", "$1_x"];

#[test]
fn end_to_end_commit() {
    let mut state = list(vec![unmapped("in/show")]);
    let new = mapping("in/show", E2E, &["movie.mkv", "readme.txt"]);
    let actions = state.commit_mapping(0, new);
    assert_eq!(
        vec![
            create("out/show_done"),
            link("../../in/show/movie.mkv", "out/show_done/movie_x.mkv"),
            upsert("in/show", E2E),
        ],
        actions
    );
    assert_eq!(
        &vec![
            "create dir `out/show_done`",
            "in file:  in/show/movie.mkv",
            "out file: out/show_done/movie_x.mkv",
            "link:     ../../in/show/movie.mkv",
        ],
        state.get_logs()
    );
    match &state.mappings()[0] {
        MappingState::HasMapping { mapped_dir } => {
            assert_eq!(
                ["in/show", "mkv,mp4", "(.+)", "$1_done", "(.+)", "$1_x"],
                mapped_dir.serialize()
            )
        }
        MappingState::Unmapped { .. } => panic!("the committed mapping is not in the list"),
    }
}

#[test]
fn commit_without_change_does_nothing() {
    let stored = mapping("in/show", E2E, &["movie.mkv"]);
    let mut state = list(vec![unmapped("in/other"), has_mapping(stored.clone())]);
    let actions = state.commit_mapping(1, stored.clone());
    assert!(actions.is_empty());
    assert_eq!(&vec!["no change for `show`"], state.get_logs());
    let actions = state.commit_mapping(1, mapping("in/show", E2E, &[]));
    assert!(actions.is_empty());
    assert_eq!(&vec!["no change for `show`", "no change for `show`"], state.get_logs());
    match &state.mappings()[1] {
        MappingState::HasMapping { mapped_dir } => {
            assert_eq!(stored.file_mappings(), mapped_dir.file_mappings())
        }
        MappingState::Unmapped { .. } => panic!("the stored mapping left the list"),
    }
}

#[test]
fn commit_replaces_the_old_output_directory() {
    let stored = mapping("in/show", ["mkv", "(.+)", "$1_old", "(.+)", "$1"], &["a.mkv"]);
    let mut state = list(vec![has_mapping(stored)]);
    let configs = ["mkv", "(.+)", "$1_new", "(\\w+)", "$1$1"];
    let new = mapping("in/show", configs, &["a.mkv", "b.txt", "c.mkv"]);
    let actions = state.commit_mapping(0, new);
    assert_eq!(
        vec![
            remove("out/show_old"),
            create("out/show_new"),
            link("../../in/show/a.mkv", "out/show_new/aa.mkv"),
            link("../../in/show/c.mkv", "out/show_new/cc.mkv"),
            upsert("in/show", configs),
        ],
        actions
    );
    assert_eq!("delete dir `out/show_old`", state.get_logs()[0]);
    assert_eq!("create dir `out/show_new`", state.get_logs()[1]);
    assert_eq!(8, state.get_logs().len());
}

#[test]
fn commit_of_an_unmappable_directory_only_stores() {
    let stored = mapping("in/show", ["mkv", "(.+)", "$1_old", "(.+)", "$1"], &["a.mkv"]);
    let mut state = list(vec![has_mapping(stored)]);
    let configs = ["mkv", "(", "$1", "(.+)", "$1"];
    let actions = state.commit_mapping(0, mapping("in/show", configs, &["a.mkv"]));
    assert_eq!(vec![remove("out/show_old"), upsert("in/show", configs)], actions);
    assert_eq!(&vec!["delete dir `out/show_old`"], state.get_logs());

    let back = ["mkv", "(.+)", "$1", "(.+)", "$1"];
    let actions = state.commit_mapping(0, mapping("in/show", back, &[]));
    assert_eq!(vec![create("out/show"), upsert("in/show", back)], actions);
}

#[test]
fn links_lead_back_from_the_output_tree() {
    let mut state = SelectingInputState::new(
        "/data/in/".to_string(),
        "/data/out/".to_string(),
        vec![unmapped("/data/in/show")],
    );
    let configs = ["", "(.+)", "$1", "(.+)", "$1"];
    let actions = state.commit_mapping(0, mapping("/data/in/show", configs, &["a", "b.c"]));
    assert_eq!(
        vec![
            create("/data/out/show"),
            link("../../in/show/a", "/data/out/show/a"),
            link("../../in/show/b.c", "/data/out/show/b.c"),
            upsert("/data/in/show", configs),
        ],
        actions
    );
    let mut state = list(vec![unmapped("in/show")]);
    let configs = ["", "(.+)", "in", "(.+)", "$1"];
    let inside = SelectingInputState::new("in".to_string(), "in/show".to_string(), vec![]);
    assert_eq!("in/show", inside.out_dir());
    let actions = state.commit_mapping(0, mapping("in/show", configs, &["a"]));
    assert_eq!(
        vec![create("out/in"), link("../../in/show/a", "out/in/a"), upsert("in/show", configs)],
        actions
    );
}

#[test]
fn selection_moves_within_the_list() {
    let mut state = list(vec![unmapped("in/a"), unmapped("in/b"), unmapped("in/c")]);
    assert_eq!("in", state.in_dir());
    assert_eq!("out", state.out_dir());
    assert_eq!(0, state.selected_row_idx());
    assert!(matches!(state.on_up(), AppTransition::Stay));
    assert_eq!(0, state.selected_row_idx());
    assert!(matches!(state.on_down(), AppTransition::Stay));
    assert!(matches!(state.on_down(), AppTransition::Stay));
    assert_eq!(2, state.selected_row_idx());
    state.on_down();
    assert_eq!(2, state.selected_row_idx());
    assert!(matches!(state.on_enter(), AppTransition::StartConfiguringIdx(2)));
    state.on_up();
    assert_eq!(1, state.selected_row_idx());
    assert!(!state.requesting_input());
    assert!(state.get_logs().is_empty());
    assert_eq!(3, state.mappings().len());
}

#[test]
fn only_quit_ends_the_loop() {
    assert_eq!(AppResult::Quit, AppTransition::Quit.result());
    assert_eq!(AppResult::KeepGoing, AppTransition::Stay.result());
    assert_eq!(AppResult::KeepGoing, AppTransition::StartConfiguringIdx(0).result());
    assert_eq!(AppResult::KeepGoing, AppTransition::AbortConfiguration.result());
    let dir = mapping("in/x", E2E, &[]);
    assert_eq!(AppResult::KeepGoing, AppTransition::CommitConfiguration(0, dir).result());
}

#[test]
fn recent_logs_are_the_last_lines() {
    let mut state = list(vec![unmapped("in/show")]);
    assert!(state.recent_logs(16).is_empty());
    state.commit_mapping(0, mapping("in/show", E2E, &["a.mkv", "b.mkv"]));
    let all = state.get_logs().clone();
    assert_eq!(7, all.len());
    assert_eq!(&all[..], state.recent_logs(16));
    assert_eq!(&all[..], state.recent_logs(7));
    assert_eq!(&all[4..], state.recent_logs(3));
    assert_eq!(&all[6..], state.recent_logs(1));
    assert!(state.recent_logs(0).is_empty());
}

fn components(path: &str) -> Vec<String> {
    path.split('/').filter(|c| !c.is_empty()).map(|c| c.to_string()).collect()
}

fn follow(from_dir: &str, relative: &str) -> Vec<String> {
    let mut at = components(from_dir);
    for step in components(relative) {
        if step == ".." {
            at.pop();
        } else if step != "." {
            at.push(step);
        }
    }
    at
}

#[test]
fn every_link_leads_to_its_input_file() {
    let roots = [
        ("in/show", "out"),
        ("in/show", "in"),
        ("a/b/c/show", "a/b/out/deep"),
        ("/data/in/show/", "/data/out/"),
        ("show", "show_links"),
        ("x/show", "x/show/links"),
    ];
    let rules = [
        ["", "(.+)", "$1", "(.+)", "$1"],
        ["", "(.+)", "$1_out", "(.+)", "$1_x"],
        ["", "(.+)", "sub/$1", "(.+)", "$1"],
        ["", "(.+)", "$1", "(.+)", "nested/$1"],
        ["", "(.+)", "", "(.+)", "$1"],
    ];
    for (in_dir, out_root) in roots {
        for configs in rules {
            let mut state = SelectingInputState::new(
                "in".to_string(),
                out_root.to_string(),
                vec![unmapped(in_dir)],
            );
            let new = mapping(in_dir, configs, &["a.mkv", "b", "c.d.e"]);
            let mapped: Vec<String> = new
                .file_mappings()
                .iter()
                .map(|m| match m {
                    dir_mapper::app_state::mapping_state::FileMapping::MappedTo {
                        from_name,
                        ..
                    } => from_name.clone(),
                    dir_mapper::app_state::mapping_state::FileMapping::Filtered { name } => {
                        name.clone()
                    }
                })
                .collect();
            let mut links = 0;
            for action in state.commit_mapping(0, new) {
                if let CommitAction::Symlink { target, link } = action {
                    let link_dir = match link.rfind('/') {
                        Some(sep) => &link[..sep],
                        None => "",
                    };
                    let mut expected = components(in_dir);
                    expected.push(mapped[links].clone());
                    assert_eq!(expected, follow(link_dir, &target), "{} -> {}", link, target);
                    links += 1;
                }
            }
            assert_eq!(3, links);
        }
    }
}
