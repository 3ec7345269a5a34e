//! The list of input directories, and the commit of an edited mapping.
//!
//! A commit is worked out here and carried out elsewhere: `commit_mapping`
//! returns the file-system and store actions in the order in which they are
//! to be performed, and records what it decided in the log.

use super::app_transition::{AppTransition, AppTransitionView};
use super::mapping_state::{
    lemma_file_mappings_follow_file_list, FileMapping, FileMappingView, MappedDir, MappedDirView,
    MappingState, MappingStateView, NUM_SERIALIZED,
};
use crate::text::lemma_split_without_separator;
use crate::utils::{
    all_names, compute_prefix, current_component, dir_name, is_name, join_path,
    lemma_common_prefix_len, lemma_components_of_appended_name, lemma_components_of_relative_path,
    lemma_dir_name_of_appended_name, lemma_relative_components_lead_back,
    lemma_resolve_in_two_legs, lemma_resolve_name, parent_component, relative_components, resolve,
    spec_components, spec_compute_prefix, spec_compute_prefix_raw, spec_dir_name, spec_join_path,
};
use vstd::prelude::*;
use vstd::slice::slice_subrange;

verus! {

/// One step of a commit, for the caller to perform.
#[derive(Debug, PartialEq, Eq)]
pub enum CommitAction {
    /// Delete the directory `path` with all that is in it.
    RemoveDirAll { path: String },
    /// Create the directory `path`, which must not exist.
    CreateDir { path: String },
    /// Create a symbolic link at `link` whose target is the relative path
    /// `target`.
    Symlink { target: String, link: String },
    /// Store the mapping under its input path, replacing what is stored
    /// there: the path, then the five configuration strings.
    Upsert { columns: [String; NUM_SERIALIZED] },
}

/// A `CommitAction` with its strings as sequences of characters.
pub enum CommitActionView {
    RemoveDirAll { path: Seq<char> },
    CreateDir { path: Seq<char> },
    Symlink { target: Seq<char>, link: Seq<char> },
    Upsert { columns: Seq<Seq<char>> },
}

impl View for CommitAction {
    type V = CommitActionView;

    open spec fn view(&self) -> CommitActionView {
        match self {
            CommitAction::RemoveDirAll { path } => CommitActionView::RemoveDirAll { path: path@ },
            CommitAction::CreateDir { path } => CommitActionView::CreateDir { path: path@ },
            CommitAction::Symlink { target, link } => CommitActionView::Symlink {
                target: target@,
                link: link@,
            },
            CommitAction::Upsert { columns } => CommitActionView::Upsert {
                columns: columns.deep_view(),
            },
        }
    }
}

impl DeepView for CommitAction {
    type V = CommitActionView;

    open spec fn deep_view(&self) -> CommitActionView {
        self@
    }
}

/// The path of the input file `from_name` of the directory `in_dir_path`.
pub open spec fn spec_in_file_path(in_dir_path: Seq<char>, from_name: Seq<char>) -> Seq<char> {
    in_dir_path + seq!['/'] + from_name
}

/// The target of the link for `from_name`: the relative path from the
/// directory of the link back to the directory of the input file, then the
/// file's name.
pub open spec fn spec_link_target(
    in_file_path: Seq<char>,
    out_file_path: Seq<char>,
    from_name: Seq<char>,
) -> Seq<char> {
    spec_compute_prefix(spec_dir_name(in_file_path), spec_dir_name(out_file_path)) + from_name
}

/// The link action for one mapped file.
pub open spec fn spec_link(
    in_dir_path: Seq<char>,
    out_dir: Seq<char>,
    from_name: Seq<char>,
    to_name: Seq<char>,
) -> CommitActionView {
    let in_file_path = spec_in_file_path(in_dir_path, from_name);
    let out_file_path = spec_join_path(out_dir, to_name);
    CommitActionView::Symlink {
        target: spec_link_target(in_file_path, out_file_path, from_name),
        link: out_file_path,
    }
}

/// One link per mapped file, in the order of `mappings`; nothing for a
/// filtered file.
pub open spec fn spec_links(
    in_dir_path: Seq<char>,
    out_dir: Seq<char>,
    mappings: Seq<FileMappingView>,
) -> Seq<CommitActionView>
    decreases mappings.len(),
{
    if mappings.len() == 0 {
        Seq::empty()
    } else {
        let before = spec_links(in_dir_path, out_dir, mappings.drop_last());
        match mappings.last() {
            FileMappingView::MappedTo { from_name, to_name } => before.push(
                spec_link(in_dir_path, out_dir, from_name, to_name),
            ),
            FileMappingView::Filtered { name } => before,
        }
    }
}

/// The three log lines for one mapped file.
pub open spec fn spec_link_log(
    in_dir_path: Seq<char>,
    out_dir: Seq<char>,
    from_name: Seq<char>,
    to_name: Seq<char>,
) -> Seq<Seq<char>> {
    let in_file_path = spec_in_file_path(in_dir_path, from_name);
    let out_file_path = spec_join_path(out_dir, to_name);
    seq![
        "in file:  "@ + in_file_path,
        "out file: "@ + out_file_path,
        "link:     "@ + spec_link_target(in_file_path, out_file_path, from_name),
    ]
}

/// The log lines for the links of `mappings`.
pub open spec fn spec_link_logs(
    in_dir_path: Seq<char>,
    out_dir: Seq<char>,
    mappings: Seq<FileMappingView>,
) -> Seq<Seq<char>>
    decreases mappings.len(),
{
    if mappings.len() == 0 {
        Seq::empty()
    } else {
        let before = spec_link_logs(in_dir_path, out_dir, mappings.drop_last());
        match mappings.last() {
            FileMappingView::MappedTo { from_name, to_name } => before + spec_link_log(
                in_dir_path,
                out_dir,
                from_name,
                to_name,
            ),
            FileMappingView::Filtered { name } => before,
        }
    }
}

/// A commit changes nothing when there is a stored mapping with the same
/// five configuration strings.
pub open spec fn is_unchanged(stored: Option<MappedDirView>, new: MappedDirView) -> bool {
    stored matches Some(old) && old.configs == new.configs
}

/// The output directory of the stored mapping, if it ever had one.
pub open spec fn spec_old_out_dir(stored: Option<MappedDirView>, out_root: Seq<char>) -> Option<
    Seq<char>,
> {
    match stored {
        Some(old) => match old.out_dir_name() {
            Some(name) => Some(spec_join_path(out_root, name)),
            None => None,
        },
        None => None,
    }
}

/// The output directory of the new mapping, if its directory renamer is
/// valid.
pub open spec fn spec_new_out_dir(new: MappedDirView, out_root: Seq<char>) -> Option<Seq<char>> {
    match new.out_dir_name() {
        Some(name) => Some(spec_join_path(out_root, name)),
        None => None,
    }
}

/// The actions of a commit, in the order in which they are to be performed.
///
/// Nothing at all when the configuration did not change.  Otherwise: the
/// stored mapping's output directory is deleted, if it had one; the new
/// mapping's output directory is created and filled with one link per mapped
/// file, if it has one; and the new mapping is stored.
pub open spec fn spec_commit_actions(
    stored: Option<MappedDirView>,
    new: MappedDirView,
    out_root: Seq<char>,
) -> Seq<CommitActionView> {
    if is_unchanged(stored, new) {
        Seq::empty()
    } else {
        let removal = match spec_old_out_dir(stored, out_root) {
            Some(path) => seq![CommitActionView::RemoveDirAll { path }],
            None => Seq::empty(),
        };
        let creation = match spec_new_out_dir(new, out_root) {
            Some(path) => seq![CommitActionView::CreateDir { path }] + spec_links(
                new.in_dir_path,
                path,
                new.file_mappings(),
            ),
            None => Seq::empty(),
        };
        removal + creation + seq![
            CommitActionView::Upsert { columns: seq![new.in_dir_path] + new.configs },
        ]
    }
}

/// The lines that a commit adds to the log.
pub open spec fn spec_commit_logs(
    stored: Option<MappedDirView>,
    new: MappedDirView,
    out_root: Seq<char>,
) -> Seq<Seq<char>> {
    if is_unchanged(stored, new) {
        seq!["no change for `"@ + stored->0.in_dir_name() + "`"@]
    } else {
        let removal = match spec_old_out_dir(stored, out_root) {
            Some(path) => seq!["delete dir `"@ + path + "`"@],
            None => Seq::empty(),
        };
        let creation = match spec_new_out_dir(new, out_root) {
            Some(path) => seq!["create dir `"@ + path + "`"@] + spec_link_logs(
                new.in_dir_path,
                path,
                new.file_mappings(),
            ),
            None => Seq::empty(),
        };
        removal + creation
    }
}

/// `action` is a link that, followed from the directory it lies in, arrives
/// at the file with the components `file`.
pub open spec fn leads_to(action: CommitActionView, file: Seq<Seq<char>>) -> bool {
    action matches CommitActionView::Symlink { target, link } && resolve(
        spec_components(spec_dir_name(link)),
        spec_components(target),
    ) == file
}

/// The link for an input file leads to that file: followed from the
/// directory that the link lies in, the link's target arrives at the input
/// file.  This holds for every file name that names an entry, under every
/// input directory whose path is made of names, wherever the output
/// directory lies and whatever the link is called.
pub proof fn lemma_link_leads_to_input_file(
    in_dir_path: Seq<char>,
    out_dir: Seq<char>,
    from_name: Seq<char>,
    to_name: Seq<char>,
)
    requires
        is_name(from_name),
        all_names(spec_components(in_dir_path)),
    ensures
        leads_to(
            spec_link(in_dir_path, out_dir, from_name, to_name),
            spec_components(spec_in_file_path(in_dir_path, from_name)),
        ),
        spec_components(spec_in_file_path(in_dir_path, from_name)) == spec_components(
            in_dir_path,
        ).push(from_name),
{
    let in_file_path = spec_in_file_path(in_dir_path, from_name);
    let out_file_path = spec_join_path(out_dir, to_name);
    let link_dir = spec_dir_name(out_file_path);
    let source = spec_components(in_dir_path);
    let base = spec_components(link_dir);
    let steps = relative_components(source, base);
    let raw = spec_compute_prefix_raw(in_dir_path, link_dir);
    let target = spec_link_target(in_file_path, out_file_path, from_name);
    lemma_dir_name_of_appended_name(in_dir_path, from_name);
    lemma_components_of_appended_name(in_dir_path, from_name);
    lemma_components_of_relative_path(in_dir_path, link_dir);
    lemma_relative_components_lead_back(source, base);
    if raw.len() > 0 {
        assert(target =~= raw + seq!['/'] + from_name);
        lemma_components_of_appended_name(raw, from_name);
        assert(steps.push(from_name) =~= steps + seq![from_name]);
        lemma_resolve_in_two_legs(base, steps, seq![from_name]);
        lemma_resolve_name(source, from_name);
    } else {
        let here = current_component();
        assert(target =~= here + seq!['/'] + from_name);
        lemma_components_of_appended_name(here, from_name);
        assert(!here.contains('/')) by {
            assert(here[0] == '.');
        }
        lemma_split_without_separator(here, '/');
        reveal_with_fuel(Seq::filter, 2);
        assert(seq![here].drop_last() =~= Seq::<Seq<char>>::empty());
        assert(spec_components(here) =~= seq![here]);
        let walk = seq![here, from_name];
        assert(spec_components(target) =~= walk);
        assert(walk[0] == here);
        assert(here.len() != parent_component().len());
        assert(walk.drop_first() =~= seq![from_name]);
        lemma_resolve_name(base, from_name);
        assert(resolve(base, walk) == base.push(from_name));
        lemma_common_prefix_len(source, base);
        assert(source =~= base);
    }
}

/// `action` is a link that leads to one of the mapped files of `mappings`
/// in the input directory `in_dir_path`.
pub open spec fn leads_to_mapped_file(
    action: CommitActionView,
    in_dir_path: Seq<char>,
    mappings: Seq<FileMappingView>,
) -> bool {
    exists|i: int|
        0 <= i < mappings.len() && (#[trigger] mappings[i]) is MappedTo && leads_to(
            action,
            spec_components(in_dir_path).push(mappings[i].source_name()),
        )
}

/// Every link that is planned for a directory leads to one of the mapped
/// input files of that directory.
pub proof fn lemma_links_lead_to_input_files(
    in_dir_path: Seq<char>,
    out_dir: Seq<char>,
    mappings: Seq<FileMappingView>,
)
    requires
        all_names(spec_components(in_dir_path)),
        forall|i: int| 0 <= i < mappings.len() ==> is_name((#[trigger] mappings[i]).source_name()),
    ensures
        forall|j: int|
            0 <= j < spec_links(in_dir_path, out_dir, mappings).len() ==> leads_to_mapped_file(
                #[trigger] spec_links(in_dir_path, out_dir, mappings)[j],
                in_dir_path,
                mappings,
            ),
    decreases mappings.len(),
{
    let links = spec_links(in_dir_path, out_dir, mappings);
    if mappings.len() > 0 {
        let earlier = mappings.drop_last();
        let before = spec_links(in_dir_path, out_dir, earlier);
        assert forall|i: int| 0 <= i < earlier.len() implies is_name(
            (#[trigger] earlier[i]).source_name(),
        ) by {
            assert(earlier[i] == mappings[i]);
        }
        lemma_links_lead_to_input_files(in_dir_path, out_dir, earlier);
        assert forall|j: int| 0 <= j < links.len() implies leads_to_mapped_file(
            #[trigger] links[j],
            in_dir_path,
            mappings,
        ) by {
            if j < before.len() {
                assert(links[j] == before[j]);
                assert(leads_to_mapped_file(before[j], in_dir_path, earlier));
                let i = choose|i: int|
                    0 <= i < earlier.len() && (#[trigger] earlier[i]) is MappedTo && leads_to(
                        before[j],
                        spec_components(in_dir_path).push(earlier[i].source_name()),
                    );
                assert(mappings[i] == earlier[i]);
            } else {
                let last = mappings.len() - 1;
                assert(is_name(mappings[last].source_name()));
                match mappings[last] {
                    FileMappingView::MappedTo { from_name, to_name } => {
                        lemma_link_leads_to_input_file(in_dir_path, out_dir, from_name, to_name);
                    },
                    FileMappingView::Filtered { name } => {},
                }
            }
        }
    }
}

/// The file names of `new` name entries, and so do the components of its
/// input directory: the condition under which its links can be followed.
pub open spec fn has_plain_names(new: MappedDirView) -> bool {
    &&& all_names(spec_components(new.in_dir_path))
    &&& forall|i: int| 0 <= i < new.in_file_list.len() ==> is_name(#[trigger] new.in_file_list[i])
}

/// Every link among the actions of a commit leads to one of the mapped input
/// files of the new mapping.
pub proof fn lemma_commit_links_lead_to_input_files(
    stored: Option<MappedDirView>,
    new: MappedDirView,
    out_root: Seq<char>,
)
    requires
        has_plain_names(new),
    ensures
        forall|j: int|
            0 <= j < spec_commit_actions(stored, new, out_root).len() && (
            #[trigger] spec_commit_actions(stored, new, out_root)[j]) is Symlink
                ==> leads_to_mapped_file(
                spec_commit_actions(stored, new, out_root)[j],
                new.in_dir_path,
                new.file_mappings(),
            ),
{
    let actions = spec_commit_actions(stored, new, out_root);
    if !is_unchanged(stored, new) {
        let removal: Seq<CommitActionView> = match spec_old_out_dir(stored, out_root) {
            Some(path) => seq![CommitActionView::RemoveDirAll { path }],
            None => Seq::empty(),
        };
        lemma_file_mappings_follow_file_list(new);
        match spec_new_out_dir(new, out_root) {
            Some(path) => {
                let links = spec_links(new.in_dir_path, path, new.file_mappings());
                lemma_links_lead_to_input_files(new.in_dir_path, path, new.file_mappings());
                assert forall|j: int| 0 <= j < actions.len() && (#[trigger] actions[j]) is Symlink
                    implies leads_to_mapped_file(actions[j], new.in_dir_path, new.file_mappings())
                by {
                    let at = j - removal.len() - 1;
                    assert(0 <= at < links.len());
                    assert(actions[j] == links[at]);
                }
            },
            None => {},
        }
    }
}

/// A commit of unchanged configuration strings performs no action: it
/// touches neither the file system nor the store.
pub proof fn lemma_commit_without_change_does_nothing(
    old: MappedDirView,
    new: MappedDirView,
    out_root: Seq<char>,
)
    requires
        old.configs == new.configs,
    ensures
        spec_commit_actions(Some(old), new, out_root) == Seq::<CommitActionView>::empty(),
{
}

/// A commit that changes something ends by storing the new mapping, and
/// stores nothing before that.
pub proof fn lemma_commit_stores_last(
    stored: Option<MappedDirView>,
    new: MappedDirView,
    out_root: Seq<char>,
)
    requires
        !is_unchanged(stored, new),
    ensures
        spec_commit_actions(stored, new, out_root).len() >= 1,
        spec_commit_actions(stored, new, out_root).last() == (CommitActionView::Upsert {
            columns: seq![new.in_dir_path] + new.configs,
        }),
{
}

/// `text` between the two fixed parts `head` and `tail`.
fn framed(head: &str, text: &str, tail: &str) -> (line: String)
    ensures
        line@ == head@ + text@ + tail@,
{
    let mut line = String::from_str(head);
    line.append(text);
    line.append(tail);
    line
}

/// The link actions and log lines for the mapped files of `mappings`.
fn plan_links(
    in_dir_path: &str,
    out_dir: &str,
    mappings: &Vec<FileMapping>,
    actions: &mut Vec<CommitAction>,
    logs: &mut Vec<String>,
)
    ensures
        final(actions).deep_view() == old(actions).deep_view() + spec_links(
            in_dir_path@,
            out_dir@,
            mappings.deep_view(),
        ),
        final(logs).deep_view() == old(logs).deep_view() + spec_link_logs(
            in_dir_path@,
            out_dir@,
            mappings.deep_view(),
        ),
{
    let ghost actions_before = actions.deep_view();
    let ghost logs_before = logs.deep_view();
    proof {
        assert(mappings.deep_view().take(0) =~= Seq::<FileMappingView>::empty());
        assert(actions.deep_view() =~= actions_before + Seq::<CommitActionView>::empty());
        assert(logs.deep_view() =~= logs_before + Seq::<Seq<char>>::empty());
    }
    for i in 0..mappings.len()
        invariant
            actions.deep_view() == actions_before + spec_links(
                in_dir_path@,
                out_dir@,
                mappings.deep_view().take(i as int),
            ),
            logs.deep_view() == logs_before + spec_link_logs(
                in_dir_path@,
                out_dir@,
                mappings.deep_view().take(i as int),
            ),
    {
        let ghost seen = mappings.deep_view().take(i as int);
        let ghost links = spec_links(in_dir_path@, out_dir@, seen);
        let ghost lines = spec_link_logs(in_dir_path@, out_dir@, seen);
        proof {
            let next = mappings.deep_view().take(i + 1);
            assert(next.drop_last() =~= seen);
            assert(next.last() == mappings[i as int]@);
        }
        if let FileMapping::MappedTo { from_name, to_name } = &mappings[i] {
            proof {
                reveal_strlit("/");
                assert("/"@ =~= seq!['/']);
            }
            let in_file_path = framed(in_dir_path, "/", from_name.as_str());
            let out_file_path = join_path(out_dir, to_name.as_str());
            let mut in_file_rel_path = compute_prefix(
                dir_name(in_file_path.as_str()),
                dir_name(out_file_path.as_str()),
            );
            in_file_rel_path.append(from_name.as_str());
            let ghost log_before = logs.deep_view();
            logs.push(framed("in file:  ", in_file_path.as_str(), ""));
            logs.push(framed("out file: ", out_file_path.as_str(), ""));
            logs.push(framed("link:     ", in_file_rel_path.as_str(), ""));
            let ghost act_before = actions.deep_view();
            actions.push(CommitAction::Symlink { target: in_file_rel_path, link: out_file_path });
            proof {
                reveal_strlit("");
                assert(""@ =~= Seq::<char>::empty());
                let link = spec_link(in_dir_path@, out_dir@, from_name@, to_name@);
                let log = spec_link_log(in_dir_path@, out_dir@, from_name@, to_name@);
                assert(actions.deep_view() =~= act_before.push(link));
                assert(actions_before + links.push(link) =~= (actions_before + links).push(link));
                assert(logs.deep_view() =~= log_before + log);
                assert(logs_before + (lines + log) =~= (logs_before + lines) + log);
            }
        }
    }
    proof {
        assert(mappings.deep_view().take(mappings.len() as int) =~= mappings.deep_view());
    }
}

/// Where the window on the last `max_lines` of `num_logs` log lines begins.
pub open spec fn spec_log_window_start(num_logs: nat, max_lines: usize) -> int {
    if num_logs > max_lines {
        num_logs - max_lines
    } else {
        0
    }
}

/// The list of input directories with their mappings, the selected row, and
/// the log.
pub struct SelectingInputState {
    in_dir_path: String,
    out_dir_path: String,
    mapping_states: Vec<MappingState>,
    selected_row_idx: usize,
    logs: Vec<String>,
}

/// A `SelectingInputState` over the models of its parts.
pub struct SelectingInputStateView {
    pub in_dir_path: Seq<char>,
    pub out_dir_path: Seq<char>,
    pub mappings: Seq<MappingStateView>,
    pub selected_row_idx: usize,
    pub logs: Seq<Seq<char>>,
}

impl View for SelectingInputState {
    type V = SelectingInputStateView;

    closed spec fn view(&self) -> SelectingInputStateView {
        SelectingInputStateView {
            in_dir_path: self.in_dir_path@,
            out_dir_path: self.out_dir_path@,
            mappings: self.mapping_states.deep_view(),
            selected_row_idx: self.selected_row_idx,
            logs: self.logs.deep_view(),
        }
    }
}

impl SelectingInputState {
    /// The list over the input root `in_dir_path` and the output root
    /// `out_dir_path`, with one state for each directory that was found under
    /// the input root.  The first row is selected and the log is empty.
    pub fn new(
        in_dir_path: String,
        out_dir_path: String,
        mapping_states: Vec<MappingState>,
    ) -> (state: SelectingInputState)
        ensures
            state@ == (SelectingInputStateView {
                in_dir_path: in_dir_path@,
                out_dir_path: out_dir_path@,
                mappings: mapping_states.deep_view(),
                selected_row_idx: 0,
                logs: Seq::empty(),
            }),
    {
        let state = SelectingInputState {
            in_dir_path,
            out_dir_path,
            mapping_states,
            selected_row_idx: 0,
            logs: Vec::new(),
        };
        proof {
            assert(state.logs.deep_view() =~= Seq::<Seq<char>>::empty());
        }
        state
    }

    pub fn in_dir(&self) -> (path: &str)
        ensures
            path@ == self@.in_dir_path,
    {
        self.in_dir_path.as_str()
    }

    pub fn out_dir(&self) -> (path: &str)
        ensures
            path@ == self@.out_dir_path,
    {
        self.out_dir_path.as_str()
    }

    /// Commits the edited mapping `new_mapped_dir` for the directory at
    /// `mapping_idx`, which is the directory the mapping was made for.
    ///
    /// Returns the actions to perform, in order, and adds to the log what was
    /// decided.  When the configuration did not change there is no action and
    /// the list stays as it is; otherwise the directory's state becomes the
    /// new mapping, and the last action stores it.  Where the file names and
    /// the components of the input directory name entries, every link among
    /// the actions leads from where it lies to the input file it stands for.
    pub fn commit_mapping(&mut self, mapping_idx: usize, new_mapped_dir: MappedDir) -> (actions:
        Vec<CommitAction>)
        requires
            mapping_idx < old(self)@.mappings.len(),
            old(self)@.mappings[mapping_idx as int].stored() matches Some(stored)
                ==> stored.in_dir_path == new_mapped_dir@.in_dir_path,
        ensures
            actions.deep_view() == spec_commit_actions(
                old(self)@.mappings[mapping_idx as int].stored(),
                new_mapped_dir@,
                old(self)@.out_dir_path,
            ),
            final(self)@.logs == old(self)@.logs + spec_commit_logs(
                old(self)@.mappings[mapping_idx as int].stored(),
                new_mapped_dir@,
                old(self)@.out_dir_path,
            ),
            final(self)@.mappings == (if is_unchanged(
                old(self)@.mappings[mapping_idx as int].stored(),
                new_mapped_dir@,
            ) {
                old(self)@.mappings
            } else {
                old(self)@.mappings.update(
                    mapping_idx as int,
                    MappingStateView::HasMapping { mapped_dir: new_mapped_dir@ },
                )
            }),
            final(self)@.in_dir_path == old(self)@.in_dir_path,
            final(self)@.out_dir_path == old(self)@.out_dir_path,
            final(self)@.selected_row_idx == old(self)@.selected_row_idx,
            is_unchanged(old(self)@.mappings[mapping_idx as int].stored(), new_mapped_dir@)
                ==> actions.len() == 0,
            !is_unchanged(old(self)@.mappings[mapping_idx as int].stored(), new_mapped_dir@)
                ==> actions.len() >= 1 && actions.deep_view().last() == (CommitActionView::Upsert {
                columns: seq![new_mapped_dir@.in_dir_path] + new_mapped_dir@.configs,
            }),
            has_plain_names(new_mapped_dir@) ==> forall|j: int|
                0 <= j < actions.len() && (#[trigger] actions.deep_view()[j]) is Symlink
                    ==> leads_to_mapped_file(
                    actions.deep_view()[j],
                    new_mapped_dir@.in_dir_path,
                    new_mapped_dir@.file_mappings(),
                ),
    {
        let ghost stored = self@.mappings[mapping_idx as int].stored();
        let ghost new = new_mapped_dir@;
        let ghost out_root = self@.out_dir_path;
        let ghost logs_before = self.logs.deep_view();
        let mut actions: Vec<CommitAction> = Vec::new();
        let mut logs: Vec<String> = Vec::new();
        proof {
            assert(self.mapping_states.deep_view()[mapping_idx as int]
                == self.mapping_states[mapping_idx as int]@);
        }
        if let MappingState::HasMapping { mapped_dir } = &self.mapping_states[mapping_idx] {
            if mapped_dir.configs_eq(&new_mapped_dir) {
                logs.push(framed("no change for `", mapped_dir.in_dir_name(), "`"));
                proof {
                    assert(logs.deep_view() =~= spec_commit_logs(stored, new, out_root));
                    assert(actions.deep_view() =~= spec_commit_actions(stored, new, out_root));
                }
                self.logs.append(&mut logs);
                proof {
                    assert(self.logs.deep_view() =~= logs_before + spec_commit_logs(
                        stored,
                        new,
                        out_root,
                    ));
                    lemma_commit_without_change_does_nothing(stored->0, new, out_root);
                    assert(actions.deep_view().len() == actions.len());
                }
                return actions;
            }
            // remove the directory of the old mapping, if it has one
            if let Some(out_dir_name) = mapped_dir.out_dir_name() {
                let old_out_dir_path = join_path(self.out_dir_path.as_str(), out_dir_name.as_str());
                logs.push(framed("delete dir `", old_out_dir_path.as_str(), "`"));
                actions.push(CommitAction::RemoveDirAll { path: old_out_dir_path });
            }
        }
        let ghost removal = actions.deep_view();
        let ghost removal_logs = logs.deep_view();
        proof {
            assert(removal =~= match spec_old_out_dir(stored, out_root) {
                Some(path) => seq![CommitActionView::RemoveDirAll { path }],
                None => Seq::empty(),
            });
            assert(removal_logs =~= match spec_old_out_dir(stored, out_root) {
                Some(path) => seq!["delete dir `"@ + path + "`"@],
                None => Seq::empty(),
            });
        }
        // create the directory of the new mapping, if it has one
        if let Some(out_dir_name) = new_mapped_dir.out_dir_name() {
            let new_out_dir_path = join_path(self.out_dir_path.as_str(), out_dir_name.as_str());
            logs.push(framed("create dir `", new_out_dir_path.as_str(), "`"));
            let ghost created_logs = logs.deep_view();
            let ghost path = new_out_dir_path@;
            let mappings = new_mapped_dir.file_mappings();
            let ghost before_links = actions.deep_view().push(
                CommitActionView::CreateDir { path },
            );
            let in_dir_path = new_mapped_dir.in_dir_path();
            let out_dir: String = new_out_dir_path.clone();
            actions.push(CommitAction::CreateDir { path: new_out_dir_path });
            proof {
                assert(actions.deep_view() =~= before_links);
            }
            plan_links(in_dir_path, out_dir.as_str(), mappings, &mut actions, &mut logs);
            proof {
                assert(created_logs =~= removal_logs + seq!["create dir `"@ + path + "`"@]);
                assert(logs.deep_view() =~= removal_logs + (seq!["create dir `"@ + path + "`"@]
                    + spec_link_logs(new.in_dir_path, path, new.file_mappings())));
                assert(actions.deep_view() =~= removal + (seq![
                    CommitActionView::CreateDir { path },
                ] + spec_links(new.in_dir_path, path, new.file_mappings())));
            }
        } else {
            proof {
                assert(logs.deep_view() =~= removal_logs + Seq::<Seq<char>>::empty());
                assert(actions.deep_view() =~= removal + Seq::<CommitActionView>::empty());
            }
        }
        let ghost before_upsert = actions.deep_view();
        let row = new_mapped_dir.serialize();
        let columns = [
            String::from_str(row[0]),
            String::from_str(row[1]),
            String::from_str(row[2]),
            String::from_str(row[3]),
            String::from_str(row[4]),
            String::from_str(row[5]),
        ];
        proof {
            assert(columns.deep_view() =~= seq![new.in_dir_path] + new.configs);
        }
        actions.push(CommitAction::Upsert { columns });
        proof {
            assert(actions.deep_view() =~= before_upsert.push(
                CommitActionView::Upsert { columns: seq![new.in_dir_path] + new.configs },
            ));
            assert(actions.deep_view() =~= spec_commit_actions(stored, new, out_root));
            assert(logs.deep_view() =~= spec_commit_logs(stored, new, out_root));
        }
        let ghost states_before = self.mapping_states.deep_view();
        self.logs.append(&mut logs);
        self.mapping_states[mapping_idx] = MappingState::HasMapping { mapped_dir: new_mapped_dir };
        proof {
            assert(self.logs.deep_view() =~= logs_before + spec_commit_logs(stored, new, out_root));
            assert(self.mapping_states.deep_view() =~= states_before.update(
                mapping_idx as int,
                MappingStateView::HasMapping { mapped_dir: new },
            ));
            lemma_commit_stores_last(stored, new, out_root);
            assert(actions.deep_view().len() == actions.len());
            if has_plain_names(new) {
                lemma_commit_links_lead_to_input_files(stored, new, out_root);
            }
        }
        actions
    }

    /// The state of each directory of the list.
    pub fn mappings(&self) -> (states: &Vec<MappingState>)
        ensures
            states.deep_view() == self@.mappings,
    {
        &self.mapping_states
    }

    /// The log, oldest line first.
    pub fn get_logs(&self) -> (lines: &Vec<String>)
        ensures
            lines.deep_view() == self@.logs,
    {
        &self.logs
    }

    /// The last `max_lines` lines of the log, or all of it when it is no
    /// longer than that.
    pub fn recent_logs(&self, max_lines: usize) -> (lines: &[String])
        ensures
            lines.deep_view() == self@.logs.skip(
                spec_log_window_start(self@.logs.len(), max_lines),
            ),
            lines@.len() <= max_lines,
    {
        let num_logs = self.logs.len();
        let start = if num_logs > max_lines {
            num_logs - max_lines
        } else {
            0
        };
        let lines = slice_subrange(self.logs.as_slice(), start, num_logs);
        proof {
            assert(lines.deep_view() =~= self.logs.deep_view().skip(start as int));
        }
        lines
    }

    /// The index of the selected row.
    pub fn selected_row_idx(&self) -> (idx: usize)
        ensures
            idx == self@.selected_row_idx,
    {
        self.selected_row_idx
    }

    /// Moves the selection one row up, unless it is on the first row.
    pub fn on_up(&mut self) -> (transition: AppTransition)
        ensures
            transition@ == AppTransitionView::Stay,
            final(self)@ == (SelectingInputStateView {
                selected_row_idx: if old(self)@.selected_row_idx > 0 {
                    (old(self)@.selected_row_idx - 1) as usize
                } else {
                    old(self)@.selected_row_idx
                },
                ..old(self)@
            }),
    {
        if self.selected_row_idx > 0 {
            self.selected_row_idx -= 1;
        }
        AppTransition::Stay
    }

    /// Moves the selection one row down, unless it is on the last row.  The
    /// list must hold a row.
    pub fn on_down(&mut self) -> (transition: AppTransition)
        requires
            old(self)@.mappings.len() > 0,
        ensures
            transition@ == AppTransitionView::Stay,
            final(self)@ == (SelectingInputStateView {
                selected_row_idx: if old(self)@.selected_row_idx < old(self)@.mappings.len() - 1 {
                    (old(self)@.selected_row_idx + 1) as usize
                } else {
                    old(self)@.selected_row_idx
                },
                ..old(self)@
            }),
    {
        if self.selected_row_idx < self.mapping_states.len() - 1 {
            self.selected_row_idx += 1;
        }
        AppTransition::Stay
    }

    /// Asks for the editor on the selected row.
    pub fn on_enter(&mut self) -> (transition: AppTransition)
        ensures
            transition@ == AppTransitionView::StartConfiguringIdx(old(self)@.selected_row_idx),
            final(self)@ == old(self)@,
    {
        AppTransition::StartConfiguringIdx(self.selected_row_idx)
    }

    /// The list never takes text input.
    pub fn requesting_input(&self) -> (requesting: bool)
        ensures
            !requesting,
    {
        false
    }
}

} // verus!
