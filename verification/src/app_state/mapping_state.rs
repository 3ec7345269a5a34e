//! The mapping of one input directory: its five configuration strings, the
//! snapshot of its files, and what the configuration makes of each file.

use crate::listing::{is_file_list_of, is_sorted, load_input_file_list, ListedEntry};
use crate::pattern::{compiles, escape, is_match, regex_compiles, regex_is_match, spec_escape};
use crate::renamer::{spec_process, spec_renamer, Renamer, RenamerView};
use crate::text::{join, spec_join, spec_split, split};
use crate::utils::{file_name, spec_file_name, spec_split_ext, split_ext};
use vstd::prelude::*;

verus! {

pub const NUM_CONFIGS: usize = 5;

pub const NUM_SERIALIZED: usize = NUM_CONFIGS + 1;

/// Index of the comma-separated list of extensions that pass the filter.
pub const CONFIG_FILE_EXT: usize = 0;

/// Index of the finder pattern for the directory name.
pub const CONFIG_DIR_MATCHER: usize = 1;

/// Index of the replacer template for the directory name.
pub const CONFIG_DIR_REPLACER: usize = 2;

/// Index of the finder pattern for file names.
pub const CONFIG_FILE_MATCHER: usize = 3;

/// Index of the replacer template for file names.
pub const CONFIG_FILE_REPLACER: usize = 4;

/// What the mapping decided for one input file.
#[derive(Debug, PartialEq, Eq)]
pub enum FileMapping {
    /// The file passed the filter and is linked under `to_name`.
    MappedTo { from_name: String, to_name: String },
    /// The file's extension failed the filter; it gets no link.
    Filtered { name: String },
}

/// A `FileMapping` with its names as sequences of characters.
pub enum FileMappingView {
    MappedTo { from_name: Seq<char>, to_name: Seq<char> },
    Filtered { name: Seq<char> },
}

impl FileMappingView {
    /// The name of the input file that the decision is about.
    pub open spec fn source_name(self) -> Seq<char> {
        match self {
            FileMappingView::MappedTo { from_name, to_name } => from_name,
            FileMappingView::Filtered { name } => name,
        }
    }
}

impl View for FileMapping {
    type V = FileMappingView;

    open spec fn view(&self) -> FileMappingView {
        match self {
            FileMapping::MappedTo { from_name, to_name } => FileMappingView::MappedTo {
                from_name: from_name@,
                to_name: to_name@,
            },
            FileMapping::Filtered { name } => FileMappingView::Filtered { name: name@ },
        }
    }
}

impl DeepView for FileMapping {
    type V = FileMappingView;

    open spec fn deep_view(&self) -> FileMappingView {
        self@
    }
}

impl Clone for FileMapping {
    fn clone(&self) -> (copy: Self)
        ensures
            copy@ == self@,
    {
        match self {
            FileMapping::MappedTo { from_name, to_name } => FileMapping::MappedTo {
                from_name: from_name.clone(),
                to_name: to_name.clone(),
            },
            FileMapping::Filtered { name } => FileMapping::Filtered { name: name.clone() },
        }
    }
}

/// The predicate that holds of the decisions that map a file.
pub open spec fn is_mapped() -> spec_fn(FileMappingView) -> bool {
    |mapping: FileMappingView| mapping is MappedTo
}

/// The function that escapes a string for use as a literal in a pattern.
pub open spec fn escaped() -> spec_fn(Seq<char>) -> Seq<char> {
    |token: Seq<char>| spec_escape(token)
}

/// The pattern that stands for a comma-separated list of extensions: the
/// extensions, each escaped, as the alternatives of one alternation.
pub open spec fn spec_filter_pattern(ext_list: Seq<char>) -> Seq<char> {
    spec_join(spec_split(ext_list, ',').map_values(escaped()), seq!['|'])
}

/// The filter that a list of extensions makes: its pattern, if that compiles.
pub open spec fn spec_file_filter(ext_list: Seq<char>) -> Option<Seq<char>> {
    if regex_compiles(spec_filter_pattern(ext_list)) {
        Some(spec_filter_pattern(ext_list))
    } else {
        None
    }
}

/// A filter on file extensions: an alternation pattern that compiles.
pub struct FileFilter {
    pattern: String,
}

impl View for FileFilter {
    type V = Seq<char>;

    closed spec fn view(&self) -> Seq<char> {
        self.pattern@
    }
}

impl DeepView for FileFilter {
    type V = Seq<char>;

    open spec fn deep_view(&self) -> Seq<char> {
        self@
    }
}

impl Clone for FileFilter {
    fn clone(&self) -> (copy: Self)
        ensures
            copy@ == self@,
    {
        proof {
            use_type_invariant(self);
        }
        FileFilter { pattern: self.pattern.clone() }
    }
}

impl FileFilter {
    #[verifier::type_invariant]
    spec fn pattern_compiles(self) -> bool {
        regex_compiles(self.pattern@)
    }

    /// The alternation pattern.
    pub fn pattern(&self) -> (p: &str)
        ensures
            p@ == self@,
    {
        self.pattern.as_str()
    }

    /// Whether the pattern matches somewhere in `ext`.
    pub fn is_match(&self, ext: &str) -> (found: bool)
        ensures
            found == regex_is_match(self@, ext@),
    {
        proof {
            use_type_invariant(self);
        }
        is_match(self.pattern.as_str(), ext)
    }
}

/// Builds the extension filter for a comma-separated list of extensions.
/// There is no filter when the alternation does not compile.
pub fn build_file_filter_regex(s: &str) -> (filter: Option<FileFilter>)
    ensures
        filter.deep_view() == spec_file_filter(s@),
{
    let tokens = split(s, ',');
    let mut alternatives: Vec<String> = Vec::new();
    for i in 0..tokens.len()
        invariant
            alternatives.deep_view() == tokens.deep_view().take(i as int).map_values(escaped()),
    {
        let ghost before = alternatives.deep_view();
        let token: &str = tokens[i];
        alternatives.push(escape(token));
        proof {
            assert(tokens.deep_view().take(i + 1) =~= tokens.deep_view().take(i as int).push(
                token@,
            ));
            assert(alternatives.deep_view() =~= before.push(spec_escape(token@)));
            assert(tokens.deep_view().take(i + 1).map_values(escaped()) =~= before.push(
                spec_escape(token@),
            ));
        }
    }
    proof {
        assert(tokens.deep_view().take(tokens.len() as int) =~= tokens.deep_view());
        reveal_strlit("|");
        assert("|"@ =~= seq!['|']);
    }
    let pattern = join(&alternatives, "|");
    if compiles(pattern.as_str()) {
        Some(FileFilter { pattern })
    } else {
        None
    }
}

/// What a filter and a renamer make of the file `name`.
///
/// The file is filtered out when there is a filter, the name has an
/// extension, and the filter does not match the extension.  Otherwise it is
/// mapped: with a renamer, to the renamed base name with the extension put
/// back; without one, to itself.
pub open spec fn spec_map_file(
    filter: Option<Seq<char>>,
    renamer: Option<RenamerView>,
    name: Seq<char>,
) -> FileMappingView {
    let (base, ext) = spec_split_ext(name);
    if filter is Some && ext is Some && !regex_is_match(filter->0, ext->0) {
        FileMappingView::Filtered { name }
    } else {
        match renamer {
            Some(r) => FileMappingView::MappedTo {
                from_name: name,
                to_name: match ext {
                    Some(e) => spec_process(r.finder, r.replacer, base) + seq!['.'] + e,
                    None => spec_process(r.finder, r.replacer, base),
                },
            },
            None => FileMappingView::MappedTo { from_name: name, to_name: name },
        }
    }
}

/// Decides what becomes of the file `name`.  Whatever is decided, the
/// decision carries `name` as its source.
pub fn map_file(filter: &Option<FileFilter>, renamer: &Option<Renamer>, name: &str) -> (mapping:
    FileMapping)
    ensures
        mapping@ == spec_map_file(filter.deep_view(), renamer.deep_view(), name@),
        mapping@.source_name() == name@,
{
    let (basename, ext) = split_ext(name);
    if let Some(ext_matcher) = filter {
        if let Some(ext) = ext {
            if !ext_matcher.is_match(ext) {
                return FileMapping::Filtered { name: String::from_str(name) };
            }
        }
    }
    if let Some(file_renamer) = renamer {
        let renamed = file_renamer.process(basename);
        let to_path = if let Some(ext) = ext {
            proof {
                reveal_strlit(".");
                assert("."@ =~= seq!['.']);
            }
            let mut to_path = renamed;
            to_path.append(".");
            to_path.append(ext);
            to_path
        } else {
            renamed
        };
        return FileMapping::MappedTo { from_name: String::from_str(name), to_name: to_path };
    }
    FileMapping::MappedTo { from_name: String::from_str(name), to_name: String::from_str(name) }
}

/// What a `MappedDir` is made from: the path of the input directory, the five
/// configuration strings, and the sorted names of its files.  All the rest of
/// a `MappedDir` is a function of these.
pub struct MappedDirView {
    pub in_dir_path: Seq<char>,
    pub configs: Seq<Seq<char>>,
    pub in_file_list: Seq<Seq<char>>,
}

impl MappedDirView {
    /// There are five configuration strings, and the file list is sorted.
    pub open spec fn wf(self) -> bool {
        &&& self.configs.len() == NUM_CONFIGS
        &&& is_sorted(self.in_file_list)
    }

    /// The pattern of the extension filter, if the extension list makes one.
    pub open spec fn file_filter(self) -> Option<Seq<char>> {
        spec_file_filter(self.configs[CONFIG_FILE_EXT as int])
    }

    /// The renamer for file names, if its finder compiles.
    pub open spec fn file_renamer(self) -> Option<RenamerView> {
        spec_renamer(
            self.configs[CONFIG_FILE_MATCHER as int],
            self.configs[CONFIG_FILE_REPLACER as int],
        )
    }

    /// The renamer for the directory name, if its finder compiles.
    pub open spec fn dir_renamer(self) -> Option<RenamerView> {
        spec_renamer(
            self.configs[CONFIG_DIR_MATCHER as int],
            self.configs[CONFIG_DIR_REPLACER as int],
        )
    }

    /// The decision for each file of the list, in the order of the list.
    pub open spec fn file_mappings(self) -> Seq<FileMappingView> {
        Seq::new(
            self.in_file_list.len(),
            |i: int| spec_map_file(self.file_filter(), self.file_renamer(), self.in_file_list[i]),
        )
    }

    /// The last component of the input directory's path.
    pub open spec fn in_dir_name(self) -> Seq<char> {
        spec_file_name(self.in_dir_path)
    }

    /// The name of the output directory: the renamed name of the input
    /// directory, or nothing when there is no valid directory renamer.
    pub open spec fn out_dir_name(self) -> Option<Seq<char>> {
        match self.dir_renamer() {
            Some(r) => Some(spec_process(r.finder, r.replacer, self.in_dir_name())),
            None => None,
        }
    }
}

/// There are as many file mappings as files in the list, in the same order:
/// mapping `i` is the decision for file `i`, so every listed file has exactly
/// one decision, mapped or filtered.
pub proof fn lemma_file_mappings_follow_file_list(dir: MappedDirView)
    ensures
        dir.file_mappings().len() == dir.in_file_list.len(),
        forall|i: int|
            0 <= i < dir.in_file_list.len() ==> (#[trigger] dir.file_mappings()[i]).source_name()
                == dir.in_file_list[i],
{
}

/// The file mappings are a function of the configuration strings and the file
/// list alone: from the same strings and the same list, recomputation gives
/// the same mappings, however often it runs and wherever the directory lies.
pub proof fn lemma_file_mappings_are_determined(a: MappedDirView, b: MappedDirView)
    requires
        a.configs == b.configs,
        a.in_file_list == b.in_file_list,
    ensures
        a.file_mappings() == b.file_mappings(),
{
    assert(a.file_mappings() =~= b.file_mappings());
}

/// One input directory with its configuration and what follows from it.
///
/// The derived parts (filter, renamers, file mappings) always agree with the
/// configuration strings: every operation that changes a string rebuilds them
/// before it returns.
pub struct MappedDir {
    in_dir_path: String,
    configs: [String; NUM_CONFIGS],
    // taken once, when the value is made
    in_file_list: Vec<String>,
    // rebuilt whenever a configuration string changes
    file_mappings: Vec<FileMapping>,
    file_filter_regex: Option<FileFilter>,
    file_renamer: Option<Renamer>,
    dir_renamer: Option<Renamer>,
}

impl View for MappedDir {
    type V = MappedDirView;

    closed spec fn view(&self) -> MappedDirView {
        MappedDirView {
            in_dir_path: self.in_dir_path@,
            configs: self.configs.deep_view(),
            in_file_list: self.in_file_list.deep_view(),
        }
    }
}

/// A copy of `list`.
fn clone_strings(list: &Vec<String>) -> (copy: Vec<String>)
    ensures
        copy.deep_view() == list.deep_view(),
{
    let mut copy: Vec<String> = Vec::new();
    for i in 0..list.len()
        invariant
            copy.deep_view() == list.deep_view().take(i as int),
    {
        let ghost before = copy.deep_view();
        copy.push(list[i].clone());
        proof {
            assert(copy.deep_view() =~= before.push(list[i as int]@));
            assert(list.deep_view().take(i + 1) =~= before.push(list[i as int]@));
        }
    }
    proof {
        assert(list.deep_view().take(list.len() as int) =~= list.deep_view());
    }
    copy
}

impl MappedDir {
    #[verifier::type_invariant]
    spec fn derived_state_is_current(self) -> bool {
        &&& self@.wf()
        &&& self.file_filter_regex.deep_view() == self@.file_filter()
        &&& self.file_renamer.deep_view() == self@.file_renamer()
        &&& self.dir_renamer.deep_view() == self@.dir_renamer()
        &&& self.file_mappings.deep_view() == self@.file_mappings()
    }

    /// The decisions that the value holds at this moment.
    pub closed spec fn held_file_mappings(&self) -> Seq<FileMappingView> {
        self.file_mappings.deep_view()
    }

    /// The pattern of the extension filter that the value holds at this
    /// moment, if it holds one.
    pub closed spec fn held_file_filter(&self) -> Option<Seq<char>> {
        self.file_filter_regex.deep_view()
    }

    /// The renamer for file names that the value holds at this moment, if it
    /// holds one.
    pub closed spec fn held_file_renamer(&self) -> Option<RenamerView> {
        self.file_renamer.deep_view()
    }

    /// The renamer for the directory name that the value holds at this
    /// moment, if it holds one.
    pub closed spec fn held_dir_renamer(&self) -> Option<RenamerView> {
        self.dir_renamer.deep_view()
    }

    /// Builds the value for a path, five configuration strings and a sorted
    /// file list, deriving filter, renamers and mappings from the strings.
    fn assemble(
        in_dir_path: String,
        configs: [String; NUM_CONFIGS],
        in_file_list: Vec<String>,
    ) -> (made: MappedDir)
        requires
            is_sorted(in_file_list.deep_view()),
        ensures
            made@.in_dir_path == in_dir_path@,
            made@.configs == configs.deep_view(),
            made@.in_file_list == in_file_list.deep_view(),
    {
        let file_filter_regex = build_file_filter_regex(configs[CONFIG_FILE_EXT].as_str());
        let file_renamer = Renamer::new(
            configs[CONFIG_FILE_MATCHER].as_str(),
            configs[CONFIG_FILE_REPLACER].as_str(),
        );
        let dir_renamer = Renamer::new(
            configs[CONFIG_DIR_MATCHER].as_str(),
            configs[CONFIG_DIR_REPLACER].as_str(),
        );
        let ghost view = MappedDirView {
            in_dir_path: in_dir_path@,
            configs: configs.deep_view(),
            in_file_list: in_file_list.deep_view(),
        };
        let mut file_mappings: Vec<FileMapping> = Vec::new();
        for i in 0..in_file_list.len()
            invariant
                view.in_file_list == in_file_list.deep_view(),
                file_filter_regex.deep_view() == view.file_filter(),
                file_renamer.deep_view() == view.file_renamer(),
                file_mappings.deep_view() == view.file_mappings().take(i as int),
        {
            let ghost before = file_mappings.deep_view();
            let mapping = map_file(&file_filter_regex, &file_renamer, in_file_list[i].as_str());
            file_mappings.push(mapping);
            proof {
                assert(file_mappings.deep_view() =~= before.push(mapping@));
                assert(view.file_mappings().take(i + 1) =~= before.push(mapping@));
            }
        }
        proof {
            assert(view.file_mappings().take(in_file_list.len() as int) =~= view.file_mappings());
        }
        MappedDir {
            in_dir_path,
            configs,
            in_file_list,
            file_mappings,
            file_filter_regex,
            file_renamer,
            dir_renamer,
        }
    }

    /// Whether `self` and `other`, two mappings of one input directory, have
    /// the same five configuration strings.  Nothing else is compared.
    pub fn configs_eq(&self, other: &Self) -> (same: bool)
        requires
            self@.in_dir_path == other@.in_dir_path,
        ensures
            same == (self@.configs == other@.configs),
    {
        let mut i: usize = 0;
        while i < NUM_CONFIGS
            invariant
                i <= NUM_CONFIGS,
                forall|j: int| 0 <= j < i ==> self@.configs[j] == other@.configs[j],
            decreases NUM_CONFIGS - i,
        {
            if self.configs[i] != other.configs[i] {
                proof {
                    assert(self@.configs[i as int] == self.configs[i as int]@);
                    assert(other@.configs[i as int] == other.configs[i as int]@);
                }
                return false;
            }
            i = i + 1;
        }
        proof {
            assert(self@.configs =~= other@.configs);
        }
        true
    }

    /// Makes the mapping of the directory `inputs[0]` with the configuration
    /// strings `inputs[1..]`, for the directory entries that were read from it.
    pub fn deserialize(inputs: [String; NUM_SERIALIZED], entries: &Vec<ListedEntry>) -> (made:
        MappedDir)
        ensures
            made@.wf(),
            made@.in_dir_path == inputs.deep_view()[0],
            made@.configs == inputs.deep_view().skip(1),
            is_file_list_of(made@.in_file_list, entries.deep_view()),
    {
        let in_file_list = load_input_file_list(entries);
        let configs = [
            inputs[1].clone(),
            inputs[2].clone(),
            inputs[3].clone(),
            inputs[4].clone(),
            inputs[5].clone(),
        ];
        proof {
            assert(configs.deep_view() =~= inputs.deep_view().skip(1));
        }
        MappedDir::assemble(inputs[0].clone(), configs, in_file_list)
    }

    /// Rebuilds filter, renamers and file mappings from the configuration
    /// strings.  Path, strings and file list stay as they are.  What the
    /// value holds afterwards is what the strings give: the filter of the
    /// extension list, the two renamers of their matcher and replacer, and
    /// for each file of the list the decision of that filter and that
    /// renamer.  With unchanged strings the rebuilt mappings are the ones that
    /// were there.
    pub fn configs_changed(&mut self)
        ensures
            final(self)@ == old(self)@,
            final(self)@.wf(),
            final(self).held_file_filter() == final(self)@.file_filter(),
            final(self).held_file_renamer() == final(self)@.file_renamer(),
            final(self).held_dir_renamer() == final(self)@.dir_renamer(),
            final(self).held_file_mappings() == final(self)@.file_mappings(),
            final(self).held_file_mappings() == old(self).held_file_mappings(),
    {
        proof {
            use_type_invariant(&*self);
        }
        let configs = [
            self.configs[0].clone(),
            self.configs[1].clone(),
            self.configs[2].clone(),
            self.configs[3].clone(),
            self.configs[4].clone(),
        ];
        proof {
            assert(configs.deep_view() =~= self.configs.deep_view());
        }
        let rebuilt = MappedDir::assemble(
            self.in_dir_path.clone(),
            configs,
            clone_strings(&self.in_file_list),
        );
        proof {
            use_type_invariant(&rebuilt);
        }
        *self = rebuilt;
    }

    pub fn has_valid_file_filter(&self) -> (valid: bool)
        ensures
            valid == self@.file_filter() is Some,
    {
        proof {
            use_type_invariant(self);
        }
        self.file_filter_regex.is_some()
    }

    pub fn has_valid_dir_renamer(&self) -> (valid: bool)
        ensures
            valid == self@.dir_renamer() is Some,
    {
        proof {
            use_type_invariant(self);
        }
        self.dir_renamer.is_some()
    }

    pub fn has_valid_file_renamer(&self) -> (valid: bool)
        ensures
            valid == self@.file_renamer() is Some,
    {
        proof {
            use_type_invariant(self);
        }
        self.file_renamer.is_some()
    }

    /// The path of the input directory, then the five configuration strings.
    pub fn serialize(&self) -> (columns: [&str; NUM_SERIALIZED])
        ensures
            columns.deep_view() == seq![self@.in_dir_path] + self@.configs,
    {
        let columns = [
            self.in_dir_path.as_str(),
            self.configs[0].as_str(),
            self.configs[1].as_str(),
            self.configs[2].as_str(),
            self.configs[3].as_str(),
            self.configs[4].as_str(),
        ];
        proof {
            assert(columns.deep_view() =~= seq![self@.in_dir_path] + self@.configs);
        }
        columns
    }

    /// Replaces configuration string `idx` by `value` and rebuilds what
    /// depends on the strings.
    pub fn config_mut(&mut self, idx: usize, value: String)
        requires
            idx < NUM_CONFIGS,
        ensures
            final(self)@.wf(),
            final(self)@.in_dir_path == old(self)@.in_dir_path,
            final(self)@.in_file_list == old(self)@.in_file_list,
            final(self)@.configs == old(self)@.configs.update(idx as int, value@),
    {
        proof {
            use_type_invariant(&*self);
        }
        let mut configs = [
            self.configs[0].clone(),
            self.configs[1].clone(),
            self.configs[2].clone(),
            self.configs[3].clone(),
            self.configs[4].clone(),
        ];
        configs[idx] = value;
        proof {
            assert(configs.deep_view() =~= self.configs.deep_view().update(idx as int, value@));
        }
        let rebuilt = MappedDir::assemble(
            self.in_dir_path.clone(),
            configs,
            clone_strings(&self.in_file_list),
        );
        *self = rebuilt;
    }

    /// Configuration string `idx`.
    pub fn config(&self, idx: usize) -> (value: &String)
        requires
            idx < NUM_CONFIGS,
        ensures
            value@ == self@.configs[idx as int],
    {
        &self.configs[idx]
    }

    /// The name of the output directory, if the directory renamer is valid.
    pub fn out_dir_name(&self) -> (name: Option<String>)
        ensures
            name.deep_view() == self@.out_dir_name(),
    {
        proof {
            use_type_invariant(self);
        }
        match &self.dir_renamer {
            Some(renamer) => Some(renamer.process(self.in_dir_name())),
            None => None,
        }
    }

    /// The last component of the input directory's path.
    pub fn in_dir_name(&self) -> (name: &str)
        ensures
            name@ == self@.in_dir_name(),
    {
        file_name(self.in_dir_path.as_str())
    }

    pub fn in_dir_path(&self) -> (path: &str)
        ensures
            path@ == self@.in_dir_path,
    {
        self.in_dir_path.as_str()
    }

    /// How many of the input files are mapped, that is, not filtered out.
    pub fn num_mapped_files(&self) -> (count: usize)
        ensures
            count == self@.file_mappings().filter(is_mapped()).len(),
            count <= self@.in_file_list.len(),
    {
        proof {
            use_type_invariant(self);
        }
        let ghost all = self.file_mappings.deep_view();
        let mut count: usize = 0;
        proof {
            assert(all.take(0) =~= Seq::<FileMappingView>::empty());
            reveal_with_fuel(Seq::filter, 1);
        }
        for i in 0..self.file_mappings.len()
            invariant
                all == self.file_mappings.deep_view(),
                count == all.take(i as int).filter(is_mapped()).len(),
                count <= i,
        {
            proof {
                assert(all.take(i + 1) =~= all.take(i as int).push(self.file_mappings[i as int]@));
                Seq::lemma_filter_push(
                    all.take(i as int),
                    self.file_mappings[i as int]@,
                    is_mapped(),
                );
            }
            if let FileMapping::MappedTo { from_name: _, to_name: _ } = &self.file_mappings[i] {
                count = count + 1;
            }
        }
        proof {
            assert(all.take(self.file_mappings.len() as int) =~= all);
        }
        count
    }

    /// The decision for each input file, in the order of the file list: entry
    /// `i` is about file `i`.
    pub fn file_mappings(&self) -> (mappings: &Vec<FileMapping>)
        ensures
            mappings.deep_view() == self.held_file_mappings(),
            mappings.deep_view() == self@.file_mappings(),
            mappings.len() == self@.in_file_list.len(),
            forall|i: int|
                0 <= i < mappings.len() ==> (#[trigger] mappings.deep_view()[i]).source_name()
                    == self@.in_file_list[i],
    {
        proof {
            use_type_invariant(self);
            lemma_file_mappings_follow_file_list(self@);
            assert(self.file_mappings.deep_view().len() == self.file_mappings.len());
        }
        &self.file_mappings
    }
}

impl Clone for MappedDir {
    fn clone(&self) -> (copy: Self)
        ensures
            copy@ == self@,
            copy.held_file_mappings() == self.held_file_mappings(),
    {
        proof {
            use_type_invariant(self);
        }
        let configs = [
            self.configs[0].clone(),
            self.configs[1].clone(),
            self.configs[2].clone(),
            self.configs[3].clone(),
            self.configs[4].clone(),
        ];
        let mut file_mappings: Vec<FileMapping> = Vec::new();
        for i in 0..self.file_mappings.len()
            invariant
                file_mappings.deep_view() == self.file_mappings.deep_view().take(i as int),
        {
            let ghost before = file_mappings.deep_view();
            let mapping = self.file_mappings[i].clone();
            file_mappings.push(mapping);
            proof {
                assert(file_mappings.deep_view() =~= before.push(mapping@));
                assert(self.file_mappings.deep_view().take(i + 1) =~= before.push(mapping@));
            }
        }
        let file_filter_regex = match &self.file_filter_regex {
            Some(filter) => Some(filter.clone()),
            None => None,
        };
        let file_renamer = match &self.file_renamer {
            Some(renamer) => Some(renamer.clone()),
            None => None,
        };
        let dir_renamer = match &self.dir_renamer {
            Some(renamer) => Some(renamer.clone()),
            None => None,
        };
        let in_file_list = clone_strings(&self.in_file_list);
        proof {
            assert(configs.deep_view() =~= self.configs.deep_view());
            assert(self.file_mappings.deep_view().take(self.file_mappings.len() as int)
                =~= self.file_mappings.deep_view());
        }
        MappedDir {
            in_dir_path: self.in_dir_path.clone(),
            configs,
            in_file_list,
            file_mappings,
            file_filter_regex,
            file_renamer,
            dir_renamer,
        }
    }
}

/// The configuration strings that a directory without a stored mapping
/// starts from: the common media extensions, and renamers that keep every
/// name as it is.
pub open spec fn default_configs() -> Seq<Seq<char>> {
    seq!["avi,mkv,mp4"@, "(.+)"@, "$1"@, "(.+)"@, "$1"@]
}

/// How an input directory stands to the store of mappings.
pub enum MappingState {
    /// The store holds a mapping for the directory.
    HasMapping { mapped_dir: MappedDir },
    /// The store holds none; only the directory's path is known.
    Unmapped { in_path: String },
}

/// A `MappingState` over the models of its parts.
pub enum MappingStateView {
    HasMapping { mapped_dir: MappedDirView },
    Unmapped { in_path: Seq<char> },
}

impl MappingStateView {
    /// The path of the input directory.
    pub open spec fn in_path(self) -> Seq<char> {
        match self {
            MappingStateView::HasMapping { mapped_dir } => mapped_dir.in_dir_path,
            MappingStateView::Unmapped { in_path } => in_path,
        }
    }

    /// The stored mapping, if there is one.
    pub open spec fn stored(self) -> Option<MappedDirView> {
        match self {
            MappingStateView::HasMapping { mapped_dir } => Some(mapped_dir),
            MappingStateView::Unmapped { in_path } => None,
        }
    }
}

impl View for MappingState {
    type V = MappingStateView;

    open spec fn view(&self) -> MappingStateView {
        match self {
            MappingState::HasMapping { mapped_dir } => MappingStateView::HasMapping {
                mapped_dir: mapped_dir@,
            },
            MappingState::Unmapped { in_path } => MappingStateView::Unmapped { in_path: in_path@ },
        }
    }
}

impl DeepView for MappingState {
    type V = MappingStateView;

    open spec fn deep_view(&self) -> MappingStateView {
        self@
    }
}

impl MappingState {
    /// The state of the directory `in_path`, given what the store holds for it.
    pub fn from_lookup(in_path: String, stored: Option<MappedDir>) -> (state: MappingState)
        ensures
            state@ == (match stored {
                Some(mapped_dir) => MappingStateView::HasMapping { mapped_dir: mapped_dir@ },
                None => MappingStateView::Unmapped { in_path: in_path@ },
            }),
    {
        match stored {
            Some(mapped_dir) => MappingState::HasMapping { mapped_dir },
            None => MappingState::Unmapped { in_path },
        }
    }

    /// The last component of the input directory's path.
    pub fn in_dir_name(&self) -> (name: &str)
        ensures
            name@ == spec_file_name(self@.in_path()),
    {
        match self {
            MappingState::HasMapping { mapped_dir } => mapped_dir.in_dir_name(),
            MappingState::Unmapped { in_path } => file_name(in_path.as_str()),
        }
    }

    /// The mapping to edit: a copy of the stored one, or, for a directory
    /// without one, the default mapping over `entries`, the entries that were
    /// read from the directory.
    pub fn to_mapped_dir(&self, entries: &Vec<ListedEntry>) -> (made: MappedDir)
        ensures
            made@.wf(),
            match self@ {
                MappingStateView::HasMapping { mapped_dir } => made@ == mapped_dir,
                MappingStateView::Unmapped { in_path } => {
                    &&& made@.in_dir_path == in_path
                    &&& made@.configs == default_configs()
                    &&& is_file_list_of(made@.in_file_list, entries.deep_view())
                },
            },
    {
        match self {
            MappingState::HasMapping { mapped_dir } => {
                let made = mapped_dir.clone();
                proof {
                    use_type_invariant(&made);
                }
                made
            },
            MappingState::Unmapped { in_path } => {
                let inputs = [
                    in_path.clone(),
                    String::from_str("avi,mkv,mp4"),
                    String::from_str("(.+)"),
                    String::from_str("$1"),
                    String::from_str("(.+)"),
                    String::from_str("$1"),
                ];
                proof {
                    assert(inputs.deep_view().skip(1) =~= default_configs());
                }
                MappedDir::deserialize(inputs, entries)
            },
        }
    }
}

} // verus!
