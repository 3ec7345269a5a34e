//! Path helpers: splitting a path into directory, file name and extension,
//! joining two paths, and the shortest relative path between two directories.

use crate::text::{
    join, lemma_split_of_appended_piece, lemma_split_pieces_lack_separator,
    lemma_split_without_separator, rfind_char, spec_join, spec_split, split,
};
use vstd::prelude::*;

verus! {

/// The part of `path` after its last `/`, or all of `path` when it has none.
pub open spec fn spec_file_name(path: Seq<char>) -> Seq<char> {
    match path.index_of_last('/') {
        Some(sep) => path.subrange(sep + 1, path.len() as int),
        None => path,
    }
}

/// The part of `path` before its last `/`, or nothing when it has none.
pub open spec fn spec_dir_name(path: Seq<char>) -> Seq<char> {
    match path.index_of_last('/') {
        Some(sep) => path.subrange(0, sep),
        None => Seq::empty(),
    }
}

/// `path` cut at its last `.`: what stands before it, and what stands after
/// it as the extension.  A path without a `.` has no extension.
pub open spec fn spec_split_ext(path: Seq<char>) -> (Seq<char>, Option<Seq<char>>) {
    match path.index_of_last('.') {
        Some(sep) => (path.subrange(0, sep), Some(path.subrange(sep + 1, path.len() as int))),
        None => (path, None),
    }
}

/// `a`, without one trailing `/` if it has one, then `/`, then `b`.
pub open spec fn spec_join_path(a: Seq<char>, b: Seq<char>) -> Seq<char> {
    let head = if a.len() > 0 && a.last() == '/' {
        a.drop_last()
    } else {
        a
    };
    head + seq!['/'] + b
}

/// The predicate that holds of the non-empty sequences.
pub open spec fn nonempty() -> spec_fn(Seq<char>) -> bool {
    |c: Seq<char>| c.len() > 0
}

/// The non-empty pieces of `path` between its `/`s.
pub open spec fn spec_components(path: Seq<char>) -> Seq<Seq<char>> {
    spec_split(path, '/').filter(nonempty())
}

/// How many leading components `a` and `b` share.
pub open spec fn common_prefix_len(a: Seq<Seq<char>>, b: Seq<Seq<char>>) -> nat
    decreases a.len(),
{
    if a.len() > 0 && b.len() > 0 && a[0] == b[0] {
        1 + common_prefix_len(a.drop_first(), b.drop_first())
    } else {
        0
    }
}

/// The component `..`.
pub open spec fn parent_component() -> Seq<char> {
    seq!['.', '.']
}

/// The components that lead from the directory `target` to the directory
/// `source`: one `..` for each component of `target` below the shared prefix,
/// then the components of `source` below it.
pub open spec fn relative_components(source: Seq<Seq<char>>, target: Seq<Seq<char>>) -> Seq<
    Seq<char>,
> {
    let shared = common_prefix_len(source, target);
    Seq::new((target.len() - shared) as nat, |i: int| parent_component()) + source.skip(
        shared as int,
    )
}

/// The relative path from `target` to `source`, without a trailing `/`; empty
/// when both name the same directory.
pub open spec fn spec_compute_prefix_raw(source: Seq<char>, target: Seq<char>) -> Seq<char> {
    spec_join(relative_components(spec_components(source), spec_components(target)), seq!['/'])
}

/// The relative path from `target` to `source` with a trailing `/`, `./` when
/// both name the same directory.
pub open spec fn spec_compute_prefix(source: Seq<char>, target: Seq<char>) -> Seq<char> {
    let raw = spec_compute_prefix_raw(source, target);
    if raw.len() == 0 {
        seq!['.', '/']
    } else {
        raw + seq!['/']
    }
}

/// The shared prefix is as long as `common_prefix_len` says: the components
/// before it agree pairwise, and it ends where one path ends or the two part.
pub proof fn lemma_common_prefix_len(a: Seq<Seq<char>>, b: Seq<Seq<char>>)
    ensures
        common_prefix_len(a, b) <= a.len(),
        common_prefix_len(a, b) <= b.len(),
        forall|i: int| 0 <= i < common_prefix_len(a, b) ==> a[i] == b[i],
        ({
            let shared = common_prefix_len(a, b) as int;
            shared == a.len() || shared == b.len() || a[shared] != b[shared]
        }),
    decreases a.len(),
{
    if a.len() > 0 && b.len() > 0 && a[0] == b[0] {
        let ta = a.drop_first();
        let tb = b.drop_first();
        lemma_common_prefix_len(ta, tb);
        let k = common_prefix_len(ta, tb) as int;
        assert forall|i: int| 0 <= i < k + 1 implies a[i] == b[i] by {
            if i > 0 {
                assert(a[i] == ta[i - 1]);
                assert(b[i] == tb[i - 1]);
            }
        }
        if k < ta.len() && k < tb.len() {
            assert(a[k + 1] == ta[k]);
            assert(b[k + 1] == tb[k]);
        }
    }
}

/// A component of a path: a non-empty name without `/`.
pub open spec fn is_component(c: Seq<char>) -> bool {
    c.len() > 0 && !c.contains('/')
}

/// The component `.`.
pub open spec fn current_component() -> Seq<char> {
    seq!['.']
}

/// A component that names an entry of a directory: neither `.` nor `..`.
pub open spec fn is_name(c: Seq<char>) -> bool {
    is_component(c) && c != parent_component() && c != current_component()
}

/// Every component of `path` names an entry.
pub open spec fn all_names(path: Seq<Seq<char>>) -> bool {
    forall|i: int| 0 <= i < path.len() ==> is_name(#[trigger] path[i])
}

/// Where the relative path `steps` leads from the directory `base`, both
/// given by their components: `..` leads to the parent, `.` stays, and every
/// other component leads into the entry of that name.
pub open spec fn resolve(base: Seq<Seq<char>>, steps: Seq<Seq<char>>) -> Seq<Seq<char>>
    decreases steps.len(),
{
    if steps.len() == 0 {
        base
    } else if steps[0] == parent_component() {
        resolve(base.drop_last(), steps.drop_first())
    } else if steps[0] == current_component() {
        resolve(base, steps.drop_first())
    } else {
        resolve(base.push(steps[0]), steps.drop_first())
    }
}

/// What `spec_components` gives are components.
pub proof fn lemma_components_are_components(path: Seq<char>)
    ensures
        forall|i: int|
            0 <= i < spec_components(path).len() ==> is_component(
                #[trigger] spec_components(path)[i],
            ),
{
    let pieces = spec_split(path, '/');
    let kept = pieces.filter(nonempty());
    lemma_split_pieces_lack_separator(path, '/');
    assert forall|i: int| 0 <= i < kept.len() implies is_component(#[trigger] kept[i]) by {
        pieces.lemma_filter_pred(nonempty(), i);
        assert(kept.contains(kept[i]));
        pieces.lemma_filter_contains_rev(nonempty(), kept[i]);
        let j = choose|j: int| 0 <= j < pieces.len() && pieces[j] == kept[i];
        assert(!pieces[j].contains('/'));
    }
}

/// Components joined by `/` come apart into the same components.
pub proof fn lemma_components_of_join(parts: Seq<Seq<char>>)
    requires
        forall|i: int| 0 <= i < parts.len() ==> is_component(#[trigger] parts[i]),
    ensures
        spec_components(spec_join(parts, seq!['/'])) == parts,
    decreases parts.len(),
{
    reveal_with_fuel(Seq::filter, 2);
    if parts.len() == 0 {
        let pieces = seq![Seq::<char>::empty()];
        assert(pieces.drop_last() =~= Seq::<Seq<char>>::empty());
        assert(pieces.filter(nonempty()) =~= parts);
    } else if parts.len() == 1 {
        lemma_split_without_separator(parts[0], '/');
        let pieces = seq![parts[0]];
        assert(pieces.drop_last() =~= Seq::<Seq<char>>::empty());
        assert(pieces.filter(nonempty()) =~= parts);
    } else {
        let init = parts.drop_last();
        assert forall|i: int| 0 <= i < init.len() implies is_component(#[trigger] init[i]) by {
            assert(init[i] == parts[i]);
        }
        lemma_components_of_join(init);
        lemma_split_of_appended_piece(spec_join(init, seq!['/']), parts.last(), '/');
        Seq::lemma_filter_push(
            spec_split(spec_join(init, seq!['/']), '/'),
            parts.last(),
            nonempty(),
        );
        assert(init.push(parts.last()) =~= parts);
    }
}

/// Leading `..` steps lead up: `n` of them drop the last `n` components of
/// the base.
proof fn lemma_resolve_ups(base: Seq<Seq<char>>, steps: Seq<Seq<char>>, n: int)
    requires
        0 <= n <= base.len(),
        n <= steps.len(),
        forall|i: int| 0 <= i < n ==> steps[i] == parent_component(),
    ensures
        resolve(base, steps) == resolve(base.take(base.len() - n), steps.skip(n)),
    decreases n,
{
    if n == 0 {
        assert(base.take(base.len() as int) =~= base);
        assert(steps.skip(0) =~= steps);
    } else {
        let rest = steps.drop_first();
        assert forall|i: int| 0 <= i < n - 1 implies rest[i] == parent_component() by {
            assert(rest[i] == steps[i + 1]);
        }
        lemma_resolve_ups(base.drop_last(), rest, n - 1);
        assert(base.drop_last().take(base.len() - n) =~= base.take(base.len() - n));
        assert(rest.skip(n - 1) =~= steps.skip(n));
    }
}

/// Steps that are names lead down: they are added to the base.
proof fn lemma_resolve_downs(base: Seq<Seq<char>>, steps: Seq<Seq<char>>)
    requires
        all_names(steps),
    ensures
        resolve(base, steps) == base + steps,
    decreases steps.len(),
{
    if steps.len() == 0 {
        assert(base + steps =~= base);
    } else {
        let rest = steps.drop_first();
        assert(is_name(steps[0]));
        assert forall|i: int| 0 <= i < rest.len() implies is_name(#[trigger] rest[i]) by {
            assert(rest[i] == steps[i + 1]);
        }
        lemma_resolve_downs(base.push(steps[0]), rest);
        assert(base.push(steps[0]) + rest =~= base + steps);
    }
}

/// A single name leads into the entry of that name.
pub proof fn lemma_resolve_name(base: Seq<Seq<char>>, name: Seq<char>)
    requires
        is_name(name),
    ensures
        resolve(base, seq![name]) == base.push(name),
{
    let steps = seq![name];
    assert(steps[0] == name);
    assert(steps.drop_first() =~= Seq::<Seq<char>>::empty());
    assert(resolve(base.push(name), steps.drop_first()) == base.push(name));
}

/// Following one relative path and then another is following the two in a
/// row.
pub proof fn lemma_resolve_in_two_legs(
    base: Seq<Seq<char>>,
    first: Seq<Seq<char>>,
    second: Seq<Seq<char>>,
)
    ensures
        resolve(base, first + second) == resolve(resolve(base, first), second),
    decreases first.len(),
{
    if first.len() == 0 {
        assert(first + second =~= second);
    } else {
        let whole = first + second;
        assert(whole[0] == first[0]);
        assert(whole.drop_first() =~= first.drop_first() + second);
        if first[0] == parent_component() {
            lemma_resolve_in_two_legs(base.drop_last(), first.drop_first(), second);
        } else if first[0] == current_component() {
            lemma_resolve_in_two_legs(base, first.drop_first(), second);
        } else {
            lemma_resolve_in_two_legs(base.push(first[0]), first.drop_first(), second);
        }
    }
}

/// Followed from `target`, the relative components lead to `source`,
/// provided that the components of `source` are names.
pub proof fn lemma_relative_components_lead_back(source: Seq<Seq<char>>, target: Seq<Seq<char>>)
    requires
        all_names(source),
    ensures
        resolve(target, relative_components(source, target)) == source,
{
    lemma_common_prefix_len(source, target);
    let shared = common_prefix_len(source, target) as int;
    let steps = relative_components(source, target);
    let ups = target.len() - shared;
    lemma_resolve_ups(target, steps, ups);
    assert(steps.skip(ups) =~= source.skip(shared));
    assert forall|i: int| 0 <= i < source.skip(shared).len() implies is_name(
        #[trigger] source.skip(shared)[i],
    ) by {
        assert(source.skip(shared)[i] == source[shared + i]);
    }
    lemma_resolve_downs(target.take(shared), source.skip(shared));
    assert(target.take(shared) =~= source.take(shared));
    assert(source.take(shared) + source.skip(shared) =~= source);
}

/// The relative path between two directories comes apart into the relative
/// components.
pub proof fn lemma_components_of_relative_path(source: Seq<char>, target: Seq<char>)
    ensures
        spec_components(spec_compute_prefix_raw(source, target)) == relative_components(
            spec_components(source),
            spec_components(target),
        ),
        spec_compute_prefix_raw(source, target).len() == 0 <==> relative_components(
            spec_components(source),
            spec_components(target),
        ).len() == 0,
{
    let from = spec_components(source);
    let to = spec_components(target);
    let steps = relative_components(from, to);
    lemma_components_are_components(source);
    lemma_common_prefix_len(from, to);
    assert(is_component(parent_component())) by {
        assert(parent_component()[0] == '.');
        assert(parent_component()[1] == '.');
    }
    assert forall|i: int| 0 <= i < steps.len() implies is_component(#[trigger] steps[i]) by {
        let ups = to.len() - common_prefix_len(from, to);
        if i >= ups {
            assert(steps[i] == from[common_prefix_len(from, to) + (i - ups)]);
        }
    }
    lemma_components_of_join(steps);
    if steps.len() > 0 {
        lemma_join_holds_last_part(steps, seq!['/']);
        assert(is_component(steps.last()));
    }
}

/// What is joined is at least as long as its last part.
proof fn lemma_join_holds_last_part(parts: Seq<Seq<char>>, sep: Seq<char>)
    requires
        parts.len() > 0,
    ensures
        spec_join(parts, sep).len() >= parts.last().len(),
{
}

/// A `/` and a component behind a path add that component to the path's
/// components.
pub proof fn lemma_components_of_appended_name(path: Seq<char>, name: Seq<char>)
    requires
        is_component(name),
    ensures
        spec_components(path + seq!['/'] + name) == spec_components(path).push(name),
{
    lemma_split_of_appended_piece(path, name, '/');
    Seq::lemma_filter_push(spec_split(path, '/'), name, nonempty());
}

/// The path of a name under a directory has that directory as its directory
/// and that name as its file name.
pub proof fn lemma_dir_name_of_appended_name(dir: Seq<char>, name: Seq<char>)
    requires
        !name.contains('/'),
    ensures
        spec_dir_name(dir + seq!['/'] + name) == dir,
        spec_file_name(dir + seq!['/'] + name) == name,
{
    let path = dir + seq!['/'] + name;
    path.index_of_last_ensures('/');
    assert(path[dir.len() as int] == '/');
    let sep = path.index_of_last('/')->0;
    if sep > dir.len() {
        assert(path[sep] == name[sep - dir.len() - 1]);
    }
    assert(sep == dir.len());
    assert(path.subrange(0, sep) =~= dir);
    assert(path.subrange(sep + 1, path.len() as int) =~= name);
}

/// A path with a `/` is its directory, a `/`, and its file name, and the
/// file name holds no `/`.  A path without a `/` is all file name.
pub proof fn lemma_dir_and_file_name(path: Seq<char>)
    ensures
        !spec_file_name(path).contains('/'),
        path.contains('/') ==> path == spec_dir_name(path) + seq!['/'] + spec_file_name(path),
        !path.contains('/') ==> spec_file_name(path) == path && spec_dir_name(path)
            == Seq::<char>::empty(),
{
    path.index_of_last_ensures('/');
    match path.index_of_last('/') {
        Some(sep) => {
            let name = path.subrange(sep + 1, path.len() as int);
            assert forall|i: int| 0 <= i < name.len() implies name[i] != '/' by {
                assert(name[i] == path[sep + 1 + i]);
            }
            assert(path =~= path.subrange(0, sep) + seq!['/'] + name);
        },
        None => {},
    }
}

/// A path with a `.` is its base, a `.`, and its extension, and the
/// extension holds no `.`.  A path without a `.` is all base.
pub proof fn lemma_base_and_extension(path: Seq<char>)
    ensures
        spec_split_ext(path).1 matches Some(ext) ==> !ext.contains('.') && path == spec_split_ext(
            path,
        ).0 + seq!['.'] + ext,
        spec_split_ext(path).1 is Some <==> path.contains('.'),
        spec_split_ext(path).1 is None ==> spec_split_ext(path).0 == path,
{
    path.index_of_last_ensures('.');
    match path.index_of_last('.') {
        Some(sep) => {
            let ext = path.subrange(sep + 1, path.len() as int);
            assert forall|i: int| 0 <= i < ext.len() implies ext[i] != '.' by {
                assert(ext[i] == path[sep + 1 + i]);
            }
            assert(path =~= path.subrange(0, sep) + seq!['.'] + ext);
        },
        None => {},
    }
}

/// The last component of `path`: what follows its last `/`.
pub fn file_name(path: &str) -> (name: &str)
    ensures
        name@ == spec_file_name(path@),
        !name@.contains('/'),
        path@.contains('/') ==> path@ == spec_dir_name(path@) + seq!['/'] + name@,
        !path@.contains('/') ==> name@ == path@,
{
    proof {
        lemma_dir_and_file_name(path@);
    }
    match rfind_char(path, '/') {
        Some(sep) => {
            let n = path.unicode_len();
            path.substring_char(sep + 1, n)
        },
        None => path,
    }
}

/// The directory of `path`: what precedes its last `/`, nothing when it has
/// none.
pub fn dir_name(path: &str) -> (dir: &str)
    ensures
        dir@ == spec_dir_name(path@),
        path@.contains('/') ==> path@ == dir@ + seq!['/'] + spec_file_name(path@),
        !path@.contains('/') ==> dir@.len() == 0,
{
    proof {
        lemma_dir_and_file_name(path@);
    }
    match rfind_char(path, '/') {
        Some(sep) => path.substring_char(0, sep),
        None => {
            let dir = "";
            proof {
                reveal_strlit("");
                assert(dir@ =~= Seq::<char>::empty());
            }
            dir
        },
    }
}

/// Cuts `path` at its last `.` into base and extension; a path without a
/// `.` has no extension.
pub fn split_ext(path: &str) -> (parts: (&str, Option<&str>))
    ensures
        parts.0@ == spec_split_ext(path@).0,
        parts.1.deep_view() == spec_split_ext(path@).1,
        parts.1 is Some <==> path@.contains('.'),
        parts.1 matches Some(ext) ==> !ext@.contains('.') && path@ == parts.0@ + seq!['.'] + ext@,
        parts.1 is None ==> parts.0@ == path@,
{
    proof {
        lemma_base_and_extension(path@);
    }
    match rfind_char(path, '.') {
        Some(sep) => {
            let n = path.unicode_len();
            (path.substring_char(0, sep), Some(path.substring_char(sep + 1, n)))
        },
        None => (path, None),
    }
}

/// Puts `b` under the directory `a`: `a` without one trailing `/`, a `/`,
/// and `b`.
pub fn join_path(a: &str, b: &str) -> (joined: String)
    ensures
        joined@ == spec_join_path(a@, b@),
{
    let n = a.unicode_len();
    let head = match rfind_char(a, '/') {
        Some(sep) => if sep + 1 == n {
            a.substring_char(0, sep)
        } else {
            a
        },
        None => a,
    };
    proof {
        reveal_strlit("/");
        assert("/"@ =~= seq!['/']);
        if a@.len() > 0 && a@.last() == '/' {
            assert(head@ =~= a@.drop_last());
        } else {
            assert(head@ == a@);
        }
    }
    let mut joined = String::from_str(head);
    joined.append("/");
    joined.append(b);
    joined
}

/// The non-empty pieces of `path` between its `/`s.
fn components(path: &str) -> (parts: Vec<String>)
    ensures
        parts.deep_view() == spec_components(path@),
{
    let pieces = split(path, '/');
    let mut parts: Vec<String> = Vec::new();
    proof {
        assert(pieces.deep_view().take(0) =~= Seq::<Seq<char>>::empty());
        reveal_with_fuel(Seq::filter, 1);
        assert(parts.deep_view() =~= pieces.deep_view().take(0).filter(nonempty()));
    }
    for i in 0..pieces.len()
        invariant
            parts.deep_view() == pieces.deep_view().take(i as int).filter(nonempty()),
    {
        let piece: &str = pieces[i];
        let ghost before = parts.deep_view();
        proof {
            let seen = pieces.deep_view().take(i as int);
            assert(pieces.deep_view().take(i + 1) =~= seen.push(piece@));
            Seq::lemma_filter_push(seen, piece@, nonempty());
        }
        if !piece.is_empty() {
            parts.push(String::from_str(piece));
            proof {
                assert(parts.deep_view() =~= before.push(piece@));
            }
        }
    }
    proof {
        assert(pieces.deep_view().take(pieces.len() as int) =~= pieces.deep_view());
    }
    parts
}

/// The number of leading components that `a` and `b` share.
fn shared_prefix(a: &Vec<String>, b: &Vec<String>) -> (shared: usize)
    ensures
        shared == common_prefix_len(a.deep_view(), b.deep_view()),
        shared <= a.len(),
        shared <= b.len(),
        forall|i: int| 0 <= i < shared ==> a.deep_view()[i] == b.deep_view()[i],
{
    let mut shared: usize = 0;
    proof {
        assert(a.deep_view().skip(0) =~= a.deep_view());
        assert(b.deep_view().skip(0) =~= b.deep_view());
    }
    while shared < a.len() && shared < b.len() && a[shared] == b[shared]
        invariant
            shared <= a.len(),
            shared <= b.len(),
            common_prefix_len(a.deep_view(), b.deep_view()) == shared + common_prefix_len(
                a.deep_view().skip(shared as int),
                b.deep_view().skip(shared as int),
            ),
        decreases a.len() - shared,
    {
        proof {
            let ra = a.deep_view().skip(shared as int);
            let rb = b.deep_view().skip(shared as int);
            assert(ra[0] == a[shared as int]@);
            assert(rb[0] == b[shared as int]@);
            assert(ra.drop_first() =~= a.deep_view().skip(shared + 1));
            assert(rb.drop_first() =~= b.deep_view().skip(shared + 1));
        }
        shared = shared + 1;
    }
    proof {
        let ra = a.deep_view().skip(shared as int);
        let rb = b.deep_view().skip(shared as int);
        if shared < a.len() && shared < b.len() {
            assert(ra[0] == a[shared as int]@);
            assert(rb[0] == b[shared as int]@);
        }
        lemma_common_prefix_len(a.deep_view(), b.deep_view());
    }
    shared
}

/// The shortest relative path that leads from the directory `b` to the
/// directory `a`: one `..` for each component of `b` below what the two
/// share, then the components of `a` below it, with `/` between them.  Empty
/// when the two are the same directory.
///
/// Followed from `b`, the path leads to `a`, provided that no component of
/// `a` is `.` or `..`.
pub fn compute_prefix_raw(a: &str, b: &str) -> (prefix: String)
    ensures
        prefix@ == spec_compute_prefix_raw(a@, b@),
        spec_components(prefix@) == relative_components(spec_components(a@), spec_components(b@)),
        all_names(spec_components(a@)) ==> resolve(spec_components(b@), spec_components(prefix@))
            == spec_components(a@),
{
    proof {
        lemma_components_of_relative_path(a@, b@);
        if all_names(spec_components(a@)) {
            lemma_relative_components_lead_back(spec_components(a@), spec_components(b@));
        }
    }
    let a_components = components(a);
    let b_components = components(b);
    let prefix_count = shared_prefix(&a_components, &b_components);
    let remaining_b = b_components.len() - prefix_count;
    let ghost wanted = relative_components(a_components.deep_view(), b_components.deep_view());
    let mut steps: Vec<String> = Vec::new();
    for i in 0..remaining_b
        invariant
            steps.deep_view() == Seq::new(i as nat, |j: int| parent_component()),
    {
        let ghost before = steps.deep_view();
        let up = "..";
        proof {
            reveal_strlit("..");
            assert(up@ =~= parent_component());
        }
        steps.push(String::from_str(up));
        proof {
            assert(steps.deep_view() =~= before.push(parent_component()));
        }
    }
    for i in prefix_count..a_components.len()
        invariant
            prefix_count <= a_components.len(),
            steps.deep_view() == Seq::new(remaining_b as nat, |j: int| parent_component())
                + a_components.deep_view().subrange(prefix_count as int, i as int),
    {
        let ghost before = steps.deep_view();
        steps.push(a_components[i].clone());
        proof {
            assert(steps.deep_view() =~= before.push(a_components[i as int]@));
        }
    }
    proof {
        assert(a_components.deep_view().subrange(
            prefix_count as int,
            a_components.len() as int,
        ) =~= a_components.deep_view().skip(prefix_count as int));
        assert(steps.deep_view() == wanted);
        reveal_strlit("/");
        assert("/"@ =~= seq!['/']);
    }
    join(&steps, "/")
}

/// The relative path from the directory `b` to the directory `a`, ready to
/// have a file name put behind it: it ends in `/`, and is `./` when the two
/// are the same directory.
pub fn compute_prefix(a: &str, b: &str) -> (prefix: String)
    ensures
        prefix@ == spec_compute_prefix(a@, b@),
        prefix@.len() > 0 && prefix@.last() == '/',
        spec_compute_prefix_raw(a@, b@).len() > 0 ==> spec_components(prefix@)
            == relative_components(spec_components(a@), spec_components(b@)),
{
    let mut ret = compute_prefix_raw(a, b);
    if ret.as_str().is_empty() {
        let here = "./";
        proof {
            reveal_strlit("./");
            assert(here@ =~= seq!['.', '/']);
        }
        String::from_str(here)
    } else {
        proof {
            reveal_strlit("/");
            assert("/"@ =~= seq!['/']);
            let raw = ret@;
            let closed = raw + seq!['/'];
            assert(closed.drop_last() =~= raw);
            Seq::lemma_filter_push(spec_split(raw, '/'), Seq::<char>::empty(), nonempty());
        }
        ret.append("/");
        ret
    }
}

} // verus!
