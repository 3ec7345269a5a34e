//! Character-level building blocks shared by the path and renaming code.
//!
//! Every string is modelled by its sequence of characters (`s@`), and every
//! function here is specified over such sequences.

use itertools::Itertools;
use vstd::prelude::*;

verus! {

/// Index of the last occurrence of `needle` in `s`, if there is one.
pub fn rfind_char(s: &str, needle: char) -> (r: Option<usize>)
    ensures
        r is Some <==> s@.contains(needle),
        r matches Some(i) ==> {
            &&& i < s@.len()
            &&& s@[i as int] == needle
            &&& forall|j: int| i < j < s@.len() ==> s@[j] != needle
        },
        (match r {
            Some(i) => Some(i as int),
            None => None,
        }) == s@.index_of_last(needle),
{
    let n: usize = s.unicode_len();
    let mut found: Option<usize> = None;
    let mut pos: usize = 0;
    for c in it: s.chars()
        invariant
            pos == it.index(),
            it.seq() == s@,
            n == s@.len(),
            found is None ==> forall|j: int| 0 <= j < pos ==> s@[j] != needle,
            found matches Some(i) ==> {
                &&& i < pos
                &&& s@[i as int] == needle
                &&& forall|j: int| i < j < pos ==> s@[j] != needle
            },
    {
        if c == needle {
            found = Some(pos);
        }
        pos = pos + 1;
    }
    proof {
        s@.index_of_last_ensures(needle);
    }
    found
}

/// The pieces of `s` between occurrences of `sep`, in order.  There is always
/// at least one piece; `n` separators give `n + 1` pieces, empty ones included.
pub open spec fn spec_split(s: Seq<char>, sep: char) -> Seq<Seq<char>>
    decreases s.len(),
{
    if s.len() == 0 {
        seq![Seq::empty()]
    } else {
        let before = spec_split(s.drop_last(), sep);
        if s.last() == sep {
            before.push(Seq::empty())
        } else {
            before.drop_last().push(before.last().push(s.last()))
        }
    }
}

/// `parts` glued together with `sep` between neighbours.
pub open spec fn spec_join(parts: Seq<Seq<char>>, sep: Seq<char>) -> Seq<char>
    decreases parts.len(),
{
    if parts.len() == 0 {
        Seq::empty()
    } else if parts.len() == 1 {
        parts[0]
    } else {
        spec_join(parts.drop_last(), sep) + sep + parts.last()
    }
}

/// Glues `parts` together with `sep` between neighbours.
///
/// Trusted: the body is one call of `Itertools::join` on the parts in order.
/// That method writes the first item, then `sep` and the next item for each
/// item that follows, and returns the empty string for no items; an item that
/// is a string is written as it stands.
#[verifier::external_body]
pub(crate) fn join(parts: &Vec<String>, sep: &str) -> (joined: String)
    ensures
        joined@ == spec_join(parts.deep_view(), sep@),
{
    parts.iter().join(sep)
}

/// A split always yields at least one piece.
pub proof fn lemma_split_nonempty(s: Seq<char>, sep: char)
    ensures
        spec_split(s, sep).len() >= 1,
    decreases s.len(),
{
    if s.len() > 0 {
        lemma_split_nonempty(s.drop_last(), sep);
    }
}

/// No piece of a split holds the separator.
pub proof fn lemma_split_pieces_lack_separator(s: Seq<char>, sep: char)
    ensures
        forall|i: int|
            0 <= i < spec_split(s, sep).len() ==> !(#[trigger] spec_split(s, sep)[i]).contains(sep),
    decreases s.len(),
{
    if s.len() > 0 {
        lemma_split_nonempty(s.drop_last(), sep);
        lemma_split_pieces_lack_separator(s.drop_last(), sep);
    }
}

/// Joining the pieces of a split with the separator gives the string back.
pub proof fn lemma_join_of_split(s: Seq<char>, sep: char)
    ensures
        spec_join(spec_split(s, sep), seq![sep]) == s,
    decreases s.len(),
{
    if s.len() == 0 {
    } else {
        let before = spec_split(s.drop_last(), sep);
        lemma_split_nonempty(s.drop_last(), sep);
        lemma_join_of_split(s.drop_last(), sep);
        if s.last() == sep {
            let all = before.push(Seq::<char>::empty());
            assert(all.drop_last() == before);
            assert(spec_join(all, seq![sep]) == spec_join(before, seq![sep]) + seq![sep]
                + Seq::<char>::empty());
            assert(s.drop_last() + seq![sep] + Seq::<char>::empty() == s);
        } else {
            let grown = before.last().push(s.last());
            let all = before.drop_last().push(grown);
            assert(all.drop_last() == before.drop_last());
            if before.len() == 1 {
                assert(spec_join(before, seq![sep]) == before[0]);
                assert(spec_join(all, seq![sep]) == grown);
                assert(s.drop_last().push(s.last()) == s);
            } else {
                assert(spec_join(all, seq![sep]) == spec_join(before.drop_last(), seq![sep])
                    + seq![sep] + grown);
                assert(spec_join(before, seq![sep]) == spec_join(before.drop_last(), seq![sep])
                    + seq![sep] + before.last());
                assert(spec_join(before.drop_last(), seq![sep]) + seq![sep] + grown == (
                spec_join(before.drop_last(), seq![sep]) + seq![sep] + before.last()).push(
                    s.last(),
                ));
                assert(s.drop_last().push(s.last()) == s);
            }
        }
    }
}

/// A string without the separator is its own single piece.
pub proof fn lemma_split_without_separator(s: Seq<char>, sep: char)
    requires
        !s.contains(sep),
    ensures
        spec_split(s, sep) == seq![s],
    decreases s.len(),
{
    if s.len() == 0 {
        assert(s =~= Seq::<char>::empty());
    } else {
        let init = s.drop_last();
        assert forall|i: int| 0 <= i < init.len() implies init[i] != sep by {
            assert(init[i] == s[i]);
        }
        lemma_split_without_separator(init, sep);
        assert(s.last() == s[s.len() - 1]);
        assert(seq![init].drop_last().push(seq![init].last().push(s.last())) =~= seq![
            init.push(s.last()),
        ]);
        assert(init.push(s.last()) =~= s);
    }
}

/// A separator and a piece without separator behind a string add that piece
/// to the pieces of the string.
pub proof fn lemma_split_of_appended_piece(s: Seq<char>, piece: Seq<char>, sep: char)
    requires
        !piece.contains(sep),
    ensures
        spec_split(s + seq![sep] + piece, sep) == spec_split(s, sep).push(piece),
    decreases piece.len(),
{
    let whole = s + seq![sep] + piece;
    if piece.len() == 0 {
        assert(whole.drop_last() =~= s);
        assert(whole.last() == sep);
        assert(piece =~= Seq::<char>::empty());
    } else {
        let init = piece.drop_last();
        assert forall|i: int| 0 <= i < init.len() implies init[i] != sep by {
            assert(init[i] == piece[i]);
        }
        lemma_split_of_appended_piece(s, init, sep);
        assert(whole.drop_last() =~= s + seq![sep] + init);
        assert(whole.last() == piece[piece.len() - 1]);
        let before = spec_split(s, sep).push(init);
        assert(before.drop_last() =~= spec_split(s, sep));
        assert(init.push(piece.last()) =~= piece);
    }
}

/// Splits `s` at every occurrence of `sep`: the pieces hold no `sep`, and
/// with `sep` put back between them they make up `s`.
pub fn split<'a>(s: &'a str, sep: char) -> (parts: Vec<&'a str>)
    ensures
        parts.deep_view() == spec_split(s@, sep),
        parts.len() >= 1,
        forall|i: int| 0 <= i < parts.len() ==> !(#[trigger] parts.deep_view()[i]).contains(sep),
        spec_join(parts.deep_view(), seq![sep]) == s@,
{
    let n: usize = s.unicode_len();
    let mut parts: Vec<&'a str> = Vec::new();
    let mut start: usize = 0;
    let mut pos: usize = 0;
    proof {
        assert(s@.take(0).len() == 0);
        assert(parts.deep_view() =~= Seq::<Seq<char>>::empty());
        assert(s@.subrange(0, 0) =~= Seq::<char>::empty());
        assert(parts.deep_view().push(s@.subrange(0, 0)) =~= seq![Seq::<char>::empty()]);
    }
    for c in it: s.chars()
        invariant
            pos == it.index(),
            it.seq() == s@,
            n == s@.len(),
            start <= pos,
            spec_split(s@.take(pos as int), sep) == parts.deep_view().push(
                s@.subrange(start as int, pos as int),
            ),
    {
        proof {
            let prefix = s@.take(pos as int);
            let next = s@.take(pos + 1);
            assert(next.drop_last() == prefix);
            assert(next.last() == c);
            if c != sep {
                assert(s@.subrange(start as int, pos as int).push(c) == s@.subrange(
                    start as int,
                    pos + 1,
                ));
                assert(parts.deep_view().push(s@.subrange(start as int, pos as int)).drop_last()
                    == parts.deep_view());
            }
        }
        if c == sep {
            let ghost before = parts.deep_view();
            let piece = s.substring_char(start, pos);
            parts.push(piece);
            start = pos + 1;
            proof {
                assert(parts.deep_view() == before.push(piece@));
                assert(s@.subrange(start as int, pos + 1) == Seq::<char>::empty());
            }
        }
        pos = pos + 1;
    }
    let ghost before = parts.deep_view();
    let piece = s.substring_char(start, n);
    parts.push(piece);
    proof {
        assert(s@.take(n as int) == s@);
        assert(parts.deep_view() == before.push(piece@));
        assert(parts.deep_view().len() == parts.len());
        lemma_split_pieces_lack_separator(s@, sep);
        lemma_join_of_split(s@, sep);
    }
    parts
}

/// The characters of `s`, for access by index.
pub fn to_chars(s: &str) -> (chars: Vec<char>)
    ensures
        chars@ == s@,
{
    let mut chars: Vec<char> = Vec::new();
    for c in it: s.chars()
        invariant
            it.seq() == s@,
            chars@ == s@.take(it.index()),
    {
        proof {
            assert(s@.take(it.index() + 1) =~= s@.take(it.index()).push(c));
        }
        chars.push(c);
    }
    proof {
        assert(s@.take(s@.len() as int) =~= s@);
    }
    chars
}

/// `pat` stands in `s` at index `at`.
pub open spec fn occurs_at(s: Seq<char>, pat: Seq<char>, at: int) -> bool {
    &&& 0 <= at
    &&& at + pat.len() <= s.len()
    &&& s.subrange(at, at + pat.len()) == pat
}

/// `pat` stands somewhere in `s`.
pub open spec fn spec_contains(s: Seq<char>, pat: Seq<char>) -> bool {
    exists|at: int| occurs_at(s, pat, at)
}

/// `s` with every occurrence of the non-empty `pat` replaced by `to`.
/// Occurrences are found from left to right and do not overlap: the search
/// goes on behind each occurrence it has replaced.
pub open spec fn spec_replace(s: Seq<char>, pat: Seq<char>, to: Seq<char>) -> Seq<char>
    decreases s.len(),
{
    if pat.len() == 0 || s.len() < pat.len() {
        s
    } else if occurs_at(s, pat, 0) {
        to + spec_replace(s.skip(pat.len() as int), pat, to)
    } else {
        s.take(1) + spec_replace(s.skip(1), pat, to)
    }
}

/// Replacing in a string that does not hold `pat` changes nothing.
pub proof fn lemma_replace_absent(s: Seq<char>, pat: Seq<char>, to: Seq<char>)
    requires
        !spec_contains(s, pat),
    ensures
        spec_replace(s, pat, to) == s,
    decreases s.len(),
{
    if pat.len() == 0 || s.len() < pat.len() {
    } else {
        assert(!occurs_at(s, pat, 0));
        let rest = s.skip(1);
        assert forall|at: int| !occurs_at(rest, pat, at) by {
            if occurs_at(rest, pat, at) {
                assert(rest.subrange(at, at + pat.len()) =~= s.subrange(
                    at + 1,
                    at + 1 + pat.len(),
                ));
                assert(occurs_at(s, pat, at + 1));
            }
        }
        lemma_replace_absent(rest, pat, to);
        assert(s.take(1) + rest =~= s);
    }
}

/// Whether `pat` stands in `hay` at index `at`.
fn matches_at(hay: &Vec<char>, pat: &Vec<char>, at: usize) -> (found: bool)
    requires
        at + pat.len() <= hay.len(),
    ensures
        found == occurs_at(hay@, pat@, at as int),
{
    let mut k: usize = 0;
    while k < pat.len()
        invariant
            k <= pat.len(),
            at + pat.len() <= hay.len(),
            forall|j: int| 0 <= j < k ==> hay@[at + j] == pat@[j],
        decreases pat.len() - k,
    {
        if hay[at + k] != pat[k] {
            proof {
                assert(hay@.subrange(at as int, at + pat.len())[k as int] == hay@[at + k]);
            }
            return false;
        }
        k = k + 1;
    }
    proof {
        assert(hay@.subrange(at as int, at + pat.len()) =~= pat@);
    }
    true
}

/// Replaces every occurrence of `pat` in `s` by `to`, and says whether there
/// was one.
pub(crate) fn replace(s: &str, pat: &str, to: &str) -> (r: (String, bool))
    requires
        pat@.len() > 0,
    ensures
        r.0@ == spec_replace(s@, pat@, to@),
        r.1 == spec_contains(s@, pat@),
        !r.1 ==> r.0@ == s@,
{
    let hay = to_chars(s);
    let needle = to_chars(pat);
    let n: usize = hay.len();
    let m: usize = needle.len();
    let mut out = String::new();
    let mut copied: usize = 0;
    let mut pos: usize = 0;
    let mut found = false;
    proof {
        assert(s@.skip(0) =~= s@);
        assert(out@ + s@.subrange(0, 0) =~= Seq::<char>::empty());
        assert(Seq::<char>::empty() + spec_replace(s@, pat@, to@) =~= spec_replace(
            s@,
            pat@,
            to@,
        ));
    }
    while pos <= n && m <= n - pos
        invariant
            hay@ == s@,
            needle@ == pat@,
            n == s@.len(),
            m == pat@.len(),
            m > 0,
            copied <= pos,
            pos <= n,
            spec_replace(s@, pat@, to@) == out@ + s@.subrange(copied as int, pos as int)
                + spec_replace(s@.skip(pos as int), pat@, to@),
            found ==> spec_contains(s@, pat@),
            !found ==> forall|at: int| 0 <= at < pos ==> !occurs_at(s@, pat@, at),
        decreases n - pos,
    {
        let ghost rest = s@.skip(pos as int);
        let here = matches_at(&hay, &needle, pos);
        proof {
            assert(rest.subrange(0, m as int) =~= s@.subrange(pos as int, pos + m));
            assert(occurs_at(rest, pat@, 0) == occurs_at(s@, pat@, pos as int));
        }
        if here {
            let ghost before = out@;
            out.append(s.substring_char(copied, pos));
            out.append(to);
            proof {
                assert(rest.skip(m as int) =~= s@.skip(pos + m));
                assert(s@.subrange(pos + m, pos + m) =~= Seq::<char>::empty());
                assert(out@ + s@.subrange(pos + m, pos + m) + spec_replace(
                    s@.skip(pos + m),
                    pat@,
                    to@,
                ) =~= before + s@.subrange(copied as int, pos as int) + (to@ + spec_replace(
                    rest.skip(m as int),
                    pat@,
                    to@,
                )));
            }
            pos = pos + m;
            copied = pos;
            found = true;
        } else {
            proof {
                assert(rest.skip(1) =~= s@.skip(pos + 1));
                assert(s@.subrange(copied as int, pos + 1) =~= s@.subrange(
                    copied as int,
                    pos as int,
                ) + rest.take(1));
                assert(out@ + s@.subrange(copied as int, pos + 1) + spec_replace(
                    s@.skip(pos + 1),
                    pat@,
                    to@,
                ) =~= out@ + s@.subrange(copied as int, pos as int) + (rest.take(1)
                    + spec_replace(rest.skip(1), pat@, to@)));
            }
            pos = pos + 1;
        }
    }
    proof {
        let rest = s@.skip(pos as int);
        assert(spec_replace(rest, pat@, to@) == rest);
        assert(s@.subrange(copied as int, pos as int) + rest =~= s@.subrange(
            copied as int,
            n as int,
        ));
        assert(out@ + s@.subrange(copied as int, pos as int) + rest =~= out@ + s@.subrange(
            copied as int,
            n as int,
        ));
    }
    out.append(s.substring_char(copied, n));
    proof {
        if !found {
            lemma_replace_absent(s@, pat@, to@);
        }
    }
    (out, found)
}

/// The character for the decimal digit `d`.
pub open spec fn digit_char(d: nat) -> char {
    if d == 0 {
        '0'
    } else if d == 1 {
        '1'
    } else if d == 2 {
        '2'
    } else if d == 3 {
        '3'
    } else if d == 4 {
        '4'
    } else if d == 5 {
        '5'
    } else if d == 6 {
        '6'
    } else if d == 7 {
        '7'
    } else if d == 8 {
        '8'
    } else {
        '9'
    }
}

/// The decimal numeral of `n`, without leading zeros.
pub open spec fn spec_decimal(n: nat) -> Seq<char>
    decreases n,
{
    if n < 10 {
        seq![digit_char(n)]
    } else {
        spec_decimal(n / 10).push(digit_char(n % 10))
    }
}

/// The one-character string for the decimal digit `d`.
fn digit_str(d: usize) -> (s: &'static str)
    requires
        d < 10,
    ensures
        s@ == seq![digit_char(d as nat)],
{
    proof {
        reveal_strlit("0");
        reveal_strlit("1");
        reveal_strlit("2");
        reveal_strlit("3");
        reveal_strlit("4");
        reveal_strlit("5");
        reveal_strlit("6");
        reveal_strlit("7");
        reveal_strlit("8");
        reveal_strlit("9");
    }
    let s = if d == 0 {
        "0"
    } else if d == 1 {
        "1"
    } else if d == 2 {
        "2"
    } else if d == 3 {
        "3"
    } else if d == 4 {
        "4"
    } else if d == 5 {
        "5"
    } else if d == 6 {
        "6"
    } else if d == 7 {
        "7"
    } else if d == 8 {
        "8"
    } else {
        "9"
    };
    assert(s@ =~= seq![digit_char(d as nat)]);
    s
}

/// Writes `n` as a decimal numeral.
pub fn decimal(n: usize) -> (s: String)
    ensures
        s@ == spec_decimal(n as nat),
    decreases n,
{
    if n < 10 {
        String::from_str(digit_str(n))
    } else {
        let mut s = decimal(n / 10);
        let last = digit_str(n % 10);
        s.append(last);
        proof {
            assert(s@ =~= spec_decimal((n / 10) as nat).push(digit_char((n % 10) as nat)));
        }
        s
    }
}

} // verus!
