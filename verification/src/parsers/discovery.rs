//! Which files a format looks at, and in which order: by file name, then
//! sorted by depth and by path so that the result does not depend on the
//! order in which a directory walk happened to list them.

use crate::parsers::grammar::{has_at, starts_with_at};
use crate::text::{chars_of, string_of};
use vstd::prelude::*;
use vstd::relations::{sorted_by, total_ordering};
use vstd::seq_lib::{lemma_sorted_unique, to_multiset_build, to_multiset_insert};

verus! {

/// Whether `c` separates the components of a path. Both the slash and the
/// backslash do, whatever the platform.
pub open spec fn is_separator(c: char) -> bool {
    c == '/' || c == '\\'
}

/// The lower-case form of an ASCII letter; any other character is itself.
pub open spec fn ascii_lower(c: char) -> char {
    if 'A' <= c <= 'Z' {
        ((c as u32) + 32) as char
    } else {
        c
    }
}

/// Whether `a` and `b` are equal up to the case of their ASCII letters.
pub open spec fn same_ignoring_case(a: Seq<char>, b: Seq<char>) -> bool {
    &&& a.len() == b.len()
    &&& forall|i: int| 0 <= i < a.len() ==> ascii_lower(#[trigger] a[i]) == ascii_lower(b[i])
}

/// Whether the last component of `path` is `name`, up to the case of ASCII
/// letters, and a separator stands before it. A bare `name` with no directory
/// part does not count.
pub open spec fn names_file(path: Seq<char>, name: Seq<char>) -> bool {
    &&& path.len() > name.len()
    &&& is_separator(path[path.len() - name.len() - 1])
    &&& same_ignoring_case(path.skip(path.len() - name.len()), name)
}

/// Whether a component of `path` begins at position `i`.
pub open spec fn component_starts_at(path: Seq<char>, i: int) -> bool {
    &&& 0 <= i < path.len()
    &&& !is_separator(path[i])
    &&& (i == 0 || is_separator(path[i - 1]))
}

/// Whether a component ends just before position `j`.
pub open spec fn component_ends_at(path: Seq<char>, j: int) -> bool {
    j >= path.len() || is_separator(path[j])
}

/// Whether a hidden component begins at position `i`: one whose name starts
/// with a dot, other than `.` and `..`.
pub open spec fn hidden_component_at(path: Seq<char>, i: int) -> bool {
    &&& component_starts_at(path, i)
    &&& path[i] == '.'
    &&& !component_ends_at(path, i + 1)
    &&& !(path[i + 1] == '.' && component_ends_at(path, i + 2))
}

/// Whether `path` has a hidden component that begins at or after `from`.
pub open spec fn has_hidden_component(path: Seq<char>, from: int) -> bool {
    exists|i: int| from <= i < path.len() && hidden_component_at(path, i)
}

/// Whether `path` lies in a hidden directory below `root`: whether one of its
/// components after the leading `root` is hidden. Where `path` does not begin
/// with `root`, all its components count.
pub open spec fn hidden_below(root: Seq<char>, path: Seq<char>) -> bool {
    if has_at(path, 0, root) {
        has_hidden_component(path, root.len() as int)
    } else {
        has_hidden_component(path, 0)
    }
}

/// The number of components that begin before position `upto`.
pub open spec fn components_before(path: Seq<char>, upto: int) -> nat
    decreases upto,
{
    if upto <= 0 {
        0
    } else {
        components_before(path, upto - 1) + if component_starts_at(path, upto - 1) {
            1nat
        } else {
            0nat
        }
    }
}

/// The depth of a path: the number of its components, that is of its maximal
/// runs of characters other than separators.
pub open spec fn depth(path: Seq<char>) -> nat {
    components_before(path, path.len() as int)
}

/// Whether `a` comes before `b`, or is `b`, when only the characters from
/// position `i` on are compared, one by one, by their code points; where one
/// of the two ends first, the shorter comes first.
pub open spec fn lex_le_from(a: Seq<char>, b: Seq<char>, i: int) -> bool
    decreases a.len() - i,
{
    if i < 0 || i >= a.len() {
        true
    } else if i >= b.len() {
        false
    } else if a[i] != b[i] {
        a[i] < b[i]
    } else {
        lex_le_from(a, b, i + 1)
    }
}

/// Lexicographic order on paths as character strings.
pub open spec fn lex_le(a: Seq<char>, b: Seq<char>) -> bool {
    lex_le_from(a, b, 0)
}

/// Discovery order: a path with fewer components comes first; paths of the
/// same depth are ordered lexicographically.
pub open spec fn precedes(a: Seq<char>, b: Seq<char>) -> bool {
    depth(a) < depth(b) || (depth(a) == depth(b) && lex_le(a, b))
}

/// Whether `paths` is in discovery order.
pub open spec fn in_discovery_order(paths: Seq<Seq<char>>) -> bool {
    forall|i: int, j: int|
        0 <= i < j < paths.len() ==> precedes(#[trigger] paths[i], #[trigger] paths[j])
}

/// Of two paths, one comes before the other or is the other.
pub proof fn lemma_lex_total(a: Seq<char>, b: Seq<char>, i: int)
    requires
        0 <= i,
    ensures
        lex_le_from(a, b, i) || lex_le_from(b, a, i),
    decreases a.len() - i,
{
    if i < a.len() && i < b.len() && a[i] == b[i] {
        lemma_lex_total(a, b, i + 1);
    }
}

/// What comes before a path that comes before a third comes before the third.
pub proof fn lemma_lex_transitive(a: Seq<char>, b: Seq<char>, c: Seq<char>, i: int)
    requires
        0 <= i,
        lex_le_from(a, b, i),
        lex_le_from(b, c, i),
    ensures
        lex_le_from(a, c, i),
    decreases a.len() - i,
{
    if i < a.len() && a[i] == b[i] && b[i] == c[i] {
        lemma_lex_transitive(a, b, c, i + 1);
    }
}

/// Two paths that agree before position `i` and of which each comes before
/// the other from `i` on are the same path.
pub proof fn lemma_lex_antisymmetric(a: Seq<char>, b: Seq<char>, i: int)
    requires
        0 <= i,
        i <= a.len(),
        i <= b.len(),
        a.take(i) == b.take(i),
        lex_le_from(a, b, i),
        lex_le_from(b, a, i),
    ensures
        a == b,
    decreases a.len() - i,
{
    if i < a.len() {
        assert(a.take(i + 1) =~= a.take(i).push(a[i]));
        assert(b.take(i + 1) =~= b.take(i).push(b[i]));
        lemma_lex_antisymmetric(a, b, i + 1);
    } else {
        assert(a.take(i) =~= a);
        assert(b.take(i) =~= b);
    }
}

/// Discovery order is a total order on paths: of two paths one precedes the
/// other; if each precedes the other they are the same path; and the order is
/// transitive.
pub proof fn lemma_precedes_is_total_order(a: Seq<char>, b: Seq<char>, c: Seq<char>)
    ensures
        precedes(a, a),
        precedes(a, b) || precedes(b, a),
        precedes(a, b) && precedes(b, a) ==> a == b,
        precedes(a, b) && precedes(b, c) ==> precedes(a, c),
{
    lemma_lex_total(a, a, 0);
    lemma_lex_total(a, b, 0);
    if precedes(a, b) && precedes(b, a) {
        assert(a.take(0) =~= b.take(0));
        lemma_lex_antisymmetric(a, b, 0);
    }
    if precedes(a, b) && precedes(b, c) && depth(a) == depth(b) && depth(b) == depth(c) {
        lemma_lex_transitive(a, b, c, 0);
    }
}

/// The order of the result does not depend on the order of the walk: two
/// lists in discovery order that hold the same paths, each as often as the
/// other, are the same list.
pub proof fn lemma_discovery_order_is_unique(a: Seq<Seq<char>>, b: Seq<Seq<char>>)
    requires
        in_discovery_order(a),
        in_discovery_order(b),
        a.to_multiset() == b.to_multiset(),
    ensures
        a == b,
{
    let leq = |x: Seq<char>, y: Seq<char>| precedes(x, y);
    assert(total_ordering(leq)) by {
        assert forall|x: Seq<char>| #[trigger] leq(x, x) by {
            lemma_precedes_is_total_order(x, x, x);
        }
        assert forall|x: Seq<char>, y: Seq<char>| #[trigger] leq(x, y) && #[trigger] leq(y, x)
            implies x == y by {
            lemma_precedes_is_total_order(x, y, y);
        }
        assert forall|x: Seq<char>, y: Seq<char>, z: Seq<char>| #[trigger]
            leq(x, y) && #[trigger] leq(y, z) implies leq(x, z) by {
            lemma_precedes_is_total_order(x, y, z);
        }
        assert forall|x: Seq<char>, y: Seq<char>| #[trigger] leq(x, y) || #[trigger] leq(y, x) by {
            lemma_precedes_is_total_order(x, y, y);
        }
    }
    assert(sorted_by(a, leq));
    assert(sorted_by(b, leq));
    lemma_sorted_unique(a, b, leq);
}

/// Tells separators from other characters.
pub fn is_separator_char(c: char) -> (b: bool)
    ensures
        b == is_separator(c),
{
    c == '/' || c == '\\'
}

/// Lowers an ASCII capital letter.
pub fn to_ascii_lower(c: char) -> (l: char)
    ensures
        l == ascii_lower(c),
{
    if 'A' <= c && c <= 'Z' {
        let code: u32 = c as u32 + 32;
        (code as u8) as char
    } else {
        c
    }
}

/// Tests whether the last component of `path` is `name`.
pub fn ends_with_file_name(path: &Vec<char>, name: &Vec<char>) -> (b: bool)
    ensures
        b == names_file(path@, name@),
{
    if path.len() <= name.len() {
        return false;
    }
    let base: usize = path.len() - name.len();
    if !is_separator_char(path[base - 1]) {
        return false;
    }
    let ghost tail = path@.skip(base as int);
    let mut i: usize = 0;
    while i < name.len()
        invariant
            i <= name.len(),
            base + name.len() == path.len(),
            tail == path@.skip(base as int),
            forall|k: int| 0 <= k < i ==> ascii_lower(#[trigger] tail[k]) == ascii_lower(name@[k]),
        decreases name.len() - i,
    {
        if to_ascii_lower(path[base + i]) != to_ascii_lower(name[i]) {
            proof {
                assert(ascii_lower(tail[i as int]) != ascii_lower(name@[i as int]));
            }
            return false;
        }
        i += 1;
    }
    true
}

/// Counts the components of `path`.
pub fn path_depth(path: &Vec<char>) -> (d: usize)
    ensures
        d == depth(path@),
{
    let mut d: usize = 0;
    let mut i: usize = 0;
    while i < path.len()
        invariant
            i <= path.len(),
            d == components_before(path@, i as int),
            d <= i,
        decreases path.len() - i,
    {
        if !is_separator_char(path[i]) && (i == 0 || is_separator_char(path[i - 1])) {
            d += 1;
        }
        i += 1;
    }
    d
}

/// Compares two paths as character strings.
pub fn lex_le_exec(a: &Vec<char>, b: &Vec<char>) -> (le: bool)
    ensures
        le == lex_le(a@, b@),
{
    let mut i: usize = 0;
    while i < a.len() && i < b.len() && a[i] == b[i]
        invariant
            i <= a.len(),
            i <= b.len(),
            lex_le_from(a@, b@, i as int) == lex_le(a@, b@),
        decreases a.len() - i,
    {
        i += 1;
    }
    if i >= a.len() {
        true
    } else if i >= b.len() {
        false
    } else {
        a[i] < b[i]
    }
}

/// Decides discovery order between two paths.
pub fn precedes_exec(a: &Vec<char>, b: &Vec<char>) -> (first: bool)
    ensures
        first == precedes(a@, b@),
{
    let da = path_depth(a);
    let db = path_depth(b);
    da < db || (da == db && lex_le_exec(a, b))
}

/// The paths that a vector of character vectors holds.
pub open spec fn path_texts(paths: Seq<Vec<char>>) -> Seq<Seq<char>> {
    paths.map_values(|p: Vec<char>| p@)
}

/// Puts `paths` in discovery order.
pub fn sort_paths(paths: Vec<Vec<char>>) -> (out: Vec<Vec<char>>)
    ensures
        in_discovery_order(path_texts(out@)),
        path_texts(out@).to_multiset() == path_texts(paths@).to_multiset(),
{
    broadcast use {vstd::multiset::group_multiset_axioms, vstd::seq_lib::group_to_multiset_ensures};

    let ghost all = path_texts(paths@);
    let mut rest = paths;
    let mut out: Vec<Vec<char>> = Vec::new();
    proof {
        assert(path_texts(out@) =~= Seq::<Seq<char>>::empty());
        assert(path_texts(out@).to_multiset().len() == 0);
        assert(path_texts(out@).to_multiset().add(all.to_multiset()) =~= all.to_multiset());
    }
    while rest.len() > 0
        invariant
            in_discovery_order(path_texts(out@)),
            path_texts(out@).to_multiset().add(path_texts(rest@).to_multiset())
                == all.to_multiset(),
        decreases rest.len(),
    {
        let ghost rest_before = path_texts(rest@);
        let ghost out_before = path_texts(out@);
        let p = rest.pop().unwrap();
        let mut pos: usize = 0;
        while pos < out.len() && precedes_exec(&out[pos], &p)
            invariant
                pos <= out.len(),
                out_before == path_texts(out@),
                forall|k: int| 0 <= k < pos ==> precedes(#[trigger] out_before[k], p@),
            decreases out.len() - pos,
        {
            pos += 1;
        }
        out.insert(pos, p);
        proof {
            let out_after = path_texts(out@);
            assert(out_after =~= out_before.insert(pos as int, p@));
            assert(rest_before =~= path_texts(rest@).push(p@));
            to_multiset_insert(out_before, pos as int, p@);
            to_multiset_build(path_texts(rest@), p@);
            assert(out_after.to_multiset().add(path_texts(rest@).to_multiset())
                =~= out_before.to_multiset().add(rest_before.to_multiset()));
            assert forall|i: int, j: int| 0 <= i < j < out_after.len() implies precedes(
                #[trigger] out_after[i],
                #[trigger] out_after[j],
            ) by {
                if j < pos {
                    assert(precedes(out_before[i], out_before[j]));
                } else if j == pos {
                    assert(precedes(out_before[i], p@));
                } else if i == pos {
                    lemma_precedes_is_total_order(p@, out_before[pos as int], out_before[j - 1]);
                    if j - 1 > pos {
                        assert(precedes(out_before[pos as int], out_before[j - 1]));
                    }
                } else if i < pos {
                    assert(precedes(out_before[i], out_before[j - 1]));
                } else {
                    assert(precedes(out_before[i - 1], out_before[j - 1]));
                }
            }
        }
    }
    proof {
        assert(path_texts(rest@) =~= Seq::<Seq<char>>::empty());
        assert(path_texts(rest@).to_multiset().len() == 0);
        assert(path_texts(out@).to_multiset().add(path_texts(rest@).to_multiset())
            =~= path_texts(out@).to_multiset());
    }
    out
}

/// Tests whether `path` lies in a hidden directory below `root`.
pub fn is_hidden_below(root: &Vec<char>, path: &Vec<char>) -> (hidden: bool)
    ensures
        hidden == hidden_below(root@, path@),
{
    let from: usize = if starts_with_at(path, 0, root) {
        root.len()
    } else {
        0
    };
    let mut i: usize = from;
    while i < path.len()
        invariant
            from <= i,
            from == if has_at(path@, 0, root@) {
                root.len()
            } else {
                0
            },
            forall|k: int| from <= k < i && k < path.len() ==> !hidden_component_at(path@, k),
        decreases path.len() - i,
    {
        let starts = !is_separator_char(path[i]) && (i == 0 || is_separator_char(path[i - 1]));
        if starts && path[i] == '.' {
            let ends_after_one = i + 1 >= path.len() || is_separator_char(path[i + 1]);
            if !ends_after_one {
                let ends_after_two = i + 2 >= path.len() || is_separator_char(path[i + 2]);
                if !(path[i + 1] == '.' && ends_after_two) {
                    proof {
                        assert(hidden_component_at(path@, i as int));
                    }
                    return true;
                }
            }
        }
        i += 1;
    }
    false
}

/// The texts of a sequence of strings.
pub open spec fn texts(strings: Seq<String>) -> Seq<Seq<char>> {
    strings.map_values(|s: String| s@)
}

/// Whether a walk from `root` that came upon `path` takes it for a file
/// named `file_name`: it has that name and does not lie in a hidden directory
/// below `root`.
pub open spec fn selects(file_name: Seq<char>, root: Seq<char>, path: Seq<char>) -> bool {
    names_file(path, file_name) && !hidden_below(root, path)
}

/// Chooses among the entries of a walk from `root` the files named
/// `file_name` outside hidden directories, and puts them in discovery order.
/// Each chosen entry comes out as often as it went in.
pub fn select_files(file_name: &Vec<char>, root: &Vec<char>, entries: &Vec<String>) -> (files:
    Vec<String>)
    ensures
        in_discovery_order(texts(files@)),
        texts(files@).to_multiset() == texts(entries@).filter(
            |p: Seq<char>| selects(file_name@, root@, p),
        ).to_multiset(),
{
    let ghost all = texts(entries@);
    let ghost wanted = |p: Seq<char>| selects(file_name@, root@, p);
    let mut kept: Vec<Vec<char>> = Vec::new();
    let mut i: usize = 0;
    proof {
        reveal(Seq::filter);
        assert(path_texts(kept@) =~= all.take(0).filter(wanted));
    }
    while i < entries.len()
        invariant
            i <= entries.len(),
            all == texts(entries@),
            wanted == |p: Seq<char>| selects(file_name@, root@, p),
            path_texts(kept@) == all.take(i as int).filter(wanted),
        decreases entries.len() - i,
    {
        let chars = chars_of(entries[i].as_str());
        let ghost kept_before = path_texts(kept@);
        proof {
            reveal(Seq::filter);
            assert(all.take(i + 1).drop_last() =~= all.take(i as int));
            assert(all.take(i + 1).last() == chars@);
        }
        if ends_with_file_name(&chars, file_name) && !is_hidden_below(root, &chars) {
            kept.push(chars);
            proof {
                assert(path_texts(kept@) =~= kept_before.push(chars@));
            }
        }
        i += 1;
    }
    proof {
        assert(all.take(entries.len() as int) =~= all);
    }
    let sorted = sort_paths(kept);
    let mut files: Vec<String> = Vec::new();
    let mut k: usize = 0;
    while k < sorted.len()
        invariant
            k <= sorted.len(),
            texts(files@) =~= path_texts(sorted@).take(k as int),
        decreases sorted.len() - k,
    {
        let ghost files_before = texts(files@);
        let path = string_of(&sorted[k]);
        files.push(path);
        proof {
            assert(texts(files@) =~= files_before.push(sorted@[k as int]@));
            assert(path_texts(sorted@).take(k + 1) =~= path_texts(sorted@).take(k as int).push(
                sorted@[k as int]@,
            ));
        }
        k += 1;
    }
    proof {
        assert(texts(files@) =~= path_texts(sorted@));
    }
    files
}

} // verus!
