//! Splitting of lockfile dependency entries into `name:version` identifiers.

use crate::scan::first_where;
use crate::scan::lemma_first_where;
use crate::scan::lemma_first_where_unique;
use vstd::prelude::*;
use vstd::std_specs::iter::IteratorSpec;
use vstd::string::StrSliceExecFns;
use vstd::string::StringExecFns;

verus! {

broadcast use vstd::string::group_string_axioms;

/// The characters of each string of a sequence.
pub open spec fn texts(strings: Seq<String>) -> Seq<Seq<char>> {
    strings.map_values(|s: String| s@)
}

/// Whether `c` is the space that separates the fields of an entry.
pub open spec fn is_space() -> spec_fn(char) -> bool {
    |c: char| c == ' '
}

/// Number of characters of `s` that stand before its first space; the whole
/// length where `s` holds no space.
pub open spec fn first_space(s: Seq<char>) -> int {
    first_where(s, is_space())
}

/// Whether two strings hold the same characters, compared without
/// normalisation.
pub fn same_text(a: &str, b: &str) -> (r: bool)
    ensures
        r == (a@ == b@),
{
    let mut left = a.chars();
    let mut right = b.chars();
    let ghost mut pos: int = 0;
    loop
        invariant
            0 <= pos <= a@.len(),
            pos <= b@.len(),
            left.remaining() == a@.skip(pos),
            right.remaining() == b@.skip(pos),
            a@.take(pos) == b@.take(pos),
        decreases a@.len() - pos,
    {
        let x = left.next();
        let y = right.next();
        match (x, y) {
            (None, None) => {
                assert(a@ =~= a@.take(pos));
                assert(b@ =~= b@.take(pos));
                return true;
            },
            (Some(c), Some(d)) => {
                if c != d {
                    assert(a@[pos] != b@[pos]);
                    return false;
                }
                proof {
                    assert(a@.take(pos + 1) =~= a@.take(pos).push(a@[pos]));
                    assert(b@.take(pos + 1) =~= b@.take(pos).push(b@[pos]));
                    pos = pos + 1;
                }
            },
            _ => {
                assert(a@.len() != b@.len());
                return false;
            },
        }
    }
}

/// The identifier `name:version` of a lockfile dependency entry
/// `"name version ..."`: the text before the first space, a colon, and the
/// text between the first space and the next one (or the end). An entry
/// without a space has no identifier.
pub open spec fn identifier_of(entry: Seq<char>) -> Option<Seq<char>> {
    let i = first_space(entry);
    if i >= entry.len() {
        None
    } else {
        let rest = entry.skip(i + 1);
        Some(entry.take(i) + seq![':'] + rest.take(first_space(rest)))
    }
}

/// An entry has an identifier exactly where it holds a space.
pub proof fn lemma_identifier_needs_space(entry: Seq<char>)
    ensures
        identifier_of(entry) is Some <==> entry.contains(' '),
{
    lemma_first_where(entry, is_space());
    if entry.contains(' ') {
        let at = choose|i: int| 0 <= i < entry.len() && entry[i] == ' ';
        assert(is_space()(entry[at]));
    }
}

/// The identifier of an entry `name version rest`, where neither `name` nor
/// `version` holds a space, is `name:version`, whatever `rest` is.
pub proof fn lemma_identifier_of_fields(name: Seq<char>, version: Seq<char>, rest: Seq<char>)
    requires
        !name.contains(' '),
        !version.contains(' '),
    ensures
        identifier_of(name + seq![' '] + version) == Some(name + seq![':'] + version),
        identifier_of(name + seq![' '] + version + seq![' '] + rest) == Some(
            name + seq![':'] + version,
        ),
{
    let short = name + seq![' '] + version;
    let long = short + seq![' '] + rest;
    assert forall|k: int| 0 <= k < name.len() implies !is_space()(#[trigger] short[k]) by {
        assert(name.contains(short[k]));
    }
    assert forall|k: int| 0 <= k < name.len() implies !is_space()(#[trigger] long[k]) by {
        assert(name.contains(long[k]));
    }
    lemma_first_where_unique(short, is_space(), name.len() as int);
    lemma_first_where_unique(long, is_space(), name.len() as int);
    let after_short = short.skip((name.len() + 1) as int);
    let after_long = long.skip((name.len() + 1) as int);
    assert(after_short =~= version);
    assert(after_long =~= version + seq![' '] + rest);
    assert forall|k: int| 0 <= k < version.len() implies !is_space()(#[trigger] version[k]) by {
        assert(version.contains(version[k]));
    }
    assert forall|k: int| 0 <= k < version.len() implies !is_space()(
        #[trigger] after_long[k],
    ) by {
        assert(version.contains(after_long[k]));
    }
    lemma_first_where_unique(after_short, is_space(), version.len() as int);
    lemma_first_where_unique(after_long, is_space(), version.len() as int);
    assert(short.take(name.len() as int) =~= name);
    assert(long.take(name.len() as int) =~= name);
    assert(after_short.take(version.len() as int) =~= version);
    assert(after_long.take(version.len() as int) =~= version);
}

/// Computes the identifier of one dependency entry.
pub fn dependency_identifier(entry: &str) -> (r: Option<String>)
    ensures
        match r {
            Some(id) => identifier_of(entry@) == Some(id@),
            None => identifier_of(entry@) is None,
        },
{
    let total: usize = entry.unicode_len();
    let mut chars = entry.chars();
    let mut pos: usize = 0;
    let mut name_end: Option<usize> = None;
    let mut version_end: usize = total;
    loop
        invariant_except_break
            0 <= pos <= total,
            chars.remaining() == entry@.skip(pos as int),
            version_end == total,
            match name_end {
                None => forall|k: int| 0 <= k < pos ==> entry@[k] != ' ',
                Some(i) => {
                    &&& i < pos
                    &&& entry@[i as int] == ' '
                    &&& forall|k: int| 0 <= k < i ==> entry@[k] != ' '
                    &&& forall|k: int| i < k < pos ==> entry@[k] != ' '
                },
            },
        invariant
            total == entry@.len(),
        ensures
            match name_end {
                None => forall|k: int| 0 <= k < total ==> entry@[k] != ' ',
                Some(i) => {
                    &&& i < version_end <= total
                    &&& entry@[i as int] == ' '
                    &&& version_end < total ==> entry@[version_end as int] == ' '
                    &&& forall|k: int| 0 <= k < i ==> entry@[k] != ' '
                    &&& forall|k: int| i < k < version_end ==> entry@[k] != ' '
                },
            },
        decreases total - pos,
    {
        match chars.next() {
            None => {
                break ;
            },
            Some(c) => {
                assert(c == entry@[pos as int]);
                if c == ' ' {
                    if name_end.is_none() {
                        name_end = Some(pos);
                    } else {
                        version_end = pos;
                        break ;
                    }
                }
                pos = pos + 1;
            },
        }
    }
    match name_end {
        None => {
            proof {
                lemma_first_where_unique(entry@, is_space(), total as int);
            }
            None
        },
        Some(i) => {
            let name = entry.substring_char(0, i);
            let version = entry.substring_char(i + 1, version_end);
            let mut id = String::from_str(name);
            id.append(":");
            id.append(version);
            proof {
                reveal_strlit(":");
                let rest = entry@.skip(i + 1);
                lemma_first_where_unique(entry@, is_space(), i as int);
                lemma_first_where_unique(rest, is_space(), version_end - i - 1);
                assert(":"@ =~= seq![':']);
                assert(name@ =~= entry@.take(i as int));
                assert(version@ =~= rest.take(version_end - i - 1));
            }
            Some(id)
        },
    }
}

} // verus!
