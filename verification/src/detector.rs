//! Language detection: explicit overrides from a repository attributes
//! file, then configuration mappings, then the Dockerfile filename
//! heuristic, then a fixed extension table — first match wins. Also the
//! built-in ignore predicate that excludes non-source files before
//! detection is attempted.

use vstd::prelude::*;

use crate::classifier::{is_space, is_space_byte, lemma_first_nl_is, spec_lines};
use crate::config::Config;
use crate::text::{
    bytes_eq, contains_sub, ends_with, find_key_last, last_index_of, pairs_view, spec_contains,
    spec_ends_with, spec_last_index_of, spec_lookup, spec_lookup_last, spec_lower,
    spec_starts_with, starts_with, to_lower,
};
use vstd::slice::slice_to_vec;

verus! {

/// The label given to files no rule recognizes.
pub open spec fn other_label() -> Seq<u8> {
    seq!['O' as u8, 't' as u8, 'h' as u8, 'e' as u8, 'r' as u8]
}

/// The `Other` label, executable form.
pub fn other_label_vec() -> (r: Vec<u8>)
    ensures
        r@ == other_label(),
{
    vec!['O' as u8, 't' as u8, 'h' as u8, 'e' as u8, 'r' as u8]
}

/// The label of Dockerfiles.
pub open spec fn dockerfile_label() -> Seq<u8> {
    seq!['D' as u8, 'o' as u8, 'c' as u8, 'k' as u8, 'e' as u8, 'r' as u8, 'f' as u8, 'i' as u8, 'l' as u8, 'e' as u8]
}

/// The basename: everything after the last path separator.
pub open spec fn spec_basename(path: Seq<u8>) -> Seq<u8> {
    path.skip(spec_last_index_of(path, '/' as u8) + 1)
}

/// Basename, executable form.
pub fn basename_of(path: &[u8]) -> (r: &[u8])
    ensures
        r@ == spec_basename(path@),
{
    let n: usize = path.len();
    match last_index_of(path, '/' as u8) {
        Some(i) => &path[i + 1..n],
        None => {
            proof {
                assert(path@.skip(0) =~= path@);
            }
            path
        },
    }
}

/// The extension: everything after the last dot of the basename, unless
/// the basename has no dot or only a leading one (a hidden file).
pub open spec fn spec_extension(path: Seq<u8>) -> Option<Seq<u8>> {
    let b = spec_basename(path);
    let i = spec_last_index_of(b, '.' as u8);
    if i <= 0 {
        Option::None
    } else {
        Option::Some(b.skip(i + 1))
    }
}

/// Extension, executable form.
pub fn extension_of(path: &[u8]) -> (r: Option<&[u8]>)
    ensures
        match r {
            Some(e) => spec_extension(path@) == Option::Some(e@),
            None => spec_extension(path@) == Option::<Seq<u8>>::None,
        },
{
    let b = basename_of(path);
    let m: usize = b.len();
    match last_index_of(b, '.' as u8) {
        Some(i) => {
            if i == 0 {
                None
            } else {
                Some(&b[i + 1..m])
            }
        },
        None => None,
    }
}

/// The Dockerfile filename heuristic: the basename is `dockerfile` in any
/// casing, or ends with `.dockerfile` in any casing.
pub open spec fn spec_is_dockerfile_name(b: Seq<u8>) -> bool {
    spec_lower(b) == seq!['d' as u8, 'o' as u8, 'c' as u8, 'k' as u8, 'e' as u8, 'r' as u8, 'f' as u8, 'i' as u8, 'l' as u8, 'e' as u8] || spec_ends_with(spec_lower(b), seq!['.' as u8, 'd' as u8, 'o' as u8, 'c' as u8, 'k' as u8, 'e' as u8, 'r' as u8, 'f' as u8, 'i' as u8, 'l' as u8, 'e' as u8])
}

/// Dockerfile heuristic, executable form.
pub fn is_dockerfile_name(b: &[u8]) -> (r: bool)
    ensures
        r == spec_is_dockerfile_name(b@),
{
    let lb = to_lower(b);
    if bytes_eq(lb.as_slice(), vec!['d' as u8, 'o' as u8, 'c' as u8, 'k' as u8, 'e' as u8, 'r' as u8, 'f' as u8, 'i' as u8, 'l' as u8, 'e' as u8].as_slice()) {
        return true;
    }
    ends_with(lb.as_slice(), vec!['.' as u8, 'd' as u8, 'o' as u8, 'c' as u8, 'k' as u8, 'e' as u8, 'r' as u8, 'f' as u8, 'i' as u8, 'l' as u8, 'e' as u8].as_slice())
}
/// The fixed extension table: lowercase-normalized extension to
/// language name. An unknown extension yields the `Other` label.
pub open spec fn ext_language(e: Seq<u8>) -> Seq<u8> {
    if e == seq!['p' as u8, 'y' as u8] || e == seq!['p' as u8, 'y' as u8, 'i' as u8] || e == seq!['p' as u8, 'y' as u8, 'x' as u8] {
        seq!['P' as u8, 'y' as u8, 't' as u8, 'h' as u8, 'o' as u8, 'n' as u8]
    } else if e == seq!['j' as u8, 's' as u8] || e == seq!['m' as u8, 'j' as u8, 's' as u8] {
        seq!['J' as u8, 'a' as u8, 'v' as u8, 'a' as u8, 'S' as u8, 'c' as u8, 'r' as u8, 'i' as u8, 'p' as u8, 't' as u8]
    } else if e == seq!['t' as u8, 's' as u8] || e == seq!['m' as u8, 't' as u8, 's' as u8] || e == seq!['c' as u8, 't' as u8, 's' as u8] {
        seq!['T' as u8, 'y' as u8, 'p' as u8, 'e' as u8, 'S' as u8, 'c' as u8, 'r' as u8, 'i' as u8, 'p' as u8, 't' as u8]
    } else if e == seq!['t' as u8, 's' as u8, 'x' as u8] || e == seq!['j' as u8, 's' as u8, 'x' as u8] {
        seq!['R' as u8, 'e' as u8, 'a' as u8, 'c' as u8, 't' as u8]
    } else if e == seq!['c' as u8, 's' as u8, 's' as u8] || e == seq!['s' as u8, 'c' as u8, 's' as u8, 's' as u8] || e == seq!['s' as u8, 'a' as u8, 's' as u8, 's' as u8] || e == seq!['l' as u8, 'e' as u8, 's' as u8, 's' as u8] {
        seq!['C' as u8, 'S' as u8, 'S' as u8]
    } else if e == seq!['h' as u8, 't' as u8, 'm' as u8, 'l' as u8] || e == seq!['h' as u8, 't' as u8, 'm' as u8] || e == seq!['x' as u8, 'h' as u8, 't' as u8, 'm' as u8, 'l' as u8] {
        seq!['H' as u8, 'T' as u8, 'M' as u8, 'L' as u8]
    } else if e == seq!['s' as u8, 'h' as u8] || e == seq!['b' as u8, 'a' as u8, 's' as u8, 'h' as u8] || e == seq!['z' as u8, 's' as u8, 'h' as u8] {
        seq!['S' as u8, 'h' as u8, 'e' as u8, 'l' as u8, 'l' as u8]
    } else if e == seq!['r' as u8, 's' as u8] {
        seq!['R' as u8, 'u' as u8, 's' as u8, 't' as u8]
    } else if e == seq!['g' as u8, 'o' as u8] || e == seq!['m' as u8, 'o' as u8, 'd' as u8] {
        seq!['G' as u8, 'o' as u8]
    } else if e == seq!['j' as u8, 'a' as u8, 'v' as u8, 'a' as u8] || e == seq!['k' as u8, 't' as u8] || e == seq!['k' as u8, 't' as u8, 's' as u8] {
        seq!['J' as u8, 'a' as u8, 'v' as u8, 'a' as u8]
    } else if e == seq!['v' as u8, 'u' as u8, 'e' as u8] {
        seq!['V' as u8, 'u' as u8, 'e' as u8]
    } else if e == seq!['r' as u8, 'b' as u8] || e == seq!['r' as u8, 'a' as u8, 'k' as u8, 'e' as u8] || e == seq!['g' as u8, 'e' as u8, 'm' as u8, 's' as u8, 'p' as u8, 'e' as u8, 'c' as u8] {
        seq!['R' as u8, 'u' as u8, 'b' as u8, 'y' as u8]
    } else if e == seq!['p' as u8, 'h' as u8, 'p' as u8] || e == seq!['p' as u8, 'h' as u8, 'p' as u8, '5' as u8] || e == seq!['p' as u8, 'h' as u8, 't' as u8, 'm' as u8, 'l' as u8] {
        seq!['P' as u8, 'H' as u8, 'P' as u8]
    } else if e == seq!['c' as u8] || e == seq!['h' as u8] {
        seq!['C' as u8]
    } else if e == seq!['c' as u8, 'p' as u8, 'p' as u8] || e == seq!['h' as u8, 'p' as u8, 'p' as u8] || e == seq!['c' as u8, 'c' as u8] || e == seq!['c' as u8, 'x' as u8, 'x' as u8] || e == seq!['h' as u8, 'x' as u8, 'x' as u8] {
        seq!['C' as u8, '+' as u8, '+' as u8]
    } else if e == seq!['s' as u8, 'w' as u8, 'i' as u8, 'f' as u8, 't' as u8] {
        seq!['S' as u8, 'w' as u8, 'i' as u8, 'f' as u8, 't' as u8]
    } else if e == seq!['m' as u8] || e == seq!['m' as u8, 'm' as u8] {
        seq!['O' as u8, 'b' as u8, 'j' as u8, 'e' as u8, 'c' as u8, 't' as u8, 'i' as u8, 'v' as u8, 'e' as u8, '-' as u8, 'C' as u8]
    } else if e == seq!['c' as u8, 's' as u8] {
        seq!['C' as u8, '#' as u8]
    } else if e == seq!['p' as u8, 'l' as u8] || e == seq!['p' as u8, 'm' as u8] {
        seq!['P' as u8, 'e' as u8, 'r' as u8, 'l' as u8]
    } else if e == seq!['s' as u8, 'c' as u8, 'a' as u8, 'l' as u8, 'a' as u8] {
        seq!['S' as u8, 'c' as u8, 'a' as u8, 'l' as u8, 'a' as u8]
    } else if e == seq!['l' as u8, 'u' as u8, 'a' as u8] {
        seq!['L' as u8, 'u' as u8, 'a' as u8]
    } else if e == seq!['r' as u8] {
        seq!['R' as u8]
    } else if e == seq!['d' as u8, 'a' as u8, 'r' as u8, 't' as u8] {
        seq!['D' as u8, 'a' as u8, 'r' as u8, 't' as u8]
    } else if e == seq!['e' as u8, 'x' as u8] || e == seq!['e' as u8, 'x' as u8, 's' as u8] {
        seq!['E' as u8, 'l' as u8, 'i' as u8, 'x' as u8, 'i' as u8, 'r' as u8]
    } else if e == seq!['h' as u8, 's' as u8] {
        seq!['H' as u8, 'a' as u8, 's' as u8, 'k' as u8, 'e' as u8, 'l' as u8, 'l' as u8]
    } else if e == seq!['d' as u8, 'o' as u8, 'c' as u8, 'k' as u8, 'e' as u8, 'r' as u8, 'f' as u8, 'i' as u8, 'l' as u8, 'e' as u8] {
        seq!['D' as u8, 'o' as u8, 'c' as u8, 'k' as u8, 'e' as u8, 'r' as u8, 'f' as u8, 'i' as u8, 'l' as u8, 'e' as u8]
    } else {
        seq!['O' as u8, 't' as u8, 'h' as u8, 'e' as u8, 'r' as u8]
    }
}

proof fn lemma_ext_python(e: Seq<u8>)
    requires
        e == seq!['p' as u8, 'y' as u8] || e == seq!['p' as u8, 'y' as u8, 'i' as u8] || e == seq!['p' as u8, 'y' as u8, 'x' as u8],
    ensures
        ext_language(e) == seq!['P' as u8, 'y' as u8, 't' as u8, 'h' as u8, 'o' as u8, 'n' as u8],
{
    if e == seq!['p' as u8, 'y' as u8] {
        assert(e.len() == 2);
        assert(e[0] == 'p' as u8 && e[1] == 'y' as u8);
    }
    if e == seq!['p' as u8, 'y' as u8, 'i' as u8] {
        assert(e.len() == 3);
        assert(e[0] == 'p' as u8 && e[1] == 'y' as u8 && e[2] == 'i' as u8);
    }
    if e == seq!['p' as u8, 'y' as u8, 'x' as u8] {
        assert(e.len() == 3);
        assert(e[0] == 'p' as u8 && e[1] == 'y' as u8 && e[2] == 'x' as u8);
    }
}

proof fn lemma_ext_javascript(e: Seq<u8>)
    requires
        e == seq!['j' as u8, 's' as u8] || e == seq!['m' as u8, 'j' as u8, 's' as u8],
    ensures
        ext_language(e) == seq!['J' as u8, 'a' as u8, 'v' as u8, 'a' as u8, 'S' as u8, 'c' as u8, 'r' as u8, 'i' as u8, 'p' as u8, 't' as u8],
{
    if e == seq!['j' as u8, 's' as u8] {
        assert(e.len() == 2);
        assert(e[0] == 'j' as u8 && e[1] == 's' as u8);
    }
    if e == seq!['m' as u8, 'j' as u8, 's' as u8] {
        assert(e.len() == 3);
        assert(e[0] == 'm' as u8 && e[1] == 'j' as u8 && e[2] == 's' as u8);
    }
}

proof fn lemma_ext_typescript(e: Seq<u8>)
    requires
        e == seq!['t' as u8, 's' as u8] || e == seq!['m' as u8, 't' as u8, 's' as u8] || e == seq!['c' as u8, 't' as u8, 's' as u8],
    ensures
        ext_language(e) == seq!['T' as u8, 'y' as u8, 'p' as u8, 'e' as u8, 'S' as u8, 'c' as u8, 'r' as u8, 'i' as u8, 'p' as u8, 't' as u8],
{
    if e == seq!['t' as u8, 's' as u8] {
        assert(e.len() == 2);
        assert(e[0] == 't' as u8 && e[1] == 's' as u8);
    }
    if e == seq!['m' as u8, 't' as u8, 's' as u8] {
        assert(e.len() == 3);
        assert(e[0] == 'm' as u8 && e[1] == 't' as u8 && e[2] == 's' as u8);
    }
    if e == seq!['c' as u8, 't' as u8, 's' as u8] {
        assert(e.len() == 3);
        assert(e[0] == 'c' as u8 && e[1] == 't' as u8 && e[2] == 's' as u8);
    }
}

proof fn lemma_ext_react(e: Seq<u8>)
    requires
        e == seq!['t' as u8, 's' as u8, 'x' as u8] || e == seq!['j' as u8, 's' as u8, 'x' as u8],
    ensures
        ext_language(e) == seq!['R' as u8, 'e' as u8, 'a' as u8, 'c' as u8, 't' as u8],
{
    if e == seq!['t' as u8, 's' as u8, 'x' as u8] {
        assert(e.len() == 3);
        assert(e[0] == 't' as u8 && e[1] == 's' as u8 && e[2] == 'x' as u8);
    }
    if e == seq!['j' as u8, 's' as u8, 'x' as u8] {
        assert(e.len() == 3);
        assert(e[0] == 'j' as u8 && e[1] == 's' as u8 && e[2] == 'x' as u8);
    }
}

proof fn lemma_ext_css(e: Seq<u8>)
    requires
        e == seq!['c' as u8, 's' as u8, 's' as u8] || e == seq!['s' as u8, 'c' as u8, 's' as u8, 's' as u8] || e == seq!['s' as u8, 'a' as u8, 's' as u8, 's' as u8] || e == seq!['l' as u8, 'e' as u8, 's' as u8, 's' as u8],
    ensures
        ext_language(e) == seq!['C' as u8, 'S' as u8, 'S' as u8],
{
    if e == seq!['c' as u8, 's' as u8, 's' as u8] {
        assert(e.len() == 3);
        assert(e[0] == 'c' as u8 && e[1] == 's' as u8 && e[2] == 's' as u8);
    }
    if e == seq!['s' as u8, 'c' as u8, 's' as u8, 's' as u8] {
        assert(e.len() == 4);
        assert(e[0] == 's' as u8 && e[1] == 'c' as u8 && e[2] == 's' as u8 && e[3] == 's' as u8);
    }
    if e == seq!['s' as u8, 'a' as u8, 's' as u8, 's' as u8] {
        assert(e.len() == 4);
        assert(e[0] == 's' as u8 && e[1] == 'a' as u8 && e[2] == 's' as u8 && e[3] == 's' as u8);
    }
    if e == seq!['l' as u8, 'e' as u8, 's' as u8, 's' as u8] {
        assert(e.len() == 4);
        assert(e[0] == 'l' as u8 && e[1] == 'e' as u8 && e[2] == 's' as u8 && e[3] == 's' as u8);
    }
}

proof fn lemma_ext_html(e: Seq<u8>)
    requires
        e == seq!['h' as u8, 't' as u8, 'm' as u8, 'l' as u8] || e == seq!['h' as u8, 't' as u8, 'm' as u8] || e == seq!['x' as u8, 'h' as u8, 't' as u8, 'm' as u8, 'l' as u8],
    ensures
        ext_language(e) == seq!['H' as u8, 'T' as u8, 'M' as u8, 'L' as u8],
{
    if e == seq!['h' as u8, 't' as u8, 'm' as u8, 'l' as u8] {
        assert(e.len() == 4);
        assert(e[0] == 'h' as u8 && e[1] == 't' as u8 && e[2] == 'm' as u8 && e[3] == 'l' as u8);
    }
    if e == seq!['h' as u8, 't' as u8, 'm' as u8] {
        assert(e.len() == 3);
        assert(e[0] == 'h' as u8 && e[1] == 't' as u8 && e[2] == 'm' as u8);
    }
    if e == seq!['x' as u8, 'h' as u8, 't' as u8, 'm' as u8, 'l' as u8] {
        assert(e.len() == 5);
        assert(e[0] == 'x' as u8 && e[1] == 'h' as u8 && e[2] == 't' as u8 && e[3] == 'm' as u8 && e[4] == 'l' as u8);
    }
}

proof fn lemma_ext_shell(e: Seq<u8>)
    requires
        e == seq!['s' as u8, 'h' as u8] || e == seq!['b' as u8, 'a' as u8, 's' as u8, 'h' as u8] || e == seq!['z' as u8, 's' as u8, 'h' as u8],
    ensures
        ext_language(e) == seq!['S' as u8, 'h' as u8, 'e' as u8, 'l' as u8, 'l' as u8],
{
    if e == seq!['s' as u8, 'h' as u8] {
        assert(e.len() == 2);
        assert(e[0] == 's' as u8 && e[1] == 'h' as u8);
    }
    if e == seq!['b' as u8, 'a' as u8, 's' as u8, 'h' as u8] {
        assert(e.len() == 4);
        assert(e[0] == 'b' as u8 && e[1] == 'a' as u8 && e[2] == 's' as u8 && e[3] == 'h' as u8);
    }
    if e == seq!['z' as u8, 's' as u8, 'h' as u8] {
        assert(e.len() == 3);
        assert(e[0] == 'z' as u8 && e[1] == 's' as u8 && e[2] == 'h' as u8);
    }
}

proof fn lemma_ext_rust(e: Seq<u8>)
    requires
        e == seq!['r' as u8, 's' as u8],
    ensures
        ext_language(e) == seq!['R' as u8, 'u' as u8, 's' as u8, 't' as u8],
{
    if e == seq!['r' as u8, 's' as u8] {
        assert(e.len() == 2);
        assert(e[0] == 'r' as u8 && e[1] == 's' as u8);
    }
}

proof fn lemma_ext_go(e: Seq<u8>)
    requires
        e == seq!['g' as u8, 'o' as u8] || e == seq!['m' as u8, 'o' as u8, 'd' as u8],
    ensures
        ext_language(e) == seq!['G' as u8, 'o' as u8],
{
    if e == seq!['g' as u8, 'o' as u8] {
        assert(e.len() == 2);
        assert(e[0] == 'g' as u8 && e[1] == 'o' as u8);
    }
    if e == seq!['m' as u8, 'o' as u8, 'd' as u8] {
        assert(e.len() == 3);
        assert(e[0] == 'm' as u8 && e[1] == 'o' as u8 && e[2] == 'd' as u8);
    }
}

proof fn lemma_ext_java(e: Seq<u8>)
    requires
        e == seq!['j' as u8, 'a' as u8, 'v' as u8, 'a' as u8] || e == seq!['k' as u8, 't' as u8] || e == seq!['k' as u8, 't' as u8, 's' as u8],
    ensures
        ext_language(e) == seq!['J' as u8, 'a' as u8, 'v' as u8, 'a' as u8],
{
    if e == seq!['j' as u8, 'a' as u8, 'v' as u8, 'a' as u8] {
        assert(e.len() == 4);
        assert(e[0] == 'j' as u8 && e[1] == 'a' as u8 && e[2] == 'v' as u8 && e[3] == 'a' as u8);
    }
    if e == seq!['k' as u8, 't' as u8] {
        assert(e.len() == 2);
        assert(e[0] == 'k' as u8 && e[1] == 't' as u8);
    }
    if e == seq!['k' as u8, 't' as u8, 's' as u8] {
        assert(e.len() == 3);
        assert(e[0] == 'k' as u8 && e[1] == 't' as u8 && e[2] == 's' as u8);
    }
}

proof fn lemma_ext_vue(e: Seq<u8>)
    requires
        e == seq!['v' as u8, 'u' as u8, 'e' as u8],
    ensures
        ext_language(e) == seq!['V' as u8, 'u' as u8, 'e' as u8],
{
    if e == seq!['v' as u8, 'u' as u8, 'e' as u8] {
        assert(e.len() == 3);
        assert(e[0] == 'v' as u8 && e[1] == 'u' as u8 && e[2] == 'e' as u8);
    }
}

proof fn lemma_ext_ruby(e: Seq<u8>)
    requires
        e == seq!['r' as u8, 'b' as u8] || e == seq!['r' as u8, 'a' as u8, 'k' as u8, 'e' as u8] || e == seq!['g' as u8, 'e' as u8, 'm' as u8, 's' as u8, 'p' as u8, 'e' as u8, 'c' as u8],
    ensures
        ext_language(e) == seq!['R' as u8, 'u' as u8, 'b' as u8, 'y' as u8],
{
    if e == seq!['r' as u8, 'b' as u8] {
        assert(e.len() == 2);
        assert(e[0] == 'r' as u8 && e[1] == 'b' as u8);
    }
    if e == seq!['r' as u8, 'a' as u8, 'k' as u8, 'e' as u8] {
        assert(e.len() == 4);
        assert(e[0] == 'r' as u8 && e[1] == 'a' as u8 && e[2] == 'k' as u8 && e[3] == 'e' as u8);
    }
    if e == seq!['g' as u8, 'e' as u8, 'm' as u8, 's' as u8, 'p' as u8, 'e' as u8, 'c' as u8] {
        assert(e.len() == 7);
        assert(e[0] == 'g' as u8 && e[1] == 'e' as u8 && e[2] == 'm' as u8 && e[3] == 's' as u8 && e[4] == 'p' as u8 && e[5] == 'e' as u8 && e[6] == 'c' as u8);
    }
}

proof fn lemma_ext_php(e: Seq<u8>)
    requires
        e == seq!['p' as u8, 'h' as u8, 'p' as u8] || e == seq!['p' as u8, 'h' as u8, 'p' as u8, '5' as u8] || e == seq!['p' as u8, 'h' as u8, 't' as u8, 'm' as u8, 'l' as u8],
    ensures
        ext_language(e) == seq!['P' as u8, 'H' as u8, 'P' as u8],
{
    if e == seq!['p' as u8, 'h' as u8, 'p' as u8] {
        assert(e.len() == 3);
        assert(e[0] == 'p' as u8 && e[1] == 'h' as u8 && e[2] == 'p' as u8);
    }
    if e == seq!['p' as u8, 'h' as u8, 'p' as u8, '5' as u8] {
        assert(e.len() == 4);
        assert(e[0] == 'p' as u8 && e[1] == 'h' as u8 && e[2] == 'p' as u8 && e[3] == '5' as u8);
    }
    if e == seq!['p' as u8, 'h' as u8, 't' as u8, 'm' as u8, 'l' as u8] {
        assert(e.len() == 5);
        assert(e[0] == 'p' as u8 && e[1] == 'h' as u8 && e[2] == 't' as u8 && e[3] == 'm' as u8 && e[4] == 'l' as u8);
    }
}

proof fn lemma_ext_c(e: Seq<u8>)
    requires
        e == seq!['c' as u8] || e == seq!['h' as u8],
    ensures
        ext_language(e) == seq!['C' as u8],
{
    if e == seq!['c' as u8] {
        assert(e.len() == 1);
        assert(e[0] == 'c' as u8);
    }
    if e == seq!['h' as u8] {
        assert(e.len() == 1);
        assert(e[0] == 'h' as u8);
    }
}

proof fn lemma_ext_cpp(e: Seq<u8>)
    requires
        e == seq!['c' as u8, 'p' as u8, 'p' as u8] || e == seq!['h' as u8, 'p' as u8, 'p' as u8] || e == seq!['c' as u8, 'c' as u8] || e == seq!['c' as u8, 'x' as u8, 'x' as u8] || e == seq!['h' as u8, 'x' as u8, 'x' as u8],
    ensures
        ext_language(e) == seq!['C' as u8, '+' as u8, '+' as u8],
{
    if e == seq!['c' as u8, 'p' as u8, 'p' as u8] {
        assert(e.len() == 3);
        assert(e[0] == 'c' as u8 && e[1] == 'p' as u8 && e[2] == 'p' as u8);
    }
    if e == seq!['h' as u8, 'p' as u8, 'p' as u8] {
        assert(e.len() == 3);
        assert(e[0] == 'h' as u8 && e[1] == 'p' as u8 && e[2] == 'p' as u8);
    }
    if e == seq!['c' as u8, 'c' as u8] {
        assert(e.len() == 2);
        assert(e[0] == 'c' as u8 && e[1] == 'c' as u8);
    }
    if e == seq!['c' as u8, 'x' as u8, 'x' as u8] {
        assert(e.len() == 3);
        assert(e[0] == 'c' as u8 && e[1] == 'x' as u8 && e[2] == 'x' as u8);
    }
    if e == seq!['h' as u8, 'x' as u8, 'x' as u8] {
        assert(e.len() == 3);
        assert(e[0] == 'h' as u8 && e[1] == 'x' as u8 && e[2] == 'x' as u8);
    }
}

proof fn lemma_ext_swift(e: Seq<u8>)
    requires
        e == seq!['s' as u8, 'w' as u8, 'i' as u8, 'f' as u8, 't' as u8],
    ensures
        ext_language(e) == seq!['S' as u8, 'w' as u8, 'i' as u8, 'f' as u8, 't' as u8],
{
    if e == seq!['s' as u8, 'w' as u8, 'i' as u8, 'f' as u8, 't' as u8] {
        assert(e.len() == 5);
        assert(e[0] == 's' as u8 && e[1] == 'w' as u8 && e[2] == 'i' as u8 && e[3] == 'f' as u8 && e[4] == 't' as u8);
    }
}

proof fn lemma_ext_objective_c(e: Seq<u8>)
    requires
        e == seq!['m' as u8] || e == seq!['m' as u8, 'm' as u8],
    ensures
        ext_language(e) == seq!['O' as u8, 'b' as u8, 'j' as u8, 'e' as u8, 'c' as u8, 't' as u8, 'i' as u8, 'v' as u8, 'e' as u8, '-' as u8, 'C' as u8],
{
    if e == seq!['m' as u8] {
        assert(e.len() == 1);
        assert(e[0] == 'm' as u8);
    }
    if e == seq!['m' as u8, 'm' as u8] {
        assert(e.len() == 2);
        assert(e[0] == 'm' as u8 && e[1] == 'm' as u8);
    }
}

proof fn lemma_ext_cs(e: Seq<u8>)
    requires
        e == seq!['c' as u8, 's' as u8],
    ensures
        ext_language(e) == seq!['C' as u8, '#' as u8],
{
    if e == seq!['c' as u8, 's' as u8] {
        assert(e.len() == 2);
        assert(e[0] == 'c' as u8 && e[1] == 's' as u8);
    }
}

proof fn lemma_ext_perl(e: Seq<u8>)
    requires
        e == seq!['p' as u8, 'l' as u8] || e == seq!['p' as u8, 'm' as u8],
    ensures
        ext_language(e) == seq!['P' as u8, 'e' as u8, 'r' as u8, 'l' as u8],
{
    if e == seq!['p' as u8, 'l' as u8] {
        assert(e.len() == 2);
        assert(e[0] == 'p' as u8 && e[1] == 'l' as u8);
    }
    if e == seq!['p' as u8, 'm' as u8] {
        assert(e.len() == 2);
        assert(e[0] == 'p' as u8 && e[1] == 'm' as u8);
    }
}

proof fn lemma_ext_scala(e: Seq<u8>)
    requires
        e == seq!['s' as u8, 'c' as u8, 'a' as u8, 'l' as u8, 'a' as u8],
    ensures
        ext_language(e) == seq!['S' as u8, 'c' as u8, 'a' as u8, 'l' as u8, 'a' as u8],
{
    if e == seq!['s' as u8, 'c' as u8, 'a' as u8, 'l' as u8, 'a' as u8] {
        assert(e.len() == 5);
        assert(e[0] == 's' as u8 && e[1] == 'c' as u8 && e[2] == 'a' as u8 && e[3] == 'l' as u8 && e[4] == 'a' as u8);
    }
}

proof fn lemma_ext_lua(e: Seq<u8>)
    requires
        e == seq!['l' as u8, 'u' as u8, 'a' as u8],
    ensures
        ext_language(e) == seq!['L' as u8, 'u' as u8, 'a' as u8],
{
    if e == seq!['l' as u8, 'u' as u8, 'a' as u8] {
        assert(e.len() == 3);
        assert(e[0] == 'l' as u8 && e[1] == 'u' as u8 && e[2] == 'a' as u8);
    }
}

proof fn lemma_ext_r(e: Seq<u8>)
    requires
        e == seq!['r' as u8],
    ensures
        ext_language(e) == seq!['R' as u8],
{
    if e == seq!['r' as u8] {
        assert(e.len() == 1);
        assert(e[0] == 'r' as u8);
    }
}

proof fn lemma_ext_dart(e: Seq<u8>)
    requires
        e == seq!['d' as u8, 'a' as u8, 'r' as u8, 't' as u8],
    ensures
        ext_language(e) == seq!['D' as u8, 'a' as u8, 'r' as u8, 't' as u8],
{
    if e == seq!['d' as u8, 'a' as u8, 'r' as u8, 't' as u8] {
        assert(e.len() == 4);
        assert(e[0] == 'd' as u8 && e[1] == 'a' as u8 && e[2] == 'r' as u8 && e[3] == 't' as u8);
    }
}

proof fn lemma_ext_elixir(e: Seq<u8>)
    requires
        e == seq!['e' as u8, 'x' as u8] || e == seq!['e' as u8, 'x' as u8, 's' as u8],
    ensures
        ext_language(e) == seq!['E' as u8, 'l' as u8, 'i' as u8, 'x' as u8, 'i' as u8, 'r' as u8],
{
    if e == seq!['e' as u8, 'x' as u8] {
        assert(e.len() == 2);
        assert(e[0] == 'e' as u8 && e[1] == 'x' as u8);
    }
    if e == seq!['e' as u8, 'x' as u8, 's' as u8] {
        assert(e.len() == 3);
        assert(e[0] == 'e' as u8 && e[1] == 'x' as u8 && e[2] == 's' as u8);
    }
}

proof fn lemma_ext_haskell(e: Seq<u8>)
    requires
        e == seq!['h' as u8, 's' as u8],
    ensures
        ext_language(e) == seq!['H' as u8, 'a' as u8, 's' as u8, 'k' as u8, 'e' as u8, 'l' as u8, 'l' as u8],
{
    if e == seq!['h' as u8, 's' as u8] {
        assert(e.len() == 2);
        assert(e[0] == 'h' as u8 && e[1] == 's' as u8);
    }
}

proof fn lemma_ext_dockerfile(e: Seq<u8>)
    requires
        e == seq!['d' as u8, 'o' as u8, 'c' as u8, 'k' as u8, 'e' as u8, 'r' as u8, 'f' as u8, 'i' as u8, 'l' as u8, 'e' as u8],
    ensures
        ext_language(e) == seq!['D' as u8, 'o' as u8, 'c' as u8, 'k' as u8, 'e' as u8, 'r' as u8, 'f' as u8, 'i' as u8, 'l' as u8, 'e' as u8],
{
    if e == seq!['d' as u8, 'o' as u8, 'c' as u8, 'k' as u8, 'e' as u8, 'r' as u8, 'f' as u8, 'i' as u8, 'l' as u8, 'e' as u8] {
        assert(e.len() == 10);
        assert(e[0] == 'd' as u8 && e[1] == 'o' as u8 && e[2] == 'c' as u8 && e[3] == 'k' as u8 && e[4] == 'e' as u8 && e[5] == 'r' as u8 && e[6] == 'f' as u8 && e[7] == 'i' as u8 && e[8] == 'l' as u8 && e[9] == 'e' as u8);
    }
}

/// Extension-table lookup, executable form.
#[verifier::rlimit(100)]
pub fn ext_language_of(e: &[u8]) -> (r: Vec<u8>)
    ensures
        r@ == ext_language(e@),
{
    let lit: Vec<u8> = vec!['p' as u8, 'y' as u8];
    proof {
        assert(lit@ =~= seq!['p' as u8, 'y' as u8]);
    }
    if bytes_eq(e, lit.as_slice()) {
        let r: Vec<u8> = vec!['P' as u8, 'y' as u8, 't' as u8, 'h' as u8, 'o' as u8, 'n' as u8];
        proof {
            lemma_ext_python(e@);
            assert(r@ =~= seq!['P' as u8, 'y' as u8, 't' as u8, 'h' as u8, 'o' as u8, 'n' as u8]);
        }
        return r;
    }
    let lit: Vec<u8> = vec!['p' as u8, 'y' as u8, 'i' as u8];
    proof {
        assert(lit@ =~= seq!['p' as u8, 'y' as u8, 'i' as u8]);
    }
    if bytes_eq(e, lit.as_slice()) {
        let r: Vec<u8> = vec!['P' as u8, 'y' as u8, 't' as u8, 'h' as u8, 'o' as u8, 'n' as u8];
        proof {
            lemma_ext_python(e@);
            assert(r@ =~= seq!['P' as u8, 'y' as u8, 't' as u8, 'h' as u8, 'o' as u8, 'n' as u8]);
        }
        return r;
    }
    let lit: Vec<u8> = vec!['p' as u8, 'y' as u8, 'x' as u8];
    proof {
        assert(lit@ =~= seq!['p' as u8, 'y' as u8, 'x' as u8]);
    }
    if bytes_eq(e, lit.as_slice()) {
        let r: Vec<u8> = vec!['P' as u8, 'y' as u8, 't' as u8, 'h' as u8, 'o' as u8, 'n' as u8];
        proof {
            lemma_ext_python(e@);
            assert(r@ =~= seq!['P' as u8, 'y' as u8, 't' as u8, 'h' as u8, 'o' as u8, 'n' as u8]);
        }
        return r;
    }
    let lit: Vec<u8> = vec!['j' as u8, 's' as u8];
    proof {
        assert(lit@ =~= seq!['j' as u8, 's' as u8]);
    }
    if bytes_eq(e, lit.as_slice()) {
        let r: Vec<u8> = vec!['J' as u8, 'a' as u8, 'v' as u8, 'a' as u8, 'S' as u8, 'c' as u8, 'r' as u8, 'i' as u8, 'p' as u8, 't' as u8];
        proof {
            lemma_ext_javascript(e@);
            assert(r@ =~= seq!['J' as u8, 'a' as u8, 'v' as u8, 'a' as u8, 'S' as u8, 'c' as u8, 'r' as u8, 'i' as u8, 'p' as u8, 't' as u8]);
        }
        return r;
    }
    let lit: Vec<u8> = vec!['m' as u8, 'j' as u8, 's' as u8];
    proof {
        assert(lit@ =~= seq!['m' as u8, 'j' as u8, 's' as u8]);
    }
    if bytes_eq(e, lit.as_slice()) {
        let r: Vec<u8> = vec!['J' as u8, 'a' as u8, 'v' as u8, 'a' as u8, 'S' as u8, 'c' as u8, 'r' as u8, 'i' as u8, 'p' as u8, 't' as u8];
        proof {
            lemma_ext_javascript(e@);
            assert(r@ =~= seq!['J' as u8, 'a' as u8, 'v' as u8, 'a' as u8, 'S' as u8, 'c' as u8, 'r' as u8, 'i' as u8, 'p' as u8, 't' as u8]);
        }
        return r;
    }
    let lit: Vec<u8> = vec!['t' as u8, 's' as u8];
    proof {
        assert(lit@ =~= seq!['t' as u8, 's' as u8]);
    }
    if bytes_eq(e, lit.as_slice()) {
        let r: Vec<u8> = vec!['T' as u8, 'y' as u8, 'p' as u8, 'e' as u8, 'S' as u8, 'c' as u8, 'r' as u8, 'i' as u8, 'p' as u8, 't' as u8];
        proof {
            lemma_ext_typescript(e@);
            assert(r@ =~= seq!['T' as u8, 'y' as u8, 'p' as u8, 'e' as u8, 'S' as u8, 'c' as u8, 'r' as u8, 'i' as u8, 'p' as u8, 't' as u8]);
        }
        return r;
    }
    let lit: Vec<u8> = vec!['m' as u8, 't' as u8, 's' as u8];
    proof {
        assert(lit@ =~= seq!['m' as u8, 't' as u8, 's' as u8]);
    }
    if bytes_eq(e, lit.as_slice()) {
        let r: Vec<u8> = vec!['T' as u8, 'y' as u8, 'p' as u8, 'e' as u8, 'S' as u8, 'c' as u8, 'r' as u8, 'i' as u8, 'p' as u8, 't' as u8];
        proof {
            lemma_ext_typescript(e@);
            assert(r@ =~= seq!['T' as u8, 'y' as u8, 'p' as u8, 'e' as u8, 'S' as u8, 'c' as u8, 'r' as u8, 'i' as u8, 'p' as u8, 't' as u8]);
        }
        return r;
    }
    let lit: Vec<u8> = vec!['c' as u8, 't' as u8, 's' as u8];
    proof {
        assert(lit@ =~= seq!['c' as u8, 't' as u8, 's' as u8]);
    }
    if bytes_eq(e, lit.as_slice()) {
        let r: Vec<u8> = vec!['T' as u8, 'y' as u8, 'p' as u8, 'e' as u8, 'S' as u8, 'c' as u8, 'r' as u8, 'i' as u8, 'p' as u8, 't' as u8];
        proof {
            lemma_ext_typescript(e@);
            assert(r@ =~= seq!['T' as u8, 'y' as u8, 'p' as u8, 'e' as u8, 'S' as u8, 'c' as u8, 'r' as u8, 'i' as u8, 'p' as u8, 't' as u8]);
        }
        return r;
    }
    let lit: Vec<u8> = vec!['t' as u8, 's' as u8, 'x' as u8];
    proof {
        assert(lit@ =~= seq!['t' as u8, 's' as u8, 'x' as u8]);
    }
    if bytes_eq(e, lit.as_slice()) {
        let r: Vec<u8> = vec!['R' as u8, 'e' as u8, 'a' as u8, 'c' as u8, 't' as u8];
        proof {
            lemma_ext_react(e@);
            assert(r@ =~= seq!['R' as u8, 'e' as u8, 'a' as u8, 'c' as u8, 't' as u8]);
        }
        return r;
    }
    let lit: Vec<u8> = vec!['j' as u8, 's' as u8, 'x' as u8];
    proof {
        assert(lit@ =~= seq!['j' as u8, 's' as u8, 'x' as u8]);
    }
    if bytes_eq(e, lit.as_slice()) {
        let r: Vec<u8> = vec!['R' as u8, 'e' as u8, 'a' as u8, 'c' as u8, 't' as u8];
        proof {
            lemma_ext_react(e@);
            assert(r@ =~= seq!['R' as u8, 'e' as u8, 'a' as u8, 'c' as u8, 't' as u8]);
        }
        return r;
    }
    let lit: Vec<u8> = vec!['c' as u8, 's' as u8, 's' as u8];
    proof {
        assert(lit@ =~= seq!['c' as u8, 's' as u8, 's' as u8]);
    }
    if bytes_eq(e, lit.as_slice()) {
        let r: Vec<u8> = vec!['C' as u8, 'S' as u8, 'S' as u8];
        proof {
            lemma_ext_css(e@);
            assert(r@ =~= seq!['C' as u8, 'S' as u8, 'S' as u8]);
        }
        return r;
    }
    let lit: Vec<u8> = vec!['s' as u8, 'c' as u8, 's' as u8, 's' as u8];
    proof {
        assert(lit@ =~= seq!['s' as u8, 'c' as u8, 's' as u8, 's' as u8]);
    }
    if bytes_eq(e, lit.as_slice()) {
        let r: Vec<u8> = vec!['C' as u8, 'S' as u8, 'S' as u8];
        proof {
            lemma_ext_css(e@);
            assert(r@ =~= seq!['C' as u8, 'S' as u8, 'S' as u8]);
        }
        return r;
    }
    let lit: Vec<u8> = vec!['s' as u8, 'a' as u8, 's' as u8, 's' as u8];
    proof {
        assert(lit@ =~= seq!['s' as u8, 'a' as u8, 's' as u8, 's' as u8]);
    }
    if bytes_eq(e, lit.as_slice()) {
        let r: Vec<u8> = vec!['C' as u8, 'S' as u8, 'S' as u8];
        proof {
            lemma_ext_css(e@);
            assert(r@ =~= seq!['C' as u8, 'S' as u8, 'S' as u8]);
        }
        return r;
    }
    let lit: Vec<u8> = vec!['l' as u8, 'e' as u8, 's' as u8, 's' as u8];
    proof {
        assert(lit@ =~= seq!['l' as u8, 'e' as u8, 's' as u8, 's' as u8]);
    }
    if bytes_eq(e, lit.as_slice()) {
        let r: Vec<u8> = vec!['C' as u8, 'S' as u8, 'S' as u8];
        proof {
            lemma_ext_css(e@);
            assert(r@ =~= seq!['C' as u8, 'S' as u8, 'S' as u8]);
        }
        return r;
    }
    let lit: Vec<u8> = vec!['h' as u8, 't' as u8, 'm' as u8, 'l' as u8];
    proof {
        assert(lit@ =~= seq!['h' as u8, 't' as u8, 'm' as u8, 'l' as u8]);
    }
    if bytes_eq(e, lit.as_slice()) {
        let r: Vec<u8> = vec!['H' as u8, 'T' as u8, 'M' as u8, 'L' as u8];
        proof {
            lemma_ext_html(e@);
            assert(r@ =~= seq!['H' as u8, 'T' as u8, 'M' as u8, 'L' as u8]);
        }
        return r;
    }
    let lit: Vec<u8> = vec!['h' as u8, 't' as u8, 'm' as u8];
    proof {
        assert(lit@ =~= seq!['h' as u8, 't' as u8, 'm' as u8]);
    }
    if bytes_eq(e, lit.as_slice()) {
        let r: Vec<u8> = vec!['H' as u8, 'T' as u8, 'M' as u8, 'L' as u8];
        proof {
            lemma_ext_html(e@);
            assert(r@ =~= seq!['H' as u8, 'T' as u8, 'M' as u8, 'L' as u8]);
        }
        return r;
    }
    let lit: Vec<u8> = vec!['x' as u8, 'h' as u8, 't' as u8, 'm' as u8, 'l' as u8];
    proof {
        assert(lit@ =~= seq!['x' as u8, 'h' as u8, 't' as u8, 'm' as u8, 'l' as u8]);
    }
    if bytes_eq(e, lit.as_slice()) {
        let r: Vec<u8> = vec!['H' as u8, 'T' as u8, 'M' as u8, 'L' as u8];
        proof {
            lemma_ext_html(e@);
            assert(r@ =~= seq!['H' as u8, 'T' as u8, 'M' as u8, 'L' as u8]);
        }
        return r;
    }
    let lit: Vec<u8> = vec!['s' as u8, 'h' as u8];
    proof {
        assert(lit@ =~= seq!['s' as u8, 'h' as u8]);
    }
    if bytes_eq(e, lit.as_slice()) {
        let r: Vec<u8> = vec!['S' as u8, 'h' as u8, 'e' as u8, 'l' as u8, 'l' as u8];
        proof {
            lemma_ext_shell(e@);
            assert(r@ =~= seq!['S' as u8, 'h' as u8, 'e' as u8, 'l' as u8, 'l' as u8]);
        }
        return r;
    }
    let lit: Vec<u8> = vec!['b' as u8, 'a' as u8, 's' as u8, 'h' as u8];
    proof {
        assert(lit@ =~= seq!['b' as u8, 'a' as u8, 's' as u8, 'h' as u8]);
    }
    if bytes_eq(e, lit.as_slice()) {
        let r: Vec<u8> = vec!['S' as u8, 'h' as u8, 'e' as u8, 'l' as u8, 'l' as u8];
        proof {
            lemma_ext_shell(e@);
            assert(r@ =~= seq!['S' as u8, 'h' as u8, 'e' as u8, 'l' as u8, 'l' as u8]);
        }
        return r;
    }
    let lit: Vec<u8> = vec!['z' as u8, 's' as u8, 'h' as u8];
    proof {
        assert(lit@ =~= seq!['z' as u8, 's' as u8, 'h' as u8]);
    }
    if bytes_eq(e, lit.as_slice()) {
        let r: Vec<u8> = vec!['S' as u8, 'h' as u8, 'e' as u8, 'l' as u8, 'l' as u8];
        proof {
            lemma_ext_shell(e@);
            assert(r@ =~= seq!['S' as u8, 'h' as u8, 'e' as u8, 'l' as u8, 'l' as u8]);
        }
        return r;
    }
    let lit: Vec<u8> = vec!['r' as u8, 's' as u8];
    proof {
        assert(lit@ =~= seq!['r' as u8, 's' as u8]);
    }
    if bytes_eq(e, lit.as_slice()) {
        let r: Vec<u8> = vec!['R' as u8, 'u' as u8, 's' as u8, 't' as u8];
        proof {
            lemma_ext_rust(e@);
            assert(r@ =~= seq!['R' as u8, 'u' as u8, 's' as u8, 't' as u8]);
        }
        return r;
    }
    let lit: Vec<u8> = vec!['g' as u8, 'o' as u8];
    proof {
        assert(lit@ =~= seq!['g' as u8, 'o' as u8]);
    }
    if bytes_eq(e, lit.as_slice()) {
        let r: Vec<u8> = vec!['G' as u8, 'o' as u8];
        proof {
            lemma_ext_go(e@);
            assert(r@ =~= seq!['G' as u8, 'o' as u8]);
        }
        return r;
    }
    let lit: Vec<u8> = vec!['m' as u8, 'o' as u8, 'd' as u8];
    proof {
        assert(lit@ =~= seq!['m' as u8, 'o' as u8, 'd' as u8]);
    }
    if bytes_eq(e, lit.as_slice()) {
        let r: Vec<u8> = vec!['G' as u8, 'o' as u8];
        proof {
            lemma_ext_go(e@);
            assert(r@ =~= seq!['G' as u8, 'o' as u8]);
        }
        return r;
    }
    let lit: Vec<u8> = vec!['j' as u8, 'a' as u8, 'v' as u8, 'a' as u8];
    proof {
        assert(lit@ =~= seq!['j' as u8, 'a' as u8, 'v' as u8, 'a' as u8]);
    }
    if bytes_eq(e, lit.as_slice()) {
        let r: Vec<u8> = vec!['J' as u8, 'a' as u8, 'v' as u8, 'a' as u8];
        proof {
            lemma_ext_java(e@);
            assert(r@ =~= seq!['J' as u8, 'a' as u8, 'v' as u8, 'a' as u8]);
        }
        return r;
    }
    let lit: Vec<u8> = vec!['k' as u8, 't' as u8];
    proof {
        assert(lit@ =~= seq!['k' as u8, 't' as u8]);
    }
    if bytes_eq(e, lit.as_slice()) {
        let r: Vec<u8> = vec!['J' as u8, 'a' as u8, 'v' as u8, 'a' as u8];
        proof {
            lemma_ext_java(e@);
            assert(r@ =~= seq!['J' as u8, 'a' as u8, 'v' as u8, 'a' as u8]);
        }
        return r;
    }
    let lit: Vec<u8> = vec!['k' as u8, 't' as u8, 's' as u8];
    proof {
        assert(lit@ =~= seq!['k' as u8, 't' as u8, 's' as u8]);
    }
    if bytes_eq(e, lit.as_slice()) {
        let r: Vec<u8> = vec!['J' as u8, 'a' as u8, 'v' as u8, 'a' as u8];
        proof {
            lemma_ext_java(e@);
            assert(r@ =~= seq!['J' as u8, 'a' as u8, 'v' as u8, 'a' as u8]);
        }
        return r;
    }
    let lit: Vec<u8> = vec!['v' as u8, 'u' as u8, 'e' as u8];
    proof {
        assert(lit@ =~= seq!['v' as u8, 'u' as u8, 'e' as u8]);
    }
    if bytes_eq(e, lit.as_slice()) {
        let r: Vec<u8> = vec!['V' as u8, 'u' as u8, 'e' as u8];
        proof {
            lemma_ext_vue(e@);
            assert(r@ =~= seq!['V' as u8, 'u' as u8, 'e' as u8]);
        }
        return r;
    }
    let lit: Vec<u8> = vec!['r' as u8, 'b' as u8];
    proof {
        assert(lit@ =~= seq!['r' as u8, 'b' as u8]);
    }
    if bytes_eq(e, lit.as_slice()) {
        let r: Vec<u8> = vec!['R' as u8, 'u' as u8, 'b' as u8, 'y' as u8];
        proof {
            lemma_ext_ruby(e@);
            assert(r@ =~= seq!['R' as u8, 'u' as u8, 'b' as u8, 'y' as u8]);
        }
        return r;
    }
    let lit: Vec<u8> = vec!['r' as u8, 'a' as u8, 'k' as u8, 'e' as u8];
    proof {
        assert(lit@ =~= seq!['r' as u8, 'a' as u8, 'k' as u8, 'e' as u8]);
    }
    if bytes_eq(e, lit.as_slice()) {
        let r: Vec<u8> = vec!['R' as u8, 'u' as u8, 'b' as u8, 'y' as u8];
        proof {
            lemma_ext_ruby(e@);
            assert(r@ =~= seq!['R' as u8, 'u' as u8, 'b' as u8, 'y' as u8]);
        }
        return r;
    }
    let lit: Vec<u8> = vec!['g' as u8, 'e' as u8, 'm' as u8, 's' as u8, 'p' as u8, 'e' as u8, 'c' as u8];
    proof {
        assert(lit@ =~= seq!['g' as u8, 'e' as u8, 'm' as u8, 's' as u8, 'p' as u8, 'e' as u8, 'c' as u8]);
    }
    if bytes_eq(e, lit.as_slice()) {
        let r: Vec<u8> = vec!['R' as u8, 'u' as u8, 'b' as u8, 'y' as u8];
        proof {
            lemma_ext_ruby(e@);
            assert(r@ =~= seq!['R' as u8, 'u' as u8, 'b' as u8, 'y' as u8]);
        }
        return r;
    }
    let lit: Vec<u8> = vec!['p' as u8, 'h' as u8, 'p' as u8];
    proof {
        assert(lit@ =~= seq!['p' as u8, 'h' as u8, 'p' as u8]);
    }
    if bytes_eq(e, lit.as_slice()) {
        let r: Vec<u8> = vec!['P' as u8, 'H' as u8, 'P' as u8];
        proof {
            lemma_ext_php(e@);
            assert(r@ =~= seq!['P' as u8, 'H' as u8, 'P' as u8]);
        }
        return r;
    }
    let lit: Vec<u8> = vec!['p' as u8, 'h' as u8, 'p' as u8, '5' as u8];
    proof {
        assert(lit@ =~= seq!['p' as u8, 'h' as u8, 'p' as u8, '5' as u8]);
    }
    if bytes_eq(e, lit.as_slice()) {
        let r: Vec<u8> = vec!['P' as u8, 'H' as u8, 'P' as u8];
        proof {
            lemma_ext_php(e@);
            assert(r@ =~= seq!['P' as u8, 'H' as u8, 'P' as u8]);
        }
        return r;
    }
    let lit: Vec<u8> = vec!['p' as u8, 'h' as u8, 't' as u8, 'm' as u8, 'l' as u8];
    proof {
        assert(lit@ =~= seq!['p' as u8, 'h' as u8, 't' as u8, 'm' as u8, 'l' as u8]);
    }
    if bytes_eq(e, lit.as_slice()) {
        let r: Vec<u8> = vec!['P' as u8, 'H' as u8, 'P' as u8];
        proof {
            lemma_ext_php(e@);
            assert(r@ =~= seq!['P' as u8, 'H' as u8, 'P' as u8]);
        }
        return r;
    }
    let lit: Vec<u8> = vec!['c' as u8];
    proof {
        assert(lit@ =~= seq!['c' as u8]);
    }
    if bytes_eq(e, lit.as_slice()) {
        let r: Vec<u8> = vec!['C' as u8];
        proof {
            lemma_ext_c(e@);
            assert(r@ =~= seq!['C' as u8]);
        }
        return r;
    }
    let lit: Vec<u8> = vec!['h' as u8];
    proof {
        assert(lit@ =~= seq!['h' as u8]);
    }
    if bytes_eq(e, lit.as_slice()) {
        let r: Vec<u8> = vec!['C' as u8];
        proof {
            lemma_ext_c(e@);
            assert(r@ =~= seq!['C' as u8]);
        }
        return r;
    }
    let lit: Vec<u8> = vec!['c' as u8, 'p' as u8, 'p' as u8];
    proof {
        assert(lit@ =~= seq!['c' as u8, 'p' as u8, 'p' as u8]);
    }
    if bytes_eq(e, lit.as_slice()) {
        let r: Vec<u8> = vec!['C' as u8, '+' as u8, '+' as u8];
        proof {
            lemma_ext_cpp(e@);
            assert(r@ =~= seq!['C' as u8, '+' as u8, '+' as u8]);
        }
        return r;
    }
    let lit: Vec<u8> = vec!['h' as u8, 'p' as u8, 'p' as u8];
    proof {
        assert(lit@ =~= seq!['h' as u8, 'p' as u8, 'p' as u8]);
    }
    if bytes_eq(e, lit.as_slice()) {
        let r: Vec<u8> = vec!['C' as u8, '+' as u8, '+' as u8];
        proof {
            lemma_ext_cpp(e@);
            assert(r@ =~= seq!['C' as u8, '+' as u8, '+' as u8]);
        }
        return r;
    }
    let lit: Vec<u8> = vec!['c' as u8, 'c' as u8];
    proof {
        assert(lit@ =~= seq!['c' as u8, 'c' as u8]);
    }
    if bytes_eq(e, lit.as_slice()) {
        let r: Vec<u8> = vec!['C' as u8, '+' as u8, '+' as u8];
        proof {
            lemma_ext_cpp(e@);
            assert(r@ =~= seq!['C' as u8, '+' as u8, '+' as u8]);
        }
        return r;
    }
    let lit: Vec<u8> = vec!['c' as u8, 'x' as u8, 'x' as u8];
    proof {
        assert(lit@ =~= seq!['c' as u8, 'x' as u8, 'x' as u8]);
    }
    if bytes_eq(e, lit.as_slice()) {
        let r: Vec<u8> = vec!['C' as u8, '+' as u8, '+' as u8];
        proof {
            lemma_ext_cpp(e@);
            assert(r@ =~= seq!['C' as u8, '+' as u8, '+' as u8]);
        }
        return r;
    }
    let lit: Vec<u8> = vec!['h' as u8, 'x' as u8, 'x' as u8];
    proof {
        assert(lit@ =~= seq!['h' as u8, 'x' as u8, 'x' as u8]);
    }
    if bytes_eq(e, lit.as_slice()) {
        let r: Vec<u8> = vec!['C' as u8, '+' as u8, '+' as u8];
        proof {
            lemma_ext_cpp(e@);
            assert(r@ =~= seq!['C' as u8, '+' as u8, '+' as u8]);
        }
        return r;
    }
    let lit: Vec<u8> = vec!['s' as u8, 'w' as u8, 'i' as u8, 'f' as u8, 't' as u8];
    proof {
        assert(lit@ =~= seq!['s' as u8, 'w' as u8, 'i' as u8, 'f' as u8, 't' as u8]);
    }
    if bytes_eq(e, lit.as_slice()) {
        let r: Vec<u8> = vec!['S' as u8, 'w' as u8, 'i' as u8, 'f' as u8, 't' as u8];
        proof {
            lemma_ext_swift(e@);
            assert(r@ =~= seq!['S' as u8, 'w' as u8, 'i' as u8, 'f' as u8, 't' as u8]);
        }
        return r;
    }
    let lit: Vec<u8> = vec!['m' as u8];
    proof {
        assert(lit@ =~= seq!['m' as u8]);
    }
    if bytes_eq(e, lit.as_slice()) {
        let r: Vec<u8> = vec!['O' as u8, 'b' as u8, 'j' as u8, 'e' as u8, 'c' as u8, 't' as u8, 'i' as u8, 'v' as u8, 'e' as u8, '-' as u8, 'C' as u8];
        proof {
            lemma_ext_objective_c(e@);
            assert(r@ =~= seq!['O' as u8, 'b' as u8, 'j' as u8, 'e' as u8, 'c' as u8, 't' as u8, 'i' as u8, 'v' as u8, 'e' as u8, '-' as u8, 'C' as u8]);
        }
        return r;
    }
    let lit: Vec<u8> = vec!['m' as u8, 'm' as u8];
    proof {
        assert(lit@ =~= seq!['m' as u8, 'm' as u8]);
    }
    if bytes_eq(e, lit.as_slice()) {
        let r: Vec<u8> = vec!['O' as u8, 'b' as u8, 'j' as u8, 'e' as u8, 'c' as u8, 't' as u8, 'i' as u8, 'v' as u8, 'e' as u8, '-' as u8, 'C' as u8];
        proof {
            lemma_ext_objective_c(e@);
            assert(r@ =~= seq!['O' as u8, 'b' as u8, 'j' as u8, 'e' as u8, 'c' as u8, 't' as u8, 'i' as u8, 'v' as u8, 'e' as u8, '-' as u8, 'C' as u8]);
        }
        return r;
    }
    let lit: Vec<u8> = vec!['c' as u8, 's' as u8];
    proof {
        assert(lit@ =~= seq!['c' as u8, 's' as u8]);
    }
    if bytes_eq(e, lit.as_slice()) {
        let r: Vec<u8> = vec!['C' as u8, '#' as u8];
        proof {
            lemma_ext_cs(e@);
            assert(r@ =~= seq!['C' as u8, '#' as u8]);
        }
        return r;
    }
    let lit: Vec<u8> = vec!['p' as u8, 'l' as u8];
    proof {
        assert(lit@ =~= seq!['p' as u8, 'l' as u8]);
    }
    if bytes_eq(e, lit.as_slice()) {
        let r: Vec<u8> = vec!['P' as u8, 'e' as u8, 'r' as u8, 'l' as u8];
        proof {
            lemma_ext_perl(e@);
            assert(r@ =~= seq!['P' as u8, 'e' as u8, 'r' as u8, 'l' as u8]);
        }
        return r;
    }
    let lit: Vec<u8> = vec!['p' as u8, 'm' as u8];
    proof {
        assert(lit@ =~= seq!['p' as u8, 'm' as u8]);
    }
    if bytes_eq(e, lit.as_slice()) {
        let r: Vec<u8> = vec!['P' as u8, 'e' as u8, 'r' as u8, 'l' as u8];
        proof {
            lemma_ext_perl(e@);
            assert(r@ =~= seq!['P' as u8, 'e' as u8, 'r' as u8, 'l' as u8]);
        }
        return r;
    }
    let lit: Vec<u8> = vec!['s' as u8, 'c' as u8, 'a' as u8, 'l' as u8, 'a' as u8];
    proof {
        assert(lit@ =~= seq!['s' as u8, 'c' as u8, 'a' as u8, 'l' as u8, 'a' as u8]);
    }
    if bytes_eq(e, lit.as_slice()) {
        let r: Vec<u8> = vec!['S' as u8, 'c' as u8, 'a' as u8, 'l' as u8, 'a' as u8];
        proof {
            lemma_ext_scala(e@);
            assert(r@ =~= seq!['S' as u8, 'c' as u8, 'a' as u8, 'l' as u8, 'a' as u8]);
        }
        return r;
    }
    let lit: Vec<u8> = vec!['l' as u8, 'u' as u8, 'a' as u8];
    proof {
        assert(lit@ =~= seq!['l' as u8, 'u' as u8, 'a' as u8]);
    }
    if bytes_eq(e, lit.as_slice()) {
        let r: Vec<u8> = vec!['L' as u8, 'u' as u8, 'a' as u8];
        proof {
            lemma_ext_lua(e@);
            assert(r@ =~= seq!['L' as u8, 'u' as u8, 'a' as u8]);
        }
        return r;
    }
    let lit: Vec<u8> = vec!['r' as u8];
    proof {
        assert(lit@ =~= seq!['r' as u8]);
    }
    if bytes_eq(e, lit.as_slice()) {
        let r: Vec<u8> = vec!['R' as u8];
        proof {
            lemma_ext_r(e@);
            assert(r@ =~= seq!['R' as u8]);
        }
        return r;
    }
    let lit: Vec<u8> = vec!['d' as u8, 'a' as u8, 'r' as u8, 't' as u8];
    proof {
        assert(lit@ =~= seq!['d' as u8, 'a' as u8, 'r' as u8, 't' as u8]);
    }
    if bytes_eq(e, lit.as_slice()) {
        let r: Vec<u8> = vec!['D' as u8, 'a' as u8, 'r' as u8, 't' as u8];
        proof {
            lemma_ext_dart(e@);
            assert(r@ =~= seq!['D' as u8, 'a' as u8, 'r' as u8, 't' as u8]);
        }
        return r;
    }
    let lit: Vec<u8> = vec!['e' as u8, 'x' as u8];
    proof {
        assert(lit@ =~= seq!['e' as u8, 'x' as u8]);
    }
    if bytes_eq(e, lit.as_slice()) {
        let r: Vec<u8> = vec!['E' as u8, 'l' as u8, 'i' as u8, 'x' as u8, 'i' as u8, 'r' as u8];
        proof {
            lemma_ext_elixir(e@);
            assert(r@ =~= seq!['E' as u8, 'l' as u8, 'i' as u8, 'x' as u8, 'i' as u8, 'r' as u8]);
        }
        return r;
    }
    let lit: Vec<u8> = vec!['e' as u8, 'x' as u8, 's' as u8];
    proof {
        assert(lit@ =~= seq!['e' as u8, 'x' as u8, 's' as u8]);
    }
    if bytes_eq(e, lit.as_slice()) {
        let r: Vec<u8> = vec!['E' as u8, 'l' as u8, 'i' as u8, 'x' as u8, 'i' as u8, 'r' as u8];
        proof {
            lemma_ext_elixir(e@);
            assert(r@ =~= seq!['E' as u8, 'l' as u8, 'i' as u8, 'x' as u8, 'i' as u8, 'r' as u8]);
        }
        return r;
    }
    let lit: Vec<u8> = vec!['h' as u8, 's' as u8];
    proof {
        assert(lit@ =~= seq!['h' as u8, 's' as u8]);
    }
    if bytes_eq(e, lit.as_slice()) {
        let r: Vec<u8> = vec!['H' as u8, 'a' as u8, 's' as u8, 'k' as u8, 'e' as u8, 'l' as u8, 'l' as u8];
        proof {
            lemma_ext_haskell(e@);
            assert(r@ =~= seq!['H' as u8, 'a' as u8, 's' as u8, 'k' as u8, 'e' as u8, 'l' as u8, 'l' as u8]);
        }
        return r;
    }
    let lit: Vec<u8> = vec!['d' as u8, 'o' as u8, 'c' as u8, 'k' as u8, 'e' as u8, 'r' as u8, 'f' as u8, 'i' as u8, 'l' as u8, 'e' as u8];
    proof {
        assert(lit@ =~= seq!['d' as u8, 'o' as u8, 'c' as u8, 'k' as u8, 'e' as u8, 'r' as u8, 'f' as u8, 'i' as u8, 'l' as u8, 'e' as u8]);
    }
    if bytes_eq(e, lit.as_slice()) {
        let r: Vec<u8> = vec!['D' as u8, 'o' as u8, 'c' as u8, 'k' as u8, 'e' as u8, 'r' as u8, 'f' as u8, 'i' as u8, 'l' as u8, 'e' as u8];
        proof {
            lemma_ext_dockerfile(e@);
            assert(r@ =~= seq!['D' as u8, 'o' as u8, 'c' as u8, 'k' as u8, 'e' as u8, 'r' as u8, 'f' as u8, 'i' as u8, 'l' as u8, 'e' as u8]);
        }
        return r;
    }
    let r: Vec<u8> = vec!['O' as u8, 't' as u8, 'h' as u8, 'e' as u8, 'r' as u8];
    proof {
        assert(r@ =~= seq!['O' as u8, 't' as u8, 'h' as u8, 'e' as u8, 'r' as u8]);
    }
    r
}

/// The fixed built-in set of ignored extensions (binary, media,
/// archive, markup and structured-data formats), matched exactly.
pub open spec fn builtin_ignored_ext(e: Seq<u8>) -> bool {
    e == seq!['e' as u8, 'x' as u8, 'e' as u8]
        || e == seq!['d' as u8, 'l' as u8, 'l' as u8]
        || e == seq!['s' as u8, 'o' as u8]
        || e == seq!['d' as u8, 'y' as u8, 'l' as u8, 'i' as u8, 'b' as u8]
        || e == seq!['p' as u8, 'y' as u8, 'c' as u8]
        || e == seq!['j' as u8, 'a' as u8, 'r' as u8]
        || e == seq!['w' as u8, 'a' as u8, 'r' as u8]
        || e == seq!['e' as u8, 'a' as u8, 'r' as u8]
        || e == seq!['z' as u8, 'i' as u8, 'p' as u8]
        || e == seq!['t' as u8, 'a' as u8, 'r' as u8]
        || e == seq!['g' as u8, 'z' as u8]
        || e == seq!['7' as u8, 'z' as u8]
        || e == seq!['r' as u8, 'a' as u8, 'r' as u8]
        || e == seq!['p' as u8, 'd' as u8, 'f' as u8]
        || e == seq!['d' as u8, 'o' as u8, 'c' as u8]
        || e == seq!['d' as u8, 'o' as u8, 'c' as u8, 'x' as u8]
        || e == seq!['x' as u8, 'l' as u8, 's' as u8]
        || e == seq!['x' as u8, 'l' as u8, 's' as u8, 'x' as u8]
        || e == seq!['p' as u8, 'n' as u8, 'g' as u8]
        || e == seq!['j' as u8, 'p' as u8, 'g' as u8]
        || e == seq!['j' as u8, 'p' as u8, 'e' as u8, 'g' as u8]
        || e == seq!['g' as u8, 'i' as u8, 'f' as u8]
        || e == seq!['b' as u8, 'm' as u8, 'p' as u8]
        || e == seq!['i' as u8, 'c' as u8, 'o' as u8]
        || e == seq!['s' as u8, 'v' as u8, 'g' as u8]
        || e == seq!['t' as u8, 't' as u8, 'f' as u8]
        || e == seq!['o' as u8, 't' as u8, 'f' as u8]
        || e == seq!['w' as u8, 'o' as u8, 'f' as u8, 'f' as u8]
        || e == seq!['w' as u8, 'o' as u8, 'f' as u8, 'f' as u8, '2' as u8]
        || e == seq!['e' as u8, 'o' as u8, 't' as u8]
        || e == seq!['m' as u8, 'p' as u8, '3' as u8]
        || e == seq!['m' as u8, 'p' as u8, '4' as u8]
        || e == seq!['a' as u8, 'v' as u8, 'i' as u8]
        || e == seq!['m' as u8, 'o' as u8, 'v' as u8]
        || e == seq!['w' as u8, 'm' as u8, 'v' as u8]
        || e == seq!['w' as u8, 'a' as u8, 'v' as u8]
        || e == seq!['f' as u8, 'l' as u8, 'a' as u8, 'c' as u8]
        || e == seq!['o' as u8, 'g' as u8, 'g' as u8]
        || e == seq!['w' as u8, 'e' as u8, 'b' as u8, 'm' as u8]
        || e == seq!['l' as u8, 'o' as u8, 'c' as u8, 'k' as u8]
        || e == seq!['p' as u8, 'r' as u8, 'o' as u8, 't' as u8, 'o' as u8]
        || e == seq!['m' as u8, 'd' as u8]
        || e == seq!['m' as u8, 'a' as u8, 'r' as u8, 'k' as u8, 'd' as u8, 'o' as u8, 'w' as u8, 'n' as u8]
        || e == seq!['r' as u8, 's' as u8, 't' as u8]
        || e == seq!['t' as u8, 'x' as u8, 't' as u8]
        || e == seq!['a' as u8, 'd' as u8, 'o' as u8, 'c' as u8]
        || e == seq!['a' as u8, 's' as u8, 'c' as u8, 'i' as u8, 'i' as u8, 'd' as u8, 'o' as u8, 'c' as u8]
        || e == seq!['j' as u8, 's' as u8, 'o' as u8, 'n' as u8]
        || e == seq!['y' as u8, 'a' as u8, 'm' as u8, 'l' as u8]
        || e == seq!['y' as u8, 'm' as u8, 'l' as u8]
        || e == seq!['x' as u8, 'm' as u8, 'l' as u8]
        || e == seq!['t' as u8, 'o' as u8, 'm' as u8, 'l' as u8]
        || e == seq!['i' as u8, 'n' as u8, 'i' as u8]
        || e == seq!['c' as u8, 'f' as u8, 'g' as u8]
        || e == seq!['c' as u8, 'o' as u8, 'n' as u8, 'f' as u8]
        || e == seq!['p' as u8, 'r' as u8, 'o' as u8, 'p' as u8, 'e' as u8, 'r' as u8, 't' as u8, 'i' as u8, 'e' as u8, 's' as u8]
        || e == seq!['p' as u8, 'r' as u8, 'o' as u8, 'p' as u8]
        || e == seq!['e' as u8, 'n' as u8, 'v' as u8]
        || e == seq!['b' as u8, 'a' as u8, 't' as u8]
}

/// Built-in ignored-extension test, executable form.
pub fn is_builtin_ignored_ext(e: &[u8]) -> (r: bool)
    ensures
        r == builtin_ignored_ext(e@),
{
    if bytes_eq(e, vec!['e' as u8, 'x' as u8, 'e' as u8].as_slice()) {
        return true;
    }
    if bytes_eq(e, vec!['d' as u8, 'l' as u8, 'l' as u8].as_slice()) {
        return true;
    }
    if bytes_eq(e, vec!['s' as u8, 'o' as u8].as_slice()) {
        return true;
    }
    if bytes_eq(e, vec!['d' as u8, 'y' as u8, 'l' as u8, 'i' as u8, 'b' as u8].as_slice()) {
        return true;
    }
    if bytes_eq(e, vec!['p' as u8, 'y' as u8, 'c' as u8].as_slice()) {
        return true;
    }
    if bytes_eq(e, vec!['j' as u8, 'a' as u8, 'r' as u8].as_slice()) {
        return true;
    }
    if bytes_eq(e, vec!['w' as u8, 'a' as u8, 'r' as u8].as_slice()) {
        return true;
    }
    if bytes_eq(e, vec!['e' as u8, 'a' as u8, 'r' as u8].as_slice()) {
        return true;
    }
    if bytes_eq(e, vec!['z' as u8, 'i' as u8, 'p' as u8].as_slice()) {
        return true;
    }
    if bytes_eq(e, vec!['t' as u8, 'a' as u8, 'r' as u8].as_slice()) {
        return true;
    }
    if bytes_eq(e, vec!['g' as u8, 'z' as u8].as_slice()) {
        return true;
    }
    if bytes_eq(e, vec!['7' as u8, 'z' as u8].as_slice()) {
        return true;
    }
    if bytes_eq(e, vec!['r' as u8, 'a' as u8, 'r' as u8].as_slice()) {
        return true;
    }
    if bytes_eq(e, vec!['p' as u8, 'd' as u8, 'f' as u8].as_slice()) {
        return true;
    }
    if bytes_eq(e, vec!['d' as u8, 'o' as u8, 'c' as u8].as_slice()) {
        return true;
    }
    if bytes_eq(e, vec!['d' as u8, 'o' as u8, 'c' as u8, 'x' as u8].as_slice()) {
        return true;
    }
    if bytes_eq(e, vec!['x' as u8, 'l' as u8, 's' as u8].as_slice()) {
        return true;
    }
    if bytes_eq(e, vec!['x' as u8, 'l' as u8, 's' as u8, 'x' as u8].as_slice()) {
        return true;
    }
    if bytes_eq(e, vec!['p' as u8, 'n' as u8, 'g' as u8].as_slice()) {
        return true;
    }
    if bytes_eq(e, vec!['j' as u8, 'p' as u8, 'g' as u8].as_slice()) {
        return true;
    }
    if bytes_eq(e, vec!['j' as u8, 'p' as u8, 'e' as u8, 'g' as u8].as_slice()) {
        return true;
    }
    if bytes_eq(e, vec!['g' as u8, 'i' as u8, 'f' as u8].as_slice()) {
        return true;
    }
    if bytes_eq(e, vec!['b' as u8, 'm' as u8, 'p' as u8].as_slice()) {
        return true;
    }
    if bytes_eq(e, vec!['i' as u8, 'c' as u8, 'o' as u8].as_slice()) {
        return true;
    }
    if bytes_eq(e, vec!['s' as u8, 'v' as u8, 'g' as u8].as_slice()) {
        return true;
    }
    if bytes_eq(e, vec!['t' as u8, 't' as u8, 'f' as u8].as_slice()) {
        return true;
    }
    if bytes_eq(e, vec!['o' as u8, 't' as u8, 'f' as u8].as_slice()) {
        return true;
    }
    if bytes_eq(e, vec!['w' as u8, 'o' as u8, 'f' as u8, 'f' as u8].as_slice()) {
        return true;
    }
    if bytes_eq(e, vec!['w' as u8, 'o' as u8, 'f' as u8, 'f' as u8, '2' as u8].as_slice()) {
        return true;
    }
    if bytes_eq(e, vec!['e' as u8, 'o' as u8, 't' as u8].as_slice()) {
        return true;
    }
    if bytes_eq(e, vec!['m' as u8, 'p' as u8, '3' as u8].as_slice()) {
        return true;
    }
    if bytes_eq(e, vec!['m' as u8, 'p' as u8, '4' as u8].as_slice()) {
        return true;
    }
    if bytes_eq(e, vec!['a' as u8, 'v' as u8, 'i' as u8].as_slice()) {
        return true;
    }
    if bytes_eq(e, vec!['m' as u8, 'o' as u8, 'v' as u8].as_slice()) {
        return true;
    }
    if bytes_eq(e, vec!['w' as u8, 'm' as u8, 'v' as u8].as_slice()) {
        return true;
    }
    if bytes_eq(e, vec!['w' as u8, 'a' as u8, 'v' as u8].as_slice()) {
        return true;
    }
    if bytes_eq(e, vec!['f' as u8, 'l' as u8, 'a' as u8, 'c' as u8].as_slice()) {
        return true;
    }
    if bytes_eq(e, vec!['o' as u8, 'g' as u8, 'g' as u8].as_slice()) {
        return true;
    }
    if bytes_eq(e, vec!['w' as u8, 'e' as u8, 'b' as u8, 'm' as u8].as_slice()) {
        return true;
    }
    if bytes_eq(e, vec!['l' as u8, 'o' as u8, 'c' as u8, 'k' as u8].as_slice()) {
        return true;
    }
    if bytes_eq(e, vec!['p' as u8, 'r' as u8, 'o' as u8, 't' as u8, 'o' as u8].as_slice()) {
        return true;
    }
    if bytes_eq(e, vec!['m' as u8, 'd' as u8].as_slice()) {
        return true;
    }
    if bytes_eq(e, vec!['m' as u8, 'a' as u8, 'r' as u8, 'k' as u8, 'd' as u8, 'o' as u8, 'w' as u8, 'n' as u8].as_slice()) {
        return true;
    }
    if bytes_eq(e, vec!['r' as u8, 's' as u8, 't' as u8].as_slice()) {
        return true;
    }
    if bytes_eq(e, vec!['t' as u8, 'x' as u8, 't' as u8].as_slice()) {
        return true;
    }
    if bytes_eq(e, vec!['a' as u8, 'd' as u8, 'o' as u8, 'c' as u8].as_slice()) {
        return true;
    }
    if bytes_eq(e, vec!['a' as u8, 's' as u8, 'c' as u8, 'i' as u8, 'i' as u8, 'd' as u8, 'o' as u8, 'c' as u8].as_slice()) {
        return true;
    }
    if bytes_eq(e, vec!['j' as u8, 's' as u8, 'o' as u8, 'n' as u8].as_slice()) {
        return true;
    }
    if bytes_eq(e, vec!['y' as u8, 'a' as u8, 'm' as u8, 'l' as u8].as_slice()) {
        return true;
    }
    if bytes_eq(e, vec!['y' as u8, 'm' as u8, 'l' as u8].as_slice()) {
        return true;
    }
    if bytes_eq(e, vec!['x' as u8, 'm' as u8, 'l' as u8].as_slice()) {
        return true;
    }
    if bytes_eq(e, vec!['t' as u8, 'o' as u8, 'm' as u8, 'l' as u8].as_slice()) {
        return true;
    }
    if bytes_eq(e, vec!['i' as u8, 'n' as u8, 'i' as u8].as_slice()) {
        return true;
    }
    if bytes_eq(e, vec!['c' as u8, 'f' as u8, 'g' as u8].as_slice()) {
        return true;
    }
    if bytes_eq(e, vec!['c' as u8, 'o' as u8, 'n' as u8, 'f' as u8].as_slice()) {
        return true;
    }
    if bytes_eq(e, vec!['p' as u8, 'r' as u8, 'o' as u8, 'p' as u8, 'e' as u8, 'r' as u8, 't' as u8, 'i' as u8, 'e' as u8, 's' as u8].as_slice()) {
        return true;
    }
    if bytes_eq(e, vec!['p' as u8, 'r' as u8, 'o' as u8, 'p' as u8].as_slice()) {
        return true;
    }
    if bytes_eq(e, vec!['e' as u8, 'n' as u8, 'v' as u8].as_slice()) {
        return true;
    }
    if bytes_eq(e, vec!['b' as u8, 'a' as u8, 't' as u8].as_slice()) {
        return true;
    }
    false
}

/// The fixed built-in set of ignored basenames (package and lock
/// manifests, licence, readme and changelog files).
pub open spec fn builtin_ignored_name(b: Seq<u8>) -> bool {
    b == seq!['C' as u8, 'a' as u8, 'r' as u8, 'g' as u8, 'o' as u8, '.' as u8, 't' as u8, 'o' as u8, 'm' as u8, 'l' as u8]
        || b == seq!['C' as u8, 'a' as u8, 'r' as u8, 'g' as u8, 'o' as u8, '.' as u8, 'l' as u8, 'o' as u8, 'c' as u8, 'k' as u8]
        || b == seq!['p' as u8, 'a' as u8, 'c' as u8, 'k' as u8, 'a' as u8, 'g' as u8, 'e' as u8, '.' as u8, 'j' as u8, 's' as u8, 'o' as u8, 'n' as u8]
        || b == seq!['p' as u8, 'a' as u8, 'c' as u8, 'k' as u8, 'a' as u8, 'g' as u8, 'e' as u8, '-' as u8, 'l' as u8, 'o' as u8, 'c' as u8, 'k' as u8, '.' as u8, 'j' as u8, 's' as u8, 'o' as u8, 'n' as u8]
        || b == seq!['y' as u8, 'a' as u8, 'r' as u8, 'n' as u8, '.' as u8, 'l' as u8, 'o' as u8, 'c' as u8, 'k' as u8]
        || b == seq!['G' as u8, 'e' as u8, 'm' as u8, 'f' as u8, 'i' as u8, 'l' as u8, 'e' as u8]
        || b == seq!['G' as u8, 'e' as u8, 'm' as u8, 'f' as u8, 'i' as u8, 'l' as u8, 'e' as u8, '.' as u8, 'l' as u8, 'o' as u8, 'c' as u8, 'k' as u8]
        || b == seq!['r' as u8, 'e' as u8, 'q' as u8, 'u' as u8, 'i' as u8, 'r' as u8, 'e' as u8, 'm' as u8, 'e' as u8, 'n' as u8, 't' as u8, 's' as u8, '.' as u8, 't' as u8, 'x' as u8, 't' as u8]
        || b == seq!['.' as u8, 'g' as u8, 'i' as u8, 't' as u8, 'i' as u8, 'g' as u8, 'n' as u8, 'o' as u8, 'r' as u8, 'e' as u8]
        || b == seq!['.' as u8, 'g' as u8, 'i' as u8, 't' as u8, 'a' as u8, 't' as u8, 't' as u8, 'r' as u8, 'i' as u8, 'b' as u8, 'u' as u8, 't' as u8, 'e' as u8, 's' as u8]
        || b == seq!['.' as u8, 'e' as u8, 'd' as u8, 'i' as u8, 't' as u8, 'o' as u8, 'r' as u8, 'c' as u8, 'o' as u8, 'n' as u8, 'f' as u8, 'i' as u8, 'g' as u8]
        || b == seq!['c' as u8, 'o' as u8, 'm' as u8, 'p' as u8, 'o' as u8, 's' as u8, 'e' as u8, 'r' as u8, '.' as u8, 'j' as u8, 's' as u8, 'o' as u8, 'n' as u8]
        || b == seq!['c' as u8, 'o' as u8, 'm' as u8, 'p' as u8, 'o' as u8, 's' as u8, 'e' as u8, 'r' as u8, '.' as u8, 'l' as u8, 'o' as u8, 'c' as u8, 'k' as u8]
        || b == seq!['p' as u8, 'o' as u8, 'e' as u8, 't' as u8, 'r' as u8, 'y' as u8, '.' as u8, 'l' as u8, 'o' as u8, 'c' as u8, 'k' as u8]
        || b == seq!['R' as u8, 'E' as u8, 'A' as u8, 'D' as u8, 'M' as u8, 'E' as u8, '.' as u8, 'm' as u8, 'd' as u8]
        || b == seq!['r' as u8, 'e' as u8, 'a' as u8, 'd' as u8, 'm' as u8, 'e' as u8, '.' as u8, 'm' as u8, 'd' as u8]
        || b == seq!['R' as u8, 'E' as u8, 'A' as u8, 'D' as u8, 'M' as u8, 'E' as u8]
        || b == seq!['L' as u8, 'I' as u8, 'C' as u8, 'E' as u8, 'N' as u8, 'S' as u8, 'E' as u8]
        || b == seq!['C' as u8, 'H' as u8, 'A' as u8, 'N' as u8, 'G' as u8, 'E' as u8, 'L' as u8, 'O' as u8, 'G' as u8, '.' as u8, 'm' as u8, 'd' as u8]
}

/// Built-in ignored-basename test, executable form.
pub fn is_builtin_ignored_name(b: &[u8]) -> (r: bool)
    ensures
        r == builtin_ignored_name(b@),
{
    if bytes_eq(b, vec!['C' as u8, 'a' as u8, 'r' as u8, 'g' as u8, 'o' as u8, '.' as u8, 't' as u8, 'o' as u8, 'm' as u8, 'l' as u8].as_slice()) {
        return true;
    }
    if bytes_eq(b, vec!['C' as u8, 'a' as u8, 'r' as u8, 'g' as u8, 'o' as u8, '.' as u8, 'l' as u8, 'o' as u8, 'c' as u8, 'k' as u8].as_slice()) {
        return true;
    }
    if bytes_eq(b, vec!['p' as u8, 'a' as u8, 'c' as u8, 'k' as u8, 'a' as u8, 'g' as u8, 'e' as u8, '.' as u8, 'j' as u8, 's' as u8, 'o' as u8, 'n' as u8].as_slice()) {
        return true;
    }
    if bytes_eq(b, vec!['p' as u8, 'a' as u8, 'c' as u8, 'k' as u8, 'a' as u8, 'g' as u8, 'e' as u8, '-' as u8, 'l' as u8, 'o' as u8, 'c' as u8, 'k' as u8, '.' as u8, 'j' as u8, 's' as u8, 'o' as u8, 'n' as u8].as_slice()) {
        return true;
    }
    if bytes_eq(b, vec!['y' as u8, 'a' as u8, 'r' as u8, 'n' as u8, '.' as u8, 'l' as u8, 'o' as u8, 'c' as u8, 'k' as u8].as_slice()) {
        return true;
    }
    if bytes_eq(b, vec!['G' as u8, 'e' as u8, 'm' as u8, 'f' as u8, 'i' as u8, 'l' as u8, 'e' as u8].as_slice()) {
        return true;
    }
    if bytes_eq(b, vec!['G' as u8, 'e' as u8, 'm' as u8, 'f' as u8, 'i' as u8, 'l' as u8, 'e' as u8, '.' as u8, 'l' as u8, 'o' as u8, 'c' as u8, 'k' as u8].as_slice()) {
        return true;
    }
    if bytes_eq(b, vec!['r' as u8, 'e' as u8, 'q' as u8, 'u' as u8, 'i' as u8, 'r' as u8, 'e' as u8, 'm' as u8, 'e' as u8, 'n' as u8, 't' as u8, 's' as u8, '.' as u8, 't' as u8, 'x' as u8, 't' as u8].as_slice()) {
        return true;
    }
    if bytes_eq(b, vec!['.' as u8, 'g' as u8, 'i' as u8, 't' as u8, 'i' as u8, 'g' as u8, 'n' as u8, 'o' as u8, 'r' as u8, 'e' as u8].as_slice()) {
        return true;
    }
    if bytes_eq(b, vec!['.' as u8, 'g' as u8, 'i' as u8, 't' as u8, 'a' as u8, 't' as u8, 't' as u8, 'r' as u8, 'i' as u8, 'b' as u8, 'u' as u8, 't' as u8, 'e' as u8, 's' as u8].as_slice()) {
        return true;
    }
    if bytes_eq(b, vec!['.' as u8, 'e' as u8, 'd' as u8, 'i' as u8, 't' as u8, 'o' as u8, 'r' as u8, 'c' as u8, 'o' as u8, 'n' as u8, 'f' as u8, 'i' as u8, 'g' as u8].as_slice()) {
        return true;
    }
    if bytes_eq(b, vec!['c' as u8, 'o' as u8, 'm' as u8, 'p' as u8, 'o' as u8, 's' as u8, 'e' as u8, 'r' as u8, '.' as u8, 'j' as u8, 's' as u8, 'o' as u8, 'n' as u8].as_slice()) {
        return true;
    }
    if bytes_eq(b, vec!['c' as u8, 'o' as u8, 'm' as u8, 'p' as u8, 'o' as u8, 's' as u8, 'e' as u8, 'r' as u8, '.' as u8, 'l' as u8, 'o' as u8, 'c' as u8, 'k' as u8].as_slice()) {
        return true;
    }
    if bytes_eq(b, vec!['p' as u8, 'o' as u8, 'e' as u8, 't' as u8, 'r' as u8, 'y' as u8, '.' as u8, 'l' as u8, 'o' as u8, 'c' as u8, 'k' as u8].as_slice()) {
        return true;
    }
    if bytes_eq(b, vec!['R' as u8, 'E' as u8, 'A' as u8, 'D' as u8, 'M' as u8, 'E' as u8, '.' as u8, 'm' as u8, 'd' as u8].as_slice()) {
        return true;
    }
    if bytes_eq(b, vec!['r' as u8, 'e' as u8, 'a' as u8, 'd' as u8, 'm' as u8, 'e' as u8, '.' as u8, 'm' as u8, 'd' as u8].as_slice()) {
        return true;
    }
    if bytes_eq(b, vec!['R' as u8, 'E' as u8, 'A' as u8, 'D' as u8, 'M' as u8, 'E' as u8].as_slice()) {
        return true;
    }
    if bytes_eq(b, vec!['L' as u8, 'I' as u8, 'C' as u8, 'E' as u8, 'N' as u8, 'S' as u8, 'E' as u8].as_slice()) {
        return true;
    }
    if bytes_eq(b, vec!['C' as u8, 'H' as u8, 'A' as u8, 'N' as u8, 'G' as u8, 'E' as u8, 'L' as u8, 'O' as u8, 'G' as u8, '.' as u8, 'm' as u8, 'd' as u8].as_slice()) {
        return true;
    }
    false
}

/// The readme pattern of the built-in ignore set: a basename holding
/// `README` or `readme` and ending with `.md`.
pub open spec fn builtin_readme_name(b: Seq<u8>) -> bool {
    (spec_contains(b, seq!['R' as u8, 'E' as u8, 'A' as u8, 'D' as u8, 'M' as u8, 'E' as u8]) || spec_contains(b, seq!['r' as u8, 'e' as u8, 'a' as u8, 'd' as u8, 'm' as u8, 'e' as u8])) && spec_ends_with(
        b,
        seq!['.' as u8, 'm' as u8, 'd' as u8],
    )
}

/// Readme-pattern test, executable form.
pub fn is_builtin_readme_name(b: &[u8]) -> (r: bool)
    ensures
        r == builtin_readme_name(b@),
{
    (contains_sub(b, vec!['R' as u8, 'E' as u8, 'A' as u8, 'D' as u8, 'M' as u8, 'E' as u8].as_slice()) || contains_sub(b, vec!['r' as u8, 'e' as u8, 'a' as u8, 'd' as u8, 'm' as u8, 'e' as u8].as_slice()))
        && ends_with(b, vec!['.' as u8, 'm' as u8, 'd' as u8].as_slice())
}

/// The language detector: holds the explicit per-path overrides loaded
/// from a repository attributes file.
pub struct LanguageDetector {
    pub overrides: Vec<(Vec<u8>, Vec<u8>)>,
}

/// The configuration's extension mapping, or the empty mapping when no
/// configuration was supplied.
pub open spec fn maps_of_config(config: Option<&Config>) -> Seq<(Seq<u8>, Seq<u8>)> {
    match config {
        Option::Some(c) => c.mappings_view(),
        Option::None => Seq::empty(),
    }
}

/// The configured language of a path: its extension looked up in the
/// configuration's mapping, case-sensitively.
pub open spec fn spec_config_lang(maps: Seq<(Seq<u8>, Seq<u8>)>, path: Seq<u8>) -> Option<Seq<u8>> {
    match spec_extension(path) {
        Option::Some(e) => spec_lookup(maps, e),
        Option::None => Option::None,
    }
}

impl LanguageDetector {
    /// The override table as a sequence of (path, language) pairs.
    pub open spec fn ov_view(&self) -> Seq<(Seq<u8>, Seq<u8>)> {
        pairs_view(self.overrides@)
    }

    /// The explicit override for a path, if any: the latest binding in
    /// the attributes file decides, as for a mapping filled in reading
    /// order.
    pub open spec fn spec_override(&self, path: Seq<u8>) -> Option<Seq<u8>> {
        spec_lookup_last(self.ov_view(), path)
    }

    /// What `detect_language` returns: the precedence chain. An explicit
    /// override wins over a configuration mapping, which wins over the
    /// Dockerfile heuristic, which wins over the fixed extension table;
    /// a path no rule recognizes is labelled `Other`.
    pub open spec fn spec_detect(
        &self,
        maps: Seq<(Seq<u8>, Seq<u8>)>,
        path: Seq<u8>,
    ) -> Seq<u8> {
        match self.spec_override(path) {
            Option::Some(l) => l,
            Option::None => match spec_config_lang(maps, path) {
                Option::Some(l) => l,
                Option::None => if spec_is_dockerfile_name(spec_basename(path)) {
                    dockerfile_label()
                } else {
                    match spec_extension(path) {
                        Option::Some(e) => ext_language(spec_lower(e)),
                        Option::None => other_label(),
                    }
                },
            },
        }
    }

    /// A detector with no overrides loaded.
    pub fn new() -> (r: LanguageDetector)
        ensures
            r.ov_view() == Seq::<(Seq<u8>, Seq<u8>)>::empty(),
    {
        let r = LanguageDetector { overrides: Vec::new() };
        proof {
            assert(r.ov_view() =~= Seq::<(Seq<u8>, Seq<u8>)>::empty());
        }
        r
    }

    /// Returns the language label for `path`, following the precedence
    /// chain of `spec_detect`.
    pub fn detect_language(&self, path: &[u8], config: Option<&Config>) -> (r: Vec<u8>)
        ensures
            r@ == self.spec_detect(maps_of_config(config), path@),
    {
        if let Some(i) = find_key_last(&self.overrides, path) {
            return self.overrides[i].1.clone();
        }
        if let Some(c) = config {
            if let Some(e) = extension_of(path) {
                if let Some(v) = c.get_language_mapping(e) {
                    return v;
                }
            }
        }
        let b = basename_of(path);
        if is_dockerfile_name(b) {
            return dockerfile_label_vec();
        }
        match extension_of(path) {
            Some(e) => {
                let le = to_lower(e);
                ext_language_of(le.as_slice())
            },
            None => other_label_vec(),
        }
    }

    /// The built-in ignore predicate: package and lock manifests, readme
    /// and licence files by basename, and a fixed set of binary, media,
    /// archive, markup and data extensions. It applies regardless of
    /// configuration.
    pub open spec fn spec_should_ignore(&self, path: Seq<u8>) -> bool {
        let b = spec_basename(path);
        builtin_ignored_name(b) || builtin_readme_name(b) || match spec_extension(path) {
            Option::Some(e) => builtin_ignored_ext(e),
            Option::None => false,
        }
    }

    /// Built-in ignore predicate, executable form.
    pub fn should_ignore(&self, path: &[u8]) -> (r: bool)
        ensures
            r == self.spec_should_ignore(path@),
    {
        let b = basename_of(path);
        if is_builtin_ignored_name(b) {
            return true;
        }
        if is_builtin_readme_name(b) {
            return true;
        }
        match extension_of(path) {
            Some(e) => is_builtin_ignored_ext(e),
            None => false,
        }
    }
}

/// Index of the first non-whitespace byte at or after `i`.
pub open spec fn skip_spaces(s: Seq<u8>, i: int) -> int
    decreases s.len() - i,
{
    if 0 <= i < s.len() && is_space(s[i]) {
        skip_spaces(s, i + 1)
    } else {
        i
    }
}

/// Index of the first whitespace byte at or after `i`.
pub open spec fn skip_token(s: Seq<u8>, i: int) -> int
    decreases s.len() - i,
{
    if 0 <= i < s.len() && !is_space(s[i]) {
        skip_token(s, i + 1)
    } else {
        i
    }
}

/// The marker that binds a path to an explicit language in the
/// attributes file.
pub open spec fn override_marker() -> Seq<u8> {
    seq!['l' as u8, 'i' as u8, 'n' as u8, 'g' as u8, 'u' as u8, 'i' as u8, 's' as u8, 't' as u8,
        '-' as u8, 'l' as u8, 'a' as u8, 'n' as u8, 'g' as u8, 'u' as u8, 'a' as u8, 'g' as u8,
        'e' as u8, '=' as u8]
}

/// The marker, executable form.
pub fn override_marker_vec() -> (r: Vec<u8>)
    ensures
        r@ == override_marker(),
{
    let r: Vec<u8> = vec!['l' as u8, 'i' as u8, 'n' as u8, 'g' as u8, 'u' as u8, 'i' as u8,
        's' as u8, 't' as u8, '-' as u8, 'l' as u8, 'a' as u8, 'n' as u8, 'g' as u8, 'u' as u8,
        'a' as u8, 'g' as u8, 'e' as u8, '=' as u8];
    proof {
        assert(r@ =~= override_marker());
    }
    r
}

/// Joining a relative token onto the analysis root, the way a path join
/// behaves: an absolute token stands alone, and exactly one separator
/// stands between root and token otherwise.
pub open spec fn spec_join(root: Seq<u8>, rel: Seq<u8>) -> Seq<u8> {
    if rel.len() > 0 && rel[0] == '/' as u8 {
        rel
    } else if root.len() == 0 {
        rel
    } else if root[root.len() - 1] == '/' as u8 {
        root + rel
    } else {
        root + seq!['/' as u8] + rel
    }
}

/// Path join, executable form.
pub fn join_path(root: &[u8], rel: &[u8]) -> (r: Vec<u8>)
    ensures
        r@ == spec_join(root@, rel@),
{
    if (rel.len() > 0 && rel[0] == '/' as u8 as u8) || root.len() == 0 {
        return slice_to_vec(rel);
    }
    let mut v = slice_to_vec(root);
    if root[root.len() - 1] != '/' as u8 {
        v.push('/' as u8);
    }
    let mut tail = slice_to_vec(rel);
    v.append(&mut tail);
    proof {
        if root@[root@.len() - 1] == '/' as u8 {
            assert(v@ =~= root@ + rel@);
        } else {
            assert(v@ =~= root@ + seq!['/' as u8] + rel@);
        }
    }
    v
}

pub proof fn lemma_skip_spaces_bounds(s: Seq<u8>, i: int)
    requires
        0 <= i <= s.len(),
    ensures
        i <= skip_spaces(s, i) <= s.len(),
        skip_spaces(s, i) < s.len() ==> !is_space(s[skip_spaces(s, i)]),
    decreases s.len() - i,
{
    if i < s.len() && is_space(s[i]) {
        lemma_skip_spaces_bounds(s, i + 1);
    }
}

pub proof fn lemma_skip_token_bounds(s: Seq<u8>, i: int)
    requires
        0 <= i <= s.len(),
    ensures
        i <= skip_token(s, i) <= s.len(),
        i < s.len() && !is_space(s[i]) ==> skip_token(s, i) > i,
    decreases s.len() - i,
{
    if i < s.len() && !is_space(s[i]) {
        lemma_skip_token_bounds(s, i + 1);
    }
}

/// The first whitespace-delimited token at or after index `i` that
/// carries the marker, as its index range, or `None` when no token from
/// there on carries it.
pub open spec fn find_marker_token(line: Seq<u8>, i: int) -> Option<(int, int)>
    decreases line.len() - i,
    via find_marker_token_dec
{
    if !(0 <= i <= line.len()) {
        Option::None
    } else {
        let a = skip_spaces(line, i);
        let b = skip_token(line, a);
        if a >= line.len() {
            Option::None
        } else if spec_starts_with(line.subrange(a, b), override_marker()) {
            Option::Some((a, b))
        } else {
            find_marker_token(line, b)
        }
    }
}

#[via_fn]
proof fn find_marker_token_dec(line: Seq<u8>, i: int) {
    if 0 <= i <= line.len() {
        lemma_skip_spaces_bounds(line, i);
        let a = skip_spaces(line, i);
        if a < line.len() {
            lemma_skip_token_bounds(line, a);
        }
    }
}

/// What one line of the attributes file contributes: the first
/// whitespace-delimited token is a path relative to the root, and the
/// line must carry, in some later token, the marker binding it to a
/// language; any other shape of line is skipped.
pub open spec fn spec_line_override(root: Seq<u8>, line: Seq<u8>) -> Option<(Seq<u8>, Seq<u8>)> {
    let a0 = skip_spaces(line, 0);
    let b0 = skip_token(line, a0);
    if b0 > a0 {
        match find_marker_token(line, b0) {
            Option::Some(m) => Option::Some(
                (
                    spec_join(root, line.subrange(a0, b0)),
                    line.subrange(m.0 + override_marker().len(), m.1),
                ),
            ),
            Option::None => Option::None,
        }
    } else {
        Option::None
    }
}

/// The override entries that the lines of the attributes file
/// contribute, in reading order.
pub open spec fn spec_entries(root: Seq<u8>, lines: Seq<Seq<u8>>) -> Seq<(Seq<u8>, Seq<u8>)>
    decreases lines.len(),
{
    if lines.len() == 0 {
        Seq::empty()
    } else {
        (match spec_line_override(root, lines[0]) {
            Option::Some(kv) => seq![kv],
            Option::None => Seq::<(Seq<u8>, Seq<u8>)>::empty(),
        }) + spec_entries(root, lines.drop_first())
    }
}

/// Reading one more line appends that line's entry, if it has one.
proof fn lemma_entries_snoc(root: Seq<u8>, lines: Seq<Seq<u8>>, l: Seq<u8>)
    ensures
        spec_entries(root, lines.push(l)) == spec_entries(root, lines) + (match spec_line_override(
            root,
            l,
        ) {
            Option::Some(kv) => seq![kv],
            Option::None => Seq::<(Seq<u8>, Seq<u8>)>::empty(),
        }),
    decreases lines.len(),
{
    let e: Seq<(Seq<u8>, Seq<u8>)> = match spec_line_override(root, l) {
        Option::Some(kv) => seq![kv],
        Option::None => Seq::empty(),
    };
    if lines.len() == 0 {
        assert(lines.push(l)[0] == l);
        assert(lines.push(l).drop_first() =~= Seq::<Seq<u8>>::empty());
        assert(spec_entries(root, lines.push(l)) == e + spec_entries(
            root,
            Seq::<Seq<u8>>::empty(),
        ));
        assert(e + Seq::<(Seq<u8>, Seq<u8>)>::empty() =~= e);
        assert(spec_entries(root, lines) + e =~= e);
    } else {
        assert(lines.push(l)[0] == lines[0]);
        assert(lines.push(l).drop_first() =~= lines.drop_first().push(l));
        lemma_entries_snoc(root, lines.drop_first(), l);
        let e0: Seq<(Seq<u8>, Seq<u8>)> = match spec_line_override(root, lines[0]) {
            Option::Some(kv) => seq![kv],
            Option::None => Seq::empty(),
        };
        assert(spec_entries(root, lines.push(l)) == e0 + (spec_entries(root, lines.drop_first())
            + e));
        assert(spec_entries(root, lines) == e0 + spec_entries(root, lines.drop_first()));
        assert(e0 + (spec_entries(root, lines.drop_first()) + e) =~= (e0 + spec_entries(
            root,
            lines.drop_first(),
        )) + e);
    }
}

/// The `Dockerfile` label, executable form.
pub fn dockerfile_label_vec() -> (r: Vec<u8>)
    ensures
        r@ == dockerfile_label(),
{
    vec!['D' as u8, 'o' as u8, 'c' as u8, 'k' as u8, 'e' as u8, 'r' as u8, 'f' as u8, 'i' as u8,
        'l' as u8, 'e' as u8]
}

/// Parses one line of the attributes file into its override entry, if it
/// has one.
fn parse_override_line(root: &[u8], line: &[u8]) -> (r: Option<(Vec<u8>, Vec<u8>)>)
    ensures
        match r {
            Some(kv) => spec_line_override(root@, line@) == Option::Some((kv.0@, kv.1@)),
            None => spec_line_override(root@, line@) is None,
        },
{
    let n: usize = line.len();
    let mut a0: usize = 0;
    while a0 < n && is_space_byte(line[a0])
        invariant
            0 <= a0 <= n,
            n == line@.len(),
            skip_spaces(line@, 0) == skip_spaces(line@, a0 as int),
        decreases n - a0,
    {
        a0 = a0 + 1;
    }
    let mut b0: usize = a0;
    while b0 < n && !is_space_byte(line[b0])
        invariant
            a0 <= b0 <= n,
            n == line@.len(),
            skip_token(line@, a0 as int) == skip_token(line@, b0 as int),
        decreases n - b0,
    {
        b0 = b0 + 1;
    }
    if b0 == a0 {
        return None;
    }
    let marker = override_marker_vec();
    let mut i: usize = b0;
    while i < n
        invariant
            b0 <= i <= n,
            n == line@.len(),
            marker@ == override_marker(),
            skip_spaces(line@, 0) == a0 as int,
            skip_token(line@, a0 as int) == b0 as int,
            a0 < b0,
            find_marker_token(line@, b0 as int) == find_marker_token(line@, i as int),
        decreases n - i,
    {
        let mut a: usize = i;
        while a < n && is_space_byte(line[a])
            invariant
                i <= a <= n,
                n == line@.len(),
                skip_spaces(line@, i as int) == skip_spaces(line@, a as int),
            decreases n - a,
        {
            a = a + 1;
        }
        if a == n {
            proof {
                assert(skip_spaces(line@, i as int) == n as int);
                assert(find_marker_token(line@, i as int) is None);
            }
            return None;
        }
        let mut b: usize = a;
        while b < n && !is_space_byte(line[b])
            invariant
                a <= b <= n,
                n == line@.len(),
                skip_token(line@, a as int) == skip_token(line@, b as int),
            decreases n - b,
        {
            b = b + 1;
        }
        if starts_with(&line[a..b], marker.as_slice()) {
            let key = join_path(root, &line[a0..b0]);
            let val = slice_to_vec(&line[a + 18..b]);
            proof {
                assert(override_marker().len() == 18);
                assert(find_marker_token(line@, i as int) == Option::Some((a as int, b as int)));
                assert(line@.subrange(a + 18, b as int) == val@);
            }
            return Some((key, val));
        }
        proof {
            assert(find_marker_token(line@, i as int) == find_marker_token(line@, b as int));
        }
        i = b;
    }
    proof {
        assert(skip_spaces(line@, n as int) == n as int);
        assert(find_marker_token(line@, n as int) is None);
    }
    None
}

impl LanguageDetector {
    /// Loads explicit overrides from the content of the attributes file
    /// found at the analysis root: for each well-formed line, the first
    /// whitespace-delimited token names a path relative to `root` and the
    /// marker token binds it to a language. Malformed lines are skipped
    /// silently.
    #[verifier::loop_isolation(false)]
    #[verifier::rlimit(100)]
    pub fn load_overrides(&mut self, root: &[u8], content: &[u8])
        ensures
            final(self).ov_view() == old(self).ov_view() + spec_entries(root@, spec_lines(content@)),
    {
        let n: usize = content.len();
        let mut pos: usize = 0;
        let ghost mut done: Seq<Seq<u8>> = Seq::empty();
        proof {
            assert(content@.skip(0) =~= content@);
            assert(done + spec_lines(content@) =~= spec_lines(content@));
            assert(old(self).ov_view() + spec_entries(root@, done) =~= old(self).ov_view());
        }
        while pos < n
            invariant
                0 <= pos <= n,
                spec_lines(content@) == done + spec_lines(content@.skip(pos as int)),
                self.ov_view() == old(self).ov_view() + spec_entries(root@, done),
            decreases n - pos,
        {
            let ghost rem = content@.skip(pos as int);
            let mut j: usize = pos;
            while j < n && content[j] != 10
                invariant
                    pos <= j <= n,
                    forall|k: int| pos <= k < j ==> content@[k] != 10,
                decreases n - j,
            {
                j = j + 1;
            }
            proof {
                assert(forall|k: int| 0 <= k < rem.len() ==> #[trigger] rem[k] == content@[k
                    + pos]);
                lemma_first_nl_is(rem, j - pos);
            }
            let line = &content[pos..j];
            let ghost next_pos: int = if j < n {
                j + 1
            } else {
                n as int
            };
            proof {
                if j < n {
                    assert(rem.take(j - pos) =~= line@);
                    assert(rem.skip(j - pos + 1) =~= content@.skip(next_pos));
                } else {
                    assert(rem =~= line@);
                    assert(content@.skip(next_pos) =~= Seq::<u8>::empty());
                    assert(spec_lines(rem) =~= seq![line@] + spec_lines(content@.skip(next_pos)));
                }
                assert(spec_lines(rem) == seq![line@] + spec_lines(content@.skip(next_pos)));
                assert(done + spec_lines(rem) =~= done.push(line@) + spec_lines(
                    content@.skip(next_pos),
                ));
            }
            let ghost ov0 = self.ov_view();
            match parse_override_line(root, line) {
                Some(kv) => {
                    let (key, val) = kv;
                    let ghost kk = key@;
                    let ghost vv = val@;
                    self.overrides.push((key, val));
                    proof {
                        lemma_entries_snoc(root@, done, line@);
                        assert(self.ov_view() =~= ov0.push((kk, vv)));
                        assert(self.ov_view() =~= old(self).ov_view() + spec_entries(
                            root@,
                            done.push(line@),
                        ));
                    }
                },
                None => {
                    proof {
                        lemma_entries_snoc(root@, done, line@);
                        assert(self.ov_view() =~= old(self).ov_view() + spec_entries(
                            root@,
                            done.push(line@),
                        ));
                    }
                },
            }
            proof {
                done = done.push(line@);
            }
            pos = if j < n {
                j + 1
            } else {
                n
            };
        }
        proof {
            assert(content@.skip(n as int) =~= Seq::<u8>::empty());
            assert(done =~= spec_lines(content@));
        }
    }
}

/// Detection precedence, stated on its own: an override entry always wins
/// over a configuration mapping, a configuration mapping over the
/// Dockerfile heuristic, and the heuristic over the extension table.
pub proof fn lemma_detect_precedence(
    d: LanguageDetector,
    maps: Seq<(Seq<u8>, Seq<u8>)>,
    path: Seq<u8>,
)
    ensures
        d.spec_override(path) matches Option::Some(l) ==> d.spec_detect(maps, path) == l,
        d.spec_override(path) is None ==> (spec_config_lang(maps, path) matches Option::Some(l)
            ==> d.spec_detect(maps, path) == l),
        d.spec_override(path) is None && spec_config_lang(maps, path) is None
            && spec_is_dockerfile_name(spec_basename(path)) ==> d.spec_detect(maps, path)
            == dockerfile_label(),
        (d.spec_override(path) is None && spec_config_lang(maps, path) is None
            && !spec_is_dockerfile_name(spec_basename(path))) ==> (spec_extension(path)
            matches Option::Some(e) ==> d.spec_detect(maps, path) == ext_language(spec_lower(e))),
{
}

} // verus!
