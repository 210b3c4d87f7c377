//! Discovery of the image paths that a static site references: every path
//! that follows a marker (such as `images/`) in its markup, scripts and
//! stylesheets, up to the next delimiter.
use vstd::prelude::*;
use vstd::string::*;

use crate::filter::arg_views;
use crate::text::{chars_of, matches_at, occurs_at, split_last, split_last_spec};

verus! {

/// The first position from `from` on whose character is one of `delims`.
pub open spec fn first_delimiter(c: Seq<char>, from: int, delims: Seq<char>) -> Option<int>
    decreases c.len() - from,
{
    if from < 0 || from >= c.len() {
        None
    } else if delims.contains(c[from]) {
        Some(from)
    } else {
        first_delimiter(c, from + 1, delims)
    }
}

/// `acc` in front of what `r` holds, where it holds anything.
pub open spec fn prefixed(acc: Seq<Seq<char>>, r: Option<Seq<Seq<char>>>) -> Option<Seq<Seq<char>>> {
    match r {
        Some(rest) => Some(acc + rest),
        None => None,
    }
}

/// The paths that follow `marker` in `c`, searching from `pos` on, in order
/// of their occurrence. Occurrences of the marker do not overlap: the search
/// goes on after the end of each. `None` when an occurrence has no delimiter
/// after it.
pub open spec fn extract_from(c: Seq<char>, marker: Seq<char>, delims: Seq<char>, pos: int) -> Option<
    Seq<Seq<char>>,
>
    decreases c.len() + 1 - pos,
{
    if pos < 0 || pos > c.len() {
        Some(Seq::empty())
    } else if occurs_at(c, marker, pos) {
        let a = pos + marker.len();
        match first_delimiter(c, a, delims) {
            None => None,
            Some(e) => prefixed(
                seq![c.subrange(a, e)],
                extract_from(c, marker, delims, if marker.len() == 0 { a + 1 } else { a }),
            ),
        }
    } else {
        extract_from(c, marker, delims, pos + 1)
    }
}

/// The paths that each marker in turn yields in `c`, one after another.
pub open spec fn extract_all(c: Seq<char>, markers: Seq<Seq<char>>, delims: Seq<char>) -> Option<
    Seq<Seq<char>>,
>
    decreases markers.len(),
{
    if markers.len() == 0 {
        Some(Seq::empty())
    } else {
        match extract_from(c, markers[0], delims, 0) {
            None => None,
            Some(first) => prefixed(first, extract_all(c, markers.drop_first(), delims)),
        }
    }
}

/// An extension of the text files that are scanned.
pub open spec fn is_scanned_extension(ext: Seq<char>) -> bool {
    ext == "html"@ || ext == "js"@ || ext == "css"@
}

proof fn lemma_first_delimiter_bounds(c: Seq<char>, from: int, delims: Seq<char>)
    ensures
        first_delimiter(c, from, delims) matches Some(e) ==> from <= e < c.len() && delims.contains(c[e]),
    decreases c.len() - from,
{
    if 0 <= from < c.len() && !delims.contains(c[from]) {
        lemma_first_delimiter_bounds(c, from + 1, delims);
    }
}

proof fn lemma_prefixed_prefixed(a: Seq<Seq<char>>, b: Seq<Seq<char>>, r: Option<Seq<Seq<char>>>)
    ensures
        prefixed(a, prefixed(b, r)) == prefixed(a + b, r),
{
    if let Some(rest) = r {
        assert(a + (b + rest) =~= (a + b) + rest);
    }
}

/// A whitelist scanner: the directory it walks, the markers that precede a
/// referenced path, and the characters that end one.
pub struct Whitelist {
    dir_to_parse: String,
    preceded_by: Vec<String>,
    succeeded_by: Vec<char>,
}

/// What a `Whitelist` holds, as plain values.
pub struct WhitelistView {
    pub dir_to_parse: Seq<char>,
    pub preceded_by: Seq<Seq<char>>,
    pub succeeded_by: Seq<char>,
}

impl View for Whitelist {
    type V = WhitelistView;

    closed spec fn view(&self) -> WhitelistView {
        WhitelistView {
            dir_to_parse: self.dir_to_parse@,
            preceded_by: arg_views(self.preceded_by@),
            succeeded_by: self.succeeded_by@,
        }
    }
}

fn first_delimiter_from(c: &Vec<char>, from: usize, delims: &Vec<char>) -> (r: Option<usize>)
    requires
        from <= c@.len(),
    ensures
        match r {
            Some(e) => first_delimiter(c@, from as int, delims@) == Some(e as int),
            None => first_delimiter(c@, from as int, delims@) is None,
        },
{
    let mut j: usize = from;
    while j < c.len()
        invariant
            from <= j <= c@.len(),
            first_delimiter(c@, from as int, delims@) == first_delimiter(c@, j as int, delims@),
        decreases c@.len() - j,
    {
        let ch = c[j];
        let mut k: usize = 0;
        while k < delims.len()
            invariant
                from <= j < c@.len(),
                ch == c@[j as int],
                first_delimiter(c@, from as int, delims@) == first_delimiter(c@, j as int, delims@),
                k <= delims@.len(),
                forall|i: int| 0 <= i < k ==> delims@[i] != ch,
            decreases delims@.len() - k,
        {
            if delims[k] == ch {
                assert(delims@[k as int] == c@[j as int]);
                return Some(j);
            }
            k = k + 1;
        }
        assert(!delims@.contains(c@[j as int]));
        j = j + 1;
    }
    None
}

/// Appends to `out` the paths that follow `marker` in `content`; false, and
/// `out` left in some state, where an occurrence has no delimiter after it.
fn extract_marker(
    content: &str,
    c: &Vec<char>,
    marker: &Vec<char>,
    delims: &Vec<char>,
    out: &mut Vec<String>,
) -> (r: bool)
    requires
        c@ == content@,
    ensures
        r == extract_from(c@, marker@, delims@, 0) is Some,
        r ==> Some(arg_views(final(out)@)) == prefixed(
            arg_views(old(out)@),
            extract_from(c@, marker@, delims@, 0),
        ),
{
    let mut pos: usize = 0;
    while pos < c.len()
        invariant
            c@ == content@,
            pos <= c@.len(),
            prefixed(arg_views(old(out)@), extract_from(c@, marker@, delims@, 0)) == prefixed(
                arg_views(out@),
                extract_from(c@, marker@, delims@, pos as int),
            ),
            extract_from(c@, marker@, delims@, 0) is Some <==> extract_from(
                c@,
                marker@,
                delims@,
                pos as int,
            ) is Some,
        decreases c@.len() - pos,
    {
        if matches_at(c, marker, pos) {
            let a = pos + marker.len();
            match first_delimiter_from(c, a, delims) {
                None => {
                    return false;
                },
                Some(e) => {
                    proof {
                        lemma_first_delimiter_bounds(c@, a as int, delims@);
                    }
                    let ghost before = arg_views(out@);
                    let path = String::from_str(content.substring_char(a, e));
                    out.push(path);
                    assert(arg_views(out@) =~= before + seq![c@.subrange(a as int, e as int)]);
                    let next = if marker.len() == 0 {
                        a + 1
                    } else {
                        a
                    };
                    proof {
                        lemma_prefixed_prefixed(
                            before,
                            seq![c@.subrange(a as int, e as int)],
                            extract_from(c@, marker@, delims@, next as int),
                        );
                    }
                    pos = next;
                },
            }
        } else {
            pos = pos + 1;
        }
    }
    if marker.len() == 0 {
        assert(occurs_at(c@, marker@, pos as int)) by {
            assert(c@.subrange(pos as int, pos as int) =~= marker@);
        }
        return false;
    }
    assert(!occurs_at(c@, marker@, pos as int));
    assert(extract_from(c@, marker@, delims@, pos + 1) == Some(Seq::<Seq<char>>::empty()));
    assert(arg_views(out@) + Seq::<Seq<char>>::empty() =~= arg_views(out@));
    true
}

impl Whitelist {
    /// A scanner of `dir_to_parse` for paths that follow `preceded_by` and
    /// end before a space, `/`, `>` or `"`.
    pub fn new(dir_to_parse: &str, preceded_by: &str) -> (r: Whitelist)
        ensures
            r@.dir_to_parse == dir_to_parse@,
            r@.preceded_by == seq![preceded_by@],
            r@.succeeded_by == seq![' ', '/', '>', '"'],
    {
        let mut markers: Vec<String> = Vec::new();
        markers.push(String::from_str(preceded_by));
        let mut delims: Vec<char> = Vec::new();
        delims.push(' ');
        delims.push('/');
        delims.push('>');
        delims.push('"');
        let r = Whitelist {
            dir_to_parse: String::from_str(dir_to_parse),
            preceded_by: markers,
            succeeded_by: delims,
        };
        assert(r@.preceded_by =~= seq![preceded_by@]);
        assert(r@.succeeded_by =~= seq![' ', '/', '>', '"']);
        r
    }

    /// The pattern that matches every file below the directory.
    pub fn glob_pattern(&self) -> (r: String)
        ensures
            r@ == self@.dir_to_parse + "/**/*"@,
    {
        let mut s = self.dir_to_parse.clone();
        s.append("/**/*");
        s
    }

    /// The referenced paths in `content`: for each marker in turn, the text
    /// between each occurrence of the marker and the next delimiter. `None`
    /// where an occurrence has no delimiter after it: the file is then
    /// rejected as a whole.
    pub fn extract_paths(&self, content: &str) -> (r: Option<Vec<String>>)
        ensures
            match r {
                Some(v) => extract_all(content@, self@.preceded_by, self@.succeeded_by) == Some(
                    arg_views(v@),
                ),
                None => extract_all(content@, self@.preceded_by, self@.succeeded_by) is None,
            },
    {
        let c = chars_of(content);
        let ghost ms = self@.preceded_by;
        let ghost d = self@.succeeded_by;
        let mut out: Vec<String> = Vec::new();
        let mut i: usize = 0;
        assert(ms.subrange(0, ms.len() as int) =~= ms);
        assert(arg_views(out@) =~= Seq::<Seq<char>>::empty());
        assert(Seq::<Seq<char>>::empty() + Seq::<Seq<char>>::empty() =~= Seq::<Seq<char>>::empty());
        while i < self.preceded_by.len()
            invariant
                c@ == content@,
                ms == self@.preceded_by,
                d == self@.succeeded_by,
                ms.len() == self.preceded_by@.len(),
                i <= ms.len(),
                extract_all(c@, ms, d) == prefixed(
                    arg_views(out@),
                    extract_all(c@, ms.subrange(i as int, ms.len() as int), d),
                ),
            decreases ms.len() - i,
        {
            let ghost rest = ms.subrange(i as int, ms.len() as int);
            assert(rest.drop_first() =~= ms.subrange(i + 1, ms.len() as int));
            let ghost before = arg_views(out@);
            let marker = chars_of(self.preceded_by[i].as_str());
            if !extract_marker(content, &c, &marker, &self.succeeded_by, &mut out) {
                return None;
            }
            proof {
                let first = extract_from(c@, ms[i as int], d, 0)->0;
                lemma_prefixed_prefixed(before, first, extract_all(c@, rest.drop_first(), d));
            }
            i = i + 1;
        }
        assert(arg_views(out@) + Seq::<Seq<char>>::empty() =~= arg_views(out@));
        Some(out)
    }

    /// Tells whether the file at `path` is one to scan: markup, script or
    /// stylesheet, by its extension.
    pub fn is_file_to_parse(path: &str) -> (r: bool)
        ensures
            r == is_scanned_extension(split_last_spec(path@, '.').1),
    {
        let (_, ending) = split_last(path, '.');
        let ending = String::from_str(ending);
        ending == String::from_str("html") || ending == String::from_str("js") || ending
            == String::from_str("css")
    }
}

} // verus!
