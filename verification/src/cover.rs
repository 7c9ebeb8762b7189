//! Cover-art resolution: the two candidate image paths beside the playing
//! file, and the choice between them once their existence is known.

use vstd::prelude::*;
use vstd::string::{StrSliceExecFns, StringExecFns};
use crate::metadata::Metadata;

verus! {

/// The index of the last '/' in `s`, or -1 when there is none.
pub open spec fn last_slash(s: Seq<char>) -> int
    decreases s.len(),
{
    if s.len() == 0 {
        -1
    } else if s.last() == '/' {
        s.len() - 1
    } else {
        last_slash(s.drop_last())
    }
}

/// `last_slash` points at the last occurrence: it is in bounds, it holds
/// a '/' unless there is none, and nothing after it holds one.
pub proof fn lemma_last_slash_bounds(s: Seq<char>)
    ensures
        -1 <= last_slash(s) < s.len(),
        last_slash(s) >= 0 ==> s[last_slash(s)] == '/',
        forall|k: int| last_slash(s) < k < s.len() ==> s[k] != '/',
    decreases s.len(),
{
    if s.len() == 0 {
    } else if s.last() == '/' {
    } else {
        lemma_last_slash_bounds(s.drop_last());
        assert forall|k: int| last_slash(s) < k < s.len() implies s[k] != '/' by {
            if k < s.len() - 1 {
                assert(s.drop_last()[k] == s[k]);
            }
        }
    }
}

/// Any index with the last-occurrence properties is `last_slash`.
pub proof fn lemma_last_slash_is(s: Seq<char>, j: int)
    requires
        -1 <= j < s.len(),
        j >= 0 ==> s[j] == '/',
        forall|k: int| j < k < s.len() ==> s[k] != '/',
    ensures
        last_slash(s) == j,
{
    lemma_last_slash_bounds(s);
}

/// `s` with every trailing '/' removed.
pub open spec fn strip_slashes(s: Seq<char>) -> Seq<char>
    decreases s.len(),
{
    if s.len() > 0 && s.last() == '/' {
        strip_slashes(s.drop_last())
    } else {
        s
    }
}

/// `strip_slashes` cuts exactly at the boundary: the first index from the
/// right that does not hold a '/'.
pub proof fn lemma_strip_slashes_is(s: Seq<char>, e: int)
    requires
        0 <= e <= s.len(),
        forall|k: int| e <= k < s.len() ==> s[k] == '/',
        e > 0 ==> s[e - 1] != '/',
    ensures
        strip_slashes(s) == s.subrange(0, e),
    decreases s.len(),
{
    if s.len() == 0 {
        assert(s.subrange(0, 0) =~= s);
    } else if s.last() == '/' {
        assert(e < s.len());
        assert(forall|k: int| e <= k < s.len() - 1 ==> s.drop_last()[k] == s[k]);
        lemma_strip_slashes_is(s.drop_last(), e);
        assert(s.drop_last().subrange(0, e) =~= s.subrange(0, e));
    } else {
        assert(e == s.len());
        assert(s.subrange(0, e) =~= s);
    }
}

/// The directory part of a path, read as a path parent: trailing '/'
/// separators are ignored, the last component is dropped, and the
/// separators before it go with it. Nothing when the path is separators
/// only — the root has no parent — or holds no separator at all: a bare
/// file name names no directory to search.
pub open spec fn dir_of(file: Seq<char>) -> Option<Seq<char>> {
    let t = strip_slashes(file);
    if t.len() == 0 {
        None
    } else if last_slash(t) < 0 {
        None
    } else {
        Some(strip_slashes(t.subrange(0, last_slash(t))))
    }
}

/// The two candidate cover paths for a track path: `cover.jpg` and
/// `cover.png` in the track's directory. Nothing when no track is loaded
/// or the path has no directory part.
pub open spec fn cover_candidates_of(file: Seq<char>) -> Option<(Seq<char>, Seq<char>)> {
    if file.len() == 0 {
        None
    } else {
        match dir_of(file) {
            None => None,
            Some(d) => Some((d + "/cover.jpg"@, d + "/cover.png"@)),
        }
    }
}

/// Which candidate the resolver settles on, given whether each exists as
/// a file: `cover.jpg` wins over `cover.png`; nothing when neither exists
/// or there are no candidates at all.
pub open spec fn chosen_cover(file: Seq<char>, jpg_exists: bool, png_exists: bool) -> Option<
    Seq<char>,
> {
    match cover_candidates_of(file) {
        None => None,
        Some(c) => if jpg_exists {
            Some(c.0)
        } else if png_exists {
            Some(c.1)
        } else {
            None
        },
    }
}

impl Metadata {
    /// The candidate cover paths beside the playing file, `cover.jpg`
    /// first. Nothing when no track is loaded or its path names no
    /// parent directory; only then does resolution need no look at the
    /// filesystem at all.
    pub fn cover_candidates(&self) -> (r: Option<(String, String)>)
        ensures
            match cover_candidates_of(self.file@) {
                None => r is None,
                Some(c) => r matches Some(p) && p.0@ == c.0 && p.1@ == c.1,
            },
            dir_of(self.file@) is None ==> r is None,
    {
        let len = self.file.unicode_len();
        if len == 0 {
            return None;
        }
        let mut end: usize = len;
        while end > 0 && self.file.as_str().get_char(end - 1) == '/'
            invariant
                end <= len,
                len == self.file@.len(),
                forall|k: int| end <= k < len ==> self.file@[k] == '/',
            decreases end,
        {
            end = end - 1;
        }
        proof {
            lemma_strip_slashes_is(self.file@, end as int);
        }
        if end == 0 {
            return None;
        }
        let ghost t = self.file@.subrange(0, end as int);
        let mut i: usize = end;
        while i > 0
            invariant
                i <= end,
                end <= len,
                len == self.file@.len(),
                t == self.file@.subrange(0, end as int),
                strip_slashes(self.file@) == t,
                forall|k: int| i <= k < end ==> self.file@[k] != '/',
            decreases i,
        {
            if self.file.as_str().get_char(i - 1) == '/' {
                let j = i - 1;
                proof {
                    assert forall|k: int| j < k < t.len() implies t[k] != '/' by {
                        assert(t[k] == self.file@[k]);
                    }
                    assert(t[j as int] == self.file@[j as int]);
                    lemma_last_slash_is(t, j as int);
                }
                let mut dend: usize = j;
                while dend > 0 && self.file.as_str().get_char(dend - 1) == '/'
                    invariant
                        dend <= j,
                        j < end <= len,
                        len == self.file@.len(),
                        forall|k: int| dend <= k < j ==> self.file@[k] == '/',
                    decreases dend,
                {
                    dend = dend - 1;
                }
                let ghost p = t.subrange(0, j as int);
                proof {
                    assert forall|k: int| dend <= k < p.len() implies p[k] == '/' by {
                        assert(p[k] == self.file@[k]);
                    }
                    if dend > 0 {
                        assert(p[dend - 1] == self.file@[dend - 1]);
                    }
                    lemma_strip_slashes_is(p, dend as int);
                    assert(p.subrange(0, dend as int) =~= self.file@.subrange(0, dend as int));
                }
                let dir = self.file.as_str().substring_char(0, dend);
                let jpg = String::from_str(dir).concat("/cover.jpg");
                let png = String::from_str(dir).concat("/cover.png");
                return Some((jpg, png));
            }
            i = i - 1;
        }
        proof {
            assert forall|k: int| -1 < k < t.len() implies t[k] != '/' by {
                assert(t[k] == self.file@[k]);
            }
            lemma_last_slash_is(t, -1);
        }
        None
    }

    /// Resolve the cover image, the existence of each candidate given:
    /// `cover.jpg` when it exists, else `cover.png` when that exists,
    /// else nothing. An empty track path resolves to nothing whatever the
    /// flags say.
    pub fn get_cover(&self, jpg_exists: bool, png_exists: bool) -> (r: Option<String>)
        ensures
            match chosen_cover(self.file@, jpg_exists, png_exists) {
                None => r is None,
                Some(c) => r matches Some(p) && p@ == c,
            },
            self.file@.len() == 0 ==> r is None,
            dir_of(self.file@) is None ==> r is None,
            jpg_exists ==> (cover_candidates_of(self.file@) matches Some(c) ==> (r matches Some(p)
                && p@ == c.0)),
    {
        match self.cover_candidates() {
            None => None,
            Some((jpg, png)) => {
                if jpg_exists {
                    Some(jpg)
                } else if png_exists {
                    Some(png)
                } else {
                    None
                }
            },
        }
    }
}

} // verus!
