//! Path text helpers: the project-relative display of a path and the
//! MIME type guessed from a file extension. Paths are modeled as
//! `/`-separated text.

use vstd::prelude::*;
use crate::sanitize::push_char;
use crate::detect::{name_matches, spec_name_matches};

verus! {

/// Whether the segment `Projects` stands at position p: the eight
/// characters match and both sides are a separator or an end.
pub open spec fn spec_projects_seg_at(s: Seq<char>, p: int) -> bool {
    &&& 0 <= p
    &&& p + 8 <= s.len()
    &&& s.subrange(p, p + 8) == "Projects"@
    &&& (p == 0 || s[p - 1] == '/')
    &&& (p + 8 == s.len() || s[p + 8] == '/')
}

/// The rightmost position at or below p where a `Projects` segment
/// stands.
pub open spec fn spec_find_projects(s: Seq<char>, p: int) -> Option<int>
    decreases p + 1
        when p < s.len()
{
    if p < 0 {
        Option::None
    } else if spec_projects_seg_at(s, p) {
        Option::Some(p)
    } else {
        spec_find_projects(s, p - 1)
    }
}

/// What remains of the path below its innermost `Projects` ancestor:
/// the text after that segment's separator, empty when the path ends
/// at the segment, and nothing when no `Projects` segment exists.
pub open spec fn spec_display_from_projects(s: Seq<char>) -> Option<Seq<char>> {
    match spec_find_projects(s, s.len() - 8) {
        Option::Some(p) => {
            if p + 8 == s.len() {
                Option::Some(Seq::empty())
            } else {
                Option::Some(s.subrange(p + 9, s.len() as int))
            }
        },
        Option::None => Option::None,
    }
}

/// Whether the eight characters at p spell `Projects` with segment
/// boundaries on both sides.
fn projects_seg_at(path: &str, p: usize, n: usize) -> (r: bool)
    requires
        n == path@.len(),
        p + 8 <= n,
    ensures
        r == spec_projects_seg_at(path@, p as int),
{
    proof {
        reveal_strlit("Projects");
    }
    let ok = path.get_char(p) == 'P' && path.get_char(p + 1) == 'r' && path.get_char(p + 2) == 'o'
        && path.get_char(p + 3) == 'j' && path.get_char(p + 4) == 'e' && path.get_char(p + 5) == 'c'
        && path.get_char(p + 6) == 't' && path.get_char(p + 7) == 's'
        && (p == 0 || path.get_char(p - 1) == '/')
        && (p + 8 == n || path.get_char(p + 8) == '/');
    proof {
        if ok {
            assert(path@.subrange(p as int, p + 8) =~= "Projects"@);
        } else {
            if path@.subrange(p as int, p + 8) == "Projects"@ {
                assert(path@[p as int] == "Projects"@[0]);
                assert(path@[p + 1] == "Projects"@[1]);
                assert(path@[p + 2] == "Projects"@[2]);
                assert(path@[p + 3] == "Projects"@[3]);
                assert(path@[p + 4] == "Projects"@[4]);
                assert(path@[p + 5] == "Projects"@[5]);
                assert(path@[p + 6] == "Projects"@[6]);
                assert(path@[p + 7] == "Projects"@[7]);
            }
        }
    }
    ok
}

/// The path below its innermost `Projects` ancestor, when one exists.
pub fn display_from_projects(path: &str) -> (r: Option<String>)
    ensures
        match spec_display_from_projects(path@) {
            Option::Some(rest) => r is Some && r->0@ == rest,
            Option::None => r is None,
        },
{
    let n = path.unicode_len();
    if n < 8 {
        proof {
            assert(spec_find_projects(path@, path@.len() - 8) is None);
        }
        return None;
    }
    let mut p: usize = n - 8;
    loop
        invariant
            n == path@.len(),
            n >= 8,
            p <= n - 8,
            spec_find_projects(path@, path@.len() - 8) == spec_find_projects(path@, p as int),
        decreases p + 1,
    {
        if projects_seg_at(path, p, n) {
            if p + 8 == n {
                return Some(String::new());
            }
            let mut out = String::new();
            let mut k: usize = p + 9;
            while k < n
                invariant
                    p + 9 <= k <= n,
                    n == path@.len(),
                    out@ =~= path@.subrange(p + 9, k as int),
                decreases n - k,
            {
                push_char(&mut out, path.get_char(k));
                k = k + 1;
                proof {
                    assert(out@ =~= path@.subrange(p + 9, k as int));
                }
            }
            proof {
                assert(out@ =~= path@.subrange(p + 9, n as int));
            }
            return Some(out);
        }
        if p == 0 {
            proof {
                assert(spec_find_projects(path@, -1) is None);
                assert(spec_find_projects(path@, 0) is None);
            }
            return None;
        }
        p = p - 1;
    }
}

/// The start of the last path segment: one past the last separator.
pub open spec fn spec_last_seg_start(s: Seq<char>, e: int) -> int
    decreases e
        when 0 <= e <= s.len()
{
    if e <= 0 {
        0
    } else if s[e - 1] == '/' {
        e
    } else {
        spec_last_seg_start(s, e - 1)
    }
}

/// The position after the last dot in [lo, e), or lo if none.
pub open spec fn spec_after_last_dot(s: Seq<char>, lo: int, e: int) -> int
    decreases e - lo
        when 0 <= lo <= e <= s.len()
{
    if e <= lo {
        lo
    } else if s[e - 1] == '.' {
        e
    } else {
        spec_after_last_dot(s, lo, e - 1)
    }
}

/// The extension of the path's last segment: the text after its last
/// dot, provided the dot is not the segment's first character.
pub open spec fn spec_extension(s: Seq<char>) -> Option<Seq<char>> {
    let lo = spec_last_seg_start(s, s.len() as int);
    let d = spec_after_last_dot(s, lo, s.len() as int);
    if d > lo + 1 {
        Option::Some(s.subrange(d, s.len() as int))
    } else {
        Option::None
    }
}

/// The MIME type for the recognized image extensions; anything else is
/// a generic byte stream.
pub open spec fn spec_mime_type(s: Seq<char>) -> Seq<char> {
    match spec_extension(s) {
        Option::Some(e) => {
            if e == "png"@ {
                "image/png"@
            } else if e == "jpg"@ || e == "jpeg"@ {
                "image/jpeg"@
            } else if e == "gif"@ {
                "image/gif"@
            } else if e == "svg"@ {
                "image/svg+xml"@
            } else {
                "application/octet-stream"@
            }
        },
        Option::None => "application/octet-stream"@,
    }
}

/// Guesses the MIME type of a file from its extension.
pub fn guess_mime_type(path: &str) -> (r: &'static str)
    ensures
        r@ == spec_mime_type(path@),
{
    let n = path.unicode_len();
    let mut lo: usize = n;
    while lo > 0 && path.get_char(lo - 1) != '/'
        invariant
            lo <= n,
            n == path@.len(),
            spec_last_seg_start(path@, path@.len() as int) == spec_last_seg_start(path@, lo as int),
        decreases lo,
    {
        lo = lo - 1;
    }
    let ghost lo_s = spec_last_seg_start(path@, path@.len() as int);
    proof {
        assert(lo as int == lo_s);
    }
    let mut d: usize = n;
    while d > lo && path.get_char(d - 1) != '.'
        invariant
            lo <= d <= n,
            n == path@.len(),
            lo as int == spec_last_seg_start(path@, path@.len() as int),
            spec_after_last_dot(path@, lo as int, path@.len() as int)
                == spec_after_last_dot(path@, lo as int, d as int),
        decreases d,
    {
        d = d - 1;
    }
    let ghost d_s = spec_after_last_dot(path@, lo as int, path@.len() as int);
    proof {
        assert(d as int == d_s);
    }
    if d - lo <= 1 {
        return "application/octet-stream";
    }
    let ext_len = n - d;
    proof {
        reveal_strlit("png");
        reveal_strlit("jpg");
        reveal_strlit("jpeg");
        reveal_strlit("gif");
        reveal_strlit("svg");
    }
    if ext_len == 3 {
        let c0 = path.get_char(d);
        let c1 = path.get_char(d + 1);
        let c2 = path.get_char(d + 2);
        proof {
            assert(path@.subrange(d as int, n as int).len() == 3);
            assert(path@.subrange(d as int, n as int)[0] == path@[d as int]);
            assert(path@.subrange(d as int, n as int)[1] == path@[d + 1]);
            assert(path@.subrange(d as int, n as int)[2] == path@[d + 2]);
        }
        if c0 == 'p' && c1 == 'n' && c2 == 'g' {
            proof {
                assert(path@.subrange(d as int, n as int) =~= "png"@);
            }
            return "image/png";
        }
        if c0 == 'j' && c1 == 'p' && c2 == 'g' {
            proof {
                assert(path@.subrange(d as int, n as int) =~= "jpg"@);
            }
            return "image/jpeg";
        }
        if c0 == 'g' && c1 == 'i' && c2 == 'f' {
            proof {
                assert(path@.subrange(d as int, n as int) =~= "gif"@);
            }
            return "image/gif";
        }
        if c0 == 's' && c1 == 'v' && c2 == 'g' {
            proof {
                assert(path@.subrange(d as int, n as int) =~= "svg"@);
            }
            return "image/svg+xml";
        }
        proof {
            assert(("jpeg"@).len() == 4);
            assert(path@.subrange(d as int, n as int) != "jpeg"@);
        }
        return "application/octet-stream";
    }
    if ext_len == 4 {
        let c0 = path.get_char(d);
        let c1 = path.get_char(d + 1);
        let c2 = path.get_char(d + 2);
        let c3 = path.get_char(d + 3);
        proof {
            assert(path@.subrange(d as int, n as int).len() == 4);
            assert(path@.subrange(d as int, n as int)[0] == path@[d as int]);
            assert(path@.subrange(d as int, n as int)[1] == path@[d + 1]);
            assert(path@.subrange(d as int, n as int)[2] == path@[d + 2]);
            assert(path@.subrange(d as int, n as int)[3] == path@[d + 3]);
        }
        if c0 == 'j' && c1 == 'p' && c2 == 'e' && c3 == 'g' {
            proof {
                assert(path@.subrange(d as int, n as int) =~= "jpeg"@);
            }
            return "image/jpeg";
        }
        proof {
            assert(("png"@).len() == 3);
            assert(("jpg"@).len() == 3);
            assert(("gif"@).len() == 3);
            assert(("svg"@).len() == 3);
            assert(path@.subrange(d as int, n as int).len() == 4);
        }
        return "application/octet-stream";
    }
    proof {
        assert(("png"@).len() == 3);
        assert(("jpg"@).len() == 3);
        assert(("gif"@).len() == 3);
        assert(("svg"@).len() == 3);
        assert(("jpeg"@).len() == 4);
        assert(path@.subrange(d as int, n as int).len() == n - d);
    }
    "application/octet-stream"
}

/// Whether the path's extension, case folded, is one of the
/// recognized image extensions: jpg, jpeg, png, gif, bmp, webp, tiff,
/// tif.
pub open spec fn spec_is_image_file(s: Seq<char>) -> bool {
    match spec_extension(s) {
        Option::Some(e) => {
            ||| spec_name_matches(e, "jpg"@)
            ||| spec_name_matches(e, "jpeg"@)
            ||| spec_name_matches(e, "png"@)
            ||| spec_name_matches(e, "gif"@)
            ||| spec_name_matches(e, "bmp"@)
            ||| spec_name_matches(e, "webp"@)
            ||| spec_name_matches(e, "tiff"@)
            ||| spec_name_matches(e, "tif"@)
        },
        Option::None => false,
    }
}

/// Decides whether a file is treated as an image, by its extension,
/// case-insensitively.
pub fn is_image_file(path: &str) -> (r: bool)
    ensures
        r == spec_is_image_file(path@),
{
    let n = path.unicode_len();
    let mut lo: usize = n;
    while lo > 0 && path.get_char(lo - 1) != '/'
        invariant
            lo <= n,
            n == path@.len(),
            spec_last_seg_start(path@, path@.len() as int) == spec_last_seg_start(path@, lo as int),
        decreases lo,
    {
        lo = lo - 1;
    }
    let mut d: usize = n;
    while d > lo && path.get_char(d - 1) != '.'
        invariant
            lo <= d <= n,
            n == path@.len(),
            lo as int == spec_last_seg_start(path@, path@.len() as int),
            spec_after_last_dot(path@, lo as int, path@.len() as int)
                == spec_after_last_dot(path@, lo as int, d as int),
        decreases d,
    {
        d = d - 1;
    }
    if d - lo <= 1 {
        return false;
    }
    let mut ext = String::new();
    let mut k = d;
    while k < n
        invariant
            d <= k <= n,
            n == path@.len(),
            ext@ =~= path@.subrange(d as int, k as int),
        decreases n - k,
    {
        push_char(&mut ext, path.get_char(k));
        k = k + 1;
        proof {
            assert(ext@ =~= path@.subrange(d as int, k as int));
        }
    }
    proof {
        assert(ext@ =~= path@.subrange(d as int, n as int));
    }
    let e = ext.as_str();
    name_matches(e, "jpg") || name_matches(e, "jpeg") || name_matches(e, "png")
        || name_matches(e, "gif") || name_matches(e, "bmp") || name_matches(e, "webp")
        || name_matches(e, "tiff") || name_matches(e, "tif")
}

} // verus!
