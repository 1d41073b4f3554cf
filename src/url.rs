use vstd::prelude::*;
use vstd::string::*;

verus! {

/// The first index at or after `i` where `s` holds "://".
pub open spec fn scheme_sep_from(s: Seq<char>, i: int) -> Option<int>
    decreases s.len() - i,
{
    if i < 0 || i + 3 > s.len() {
        None
    } else if s[i] == ':' && s[i + 1] == '/' && s[i + 2] == '/' {
        Some(i)
    } else {
        scheme_sep_from(s, i + 1)
    }
}

/// The first index at or after `i` where `s` holds '/', or its length.
pub open spec fn slash_from(s: Seq<char>, i: int) -> int
    decreases s.len() - i,
{
    if i < 0 || i >= s.len() {
        s.len() as int
    } else if s[i] == '/' {
        i
    } else {
        slash_from(s, i + 1)
    }
}

/// Whether `url` names its scheme, and so stands alone.
pub open spec fn is_absolute(url: Seq<char>) -> bool {
    scheme_sep_from(url, 0) is Some
}

/// The scheme and authority of `url`: all of it up to the first '/' after "://".
pub open spec fn origin(url: Seq<char>) -> Seq<char> {
    match scheme_sep_from(url, 0) {
        Some(i) => url.subrange(0, slash_from(url, i + 3)),
        None => url.subrange(0, slash_from(url, 0)),
    }
}

/// The index of the last '/' in `s` before `hi`, or -1.
pub open spec fn last_slash_before(s: Seq<char>, hi: int) -> int
    decreases hi,
{
    if hi <= 0 || hi > s.len() {
        -1
    } else if s[hi - 1] == '/' {
        hi - 1
    } else {
        last_slash_before(s, hi - 1)
    }
}

/// The directory of `url`: all of it up to its last '/' where it has a path,
/// else its origin followed by '/'.
pub open spec fn directory(url: Seq<char>) -> Seq<char> {
    if origin(url).len() < url.len() {
        url.subrange(0, last_slash_before(url, url.len() as int) + 1)
    } else {
        origin(url) + "/"@
    }
}

/// `url` resolved against `base`: an absolute one as it is, an absolute path
/// after the origin of `base`, any other path after the directory of `base`.
pub open spec fn resolve(base: Seq<char>, url: Seq<char>) -> Seq<char> {
    if is_absolute(url) {
        url
    } else if url.len() > 0 && url[0] == '/' {
        origin(base) + url
    } else {
        directory(base) + url
    }
}

proof fn lemma_slash_from_range(s: Seq<char>, i: int)
    requires
        0 <= i <= s.len(),
    ensures
        i <= slash_from(s, i) <= s.len(),
    decreases s.len() - i,
{
    if i < s.len() && s[i] != '/' {
        lemma_slash_from_range(s, i + 1);
    }
}

fn find_scheme_sep(s: &str) -> (r: Option<usize>)
    ensures
        match r {
            Some(i) => scheme_sep_from(s@, 0) == Some(i as int) && i + 3 <= s@.len() <= usize::MAX,
            None => scheme_sep_from(s@, 0) is None,
        },
{
    let n = s.unicode_len();
    let mut i: usize = 0;
    while i < n && n - i >= 3
        invariant
            n == s@.len(),
            i <= n,
            scheme_sep_from(s@, 0) == scheme_sep_from(s@, i as int),
        decreases n - i,
    {
        if s.get_char(i) == ':' && s.get_char(i + 1) == '/' && s.get_char(i + 2) == '/' {
            return Some(i);
        }
        i += 1;
    }
    None
}

fn find_slash(s: &str, from: usize) -> (r: usize)
    requires
        from <= s@.len(),
    ensures
        r == slash_from(s@, from as int),
        from <= r <= s@.len(),
{
    let n = s.unicode_len();
    let mut i: usize = from;
    proof {
        lemma_slash_from_range(s@, from as int);
    }
    while i < n
        invariant
            n == s@.len(),
            from <= i <= n,
            slash_from(s@, from as int) == slash_from(s@, i as int),
        decreases n - i,
    {
        if s.get_char(i) == '/' {
            return i;
        }
        i += 1;
    }
    i
}

/// The scheme and authority of `url`.
pub fn origin_of(url: &str) -> (r: String)
    ensures
        r@ == origin(url@),
{
    let end = match find_scheme_sep(url) {
        Some(i) => find_slash(url, i + 3),
        None => find_slash(url, 0),
    };
    url.substring_char(0, end).to_owned()
}

fn last_slash(s: &str) -> (r: usize)
    ensures
        r as int == last_slash_before(s@, s@.len() as int) + 1,
        r <= s@.len(),
{
    let mut hi = s.unicode_len();
    while hi > 0
        invariant
            hi <= s@.len(),
            last_slash_before(s@, s@.len() as int) == last_slash_before(s@, hi as int),
        decreases hi,
    {
        if s.get_char(hi - 1) == '/' {
            return hi;
        }
        hi -= 1;
    }
    0
}

/// The directory of `url`.
pub fn directory_of(url: &str) -> (r: String)
    ensures
        r@ == directory(url@),
{
    let mut out = origin_of(url);
    if out.unicode_len() < url.unicode_len() {
        let end = last_slash(url);
        url.substring_char(0, end).to_owned()
    } else {
        out.append("/");
        out
    }
}

/// `url` resolved against `base`.
pub fn resolve_url(base: &str, url: &str) -> (r: String)
    ensures
        r@ == resolve(base@, url@),
{
    if find_scheme_sep(url).is_some() {
        return url.to_owned();
    }
    if url.unicode_len() > 0 && url.get_char(0) == '/' {
        let mut out = origin_of(base);
        out.append(url);
        out
    } else {
        let mut dir = directory_of(base);
        dir.append(url);
        dir
    }
}

} // verus!
