use vstd::prelude::*;

verus! {

#[verifier::external_type_specification]
#[verifier::external_body]
pub struct ExGixError(gix::Error);

/// The host and path of a parsed URL.
#[derive(Debug)]
pub struct UrlParts {
    pub host: Option<String>,
    pub path: String,
}

/// Why the directory made by a clone could not be told.
#[derive(Debug)]
pub enum TargetError {
    /// The URL does not parse; the parser's own error is kept.
    InvalidUrl(gix::Error),
}

/// What gix reads from a URL: its host, if any, and its path as text; `None`
/// where it does not parse.
pub uninterp spec fn parsed_url_of(s: Seq<char>) -> Option<(Option<Seq<char>>, Seq<char>)>;

pub open spec fn text_of(o: Option<String>) -> Option<Seq<char>> {
    match o {
        Some(s) => Some(s@),
        None => None,
    }
}

pub open spec fn str_text_of(o: Option<&str>) -> Option<Seq<char>> {
    match o {
        Some(s) => Some(s@),
        None => None,
    }
}

/// Relies on `gix::Url::try_from(&str)` to parse a URL, and reads the host
/// (`Url::host`) and path (the `path` field, as lossy text) of the result.
#[verifier::external_body]
fn parse_url(url: &str) -> (r: Result<UrlParts, gix::Error>)
    ensures
        r is Ok <==> parsed_url_of(url@) is Some,
        r matches Ok(p) ==> parsed_url_of(url@) == Some((text_of(p.host), p.path@)),
{
    match gix::Url::try_from(url) {
        Ok(u) => Ok(UrlParts { host: u.host().map(String::from), path: u.path.to_string() }),
        Err(e) => Err(e),
    }
}

/// The only host whose clone directory is told from the URL.
pub open spec fn inferable_host() -> Seq<char> {
    "github.com"@
}

pub open spec fn git_suffix() -> Seq<char> {
    seq!['.', 'g', 'i', 't']
}

/// What follows the last `/` of `s`, or `None` where `s` has no `/`.
pub open spec fn after_last_slash(s: Seq<char>) -> Option<Seq<char>>
    decreases s.len(),
{
    if s.len() == 0 {
        None
    } else if s.last() == '/' {
        Some(Seq::empty())
    } else {
        match after_last_slash(s.drop_last()) {
            Some(t) => Some(t.push(s.last())),
            None => None,
        }
    }
}

/// `s` with every trailing `.git` taken off.
pub open spec fn trim_git_suffix(s: Seq<char>) -> Seq<char>
    decreases s.len(),
{
    if s.len() >= 4 && s.subrange(s.len() - 4, s.len() as int) == git_suffix() {
        trim_git_suffix(s.subrange(0, s.len() - 4))
    } else {
        s
    }
}

/// The directory a clone lands in: the one given, or for a GitHub URL the
/// last segment of its path without `.git`; `None` where it cannot be told.
pub open spec fn target_of(
    given: Option<Seq<char>>,
    host: Option<Seq<char>>,
    url_path: Seq<char>,
) -> Option<Seq<char>> {
    match given {
        Some(p) => Some(p),
        None => if host == Some(inferable_host()) {
            match after_last_slash(url_path) {
                Some(t) => Some(trim_git_suffix(t)),
                None => None,
            }
        } else {
            None
        },
    }
}

fn same_text(a: &str, b: &str) -> (r: bool)
    ensures
        r == (a@ == b@),
{
    let n = a.unicode_len();
    if n != b.unicode_len() {
        return false;
    }
    let mut i: usize = 0;
    while i < n
        invariant
            n == a@.len(),
            n == b@.len(),
            i <= n,
            a@.subrange(0, i as int) == b@.subrange(0, i as int),
        decreases n - i,
    {
        if a.get_char(i) != b.get_char(i) {
            return false;
        }
        assert(a@.subrange(0, i + 1) =~= a@.subrange(0, i as int).push(a@[i as int]));
        assert(b@.subrange(0, i + 1) =~= b@.subrange(0, i as int).push(b@[i as int]));
        i = i + 1;
    }
    assert(a@ =~= a@.subrange(0, n as int));
    assert(b@ =~= b@.subrange(0, n as int));
    true
}

/// When `start` follows the last `/` of `s`, what follows the last slash is
/// the tail from `start`.
proof fn lemma_after_last_slash(s: Seq<char>, start: int)
    requires
        0 < start <= s.len(),
        s[start - 1] == '/',
        forall|j: int| start <= j < s.len() ==> #[trigger] s[j] != '/',
    ensures
        after_last_slash(s) == Some(s.subrange(start, s.len() as int)),
    decreases s.len(),
{
    if start == s.len() {
        assert(s.subrange(start, s.len() as int) =~= Seq::<char>::empty());
    } else {
        let t = s.drop_last();
        assert(t[start - 1] == s[start - 1]);
        assert forall|j: int| start <= j < t.len() implies #[trigger] t[j] != '/' by {
            assert(t[j] == s[j]);
        }
        lemma_after_last_slash(t, start);
        assert(s.subrange(start, s.len() as int) =~= t.subrange(start, t.len() as int).push(
            s.last(),
        ));
    }
}

/// A text without `/` has nothing that follows a last slash.
proof fn lemma_no_slash(s: Seq<char>)
    requires
        forall|j: int| 0 <= j < s.len() ==> #[trigger] s[j] != '/',
    ensures
        after_last_slash(s) is None,
    decreases s.len(),
{
    if s.len() > 0 {
        let t = s.drop_last();
        assert forall|j: int| 0 <= j < t.len() implies #[trigger] t[j] != '/' by {
            assert(t[j] == s[j]);
        }
        lemma_no_slash(t);
    }
}

/// Tells the directory a clone lands in from the directory given, if any,
/// and the host and path of the URL.
pub fn clone_target_from(given: Option<String>, host: Option<&str>, url_path: &str) -> (r: Option<
    String,
>)
    ensures
        text_of(r) == target_of(text_of(given), str_text_of(host), url_path@),
{
    if let Some(p) = given {
        return Some(p);
    }
    let github = match host {
        Some(h) => same_text(h, "github.com"),
        None => false,
    };
    if !github {
        assert(str_text_of(host) != Some(inferable_host()));
        return None;
    }
    assert(str_text_of(host) == Some(inferable_host()));
    let s = url_path;
    let n = s.unicode_len();
    let mut start: usize = n;
    while start > 0
        invariant
            n == s@.len(),
            start <= n,
            forall|j: int| start <= j < n ==> #[trigger] s@[j] != '/',
        ensures
            start <= n,
            start == 0 || s@[start - 1] == '/',
            forall|j: int| start <= j < n ==> #[trigger] s@[j] != '/',
        decreases start,
    {
        if s.get_char(start - 1) == '/' {
            break;
        }
        start = start - 1;
    }
    if start == 0 {
        proof {
            lemma_no_slash(s@);
        }
        return None;
    }
    proof {
        lemma_after_last_slash(s@, start as int);
    }
    let ghost tail = s@.subrange(start as int, n as int);
    let mut end: usize = n;
    while end - start >= 4 && s.get_char(end - 4) == '.' && s.get_char(end - 3) == 'g'
        && s.get_char(end - 2) == 'i' && s.get_char(end - 1) == 't'
        invariant
            n == s@.len(),
            start <= end <= n,
            trim_git_suffix(tail) == trim_git_suffix(s@.subrange(start as int, end as int)),
        decreases end,
    {
        let ghost cur = s@.subrange(start as int, end as int);
        assert(cur.subrange(cur.len() - 4, cur.len() as int) =~= git_suffix());
        assert(cur.subrange(0, cur.len() - 4) =~= s@.subrange(start as int, end - 4));
        end = end - 4;
    }
    proof {
        let cur = s@.subrange(start as int, end as int);
        if cur.len() >= 4 {
            assert(cur.subrange(cur.len() - 4, cur.len() as int) != git_suffix()) by {
                if cur.subrange(cur.len() - 4, cur.len() as int) == git_suffix() {
                    assert(cur.subrange(cur.len() - 4, cur.len() as int)[0] == s@[end - 4]);
                    assert(cur.subrange(cur.len() - 4, cur.len() as int)[1] == s@[end - 3]);
                    assert(cur.subrange(cur.len() - 4, cur.len() as int)[2] == s@[end - 2]);
                    assert(cur.subrange(cur.len() - 4, cur.len() as int)[3] == s@[end - 1]);
                }
            }
        }
    }
    Some(String::from_str(s.substring_char(start, end)))
}

/// Tells the directory a clone of `url` lands in. The URL is parsed first,
/// as the clone itself needs it to be valid; then the directory given wins,
/// else a GitHub URL names it. `Ok(None)` where it cannot be told.
pub fn clone_target(url: &str, given: Option<String>) -> (r: Result<Option<String>, TargetError>)
    ensures
        r is Err <==> parsed_url_of(url@) is None,
        r matches Ok(t) ==> text_of(t) == target_of(
            text_of(given),
            parsed_url_of(url@).unwrap().0,
            parsed_url_of(url@).unwrap().1,
        ),
{
    match parse_url(url) {
        Ok(parts) => {
            let host = match &parts.host {
                Some(h) => Some(h.as_str()),
                None => None,
            };
            assert(str_text_of(host) == text_of(parts.host));
            Ok(clone_target_from(given, host, parts.path.as_str()))
        },
        Err(e) => Err(TargetError::InvalidUrl(e)),
    }
}

} // verus!
