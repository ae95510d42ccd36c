//! Browser cookie records: which Firefox profile to read, and how a stored
//! cookie row becomes a `Set-Cookie` string and the URL it belongs to.

use vstd::prelude::*;
use crate::model::{opt_view, strings_view};
use crate::text::{
    chars_of, fold_lines, lemma_fold_lines_step, line_end, push_text, range_starts_with, same_text,
    starts_with, string_of,
};

verus! {

/// Seconds from 1601-01-01, where Chrome's clock starts, to 1970-01-01.
pub const CHROME_EPOCH_OFFSET_SECS: i64 = 11_644_473_600;

/// A Unix time in Chrome's cookie clock: microseconds since 1601-01-01; none
/// when it does not fit in 64 bits.
pub fn chrome_timestamp(unix_secs: i64) -> (r: Option<i64>)
    ensures
        match r {
            Some(t) => t == (unix_secs + CHROME_EPOCH_OFFSET_SECS) * 1_000_000,
            None => !(i64::MIN <= (unix_secs + CHROME_EPOCH_OFFSET_SECS) * 1_000_000 <= i64::MAX),
        },
{
    if unix_secs > i64::MAX - CHROME_EPOCH_OFFSET_SECS {
        return None;
    }
    let shifted = unix_secs + CHROME_EPOCH_OFFSET_SECS;
    if shifted > i64::MAX / 1_000_000 || shifted < i64::MIN / 1_000_000 {
        return None;
    }
    Some(shifted * 1_000_000)
}

/// `s` without its leading `c`s.
pub open spec fn trim_leading(s: Seq<char>, c: char) -> Seq<char>
    decreases s.len(),
{
    if s.len() > 0 && s[0] == c {
        trim_leading(s.drop_first(), c)
    } else {
        s
    }
}

/// `s` without leading copies of `p`.
pub open spec fn strip_repeated(s: Seq<char>, p: Seq<char>) -> Seq<char>
    decreases s.len(),
{
    if p.len() > 0 && starts_with(s, p) {
        strip_repeated(s.subrange(p.len() as int, s.len() as int), p)
    } else {
        s
    }
}

/// The `Set-Cookie` string of a stored cookie.
pub open spec fn set_cookie_text(name: Seq<char>, value: Seq<char>, host: Seq<char>, path: Seq<char>, secure: bool) -> Seq<char> {
    name + "="@ + value + "; Domain="@ + host + "; Path="@ + path + if secure { "; Secure"@ } else { Seq::empty() }
}

/// The URL a stored cookie is filed under.
pub open spec fn cookie_url_text(host: Seq<char>, path: Seq<char>, secure: bool) -> Seq<char> {
    (if secure { "https"@ } else { "http"@ }) + "://"@ + trim_leading(host, '.') + path
}

/// The `Set-Cookie` string and the URL of a stored cookie row.
pub fn cookie_strings(name: &str, value: &str, host: &str, path: &str, secure: bool) -> (r: (String, String))
    ensures
        r.0@ == set_cookie_text(name@, value@, host@, path@, secure),
        r.1@ == cookie_url_text(host@, path@, secure),
{
    let mut cookie = String::new();
    push_text(&mut cookie, name);
    push_text(&mut cookie, "=");
    push_text(&mut cookie, value);
    push_text(&mut cookie, "; Domain=");
    push_text(&mut cookie, host);
    push_text(&mut cookie, "; Path=");
    push_text(&mut cookie, path);
    if secure {
        push_text(&mut cookie, "; Secure");
    } else {
        proof { reveal_strlit(""); }
    }
    let mut url = String::new();
    if secure {
        push_text(&mut url, "https");
    } else {
        push_text(&mut url, "http");
    }
    push_text(&mut url, "://");
    let h = chars_of(host);
    let mut a: usize = 0;
    assert(h@.subrange(0, h.len() as int) == h@);
    while a < h.len() && h[a] == '.'
        invariant
            0 <= a <= h.len(),
            trim_leading(h@, '.') == trim_leading(h@.subrange(a as int, h.len() as int), '.'),
        decreases h.len() - a,
    {
        assert(h@.subrange(a as int, h.len() as int).drop_first() == h@.subrange(a + 1, h.len() as int));
        a = a + 1;
    }
    let trimmed = string_of(&h, a, h.len());
    push_text(&mut url, trimmed.as_str());
    push_text(&mut url, path);
    (cookie, url)
}

/// Profile directories read so far from `profiles.ini`: the open section's
/// `Path=`, whether it is marked default, and the default profiles found.
pub type ProfileScan = (Option<Seq<char>>, bool, Seq<Seq<char>>);

/// One line of `profiles.ini`.
pub open spec fn profile_line(st: ProfileScan, line: Seq<char>) -> ProfileScan {
    let path = if starts_with(line, "Path="@) { Some(strip_repeated(line, "Path="@)) } else { st.0 };
    let default = st.1 || line == "Default=1"@;
    if line.len() > 0 && line[0] == '[' && line != "[General]"@ {
        (None, false, if default && path is Some { st.2.push(path->Some_0) } else { st.2 })
    } else {
        (path, default, st.2)
    }
}

pub open spec fn profile_step() -> spec_fn(ProfileScan, Seq<char>) -> ProfileScan {
    |st: ProfileScan, line: Seq<char>| profile_line(st, line)
}

/// The default profiles' directories in `profiles.ini`, in file order.
pub open spec fn default_profiles(ini: Seq<char>) -> Seq<Seq<char>> {
    let st = fold_lines(ini, (None, false, Seq::empty()), profile_step());
    if st.1 && st.0 is Some { st.2.push(st.0->Some_0) } else { st.2 }
}

/// `v[lo..hi]` without leading copies of `p`.
fn strip_repeated_range(v: &Vec<char>, lo: usize, hi: usize, p: &Vec<char>) -> (r: String)
    requires
        lo <= hi <= v.len(),
        p.len() > 0,
    ensures
        r@ == strip_repeated(v@.subrange(lo as int, hi as int), p@),
{
    let mut a = lo;
    while range_starts_with(v, a, hi, p)
        invariant
            lo <= a <= hi <= v.len(),
            p.len() > 0,
            strip_repeated(v@.subrange(lo as int, hi as int), p@) == strip_repeated(v@.subrange(a as int, hi as int), p@),
        decreases hi - a,
    {
        assert(v@.subrange(a as int, hi as int).subrange(p.len() as int, (hi - a) as int)
            == v@.subrange(a + p.len(), hi as int));
        a = a + p.len();
    }
    string_of(v, a, hi)
}

/// Reads `profiles.ini` and lists the directories of the profiles marked
/// default, in file order.
pub fn default_profile_dirs(ini: &str) -> (r: Vec<String>)
    ensures
        strings_view(r@) == default_profiles(ini@),
{
    let v = chars_of(ini);
    let path_key = chars_of("Path=");
    proof { reveal_strlit("Path="); }
    assert(path_key.len() == 5);
    let mut path: Option<String> = None;
    let mut default = false;
    let mut found: Vec<String> = Vec::new();
    let mut pos: usize = 0;
    assert(v@.subrange(0, v.len() as int) == v@);
    assert(strings_view(found@) == Seq::<Seq<char>>::empty());
    while pos < v.len()
        invariant
            0 <= pos <= v.len(),
            v@ == ini@,
            path_key@ == "Path="@,
            path_key.len() == 5,
            fold_lines(ini@, (None, false, Seq::empty()), profile_step()) == fold_lines(
                v@.subrange(pos as int, v.len() as int),
                (opt_view(path), default, strings_view(found@)),
                profile_step(),
            ),
        decreases v.len() - pos,
    {
        let e = line_end(&v, pos);
        let ghost acc = (opt_view(path), default, strings_view(found@));
        let ghost line = v@.subrange(pos as int, e as int);
        proof {
            lemma_fold_lines_step(v@, pos as int, e as int, acc, profile_step());
        }
        let text = string_of(&v, pos, e);
        if range_starts_with(&v, pos, e, &path_key) {
            path = Some(strip_repeated_range(&v, pos, e, &path_key));
        }
        if same_text(text.as_str(), "Default=1") {
            default = true;
        }
        if e > pos && v[pos] == '[' && !same_text(text.as_str(), "[General]") {
            if default {
                match path {
                    Some(p) => {
                        let ghost before = strings_view(found@);
                        found.push(p);
                        assert(strings_view(found@) == before.push(p@));
                    },
                    None => {},
                }
            }
            path = None;
            default = false;
        }
        assert((opt_view(path), default, strings_view(found@))
            == profile_step()(acc, line));
        if e < v.len() {
            pos = e + 1;
        } else {
            pos = v.len();
            assert(v@.subrange(pos as int, v.len() as int) == Seq::<char>::empty());
        }
    }
    if default {
        match path {
            Some(p) => {
                let ghost before = strings_view(found@);
                found.push(p);
                assert(strings_view(found@) == before.push(p@));
            },
            None => {},
        }
    }
    found
}

} // verus!
