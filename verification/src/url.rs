//! The host of an `http` or `https` URL, and whether a host belongs to a domain.
use vstd::prelude::*;
use vstd::string::*;
use crate::text::{chars_of, is_prefix_of, starts_with};

verus! {

/// The part of `url` after `https://` or `http://`, or `None` for any other scheme.
pub open spec fn scheme_rest(url: Seq<char>) -> Option<Seq<char>> {
    if is_prefix_of("https://"@, url) {
        Some(url.skip(8))
    } else if is_prefix_of("http://"@, url) {
        Some(url.skip(7))
    } else {
        None
    }
}

/// What a scan looks for.
#[derive(Clone, Copy, PartialEq, Eq, Structural)]
pub enum Scan {
    /// The end of the authority: `/`, `?`, `#` or `\`.
    Authority,
    /// The start of the port: `:`.
    Port,
    /// The first `/`.
    Slash,
}

/// A character that ends a scan of kind `scan`.
pub open spec fn stops(scan: Scan, c: char) -> bool {
    match scan {
        Scan::Authority => c == '/' || c == '?' || c == '#' || c == '\\',
        Scan::Port => c == ':',
        Scan::Slash => c == '/',
    }
}

/// The longest prefix of `s` with no stopping character.
pub open spec fn prefix_before(s: Seq<char>, scan: Scan) -> Seq<char>
    decreases s.len(),
{
    if s.len() == 0 || stops(scan, s[0]) {
        Seq::empty()
    } else {
        seq![s[0]] + prefix_before(s.drop_first(), scan)
    }
}

/// What follows the last `@` of `s` (all of `s` when there is none): the
/// authority without its user information.
pub open spec fn after_last_at(s: Seq<char>) -> Seq<char>
    decreases s.len(),
{
    if s.len() == 0 {
        s
    } else if s.last() == '@' {
        Seq::empty()
    } else {
        after_last_at(s.drop_last()).push(s.last())
    }
}

/// The host name of an `http` or `https` URL: the authority (up to the first
/// `/`, `?`, `#` or `\`), without user information and port. `None` for any
/// other scheme.
pub open spec fn host_of_url(url: Seq<char>) -> Option<Seq<char>> {
    match scheme_rest(url) {
        None => None,
        Some(rest) => Some(prefix_before(after_last_at(prefix_before(rest, Scan::Authority)), Scan::Port)),
    }
}

/// What follows the scheme of an `http` or `https` URL up to the first `/`
/// (user information, port, query and all). `None` for any other scheme.
pub open spec fn target_of_url(url: Seq<char>) -> Option<Seq<char>> {
    match scheme_rest(url) {
        None => None,
        Some(rest) => Some(prefix_before(rest, Scan::Slash)),
    }
}

/// `host` is the domain `d` or one of its subdomains.
pub open spec fn domain_matches(d: Seq<char>, host: Seq<char>) -> bool {
    ||| host == d
    ||| host.len() > d.len() && host[host.len() - d.len() - 1] == '.' && host.subrange(
        host.len() - d.len(),
        host.len() as int,
    ) == d
}

fn is_stop(scan: Scan, c: char) -> (r: bool)
    ensures
        r == stops(scan, c),
{
    match scan {
        Scan::Authority => c == '/' || c == '?' || c == '#' || c == '\\',
        Scan::Port => c == ':',
        Scan::Slash => c == '/',
    }
}

proof fn lemma_prefix_before_append(a: Seq<char>, b: Seq<char>, scan: Scan)
    requires
        forall|k: int| 0 <= k < a.len() ==> !stops(scan, #[trigger] a[k]),
    ensures
        prefix_before(a + b, scan) == a + prefix_before(b, scan),
    decreases a.len(),
{
    if a.len() == 0 {
        assert(a + b =~= b);
        assert(a + prefix_before(b, scan) =~= prefix_before(b, scan));
    } else {
        let ab = a + b;
        assert(ab[0] == a[0]);
        assert(ab.drop_first() =~= a.drop_first() + b);
        assert forall|k: int| 0 <= k < a.drop_first().len() implies !stops(scan, #[trigger] a.drop_first()[k]) by {
            assert(a.drop_first()[k] == a[k + 1]);
        }
        lemma_prefix_before_append(a.drop_first(), b, scan);
        assert(seq![a[0]] + (a.drop_first() + prefix_before(b, scan)) =~= a + prefix_before(b, scan));
    }
}

proof fn lemma_after_last_at_append(a: Seq<char>, b: Seq<char>)
    requires
        forall|k: int| 0 <= k < b.len() ==> #[trigger] b[k] != '@',
    ensures
        after_last_at(a + b) == after_last_at(a) + b,
    decreases b.len(),
{
    if b.len() == 0 {
        assert(a + b =~= a);
        assert(after_last_at(a) + b =~= after_last_at(a));
    } else {
        let ab = a + b;
        assert(ab.last() == b.last());
        assert(ab.drop_last() =~= a + b.drop_last());
        assert forall|k: int| 0 <= k < b.drop_last().len() implies #[trigger] b.drop_last()[k] != '@' by {
            assert(b.drop_last()[k] == b[k]);
        }
        lemma_after_last_at_append(a, b.drop_last());
        assert((after_last_at(a) + b.drop_last()).push(b.last()) =~= after_last_at(a) + b);
    }
}

/// The host of an `http` or `https` URL written `scheme`, optional user
/// information ending in `@`, `host`, an optional port (starting with `:`), then
/// the rest (empty, or starting with `/`, `?`, `#` or `\`) is `host`, whatever
/// the user information, port and rest hold.
pub proof fn law_host_of_url(scheme: Seq<char>, user: Seq<char>, host: Seq<char>, port: Seq<char>, rest: Seq<char>)
    requires
        scheme == "https://"@ || scheme == "http://"@,
        user.len() == 0 || user.last() == '@',
        forall|k: int|
            0 <= k < user.len() ==> #[trigger] user[k] != '/' && user[k] != '?' && user[k] != '#' && user[k]
                != '\\',
        forall|k: int|
            0 <= k < host.len() ==> #[trigger] host[k] != '/' && host[k] != '?' && host[k] != '#' && host[k]
                != '\\' && host[k] != '@' && host[k] != ':',
        port.len() == 0 || port[0] == ':',
        forall|k: int|
            0 <= k < port.len() ==> #[trigger] port[k] != '/' && port[k] != '?' && port[k] != '#' && port[k]
                != '\\' && port[k] != '@',
        rest.len() == 0 || rest[0] == '/' || rest[0] == '?' || rest[0] == '#' || rest[0] == '\\',
    ensures
        host_of_url(scheme + user + host + port + rest) == Some(host),
{
    reveal_strlit("https://");
    reveal_strlit("http://");
    let tail = user + host + port + rest;
    let url = scheme + user + host + port + rest;
    assert(url =~= scheme + tail);
    assert(url.skip(scheme.len() as int) =~= tail);
    if scheme == "http://"@ {
        assert(url[4] == ':');
        assert(!is_prefix_of("https://"@, url)) by {
            if is_prefix_of("https://"@, url) {
                assert(url.subrange(0, 8)[4] == "https://"@[4]);
            }
        }
        assert(url.subrange(0, 7) =~= scheme);
    } else {
        assert(url.subrange(0, 8) =~= scheme);
    }
    assert(scheme_rest(url) == Some(tail));
    let auth = user + host + port;
    assert(tail =~= auth + rest);
    assert forall|k: int| 0 <= k < auth.len() implies !stops(Scan::Authority, #[trigger] auth[k]) by {
        if k < user.len() {
            assert(auth[k] == user[k]);
        } else if k < user.len() + host.len() {
            assert(auth[k] == host[k - user.len()]);
        } else {
            assert(auth[k] == port[k - user.len() - host.len()]);
        }
    }
    lemma_prefix_before_append(auth, rest, Scan::Authority);
    assert(prefix_before(rest, Scan::Authority) =~= Seq::<char>::empty());
    assert(prefix_before(tail, Scan::Authority) =~= auth);
    let hp = host + port;
    assert(auth =~= user + hp);
    assert forall|k: int| 0 <= k < hp.len() implies #[trigger] hp[k] != '@' by {
        if k < host.len() {
            assert(hp[k] == host[k]);
        } else {
            assert(hp[k] == port[k - host.len()]);
        }
    }
    lemma_after_last_at_append(user, hp);
    assert(after_last_at(user) =~= Seq::<char>::empty());
    assert(after_last_at(auth) =~= hp);
    assert forall|k: int| 0 <= k < host.len() implies !stops(Scan::Port, #[trigger] host[k]) by {}
    lemma_prefix_before_append(host, port, Scan::Port);
    assert(prefix_before(port, Scan::Port) =~= Seq::<char>::empty());
    assert(host + Seq::<char>::empty() =~= host);
}

/// What the tools' refusal names for `scheme` followed by `part` and `rest`,
/// where `part` has no `/` and `rest` is empty or starts with `/`, is `part`:
/// user information, port, query and all.
pub proof fn law_target_of_url(scheme: Seq<char>, part: Seq<char>, rest: Seq<char>)
    requires
        scheme == "https://"@ || scheme == "http://"@,
        forall|k: int| 0 <= k < part.len() ==> #[trigger] part[k] != '/',
        rest.len() == 0 || rest[0] == '/',
    ensures
        target_of_url(scheme + part + rest) == Some(part),
{
    reveal_strlit("https://");
    reveal_strlit("http://");
    let tail = part + rest;
    let url = scheme + part + rest;
    assert(url =~= scheme + tail);
    assert(url.skip(scheme.len() as int) =~= tail);
    if scheme == "http://"@ {
        assert(url[4] == ':');
        assert(!is_prefix_of("https://"@, url)) by {
            if is_prefix_of("https://"@, url) {
                assert(url.subrange(0, 8)[4] == "https://"@[4]);
            }
        }
        assert(url.subrange(0, 7) =~= scheme);
    } else {
        assert(url.subrange(0, 8) =~= scheme);
    }
    assert forall|k: int| 0 <= k < part.len() implies !stops(Scan::Slash, #[trigger] part[k]) by {}
    lemma_prefix_before_append(part, rest, Scan::Slash);
    assert(prefix_before(rest, Scan::Slash) =~= Seq::<char>::empty());
    assert(part + Seq::<char>::empty() =~= part);
}

/// Scans `chars` from `from` to the first stopping character before `to`.
fn scan_until(chars: &Vec<char>, from: usize, to: usize, scan: Scan) -> (k: usize)
    requires
        from <= to <= chars@.len(),
    ensures
        from <= k <= to,
        prefix_before(chars@.subrange(from as int, to as int), scan) == chars@.subrange(
            from as int,
            k as int,
        ),
{
    let mut k: usize = from;
    while k < to && !is_stop(scan, chars[k])
        invariant
            from <= k <= to <= chars@.len(),
            prefix_before(chars@.subrange(from as int, to as int), scan) == chars@.subrange(
                from as int,
                k as int,
            ) + prefix_before(chars@.subrange(k as int, to as int), scan),
        decreases to - k,
    {
        let ghost s = chars@.subrange(k as int, to as int);
        assert(s.drop_first() =~= chars@.subrange(k + 1, to as int));
        assert(prefix_before(s, scan) == seq![s[0]] + prefix_before(s.drop_first(), scan));
        assert(chars@.subrange(from as int, k + 1) =~= chars@.subrange(from as int, k as int).push(
            chars@[k as int],
        ));
        k = k + 1;
        assert(chars@.subrange(from as int, k as int) + prefix_before(chars@.subrange(k as int, to as int), scan)
            =~= chars@.subrange(from as int, k - 1) + (seq![s[0]] + prefix_before(s.drop_first(), scan)));
    }
    assert(prefix_before(chars@.subrange(k as int, to as int), scan) =~= Seq::<char>::empty());
    assert(chars@.subrange(from as int, k as int) + Seq::<char>::empty() =~= chars@.subrange(from as int, k as int));
    k
}

/// Scans back from `to` to just after the last `@` at or after `from`.
fn after_last_at_index(chars: &Vec<char>, from: usize, to: usize) -> (j: usize)
    requires
        from <= to <= chars@.len(),
    ensures
        from <= j <= to,
        after_last_at(chars@.subrange(from as int, to as int)) == chars@.subrange(j as int, to as int),
{
    let mut j: usize = to;
    while j > from && chars[j - 1] != '@'
        invariant
            from <= j <= to <= chars@.len(),
            after_last_at(chars@.subrange(from as int, to as int)) == after_last_at(
                chars@.subrange(from as int, j as int),
            ) + chars@.subrange(j as int, to as int),
        decreases j - from,
    {
        let ghost s = chars@.subrange(from as int, j as int);
        assert(s.drop_last() =~= chars@.subrange(from as int, j - 1));
        assert(after_last_at(s) == after_last_at(s.drop_last()).push(s.last()));
        assert(after_last_at(s.drop_last()).push(s.last()) + chars@.subrange(j as int, to as int)
            =~= after_last_at(s.drop_last()) + chars@.subrange(j - 1, to as int));
        j = j - 1;
    }
    assert(after_last_at(chars@.subrange(from as int, j as int)) =~= Seq::<char>::empty());
    assert(Seq::<char>::empty() + chars@.subrange(j as int, to as int) =~= chars@.subrange(
        j as int,
        to as int,
    ));
    j
}

/// The host name of `url`, when it is an `http` or `https` URL.
pub fn url_host<'a>(url: &'a str) -> (r: Option<&'a str>)
    ensures
        r is None <==> host_of_url(url@) is None,
        r matches Some(h) ==> host_of_url(url@) == Some(h@),
{
    proof {
        reveal_strlit("https://");
        reveal_strlit("http://");
    }
    let start: usize = if starts_with(url, "https://") {
        8
    } else if starts_with(url, "http://") {
        7
    } else {
        return None;
    };
    let chars = chars_of(url);
    let n = chars.len();
    assert(url@.skip(start as int) =~= chars@.subrange(start as int, n as int));
    let end = scan_until(&chars, start, n, Scan::Authority);
    let at = after_last_at_index(&chars, start, end);
    let host_end = scan_until(&chars, at, end, Scan::Port);
    Some(url.substring_char(at, host_end))
}

/// What follows the scheme of `url` up to the first `/`, when it is an `http` or
/// `https` URL.
pub fn url_target<'a>(url: &'a str) -> (r: Option<&'a str>)
    ensures
        r is None <==> target_of_url(url@) is None,
        r matches Some(t) ==> target_of_url(url@) == Some(t@),
{
    proof {
        reveal_strlit("https://");
        reveal_strlit("http://");
    }
    let start: usize = if starts_with(url, "https://") {
        8
    } else if starts_with(url, "http://") {
        7
    } else {
        return None;
    };
    let chars = chars_of(url);
    let n = chars.len();
    assert(url@.skip(start as int) =~= chars@.subrange(start as int, n as int));
    let end = scan_until(&chars, start, n, Scan::Slash);
    Some(url.substring_char(start, end))
}

/// Whether `host` is the domain `d` or one of its subdomains.
pub fn host_matches_domain(host: &str, d: &str) -> (r: bool)
    ensures
        r == domain_matches(d@, host@),
{
    let h = chars_of(host);
    let dc = chars_of(d);
    if h.len() == dc.len() {
        let mut i: usize = 0;
        while i < h.len()
            invariant
                h@ == host@,
                dc@ == d@,
                h@.len() == dc@.len(),
                i <= h@.len(),
                forall|j: int| 0 <= j < i ==> h@[j] == dc@[j],
            decreases h@.len() - i,
        {
            if h[i] != dc[i] {
                return false;
            }
            i = i + 1;
        }
        assert(h@ =~= dc@);
        return true;
    }
    if h.len() < dc.len() {
        return false;
    }
    let off = h.len() - dc.len();
    if h[off - 1] != '.' {
        return false;
    }
    let mut i: usize = 0;
    while i < dc.len()
        invariant
            h@ == host@,
            dc@ == d@,
            off == h@.len() - dc@.len(),
            off >= 1,
            h.len() == h@.len(),
            i <= dc@.len(),
            forall|j: int| 0 <= j < i ==> h@[off + j] == dc@[j],
        decreases dc@.len() - i,
    {
        if h[off + i] != dc[i] {
            assert(h@.subrange(off as int, h@.len() as int)[i as int] != dc@[i as int]);
            return false;
        }
        i = i + 1;
    }
    assert(h@.subrange(off as int, h@.len() as int) =~= dc@);
    true
}

} // verus!
