use vstd::prelude::*;
use crate::text::{contains, occurs_at, starts_with, strings_view, text_contains, text_starts_with};

verus! {

/// Key of the computer-vision subscription key.
pub const SUBSCRIPTION_KEY: &'static str = "COMPUTER_VISION_SUBSCRIPTION_KEY";

/// Key of the computer-vision endpoint.
pub const ENDPOINT_KEY: &'static str = "COMPUTER_VISION_ENDPOINT";

/// Key of the crawler image.
pub const CRAWLER_KEY: &'static str = "CRAWLER_IMAGE";

/// Key of the companion image of the standalone deployment.
pub const COMPANION_KEY: &'static str = "A11YWATCH_IMAGE";

/// Platform family of the host, which picks the default crawler image.
#[derive(Clone, Copy, Debug, PartialEq, Eq, Structural)]
pub enum Platform {
    DarwinArm64,
    Ubuntu,
    Alpine,
    Debian,
}

/// The line `key=value`.
pub open spec fn assignment(key: Seq<char>, value: Seq<char>) -> Seq<char> {
    key + "="@ + value
}

/// A line that assigns the crawler image.
pub open spec fn is_crawler_line(line: Seq<char>) -> bool {
    starts_with(line, assignment(CRAWLER_KEY@, Seq::empty()))
}

/// The line is rewritten to carry the subscription key.
pub open spec fn takes_token(line: Seq<char>, token: Seq<char>) -> bool {
    token.len() > 0 && contains(line, SUBSCRIPTION_KEY@)
}

/// The line is rewritten to carry the endpoint.
pub open spec fn takes_url(line: Seq<char>, token: Seq<char>, url: Seq<char>) -> bool {
    !takes_token(line, token) && url.len() > 0 && contains(line, ENDPOINT_KEY@)
}

/// One line after synchronisation.
pub open spec fn rewrite_line(line: Seq<char>, token: Seq<char>, url: Seq<char>) -> Seq<char> {
    if takes_token(line, token) {
        assignment(SUBSCRIPTION_KEY@, token)
    } else if takes_url(line, token, url) {
        assignment(ENDPOINT_KEY@, url)
    } else {
        line
    }
}

pub open spec fn crawler_image(platform: Platform) -> Seq<char> {
    match platform {
        Platform::DarwinArm64 => "darwin-arm64"@,
        Platform::Ubuntu => "ubuntu"@,
        Platform::Alpine => "alpine"@,
        Platform::Debian => "debian"@,
    }
}

/// The lines appended where no crawler image is assigned yet.
pub open spec fn default_lines(platform: Platform) -> Seq<Seq<char>> {
    if platform == Platform::DarwinArm64 {
        seq![assignment(CRAWLER_KEY@, crawler_image(platform)), assignment(COMPANION_KEY@, "darwin"@)]
    } else {
        seq![assignment(CRAWLER_KEY@, crawler_image(platform))]
    }
}

pub open spec fn token_written(lines: Seq<Seq<char>>, token: Seq<char>) -> bool {
    exists|i: int| 0 <= i < lines.len() && takes_token(lines[i], token)
}

pub open spec fn url_written(lines: Seq<Seq<char>>, token: Seq<char>, url: Seq<char>) -> bool {
    exists|i: int| 0 <= i < lines.len() && takes_url(lines[i], token, url)
}

pub open spec fn crawler_present(lines: Seq<Seq<char>>) -> bool {
    exists|i: int| 0 <= i < lines.len() && is_crawler_line(lines[i])
}

/// The environment file after synchronisation: every line rewritten in
/// place, then the subscription key and the endpoint where no line took
/// them, then the default crawler image where none was assigned.
pub open spec fn synced_lines(lines: Seq<Seq<char>>, token: Seq<char>, url: Seq<char>, platform: Platform) -> Seq<Seq<char>> {
    lines.map_values(|l: Seq<char>| rewrite_line(l, token, url))
        + (if token.len() > 0 && !token_written(lines, token) {
            seq![assignment(SUBSCRIPTION_KEY@, token)]
        } else {
            Seq::empty()
        })
        + (if url.len() > 0 && !url_written(lines, token, url) {
            seq![assignment(ENDPOINT_KEY@, url)]
        } else {
            Seq::empty()
        })
        + (if !crawler_present(lines) {
            default_lines(platform)
        } else {
            Seq::empty()
        })
}

/// The line `key=value`.
pub fn make_assignment(key: &str, value: &str) -> (r: String)
    ensures
        r@ == assignment(key@, value@),
{
    let mut r = key.to_owned();
    r.append("=");
    r.append(value);
    r
}

/// The lines that assign the platform's default images.
pub fn default_image_lines(platform: Platform) -> (r: Vec<String>)
    ensures
        strings_view(r@) == default_lines(platform),
{
    let mut r: Vec<String> = Vec::new();
    let image = match platform {
        Platform::DarwinArm64 => "darwin-arm64",
        Platform::Ubuntu => "ubuntu",
        Platform::Alpine => "alpine",
        Platform::Debian => "debian",
    };
    r.push(make_assignment(CRAWLER_KEY, image));
    if platform == Platform::DarwinArm64 {
        r.push(make_assignment(COMPANION_KEY, "darwin"));
    }
    assert(strings_view(r@) =~= default_lines(platform));
    r
}

/// Synchronises the lines of an environment file with the computer-vision
/// token and endpoint; an empty token or endpoint is left alone.
pub fn sync_env_lines(lines: &Vec<String>, cv_token: &str, cv_url: &str, platform: Platform) -> (r: Vec<String>)
    ensures
        strings_view(r@) == synced_lines(strings_view(lines@), cv_token@, cv_url@, platform),
{
    let ghost ls = strings_view(lines@);
    let has_token = cv_token.unicode_len() > 0;
    let has_url = cv_url.unicode_len() > 0;
    let mut wrote_token = false;
    let mut wrote_url = false;
    let mut wrote_crawler = false;
    let crawler_prefix = make_assignment(CRAWLER_KEY, "");
    proof {
        reveal_strlit("");
        assert(crawler_prefix@ =~= assignment(CRAWLER_KEY@, Seq::empty()));
    }
    let mut out: Vec<String> = Vec::new();
    let mut i: usize = 0;
    while i < lines.len()
        invariant
            i <= lines.len(),
            out.len() == i,
            ls == strings_view(lines@),
            has_token == (cv_token@.len() > 0),
            has_url == (cv_url@.len() > 0),
            crawler_prefix@ == assignment(CRAWLER_KEY@, Seq::empty()),
            wrote_token == token_written(ls.subrange(0, i as int), cv_token@),
            wrote_url == url_written(ls.subrange(0, i as int), cv_token@, cv_url@),
            wrote_crawler == crawler_present(ls.subrange(0, i as int)),
            strings_view(out@) =~= ls.subrange(0, i as int).map_values(|l: Seq<char>| rewrite_line(l, cv_token@, cv_url@)),
        decreases lines.len() - i,
    {
        let line = &lines[i];
        let ghost pre = ls.subrange(0, i as int);
        let ghost next = ls.subrange(0, i + 1);
        assert(next =~= pre.push(ls[i as int]));
        assert(ls[i as int] == line@);
        let is_crawler = text_starts_with(line.as_str(), crawler_prefix.as_str());
        if is_crawler {
            wrote_crawler = true;
        }
        let ghost prev_out = out@;
        let takes_token = has_token && text_contains(line.as_str(), SUBSCRIPTION_KEY);
        let takes_url = !takes_token && has_url && text_contains(line.as_str(), ENDPOINT_KEY);
        if takes_token {
            out.push(make_assignment(SUBSCRIPTION_KEY, cv_token));
            wrote_token = true;
        } else if takes_url {
            out.push(make_assignment(ENDPOINT_KEY, cv_url));
            wrote_url = true;
        } else {
            out.push(line.clone());
        }
        proof {
            assert(out@[i as int]@ == rewrite_line(line@, cv_token@, cv_url@));
            assert(takes_token == crate::env::takes_token(line@, cv_token@));
            assert(takes_url == crate::env::takes_url(line@, cv_token@, cv_url@));
            if takes_token {
                assert(crate::env::takes_token(next[i as int], cv_token@));
            }
            if takes_url {
                assert(crate::env::takes_url(next[i as int], cv_token@, cv_url@));
            }
            if is_crawler {
                assert(is_crawler_line(next[i as int]));
            }
            assert(token_written(next, cv_token@) == (token_written(pre, cv_token@) || takes_token));
            assert(url_written(next, cv_token@, cv_url@) == (url_written(pre, cv_token@, cv_url@) || takes_url));
            assert(crawler_present(next) == (crawler_present(pre) || is_crawler));
        }
        assert forall|t: int| 0 <= t < i implies #[trigger] strings_view(out@)[t] == rewrite_line(next[t], cv_token@, cv_url@) by {
            assert(out@[t] == prev_out[t]);
            assert(strings_view(prev_out)[t] == pre.map_values(|l: Seq<char>| rewrite_line(l, cv_token@, cv_url@))[t]);
        }
        i = i + 1;
        assert(strings_view(out@) =~= next.map_values(|l: Seq<char>| rewrite_line(l, cv_token@, cv_url@)));
    }
    assert(ls.subrange(0, lines.len() as int) =~= ls);
    let ghost mapped = strings_view(out@);
    let ghost mut tail1: Seq<Seq<char>> = Seq::empty();
    if has_token && !wrote_token {
        out.push(make_assignment(SUBSCRIPTION_KEY, cv_token));
        proof { tail1 = seq![assignment(SUBSCRIPTION_KEY@, cv_token@)]; }
    }
    assert(strings_view(out@) =~= mapped + tail1);
    let ghost mut tail2: Seq<Seq<char>> = Seq::empty();
    if has_url && !wrote_url {
        out.push(make_assignment(ENDPOINT_KEY, cv_url));
        proof { tail2 = seq![assignment(ENDPOINT_KEY@, cv_url@)]; }
    }
    assert(strings_view(out@) =~= mapped + tail1 + tail2);
    if !wrote_crawler {
        let defaults = default_image_lines(platform);
        let ghost before = out@;
        let mut j: usize = 0;
        while j < defaults.len()
            invariant
                j <= defaults.len(),
                out@ =~= before + defaults@.subrange(0, j as int),
            decreases defaults.len() - j,
        {
            out.push(defaults[j].clone());
            j = j + 1;
        }
        assert(defaults@.subrange(0, defaults.len() as int) =~= defaults@);
        assert(strings_view(out@) =~= strings_view(before) + strings_view(defaults@));
    }
    assert(strings_view(out@) =~= synced_lines(ls, cv_token@, cv_url@, platform));
    out
}


/// A line `key=value` contains its key, at its start.
pub proof fn lemma_assignment_has_key(key: Seq<char>, value: Seq<char>)
    ensures
        starts_with(assignment(key, value), key),
        contains(assignment(key, value), key),
{
    assert(assignment(key, value).subrange(0, key.len() as int) =~= key);
    assert(occurs_at(assignment(key, value), key, 0));
}

/// The lines that carry the key or the endpoint differ from each other and
/// assign no crawler image.
pub proof fn lemma_key_lines(token: Seq<char>, url: Seq<char>)
    ensures
        assignment(SUBSCRIPTION_KEY@, token) != assignment(ENDPOINT_KEY@, url),
        !is_crawler_line(assignment(SUBSCRIPTION_KEY@, token)),
        !is_crawler_line(assignment(ENDPOINT_KEY@, url)),
{
    reveal_strlit("COMPUTER_VISION_SUBSCRIPTION_KEY");
    reveal_strlit("COMPUTER_VISION_ENDPOINT");
    reveal_strlit("CRAWLER_IMAGE");
    reveal_strlit("=");
    let p = assignment(CRAWLER_KEY@, Seq::empty());
    let a = assignment(SUBSCRIPTION_KEY@, token);
    let b = assignment(ENDPOINT_KEY@, url);
    assert(a[16] != b[16]);
    assert(a.subrange(0, p.len() as int)[1] != p[1]);
    assert(b.subrange(0, p.len() as int)[1] != p[1]);
}


/// The default lines carry neither the key nor the endpoint, and the first
/// of them, only, assigns the crawler image.
pub proof fn lemma_default_lines(platform: Platform)
    ensures
        default_lines(platform).len() >= 1,
        is_crawler_line(default_lines(platform)[0]),
        forall|i: int| 1 <= i < default_lines(platform).len() ==> !is_crawler_line(#[trigger] default_lines(platform)[i]),
        forall|i: int| 0 <= i < default_lines(platform).len() ==> !contains(#[trigger] default_lines(platform)[i], SUBSCRIPTION_KEY@),
        forall|i: int| 0 <= i < default_lines(platform).len() ==> !contains(#[trigger] default_lines(platform)[i], ENDPOINT_KEY@),
{
    reveal_strlit("COMPUTER_VISION_SUBSCRIPTION_KEY");
    reveal_strlit("COMPUTER_VISION_ENDPOINT");
    reveal_strlit("CRAWLER_IMAGE");
    reveal_strlit("A11YWATCH_IMAGE");
    reveal_strlit("=");
    reveal_strlit("darwin-arm64");
    reveal_strlit("ubuntu");
    reveal_strlit("alpine");
    reveal_strlit("debian");
    reveal_strlit("darwin");
    let d = default_lines(platform);
    let p = assignment(CRAWLER_KEY@, Seq::empty());
    let first = d[0];
    assert(first.subrange(0, p.len() as int) =~= p);
    if platform == Platform::DarwinArm64 {
        let c = d[1];
        assert(c.subrange(0, p.len() as int)[0] != p[0]);
        assert forall|i: int| !occurs_at(first, ENDPOINT_KEY@, i) by {
            if 0 <= i && i + ENDPOINT_KEY@.len() <= first.len() {
                let w = first.subrange(i, i + ENDPOINT_KEY@.len());
                if i == 0 {
                    assert(w[1] != ENDPOINT_KEY@[1]);
                } else {
                    assert(w[0] != ENDPOINT_KEY@[0]);
                }
            }
        }
    }
}


/// A line that synchronisation wrote is left as it is by another run, and
/// still takes what it took.
proof fn lemma_rewrite_stable(l: Seq<char>, token: Seq<char>, url: Seq<char>)
    requires
        token.len() > 0 ==> !contains(assignment(ENDPOINT_KEY@, url), SUBSCRIPTION_KEY@),
    ensures
        rewrite_line(rewrite_line(l, token, url), token, url) == rewrite_line(l, token, url),
        takes_token(l, token) ==> takes_token(rewrite_line(l, token, url), token),
        takes_url(l, token, url) ==> takes_url(rewrite_line(l, token, url), token, url),
{
    lemma_assignment_has_key(SUBSCRIPTION_KEY@, token);
    lemma_assignment_has_key(ENDPOINT_KEY@, url);
}

/// The parts of a synchronised file: the rewritten lines, then what is
/// appended.
proof fn lemma_synced_parts(lines: Seq<Seq<char>>, token: Seq<char>, url: Seq<char>, platform: Platform)
    ensures
        ({
            let once = synced_lines(lines, token, url, platform);
            let n = lines.len() as int;
            let t1 = token.len() > 0 && !token_written(lines, token);
            let t2 = url.len() > 0 && !url_written(lines, token, url);
            let a = if t1 { 1int } else { 0int };
            let b = if t2 { 1int } else { 0int };
            let c = if !crawler_present(lines) { default_lines(platform).len() as int } else { 0int };
            &&& once.len() == n + a + b + c
            &&& forall|i: int| 0 <= i < n ==> #[trigger] once[i] == rewrite_line(lines[i], token, url)
            &&& t1 ==> once[n] == assignment(SUBSCRIPTION_KEY@, token)
            &&& t2 ==> once[n + a] == assignment(ENDPOINT_KEY@, url)
            &&& forall|i: int| 0 <= i < c ==> #[trigger] once[n + a + b + i] == default_lines(platform)[i]
        }),
{
}

/// Synchronising twice with the same configuration gives what
/// synchronising once gives. This holds where no crawler-image line is
/// rewritten, and, with a key set, where the endpoint line does not name
/// the key.
pub proof fn law_sync_idempotent(lines: Seq<Seq<char>>, token: Seq<char>, url: Seq<char>, platform: Platform)
    requires
        token.len() > 0 ==> !contains(assignment(ENDPOINT_KEY@, url), SUBSCRIPTION_KEY@),
        forall|i: int| 0 <= i < lines.len() && is_crawler_line(lines[i])
            ==> #[trigger] rewrite_line(lines[i], token, url) == lines[i],
    ensures
        synced_lines(synced_lines(lines, token, url, platform), token, url, platform)
            == synced_lines(lines, token, url, platform),
{
    let once = synced_lines(lines, token, url, platform);
    let n = lines.len() as int;
    let t1 = token.len() > 0 && !token_written(lines, token);
    let t2 = url.len() > 0 && !url_written(lines, token, url);
    let a = if t1 { 1int } else { 0int };
    let b = if t2 { 1int } else { 0int };
    let c = if !crawler_present(lines) { default_lines(platform).len() as int } else { 0int };
    lemma_synced_parts(lines, token, url, platform);
    lemma_default_lines(platform);
    lemma_assignment_has_key(SUBSCRIPTION_KEY@, token);
    lemma_assignment_has_key(ENDPOINT_KEY@, url);
    assert forall|i: int| 0 <= i < once.len() implies #[trigger] rewrite_line(once[i], token, url) == once[i] by {
        if i < n {
            lemma_rewrite_stable(lines[i], token, url);
        } else if i >= n + a + b {
            assert(once[n + a + b + (i - n - a - b)] == default_lines(platform)[i - n - a - b]);
        }
    }
    assert(once.map_values(|l: Seq<char>| rewrite_line(l, token, url)) =~= once);
    if token.len() > 0 {
        if token_written(lines, token) {
            let i = choose|i: int| 0 <= i < lines.len() && takes_token(lines[i], token);
            lemma_rewrite_stable(lines[i], token, url);
            assert(takes_token(once[i], token));
        } else {
            assert(takes_token(once[n], token));
        }
        assert(token_written(once, token));
    }
    if url.len() > 0 {
        if url_written(lines, token, url) {
            let i = choose|i: int| 0 <= i < lines.len() && takes_url(lines[i], token, url);
            lemma_rewrite_stable(lines[i], token, url);
            assert(takes_url(once[i], token, url));
        } else {
            assert(takes_url(once[n + a], token, url));
        }
        assert(url_written(once, token, url));
    }
    if crawler_present(lines) {
        let i = choose|i: int| 0 <= i < lines.len() && is_crawler_line(lines[i]);
        assert(is_crawler_line(once[i]));
    } else {
        assert(is_crawler_line(once[n + a + b + 0]));
    }
    assert(crawler_present(once));
    assert(synced_lines(once, token, url, platform) =~= once);
}


/// Line `i` is the one line of `s` that assigns the crawler image.
pub open spec fn sole_crawler_line(s: Seq<Seq<char>>, i: int) -> bool {
    &&& 0 <= i < s.len()
    &&& is_crawler_line(s[i])
    &&& forall|j: int| 0 <= j < s.len() && j != i ==> !is_crawler_line(#[trigger] s[j])
}

/// A rewritten line assigns the crawler image only where the line did and
/// was kept.
proof fn lemma_rewrite_crawler(l: Seq<char>, token: Seq<char>, url: Seq<char>)
    ensures
        is_crawler_line(rewrite_line(l, token, url)) ==> is_crawler_line(l) && rewrite_line(l, token, url) == l,
{
    lemma_key_lines(token, url);
}

/// Where no line assigns the crawler image, synchronisation appends exactly
/// one line that does, with the platform's default image, and a second run
/// keeps it the only one.
pub proof fn law_crawler_default_appended_once(lines: Seq<Seq<char>>, token: Seq<char>, url: Seq<char>, platform: Platform)
    requires
        !crawler_present(lines),
    ensures
        ({
            let once = synced_lines(lines, token, url, platform);
            exists|i: int| sole_crawler_line(once, i) && once[i] == assignment(CRAWLER_KEY@, crawler_image(platform))
        }),
        ({
            let twice = synced_lines(synced_lines(lines, token, url, platform), token, url, platform);
            exists|i: int| sole_crawler_line(twice, i) && twice[i] == assignment(CRAWLER_KEY@, crawler_image(platform))
        }),
{
    let once = synced_lines(lines, token, url, platform);
    let n = lines.len() as int;
    let t1 = token.len() > 0 && !token_written(lines, token);
    let t2 = url.len() > 0 && !url_written(lines, token, url);
    let a = if t1 { 1int } else { 0int };
    let b = if t2 { 1int } else { 0int };
    let k = n + a + b;
    lemma_synced_parts(lines, token, url, platform);
    lemma_default_lines(platform);
    lemma_key_lines(token, url);
    assert(once[k + 0] == default_lines(platform)[0]);
    assert forall|j: int| 0 <= j < once.len() && j != k implies !is_crawler_line(#[trigger] once[j]) by {
        if j < n {
            lemma_rewrite_crawler(lines[j], token, url);
            if is_crawler_line(lines[j]) {
                assert(crawler_present(lines));
            }
        } else if j > k {
            assert(once[k + (j - k)] == default_lines(platform)[j - k]);
        }
    }
    assert(sole_crawler_line(once, k));

    let twice = synced_lines(once, token, url, platform);
    lemma_synced_parts(once, token, url, platform);
    assert(crawler_present(once));
    assert(!contains(once[k], SUBSCRIPTION_KEY@) && !contains(once[k], ENDPOINT_KEY@));
    assert(twice[k] == once[k]);
    assert forall|j: int| 0 <= j < twice.len() && j != k implies !is_crawler_line(#[trigger] twice[j]) by {
        if j < once.len() {
            lemma_rewrite_crawler(once[j], token, url);
        }
    }
    assert(sole_crawler_line(twice, k));
}


/// At most one of the lines names the subscription key.
pub open spec fn key_named_at_most_once(lines: Seq<Seq<char>>) -> bool {
    forall|i: int, j: int| 0 <= i < lines.len() && 0 <= j < lines.len() && i != j
        && #[trigger] contains(lines[i], SUBSCRIPTION_KEY@) ==> !#[trigger] contains(lines[j], SUBSCRIPTION_KEY@)
}

/// Line `i` is the one line of `s` equal to `line`.
pub open spec fn sole_line(s: Seq<Seq<char>>, i: int, line: Seq<char>) -> bool {
    &&& 0 <= i < s.len()
    &&& s[i] == line
    &&& forall|j: int| 0 <= j < s.len() && j != i ==> #[trigger] s[j] != line
}

/// With a key set, where at most one line names the key, the synchronised
/// file holds exactly one line that assigns it.
pub proof fn law_single_key_line(lines: Seq<Seq<char>>, token: Seq<char>, url: Seq<char>, platform: Platform)
    requires
        token.len() > 0,
        key_named_at_most_once(lines),
    ensures
        exists|i: int| sole_line(synced_lines(lines, token, url, platform), i, assignment(SUBSCRIPTION_KEY@, token)),
{
    let once = synced_lines(lines, token, url, platform);
    let target = assignment(SUBSCRIPTION_KEY@, token);
    let n = lines.len() as int;
    let t1 = !token_written(lines, token);
    let a = if t1 { 1int } else { 0int };
    lemma_synced_parts(lines, token, url, platform);
    lemma_default_lines(platform);
    lemma_key_lines(token, url);
    lemma_assignment_has_key(SUBSCRIPTION_KEY@, token);
    assert forall|j: int| 0 <= j < once.len() && #[trigger] once[j] == target
        implies (j < n && contains(lines[j], SUBSCRIPTION_KEY@)) || (t1 && j == n) by {
        if j >= n + a {
            if url.len() > 0 && !url_written(lines, token, url) && j == n + a {
            } else {
                let c = if url.len() > 0 && !url_written(lines, token, url) { 1int } else { 0int };
                assert(once[n + a + c + (j - n - a - c)] == default_lines(platform)[j - n - a - c]);
            }
        }
    }
    let i = if t1 {
        n
    } else {
        choose|i: int| 0 <= i < lines.len() && takes_token(lines[i], token)
    };
    assert(once[i] == target);
    assert(sole_line(once, i, target));
}

} // verus!
