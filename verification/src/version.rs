//! Semantic-version comparison and release evaluation for the self-update
//! check: a version tag is stripped of leading `v`s, split on dots, and
//! every dot-separated chunk that reads as an unsigned number becomes one
//! component; missing components count as zero, and only the first three
//! are compared.
use vstd::prelude::*;

verus! {

broadcast use vstd::string::group_string_axioms;

/// `s` with every leading `v` removed.
pub open spec fn strip_v(s: Seq<char>) -> Seq<char>
    decreases s.len(),
{
    if s.len() > 0 && s[0] == 'v' {
        strip_v(s.drop_first())
    } else {
        s
    }
}

/// Whether `c` is a decimal digit.
pub open spec fn is_digit(c: char) -> bool {
    48 <= c as int <= 57
}

/// The number the digit string `s` denotes, most significant digit first.
pub open spec fn digits_val(s: Seq<char>) -> int
    decreases s.len(),
{
    if s.len() == 0 {
        0
    } else {
        digits_val(s.drop_last()) * 10 + (s.last() as int - 48)
    }
}

/// Whether every character of `s` is a decimal digit.
pub open spec fn all_digits(s: Seq<char>) -> bool {
    forall|i: int| 0 <= i < s.len() ==> is_digit(#[trigger] s[i])
}

/// The component a dot-separated chunk contributes: its value when it is a
/// nonempty digit string that fits an unsigned 32-bit number, nothing
/// otherwise (the chunk is then skipped entirely).
pub open spec fn parse_chunk(s: Seq<char>) -> Option<u32> {
    if s.len() > 0 && all_digits(s) && digits_val(s) <= u32::MAX {
        Option::Some(digits_val(s) as u32)
    } else {
        Option::None
    }
}

/// Splits the first `n` characters of `s` at dots: the chunks already
/// closed by a dot, and the still-open chunk after the last dot.
pub open spec fn scan_chunks(s: Seq<char>, n: int) -> (Seq<Seq<char>>, Seq<char>)
    decreases n,
{
    if n <= 0 {
        (Seq::empty(), Seq::empty())
    } else {
        let (done, cur) = scan_chunks(s, n - 1);
        if s[n - 1] == '.' {
            (done.push(cur), Seq::empty())
        } else {
            (done, cur.push(s[n - 1]))
        }
    }
}

/// All dot-separated chunks of `s`, the trailing one included.
pub open spec fn chunks_of(s: Seq<char>) -> Seq<Seq<char>> {
    let (done, cur) = scan_chunks(s, s.len() as int);
    done.push(cur)
}

/// The numeric components the chunks contribute, in order, with every
/// unparsable chunk skipped.
pub open spec fn collect_parts(chunks: Seq<Seq<char>>) -> Seq<u32>
    decreases chunks.len(),
{
    if chunks.len() == 0 {
        Seq::empty()
    } else {
        let pre = collect_parts(chunks.drop_last());
        match parse_chunk(chunks.last()) {
            Option::Some(v) => pre.push(v),
            Option::None => pre,
        }
    }
}

/// The numeric components of a full version string.
pub open spec fn parts_of(s: Seq<char>) -> Seq<u32> {
    collect_parts(chunks_of(strip_v(s)))
}

/// Component `i`, with zero standing in for a missing component.
pub open spec fn part_at(ps: Seq<u32>, i: int) -> u32 {
    if 0 <= i < ps.len() {
        ps[i]
    } else {
        0
    }
}

/// Lexicographic comparison of the first three components: 1 when `a` is
/// newer, -1 when older, 0 when the components agree.
pub open spec fn version_cmp(a: Seq<u32>, b: Seq<u32>) -> int {
    if part_at(a, 0) != part_at(b, 0) {
        if part_at(a, 0) > part_at(b, 0) {
            1int
        } else {
            -1int
        }
    } else if part_at(a, 1) != part_at(b, 1) {
        if part_at(a, 1) > part_at(b, 1) {
            1int
        } else {
            -1int
        }
    } else if part_at(a, 2) != part_at(b, 2) {
        if part_at(a, 2) > part_at(b, 2) {
            1int
        } else {
            -1int
        }
    } else {
        0int
    }
}

/// A digit string denotes a nonnegative number.
proof fn lemma_digits_val_nonneg(s: Seq<char>)
    requires
        all_digits(s),
    ensures
        digits_val(s) >= 0,
    decreases s.len(),
{
    if s.len() > 0 {
        assert(all_digits(s.drop_last())) by {
            assert(forall|i: int|
                0 <= i < s.len() - 1 ==> #[trigger] s.drop_last()[i] == s[i]);
        }
        lemma_digits_val_nonneg(s.drop_last());
    }
}

/// Relies on `str::chars`: yields exactly the characters of the slice, in
/// order.
#[verifier::external_body]
fn chars_of(s: &str) -> (r: Vec<char>)
    ensures
        r@ == s@,
{
    s.chars().collect()
}

/// The numeric components of one version string.
fn parse_version(v: &str) -> (r: Vec<u32>)
    ensures
        r@ == parts_of(v@),
{
    let chars = chars_of(v);
    let n = chars.len();
    // Strip every leading `v`.
    let mut start: usize = 0;
    proof {
        assert(chars@.skip(0) =~= chars@);
    }
    while start < n && chars[start] == 'v'
        invariant
            0 <= start <= n,
            n == chars@.len(),
            strip_v(chars@) == strip_v(chars@.skip(start as int)),
        decreases n - start,
    {
        proof {
            assert(chars@.skip(start as int).drop_first() =~= chars@.skip(start as int + 1));
        }
        start = start + 1;
    }
    proof {
        assert(strip_v(chars@.skip(start as int)) == chars@.skip(start as int));
    }
    let ghost rest = strip_v(chars@);
    // Scan the remainder chunk by chunk, collecting every chunk that reads
    // as an unsigned 32-bit number.
    let mut parts: Vec<u32> = Vec::new();
    let mut chunk_len: usize = 0;
    let mut digits_ok: bool = true;
    let mut small: bool = true;
    let mut acc: u64 = 0;
    let mut k: usize = start;
    while k < n
        invariant
            start <= k <= n,
            n == chars@.len(),
            rest == chars@.skip(start as int),
            rest =~= strip_v(chars@),
            chunk_len as int <= k - start,
            ({
                let (done, cur) = scan_chunks(rest, k - start);
                &&& cur.len() == chunk_len
                &&& parts@ == collect_parts(done)
                &&& digits_ok == all_digits(cur)
                &&& (digits_ok ==> (small == (digits_val(cur) <= u32::MAX)))
                &&& ((digits_ok && small) ==> acc == digits_val(cur))
                &&& acc <= u32::MAX
            }),
        decreases n - k,
    {
        let ghost (done, cur) = scan_chunks(rest, k - start);
        proof {
            assert(rest[k - start] == chars@[k as int]);
        }
        let c = chars[k];
        if c == '.' {
            proof {
                if parse_chunk(cur) is Some {
                    lemma_digits_val_nonneg(cur);
                }
                assert(done.push(cur).drop_last() =~= done);
            }
            if chunk_len > 0 && digits_ok && small {
                assert(parse_chunk(cur) == Option::Some(acc as u32));
                parts.push(acc as u32);
            } else {
                assert(parse_chunk(cur) is None) by {
                    if digits_ok && !small {
                        assert(digits_val(cur) > u32::MAX);
                    }
                }
            }
            chunk_len = 0;
            digits_ok = true;
            small = true;
            acc = 0;
        } else {
            proof {
                assert(cur.push(c).drop_last() =~= cur);
                assert(forall|i: int| 0 <= i < cur.len() ==> #[trigger] cur.push(c)[i] == cur[i]);
            }
            if c >= '0' && c <= '9' {
                assert(is_digit(c));
                if digits_ok {
                    proof {
                        assert(all_digits(cur.push(c)));
                        lemma_digits_val_nonneg(cur.push(c));
                        lemma_digits_val_nonneg(cur);
                    }
                    if small {
                        let digit: u64 = (c as u32 - 48) as u64;
                        let next = acc * 10 + digit;
                        if next > u32::MAX as u64 {
                            small = false;
                            acc = 0;
                        } else {
                            acc = next;
                        }
                    } else {
                        proof {
                            assert(digits_val(cur.push(c)) == digits_val(cur) * 10 + (c as int
                                - 48));
                            assert(digits_val(cur) > u32::MAX);
                        }
                        acc = 0;
                    }
                } else {
                    proof {
                        assert(!all_digits(cur.push(c))) by {
                            let i = choose|i: int| 0 <= i < cur.len() && !is_digit(cur[i]);
                            assert(!is_digit(cur.push(c)[i]));
                        }
                    }
                }
            } else {
                digits_ok = false;
                proof {
                    assert(!is_digit(cur.push(c)[cur.len() as int]));
                }
            }
            chunk_len = chunk_len + 1;
        }
        k = k + 1;
    }
    // Close the trailing chunk.
    let ghost (done, cur) = scan_chunks(rest, n - start);
    proof {
        assert(chunks_of(rest) == done.push(cur));
        assert(done.push(cur).drop_last() =~= done);
        if parse_chunk(cur) is Some {
            lemma_digits_val_nonneg(cur);
        }
    }
    if chunk_len > 0 && digits_ok && small {
        assert(parse_chunk(cur) == Option::Some(acc as u32));
        parts.push(acc as u32);
    } else {
        assert(parse_chunk(cur) is None) by {
            if digits_ok && !small {
                assert(digits_val(cur) > u32::MAX);
            }
        }
    }
    parts
}

/// Component `i` of a parsed version, zero when missing.
fn component(ps: &Vec<u32>, i: usize) -> (r: u32)
    ensures
        r == part_at(ps@, i as int),
{
    if i < ps.len() {
        ps[i]
    } else {
        0
    }
}

/// One downloadable artifact of a published release.
#[derive(Debug)]
pub struct ReleaseAsset {
    pub name: String,
    pub browser_download_url: String,
}

/// What the release feed reports about the latest published release.
#[derive(Debug)]
pub struct ReleaseInfo {
    pub tag_name: String,
    pub html_url: String,
    pub body: Option<String>,
    pub published_at: Option<String>,
    pub assets: Vec<ReleaseAsset>,
}

/// Outcome of one update check.
#[derive(Debug)]
pub struct UpdateCheckResult {
    pub has_update: bool,
    pub current_version: String,
    pub latest_version: Option<String>,
    pub download_url: Option<String>,
    pub release_url: Option<String>,
    pub release_notes: Option<String>,
    pub published_at: Option<String>,
    pub error: Option<String>,
}

/// Whether `s` ends in `suffix`.
pub open spec fn ends_with(s: Seq<char>, suffix: Seq<char>) -> bool {
    s.len() >= suffix.len() && s.skip(s.len() - suffix.len()) == suffix
}

/// Whether an asset name looks like an installer: it ends in `.exe` or
/// `.msi`.
pub open spec fn is_installer_name(s: Seq<char>) -> bool {
    ends_with(s, ".exe"@) || ends_with(s, ".msi"@)
}

/// Relies on `str::ends_with`: true exactly when the pattern matches a
/// suffix of the slice.
#[verifier::external_body]
fn str_ends_with(s: &str, suffix: &str) -> (r: bool)
    ensures
        r == ends_with(s@, suffix@),
{
    s.ends_with(suffix)
}

/// The position of the first installer-looking asset, if any.
fn find_installer(assets: &Vec<ReleaseAsset>) -> (r: Option<usize>)
    ensures
        match r {
            Option::Some(i) => 0 <= i < assets@.len() && is_installer_name(assets@[i as int].name@)
                && (forall|k: int| 0 <= k < i ==> !is_installer_name(assets@[k].name@)),
            Option::None => forall|k: int|
                0 <= k < assets@.len() ==> !is_installer_name(assets@[k].name@),
        },
{
    let mut i: usize = 0;
    while i < assets.len()
        invariant
            0 <= i <= assets@.len(),
            forall|k: int| 0 <= k < i ==> !is_installer_name(assets@[k].name@),
        decreases assets.len() - i,
    {
        let is_exe = str_ends_with(assets[i].name.as_str(), ".exe");
        let is_msi = str_ends_with(assets[i].name.as_str(), ".msi");
        if is_exe || is_msi {
            return Option::Some(i);
        }
        i = i + 1;
    }
    Option::None
}

impl UpdateCheckResult {
    /// The result reported when the release feed could not be read: no
    /// update, only the current version and the error message.
    pub fn failure(current_version: String, error: String) -> (r: Self)
        ensures
            !r.has_update,
            r.current_version == current_version,
            r.latest_version is None,
            r.download_url is None,
            r.release_url is None,
            r.release_notes is None,
            r.published_at is None,
            r.error == Option::Some(error),
    {
        UpdateCheckResult {
            has_update: false,
            current_version,
            latest_version: Option::None,
            download_url: Option::None,
            release_url: Option::None,
            release_notes: Option::None,
            published_at: Option::None,
            error: Option::Some(error),
        }
    }
}

/// Decides what one fetched release means for the running version: an
/// update exists exactly when the release tag compares newer, and the
/// download points at the first installer-looking asset, falling back to
/// the release page.
pub fn evaluate_release(current_version: String, release: ReleaseInfo) -> (r: UpdateCheckResult)
    ensures
        r.has_update == (version_cmp(parts_of(release.tag_name@), parts_of(current_version@))
            > 0),
        r.current_version == current_version,
        r.latest_version is Some && r.latest_version->Some_0@ == release.tag_name@,
        r.error is None,
        r.has_update ==> {
            &&& r.release_url is Some && r.release_url->Some_0@ == release.html_url@
            &&& r.release_notes == release.body
            &&& r.published_at == release.published_at
            &&& r.download_url is Some
            &&& if exists|i: int|
                0 <= i < release.assets@.len() && is_installer_name(release.assets@[i].name@) {
                exists|i: int|
                    0 <= i < release.assets@.len() && is_installer_name(release.assets@[i].name@)
                        && (forall|k: int|
                        0 <= k < i ==> !is_installer_name(release.assets@[k].name@))
                        && r.download_url->Some_0@ == release.assets@[i].browser_download_url@
            } else {
                r.download_url->Some_0@ == release.html_url@
            }
        },
        !r.has_update ==> {
            &&& r.download_url is None
            &&& r.release_url is None
            &&& r.release_notes is None
            &&& r.published_at is None
        },
{
    let newer = compare_versions(release.tag_name.as_str(), current_version.as_str()) > 0;
    if newer {
        let download_url = match find_installer(&release.assets) {
            Option::Some(i) => release.assets[i].browser_download_url.clone(),
            Option::None => release.html_url.clone(),
        };
        UpdateCheckResult {
            has_update: true,
            current_version,
            latest_version: Option::Some(release.tag_name),
            download_url: Option::Some(download_url),
            release_url: Option::Some(release.html_url),
            release_notes: release.body,
            published_at: release.published_at,
            error: Option::None,
        }
    } else {
        UpdateCheckResult {
            has_update: false,
            current_version,
            latest_version: Option::Some(release.tag_name),
            download_url: Option::None,
            release_url: Option::None,
            release_notes: Option::None,
            published_at: Option::None,
            error: Option::None,
        }
    }
}

/// Compares two semantic version strings: 1 when `v1` is newer than `v2`,
/// -1 when older, 0 when their first three numeric components agree.
pub fn compare_versions(v1: &str, v2: &str) -> (r: i32)
    ensures
        r as int == version_cmp(parts_of(v1@), parts_of(v2@)),
{
    let parts1 = parse_version(v1);
    let parts2 = parse_version(v2);
    let mut i: usize = 0;
    while i < 3
        invariant
            0 <= i <= 3,
            parts1@ == parts_of(v1@),
            parts2@ == parts_of(v2@),
            forall|k: int| 0 <= k < i ==> part_at(parts1@, k) == part_at(parts2@, k),
        decreases 3 - i,
    {
        let a = component(&parts1, i);
        let b = component(&parts2, i);
        if a > b {
            return 1;
        }
        if a < b {
            return -1;
        }
        i = i + 1;
    }
    0
}

} // verus!
