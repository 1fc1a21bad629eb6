//! Commit names and repository names, found by regular expressions.

use vstd::prelude::*;

use crate::byte_positions;
use crate::byte_positions::chars_within;
use crate::model::{DashboardState, DashboardView};
use crate::strings::{chars_of, string_from, trimmed};
use crate::text;
use crate::text::Text;

verus! {

/// An abbreviated or full commit name that stands as a word of its own.
pub const COMMIT_PATTERN: &'static str = r"\b[0-9a-f]{7,40}\b";

/// The owner and the name of a repository on GitHub, at the end of an address that ends in
/// `.git`.
pub const REPO_GIT_PATTERN: &'static str = r"github\.com[:/]([^/]+/[^/]+)\.git$";

/// The owner and the name of a repository on GitHub, at the end of an address.
pub const REPO_PATTERN: &'static str = r"github\.com[:/]([^/]+/[^/]+)$";

// ---------------------------------------------------------------------------
// What the expressions match
// ---------------------------------------------------------------------------

/// Whether `c` is a digit of a commit name.
pub open spec fn is_hex(c: char) -> bool {
    '0' <= c <= '9' || 'a' <= c <= 'f'
}

/// Whether `s` can be a commit name.
pub open spec fn is_commit_name(s: Text) -> bool {
    7 <= s.len() <= 40 && forall|i: int| 0 <= i < s.len() ==> is_hex(#[trigger] s[i])
}

/// Whether `c` is one of the ASCII characters that words are made of.
pub open spec fn is_ascii_word(c: char) -> bool {
    'a' <= c <= 'z' || 'A' <= c <= 'Z' || '0' <= c <= '9' || c == '_'
}

/// Whether `c` is an ASCII character that no word holds.
pub open spec fn is_ascii_gap(c: char) -> bool {
    c <= '\u{7f}' && !is_ascii_word(c)
}

/// Whether the `n` characters from `i` on are a commit name that no ASCII word character touches.
pub open spec fn may_be_commit(s: Text, i: int, n: int) -> bool {
    &&& 0 <= i
    &&& 0 <= n
    &&& i + n <= s.len()
    &&& is_commit_name(s.subrange(i, i + n))
    &&& (i > 0 ==> !is_ascii_word(s[i - 1]))
    &&& (i + n < s.len() ==> !is_ascii_word(s[i + n]))
}

/// Whether the `n` characters from `i` on are a commit name between ASCII characters that no
/// word holds, or at an end of the text.
pub open spec fn is_commit(s: Text, i: int, n: int) -> bool {
    &&& 0 <= i
    &&& 0 <= n
    &&& i + n <= s.len()
    &&& is_commit_name(s.subrange(i, i + n))
    &&& (i > 0 ==> is_ascii_gap(s[i - 1]))
    &&& (i + n < s.len() ==> is_ascii_gap(s[i + n]))
}

/// Whether `s` is an owner and a name with one slash between them.
pub open spec fn is_owner_and_name(s: Text) -> bool {
    exists|k: int|
        0 < k < s.len() - 1 && s[k] == '/' && forall|i: int|
            0 <= i < s.len() && i != k ==> #[trigger] s[i] != '/'
}

/// Whether `s` goes on at `i` with `github.com`, a colon or a slash, an owner and a name, and
/// then `suffix` at its end.
pub open spec fn repo_at(s: Text, suffix: Text, i: int) -> bool {
    &&& 0 <= i
    &&& i + 11 + suffix.len() <= s.len()
    &&& s.subrange(i, i + 10) == "github.com"@
    &&& (s[i + 10] == ':' || s[i + 10] == '/')
    &&& text::ends_with(s, suffix)
    &&& is_owner_and_name(s.subrange(i + 11, s.len() - suffix.len()))
}

/// The owner and the name at the first place from `i` on where `s` shows them.
pub open spec fn repo_from(s: Text, suffix: Text, i: int) -> Option<Text>
    decreases s.len() - i,
{
    if i >= s.len() {
        None
    } else if repo_at(s, suffix, i) {
        Some(s.subrange(i + 11, s.len() - suffix.len()))
    } else {
        repo_from(s, suffix, i + 1)
    }
}

/// Whether the bytes from `start` to `end` are whole characters of `s`.
pub open spec fn cuts(s: Text, start: usize, end: usize) -> bool {
    &&& start <= end
    &&& byte_positions::chars_in_bytes(s, start as nat) is Some
    &&& byte_positions::chars_in_bytes(s, end as nat) is Some
}

/// What stands before the byte `start`, from there up to the byte `end`, and after it.
pub open spec fn cut_at(s: Text, start: usize, end: usize) -> (Text, Text, Text) {
    let i = byte_positions::chars_in_bytes(s, start as nat)->0 as int;
    let j = byte_positions::chars_in_bytes(s, end as nat)->0 as int;
    (s.take(i), s.subrange(i, j), s.skip(j))
}

/// The three pieces of a cut are the text.
pub proof fn cut_loses_nothing(s: Text, start: usize, end: usize)
    requires
        cuts(s, start, end),
    ensures
        ({
            let (before, middle, after) = cut_at(s, start, end);
            before + middle + after == s
        }),
{
    byte_positions::chars_in_bytes_bounded(s, start as nat);
    byte_positions::chars_in_bytes_bounded(s, end as nat);
    byte_positions::chars_in_bytes_grows(s, start as nat, end as nat);
    let (before, middle, after) = cut_at(s, start, end);
    assert(before + middle + after =~= s);
}

/// What stands before the byte `start`, from there up to the byte `end`, and after it; nothing
/// when these cut a character in two or lie outside the text.
pub fn cut_text(s: &str, start: usize, end: usize) -> (r: Option<(String, String, String)>)
    ensures
        r.deep_view() == if cuts(s@, start, end) {
            Some(cut_at(s@, start, end))
        } else {
            None
        },
{
    if start > end {
        return None;
    }
    let chars = chars_of(s);
    match (chars_within(&chars, start), chars_within(&chars, end)) {
        (Some(i), Some(j)) => {
            proof {
                byte_positions::chars_in_bytes_grows(s@, start as nat, end as nat);
            }
            let before = string_from(&chars, 0, i);
            let middle = string_from(&chars, i, j);
            let after = string_from(&chars, j, chars.len());
            assert(before@ =~= s@.take(i as int));
            assert(after@ =~= s@.skip(j as int));
            Some((before, middle, after))
        },
        _ => None,
    }
}

// ---------------------------------------------------------------------------
// The regular expressions at work
// ---------------------------------------------------------------------------

/// What `regex::Regex::find` gives for a pattern and a text: nothing when the pattern is not
/// valid; else where the first match starts and ends, in bytes, if there is one.
pub uninterp spec fn regex_find(pattern: Seq<char>, text: Seq<char>) -> Option<
    Option<(usize, usize)>,
>;

/// Compiles the pattern with `regex::Regex::new` and searches the text with
/// `regex::Regex::find`. Trusted: the result depends on the pattern and the text alone, and a
/// match cuts no character in two. For the commit pattern: it is valid; a match is a commit name
/// that no ASCII word character touches; and it is the first match, so no commit name between
/// ASCII gaps starts before it, and none is there when nothing matches. Which characters beyond
/// ASCII make up words is left unsaid.
#[verifier::external_body]
fn find_pattern(pattern: &str, text: &str) -> (r: Option<Option<(usize, usize)>>)
    ensures
        r == regex_find(pattern@, text@),
        r matches Some(Some(m)) ==> cuts(text@, m.0, m.1),
        pattern@ == COMMIT_PATTERN@ ==> r is Some,
        pattern@ == COMMIT_PATTERN@ ==> (r matches Some(Some(m)) ==> {
            let before = cut_at(text@, m.0, m.1).0;
            let name = cut_at(text@, m.0, m.1).1;
            &&& may_be_commit(text@, before.len() as int, name.len() as int)
            &&& forall|i: int, n: int| is_commit(text@, i, n) ==> before.len() <= i
        }),
        pattern@ == COMMIT_PATTERN@ ==> (r == Some(None::<(usize, usize)>) ==> forall|
            i: int,
            n: int,
        |
            !is_commit(text@, i, n)),
{
    let found = regex::Regex::new(pattern).ok()?;
    Some(found.find(text).map(|m| (m.start(), m.end())))
}

/// Compiles the pattern with `regex::Regex::new`, searches the text with
/// `regex::Regex::captures` and takes the first group. Trusted, of the two repository patterns:
/// they are valid, and the group of the first match is the owner and the name at the first place
/// where the text shows them, up to its end or to the `.git` at its end. Other patterns are left
/// out.
#[verifier::external_body]
fn capture_group(pattern: &str, text: &str) -> (r: Option<Option<Option<String>>>)
    requires
        pattern@ == REPO_GIT_PATTERN@ || pattern@ == REPO_PATTERN@,
    ensures
        pattern@ == REPO_GIT_PATTERN@ ==> r.deep_view() == Some(
            match repo_from(text@, ".git"@, 0) {
                Some(g) => Some(Some(g)),
                None => None,
            },
        ),
        pattern@ == REPO_PATTERN@ ==> r.deep_view() == Some(
            match repo_from(text@, ""@, 0) {
                Some(g) => Some(Some(g)),
                None => None,
            },
        ),
{
    let found = regex::Regex::new(pattern).ok()?;
    Some(found.captures(text).map(|c| c.get(1).map(|m| m.as_str().to_string())))
}

// ---------------------------------------------------------------------------
// Commit names
// ---------------------------------------------------------------------------

/// The first commit name of a line, with what stands before and after it.
pub open spec fn commit_in(line: Text) -> Option<(Text, Text, Text)> {
    match regex_find(COMMIT_PATTERN@, line) {
        Some(Some((start, end))) => Some(cut_at(line, start, end)),
        _ => None,
    }
}

/// Whether `line` is a line of the commit graph that shows the commit `name`: what is drawn
/// before it holds no word, and a space or nothing follows it.
pub open spec fn shows_commit(line: Text, drawing: Text, name: Text, rest: Text) -> bool {
    &&& line == drawing + name + rest
    &&& is_commit_name(name)
    &&& forall|i: int| 0 <= i < drawing.len() ==> is_ascii_gap(#[trigger] drawing[i])
    &&& (rest.len() > 0 ==> rest[0] == ' ')
}

/// Whether `found` is the leftmost commit name of the line, with what stands before and after it:
/// the three are the line, the name has no ASCII word character beside it, and no commit name
/// between ASCII gaps starts before it. Where nothing is found, the line holds no such name.
pub open spec fn is_leftmost(line: Text, found: Option<(Text, Text, Text)>) -> bool {
    match found {
        Some((before, name, after)) => {
            &&& before + name + after == line
            &&& may_be_commit(line, before.len() as int, name.len() as int)
            &&& forall|i: int, n: int| #[trigger] is_commit(line, i, n) ==> before.len() <= i
        },
        None => forall|i: int, n: int| !#[trigger] is_commit(line, i, n),
    }
}

/// Whether the `n` characters from `i` on are a commit name between ASCII gaps, and nothing that
/// may be one starts before it.
pub open spec fn is_first_commit(line: Text, i: int, n: int) -> bool {
    &&& is_commit(line, i, n)
    &&& forall|k: int, m: int| #[trigger] may_be_commit(line, k, m) ==> i <= k
}

/// A commit name between ASCII gaps, with none before it, is the one that is found.
pub proof fn first_commit_is_found(
    line: Text,
    found: Option<(Text, Text, Text)>,
    i: int,
    n: int,
)
    requires
        is_leftmost(line, found),
        is_first_commit(line, i, n),
    ensures
        found == Some((line.take(i), line.subrange(i, i + n), line.skip(i + n))),
{
    let (before, name, after) = found->0;
    let m = name.len() as int;
    assert(before.len() == i);
    let wanted = line.subrange(i, i + n);
    assert(line.subrange(i, i + m) =~= name);
    if m < n {
        assert(is_hex(wanted[m]));
    } else if n < m {
        assert(is_hex(name[n]));
        assert(name[n] == line[i + n]);
    }
    assert(before =~= line.take(i));
    assert(after =~= line.skip(i + n));
}

/// The commit that a line of the graph shows is its first.
pub proof fn shown_commit_is_first(line: Text, drawing: Text, name: Text, rest: Text)
    requires
        shows_commit(line, drawing, name, rest),
    ensures
        is_first_commit(line, drawing.len() as int, name.len() as int),
        line.take(drawing.len() as int) == drawing,
        line.subrange(drawing.len() as int, drawing.len() as int + name.len()) == name,
        line.skip(drawing.len() as int + name.len()) == rest,
{
    let at = drawing.len() as int;
    let end = at + name.len();
    assert(line.take(at) =~= drawing);
    assert(line.subrange(at, end) =~= name);
    assert(line.skip(end) =~= rest);
    assert(at > 0 ==> line[at - 1] == drawing[at - 1]);
    assert(end < line.len() ==> line[end] == rest[0]);
    assert forall|k: int, m: int| #[trigger] may_be_commit(line, k, m) implies at <= k by {
        let found = line.subrange(k, k + m);
        assert(is_hex(found[0]));
        if k < at {
            assert(line[k] == drawing[k]);
        }
    }
}

/// The first commit name of a line, with what stands before and after it. The three are the
/// line; the name has 7 to 40 hexadecimal digits and no ASCII word character beside it; no commit
/// name between ASCII gaps starts before it; and a commit that a line of the graph shows is the
/// one that is found.
pub fn find_commit(line: &str) -> (r: Option<(String, String, String)>)
    ensures
        r.deep_view() == commit_in(line@),
        is_leftmost(line@, r.deep_view()),
        forall|i: int, n: int| #[trigger]
            is_first_commit(line@, i, n) ==> r.deep_view() == Some(
                (line@.take(i), line@.subrange(i, i + n), line@.skip(i + n)),
            ),
        forall|drawing: Text, name: Text, rest: Text| #[trigger]
            shows_commit(line@, drawing, name, rest) ==> r.deep_view() == Some(
                (drawing, name, rest),
            ),
{
    let found = find_pattern(COMMIT_PATTERN, line);
    let r = match found {
        Some(Some((start, end))) => cut_text(line, start, end),
        _ => None,
    };
    proof {
        if let Some(Some((start, end))) = found {
            cut_loses_nothing(line@, start, end);
            let m = r->0;
            assert(r.deep_view() == Some((m.0@, m.1@, m.2@)));
        }
        assert forall|i: int, n: int| #[trigger]
            is_first_commit(line@, i, n) implies r.deep_view() == Some(
            (line@.take(i), line@.subrange(i, i + n), line@.skip(i + n)),
        ) by {
            first_commit_is_found(line@, r.deep_view(), i, n);
        }
        assert forall|drawing: Text, name: Text, rest: Text| #[trigger]
            shows_commit(line@, drawing, name, rest) implies r.deep_view() == Some(
            (drawing, name, rest),
        ) by {
            shown_commit_is_first(line@, drawing, name, rest);
        }
    }
    r
}

impl DashboardView {
    /// The line of the commit graph that is selected.
    pub open spec fn selected_line(self) -> Option<Text> {
        if self.selected_commit_index < self.git_graph.len() {
            Some(self.git_graph[self.selected_commit_index as int])
        } else {
            None
        }
    }

    /// The name of the commit that is selected.
    pub open spec fn selected_sha(self) -> Option<Text> {
        match self.selected_line() {
            Some(line) => match commit_in(line) {
                Some(found) => Some(found.1),
                None => None,
            },
            None => None,
        }
    }

    /// Whether the commit that is selected is the leftmost on its line.
    pub open spec fn selected_is_leftmost(self) -> bool {
        match self.selected_line() {
            Some(line) => is_leftmost(line, commit_in(line)),
            None => true,
        }
    }
}

/// The name of the commit on the selected line of the graph: the leftmost.
pub fn selected_commit_sha(state: &DashboardState) -> (r: Option<String>)
    ensures
        r.deep_view() == state@.selected_sha(),
        state@.selected_is_leftmost(),
        forall|i: int, n: int|
            state@.selected_line() is Some && #[trigger] is_first_commit(
                state@.selected_line()->0,
                i,
                n,
            ) ==> r.deep_view() == Some(state@.selected_line()->0.subrange(i, i + n)),
        forall|drawing: Text, name: Text, rest: Text|
            state@.selected_line() is Some && #[trigger] shows_commit(
                state@.selected_line()->0,
                drawing,
                name,
                rest,
            ) ==> r.deep_view() == Some(name),
{
    if state.selected_commit_index < state.git_graph.len() {
        let line = state.git_graph[state.selected_commit_index].as_str();
        assert(state@.selected_line() == Some(line@));
        match find_commit(line) {
            Some((_, sha, _)) => Some(sha),
            None => None,
        }
    } else {
        None
    }
}

// ---------------------------------------------------------------------------
// Repository names
// ---------------------------------------------------------------------------

/// The owner and the name of the repository that an address of GitHub leads to.
pub open spec fn repo_name(url: Text) -> Option<Text> {
    let address = text::trim(url);
    match repo_from(address, ".git"@, 0) {
        Some(name) => Some(name),
        None => repo_from(address, ""@, 0),
    }
}

/// What comes of the two searches: the first that found something counts, and nothing is found
/// where the first pattern is not valid.
pub fn first_found(
    with_suffix: Option<Option<Option<String>>>,
    without_suffix: Option<Option<Option<String>>>,
) -> (r: Option<String>)
    ensures
        r.deep_view() == match with_suffix.deep_view() {
            Some(Some(group)) => group,
            Some(None) => match without_suffix.deep_view() {
                Some(Some(group)) => group,
                _ => None,
            },
            None => None,
        },
{
    match with_suffix {
        Some(Some(group)) => group,
        Some(None) => match without_suffix {
            Some(Some(group)) => group,
            _ => None,
        },
        None => None,
    }
}

/// The owner and the name of the repository that an address of GitHub leads to.
pub fn extract_repo_name(url: &str) -> (r: Option<String>)
    ensures
        r.deep_view() == repo_name(url@),
{
    let address = trimmed(url);
    first_found(
        capture_group(REPO_GIT_PATTERN, address.as_str()),
        capture_group(REPO_PATTERN, address.as_str()),
    )
}

/// The place where `s` first shows a repository is the one that counts.
proof fn repo_from_is(s: Text, suffix: Text, i: int, at: int)
    requires
        0 <= i <= at < s.len(),
        repo_at(s, suffix, at),
        forall|k: int| i <= k < at ==> !repo_at(s, suffix, k),
    ensures
        repo_from(s, suffix, i) == Some(s.subrange(at + 11, s.len() - suffix.len())),
    decreases at - i,
{
    if i < at {
        repo_from_is(s, suffix, i + 1, at);
    }
}

/// Where `s` shows no repository, none is found.
proof fn repo_from_is_none(s: Text, suffix: Text, i: int)
    requires
        0 <= i,
        forall|k: int| i <= k ==> !repo_at(s, suffix, k),
    ensures
        repo_from(s, suffix, i) is None,
    decreases s.len() - i,
{
    if i < s.len() {
        repo_from_is_none(s, suffix, i + 1);
    }
}

/// Whether `s` can be an owner or a name.
pub open spec fn is_name_part(s: Text) -> bool {
    s.len() > 0 && !s.contains('/')
}

/// The address under which a repository is cloned: over HTTPS, or over SSH.
pub open spec fn clone_address(owner: Text, name: Text, ssh: bool, suffix: Text) -> Text {
    if ssh {
        "git@github.com:"@ + owner + "/"@ + name + suffix
    } else {
        "https://github.com/"@ + owner + "/"@ + name + suffix
    }
}

/// From the address under which a repository is cloned the owner and the name are read back,
/// with or without the `.git` at its end. A name that itself ends in `.git` and has no other
/// `.git` behind it is left out, and so is one that ends in white space there.
pub proof fn clone_address_reads_back(owner: Text, name: Text, ssh: bool, with_suffix: bool)
    requires
        is_name_part(owner),
        is_name_part(name),
        !with_suffix ==> !text::is_space(name.last()) && !(name.len() > 4 && text::ends_with(
            name,
            ".git"@,
        )),
    ensures
        repo_name(
            clone_address(
                owner,
                name,
                ssh,
                if with_suffix {
                    ".git"@
                } else {
                    ""@
                },
            ),
        ) == Some(owner + "/"@ + name),
{
    reveal_strlit("git@github.com:");
    reveal_strlit("https://github.com/");
    reveal_strlit("github.com");
    reveal_strlit("/");
    reveal_strlit(".git");
    reveal_strlit("");
    let suffix = if with_suffix {
        ".git"@
    } else {
        ""@
    };
    let s = clone_address(owner, name, ssh, suffix);
    let at: int = if ssh {
        4
    } else {
        8
    };
    let both = owner + "/"@ + name;
    assert(s.last() == if with_suffix {
        't'
    } else {
        name.last()
    });
    text::trim_keeps_trimmed(s);
    assert(s.subrange(at, at + 10) =~= "github.com"@);
    assert(s.subrange(at + 11, s.len() - suffix.len()) =~= both);
    assert(is_owner_and_name(both)) by {
        let k = owner.len() as int;
        assert(both[k] == '/');
        assert forall|i: int| 0 <= i < both.len() && i != k implies #[trigger] both[i] != '/' by {
            if i < k {
                assert(both[i] == owner[i]);
                assert(owner.contains(owner[i]));
            } else {
                assert(both[i] == name[i - k - 1]);
                assert(name.contains(name[i - k - 1]));
            }
        }
    }
    assert(text::ends_with(s, suffix)) by {
        assert(s.skip(s.len() - suffix.len()) =~= suffix);
    }
    assert(repo_at(s, suffix, at));
    assert forall|k: int| 0 <= k < at implies !repo_at(s, ".git"@, k) && !repo_at(
        s,
        ""@,
        k,
    ) by {
        let window = s.subrange(k, k + 10);
        assert(window[0] == s[k]);
        assert(window[1] == s[k + 1]);
        assert(window[3] == s[k + 3]);
        assert("github.com"@[0] == 'g');
        assert("github.com"@[1] == 'i');
        assert("github.com"@[3] == 'h');
    }
    repo_from_is(s, suffix, 0, at);
    if !with_suffix {
        assert forall|k: int| 0 <= k implies !repo_at(s, ".git"@, k) by {
            if repo_at(s, ".git"@, k) {
                only_place(owner, name, ssh, k);
            }
        }
        repo_from_is_none(s, ".git"@, 0);
    }
}

/// An address without a suffix shows no repository before a `.git`, unless its name ends in one.
proof fn only_place(owner: Text, name: Text, ssh: bool, k: int)
    requires
        is_name_part(owner),
        is_name_part(name),
        0 <= k,
        repo_at(clone_address(owner, name, ssh, ""@), ".git"@, k),
    ensures
        name.len() > 4,
        text::ends_with(name, ".git"@),
{
    reveal_strlit("git@github.com:");
    reveal_strlit("https://github.com/");
    reveal_strlit("/");
    reveal_strlit(".git");
    reveal_strlit("");
    let s = clone_address(owner, name, ssh, ""@);
    let slash = s.len() - name.len() - 1;
    assert(s[slash] == '/');
    let found = s.subrange(k + 11, s.len() - 4);
    let m = choose|m: int|
        0 < m < found.len() - 1 && found[m] == '/' && forall|i: int|
            0 <= i < found.len() && i != m ==> #[trigger] found[i] != '/';
    let p = k + 11 + m;
    assert(s[p] == '/');
    assert(p <= slash) by {
        if p > slash {
            assert(s[p] == name[p - slash - 1]);
            assert(name.contains(name[p - slash - 1]));
        }
    }
    assert(s.skip(s.len() - 4) == ".git"@);
    if name.len() >= 4 {
        assert(name.skip(name.len() - 4) =~= s.skip(s.len() - 4));
    } else {
        let tail = s.skip(s.len() - 4);
        assert(tail[slash - (s.len() - 4)] == s[slash]);
    }
    if name.len() == 4 {
        assert(found.len() == slash - k - 10);
        assert(found[slash - k - 11] == s[slash]);
        assert(slash - k - 11 == m);
    }
}

// ---------------------------------------------------------------------------
// Laws
// ---------------------------------------------------------------------------

/// A cut is where it was asked for: what stands before it takes so many bytes, and so does what
/// stands before its end.
pub proof fn cut_is_at_its_bytes(s: Text, start: usize, end: usize)
    requires
        cuts(s, start, end),
    ensures
        ({
            let (before, middle, after) = cut_at(s, start, end);
            &&& byte_positions::byte_len(before) == start
            &&& byte_positions::byte_len(before + middle) == end
            &&& before + middle + after == s
        }),
{
    cut_loses_nothing(s, start, end);
    byte_positions::chars_in_bytes_bounded(s, start as nat);
    byte_positions::chars_in_bytes_bounded(s, end as nat);
    byte_positions::chars_in_bytes_grows(s, start as nat, end as nat);
    let (before, middle, after) = cut_at(s, start, end);
    let j = byte_positions::chars_in_bytes(s, end as nat)->0 as int;
    assert(before + middle =~= s.take(j));
}

/// A text can be cut at two bytes if and only if it is put together of three pieces of which the
/// first, and the first two, take so many bytes.
pub proof fn cuts_are_between_characters(
    before: Text,
    middle: Text,
    after: Text,
    s: Text,
    start: usize,
    end: usize,
)
    ensures
        before + middle + after == s && byte_positions::byte_len(before) == start
            && byte_positions::byte_len(before + middle) == end ==> cuts(s, start, end) && cut_at(
            s,
            start,
            end,
        ) == (before, middle, after),
{
    if before + middle + after == s && byte_positions::byte_len(before) == start
        && byte_positions::byte_len(before + middle) == end {
        let i = before.len();
        let j = (before + middle).len();
        byte_positions::byte_len_adds_up(before, middle, ' ');
        assert(s.take(i as int) =~= before);
        assert(s.take(j as int) =~= before + middle);
        byte_positions::whole_characters_are_counted(s, i, start as nat);
        byte_positions::whole_characters_are_counted(s, j, end as nat);
        assert(s.subrange(i as int, j as int) =~= middle);
        assert(s.skip(j as int) =~= after);
    }
}

/// Whether the address goes on at `i` with the name of the host, a colon or a slash, the owner, a
/// slash, the name of the repository and the suffix, and ends there.
pub open spec fn leads_to(
    address: Text,
    i: int,
    colon: bool,
    owner: Text,
    name: Text,
    suffix: Text,
) -> bool {
    &&& 0 <= i <= address.len()
    &&& address.skip(i) == "github.com"@ + (if colon {
        seq![':']
    } else {
        seq!['/']
    }) + owner + seq!['/'] + name + suffix
    &&& owner.len() > 0 && !owner.contains('/')
    &&& name.len() > 0 && !name.contains('/')
}

/// An address that leads to a repository shows it there.
proof fn leading_is_showing(
    address: Text,
    i: int,
    colon: bool,
    owner: Text,
    name: Text,
    suffix: Text,
)
    requires
        leads_to(address, i, colon, owner, name, suffix),
    ensures
        repo_at(address, suffix, i),
        address.subrange(i + 11, address.len() - suffix.len()) == owner + seq!['/'] + name,
        i < address.len(),
{
    reveal_strlit("github.com");
    let rest = address.skip(i);
    let both = owner + seq!['/'] + name;
    assert(rest.len() == address.len() - i);
    assert(address.subrange(i, i + 10) =~= rest.take(10));
    assert(rest.take(10) =~= "github.com"@);
    assert(address[i + 10] == rest[10]);
    assert(address.subrange(i + 11, address.len() - suffix.len()) =~= rest.subrange(
        11,
        rest.len() - suffix.len(),
    ));
    assert(rest.subrange(11, rest.len() - suffix.len()) =~= both);
    assert(address.skip(address.len() - suffix.len()) =~= rest.skip(rest.len() - suffix.len()));
    assert(rest.skip(rest.len() - suffix.len()) =~= suffix);
    let k = owner.len() as int;
    assert(both[k] == '/');
    assert forall|j: int| 0 <= j < both.len() && j != k implies #[trigger] both[j] != '/' by {
        if j < k {
            assert(both[j] == owner[j]);
            assert(owner.contains(owner[j]));
        } else {
            assert(both[j] == name[j - k - 1]);
            assert(name.contains(name[j - k - 1]));
        }
    }
}

/// An address that shows a repository leads to it.
proof fn showing_is_leading(address: Text, i: int, suffix: Text) -> (r: (bool, Text, Text))
    requires
        repo_at(address, suffix, i),
    ensures
        leads_to(address, i, r.0, r.1, r.2, suffix),
{
    reveal_strlit("github.com");
    let both = address.subrange(i + 11, address.len() - suffix.len());
    let k = choose|k: int|
        0 < k < both.len() - 1 && both[k] == '/' && forall|j: int|
            0 <= j < both.len() && j != k ==> #[trigger] both[j] != '/';
    let owner = both.take(k);
    let name = both.skip(k + 1);
    let colon = address[i + 10] == ':';
    let mark = if colon {
        seq![':']
    } else {
        seq!['/']
    };
    let written = "github.com"@ + mark + owner + seq!['/'] + name + suffix;
    assert(both =~= owner + seq!['/'] + name);
    assert(address.skip(i) =~= address.subrange(i, i + 10) + seq![address[i + 10]] + both
        + address.skip(address.len() - suffix.len()));
    assert(address.skip(i) =~= written);
    assert(!owner.contains('/')) by {
        if owner.contains('/') {
            let j = choose|j: int| 0 <= j < owner.len() && owner[j] == '/';
            assert(both[j] == '/');
        }
    }
    assert(!name.contains('/')) by {
        if name.contains('/') {
            let j = choose|j: int| 0 <= j < name.len() && name[j] == '/';
            assert(both[k + 1 + j] == '/');
        }
    }
    (colon, owner, name)
}

/// The name of a repository is read from the end of the address, less the white space around it:
/// from the first place from which the rest leads to a repository with `.git` behind it; where
/// there is no such place, from the first place from which the rest leads to a repository; and
/// where there is none of these either, there is no name.
pub proof fn repo_name_is_where_the_address_leads(
    url: Text,
    i: int,
    colon: bool,
    owner: Text,
    name: Text,
)
    ensures
        leads_to(text::trim(url), i, colon, owner, name, ".git"@) && (forall|
            k: int,
            c: bool,
            o: Text,
            n: Text,
        |
            k < i ==> !#[trigger] leads_to(text::trim(url), k, c, o, n, ".git"@)) ==> repo_name(url)
            == Some(owner + seq!['/'] + name),
        leads_to(text::trim(url), i, colon, owner, name, ""@) && (forall|
            k: int,
            c: bool,
            o: Text,
            n: Text,
        |
            k < i ==> !#[trigger] leads_to(text::trim(url), k, c, o, n, ""@)) && (forall|
            k: int,
            c: bool,
            o: Text,
            n: Text,
        |
            !#[trigger] leads_to(text::trim(url), k, c, o, n, ".git"@)) ==> repo_name(url) == Some(
            owner + seq!['/'] + name,
        ),
        (forall|k: int, c: bool, o: Text, n: Text|
            !#[trigger] leads_to(text::trim(url), k, c, o, n, ".git"@)) && (forall|
            k: int,
            c: bool,
            o: Text,
            n: Text,
        |
            !#[trigger] leads_to(text::trim(url), k, c, o, n, ""@)) ==> repo_name(url) is None,
{
    let address = text::trim(url);
    let git = ".git"@;
    let bare = ""@;
    if leads_to(address, i, colon, owner, name, git) && (forall|k: int, c: bool, o: Text, n: Text|
        k < i ==> !#[trigger] leads_to(address, k, c, o, n, git)) {
        first_place_counts(address, i, colon, owner, name, git);
    }
    if forall|k: int, c: bool, o: Text, n: Text| !#[trigger] leads_to(address, k, c, o, n, git) {
        no_place_counts(address, git);
        if leads_to(address, i, colon, owner, name, bare) && (forall|
            k: int,
            c: bool,
            o: Text,
            n: Text,
        |
            k < i ==> !#[trigger] leads_to(address, k, c, o, n, bare)) {
            first_place_counts(address, i, colon, owner, name, bare);
        }
        if forall|k: int, c: bool, o: Text, n: Text| !#[trigger] leads_to(
            address,
            k,
            c,
            o,
            n,
            bare,
        ) {
            no_place_counts(address, bare);
        }
    }
}

/// The first place from which an address leads to a repository is where it is read.
proof fn first_place_counts(
    address: Text,
    i: int,
    colon: bool,
    owner: Text,
    name: Text,
    suffix: Text,
)
    requires
        leads_to(address, i, colon, owner, name, suffix),
        forall|k: int, c: bool, o: Text, n: Text|
            k < i ==> !#[trigger] leads_to(address, k, c, o, n, suffix),
    ensures
        repo_from(address, suffix, 0) == Some(owner + seq!['/'] + name),
{
    leading_is_showing(address, i, colon, owner, name, suffix);
    assert forall|k: int| 0 <= k < i implies !repo_at(address, suffix, k) by {
        if repo_at(address, suffix, k) {
            let (c, o, n) = showing_is_leading(address, k, suffix);
            assert(leads_to(address, k, c, o, n, suffix));
        }
    }
    repo_from_is(address, suffix, 0, i);
}

/// Where an address leads to no repository, none is read.
proof fn no_place_counts(address: Text, suffix: Text)
    requires
        forall|k: int, c: bool, o: Text, n: Text|
            !#[trigger] leads_to(address, k, c, o, n, suffix),
    ensures
        repo_from(address, suffix, 0) is None,
{
    assert forall|k: int| 0 <= k implies !repo_at(address, suffix, k) by {
        if repo_at(address, suffix, k) {
            let (c, o, n) = showing_is_leading(address, k, suffix);
            assert(leads_to(address, k, c, o, n, suffix));
        }
    }
    repo_from_is_none(address, suffix, 0);
}

/// The commit that is selected is looked for on the line of the graph at the selected index, and
/// its name is the one found there.
pub proof fn selected_commit_is_on_the_selected_line(s: DashboardView)
    ensures
        s.selected_commit_index >= s.git_graph.len() ==> s.selected_sha() is None,
        s.selected_commit_index < s.git_graph.len() ==> s.selected_line() == Some(
            s.git_graph[s.selected_commit_index as int],
        ),
        s.selected_commit_index < s.git_graph.len() ==> s.selected_sha() == match commit_in(
            s.git_graph[s.selected_commit_index as int],
        ) {
            Some((_, name, _)) => Some(name),
            None => None,
        },
{
}

/// A commit name is from seven to forty lower case hexadecimal digits between the ends of words. A
/// repository follows the name of the host and a colon or a slash, as an owner and a name with a
/// slash between them and none in them, up to the end or to the `.git` at the end.
pub proof fn expressions_are_spelled_out()
    ensures
        COMMIT_PATTERN@ == r"\b[0-9a-f]{7,40}\b"@,
        REPO_PATTERN@ == r"github\.com[:/]([^/]+/[^/]+)$"@,
        REPO_GIT_PATTERN@ == r"github\.com[:/]([^/]+/[^/]+)\.git$"@,
{
}

} // verus!
