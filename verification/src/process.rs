//! What comes back from the programs that the dashboard runs.

use vstd::prelude::*;

use crate::strings::{tail_after_char, trimmed};
use crate::text;
use crate::text::Text;

verus! {

/// What a program printed, or why it failed, as a mathematical value.
pub open spec fn reply_view(reply: Result<String, String>) -> Result<Text, Text> {
    match reply {
        Ok(output) => Ok(output@),
        Err(message) => Err(message@),
    }
}

/// Whether something was done, or why it was not, as a mathematical value.
pub open spec fn outcome_view(outcome: Result<(), String>) -> Result<(), Text> {
    match outcome {
        Ok(()) => Ok(()),
        Err(message) => Err(message@),
    }
}

/// What `String::from_utf8_lossy` gives for some bytes.
pub uninterp spec fn utf8_lossy(bytes: Seq<u8>) -> Seq<char>;

/// Reads bytes as text with `String::from_utf8_lossy`. Trusted: the result depends on the bytes
/// alone, and bytes that are valid UTF-8 give the text they encode. Where the replacement
/// characters go in other bytes is left unsaid.
#[verifier::external_body]
fn text_of_bytes(bytes: &[u8]) -> (r: String)
    ensures
        r@ == utf8_lossy(bytes@),
        vstd::utf8::valid_utf8(bytes@) ==> r@ == vstd::utf8::decode_utf8(bytes@),
{
    String::from_utf8_lossy(bytes).into_owned()
}

/// What a program that printed `stdout` and `stderr` replies: its output when it succeeded;
/// else what it printed as an error, or its output when it printed no error, without the white
/// space around it.
pub open spec fn program_reply(success: bool, stdout: Text, stderr: Text) -> Result<Text, Text> {
    if success {
        Ok(stdout)
    } else if text::trim(stderr).len() > 0 {
        Err(text::trim(stderr))
    } else {
        Err(text::trim(stdout))
    }
}

/// What a program replies whose output and errors are the texts given.
pub fn reply_of_texts(success: bool, stdout: String, stderr: String) -> (r: Result<String, String>)
    ensures
        reply_view(r) == program_reply(success, stdout@, stderr@),
{
    if success {
        Ok(stdout)
    } else {
        let error = trimmed(stderr.as_str());
        if error.as_str().is_empty() {
            Err(trimmed(stdout.as_str()))
        } else {
            Err(error)
        }
    }
}

/// What a program replies that ended with the status, the output and the errors given.
pub fn git_output(success: bool, stdout: &[u8], stderr: &[u8]) -> (r: Result<String, String>)
    ensures
        reply_view(r) == program_reply(success, utf8_lossy(stdout@), utf8_lossy(stderr@)),
        vstd::utf8::valid_utf8(stdout@) && vstd::utf8::valid_utf8(stderr@) ==> reply_view(r)
            == program_reply(
            success,
            vstd::utf8::decode_utf8(stdout@),
            vstd::utf8::decode_utf8(stderr@),
        ),
        success && vstd::utf8::valid_utf8(stdout@) ==> reply_view(r) == Ok::<Text, Text>(
            vstd::utf8::decode_utf8(stdout@),
        ),
{
    reply_of_texts(success, text_of_bytes(stdout), text_of_bytes(stderr))
}

/// What comes of a program that was run for its effect: its output is dropped.
pub fn run_git(reply: Result<String, String>) -> (r: Result<(), String>)
    ensures
        outcome_view(r) == match reply_view(reply) {
            Ok(_) => Ok(()),
            Err(message) => Err(message),
        },
{
    match reply {
        Ok(_) => Ok(()),
        Err(message) => Err(message),
    }
}

/// What comes of applying a patch: an error is what was printed as one, without the white space
/// around it.
pub fn patch_outcome(success: bool, stderr: &[u8]) -> (r: Result<(), String>)
    ensures
        outcome_view(r) == if success {
            Ok(())
        } else {
            Err(text::trim(utf8_lossy(stderr@)))
        },
        !success && vstd::utf8::valid_utf8(stderr@) ==> outcome_view(r) == Err::<(), Text>(
            text::trim(vstd::utf8::decode_utf8(stderr@)),
        ),
{
    if success {
        Ok(())
    } else {
        let error = text_of_bytes(stderr);
        Err(trimmed(error.as_str()))
    }
}

/// Where the repository keeps its data, as `git rev-parse --git-dir` printed it.
pub fn git_dir(success: bool, stdout: &[u8]) -> (r: Option<String>)
    ensures
        r.deep_view() == if success {
            Some(text::trim(utf8_lossy(stdout@)))
        } else {
            None
        },
        success && vstd::utf8::valid_utf8(stdout@) ==> r.deep_view() == Some(
            text::trim(vstd::utf8::decode_utf8(stdout@)),
        ),
{
    if success {
        let output = text_of_bytes(stdout);
        Some(trimmed(output.as_str()))
    } else {
        None
    }
}

/// The default branch: the one that the head of the remote refers to, else `main` or `master`,
/// whichever is there first.
pub open spec fn default_branch(
    origin_head: Option<Text>,
    has_main: bool,
    has_master: bool,
) -> Option<Text> {
    match origin_head {
        Some(reference) => Some(text::after_last_char(text::trim(reference), '/')),
        None => if has_main {
            Some("main"@)
        } else if has_master {
            Some("master"@)
        } else {
            None
        },
    }
}

/// The default branch, from what `git symbolic-ref refs/remotes/origin/HEAD` printed, if it
/// succeeded, and from whether `main` and `master` are there.
pub fn detect_default_branch(
    origin_head: Option<&str>,
    has_main: bool,
    has_master: bool,
) -> (r: Option<String>)
    ensures
        r.deep_view() == default_branch(origin_head.deep_view(), has_main, has_master),
{
    match origin_head {
        Some(reference) => {
            let name = trimmed(reference);
            Some(tail_after_char(name.as_str(), '/'))
        },
        None => {
            if has_main {
                Some("main".to_string())
            } else if has_master {
                Some("master".to_string())
            } else {
                None
            }
        },
    }
}

/// The default branch of a repository whose remote has the head `refs/remotes/origin/<name>` is
/// that name, when the name holds no slash and no white space at its end.
pub proof fn default_branch_is_head(name: Text)
    requires
        !name.contains('/'),
        name.len() > 0 ==> !text::is_space(name.last()),
    ensures
        default_branch(Some("refs/remotes/origin/"@ + name + "\n"@), false, false) == Some(name),
{
    reveal_strlit("refs/remotes/origin/");
    reveal_strlit("\n");
    let reference = "refs/remotes/origin/"@ + name;
    let line = reference + "\n"@;
    assert(line.drop_last() =~= reference);
    assert(line.skip(0) =~= line);
    assert(text::trailing_spaces(reference) == 0);
    assert(text::trailing_spaces(line) == 1);
    assert(text::trim(line) =~= reference);
    after_slashes("refs/remotes/origin/"@, name);
}

/// After a text that ends in a slash, what holds none is the last piece.
proof fn after_slashes(front: Text, name: Text)
    requires
        front.len() > 0,
        front.last() == '/',
        !name.contains('/'),
    ensures
        text::after_last_char(front + name, '/') == name,
    decreases front.len(),
{
    let s = front + name;
    text::find_char_is_first(s, '/');
    let n = text::find_char(s, '/') as int;
    assert(s[front.len() - 1] == '/');
    assert(n <= front.len() - 1);
    let rest = s.skip(n + 1);
    text::split_char_joins_back(rest, '/');
    if n == front.len() - 1 {
        assert(rest =~= name);
        assert forall|i: int| 0 <= i < name.len() implies #[trigger] name[i] != '/' by {
            assert(name.contains(name[i]));
        }
        text::find_char_is(name, '/', name.len());
        assert(text::split_char(name, '/') =~= seq![name]);
    } else {
        assert(rest =~= front.skip(n + 1) + name);
        after_slashes(front.skip(n + 1), name);
    }
    assert(text::split_char(s, '/').last() == text::split_char(rest, '/').last());
}

/// The views of a reply and of an outcome show all that they hold.
pub proof fn replies_are_shown_whole(reply: Result<String, String>, outcome: Result<(), String>)
    ensures
        reply matches Ok(output) ==> reply_view(reply) == Ok::<Text, Text>(output@),
        reply matches Err(message) ==> reply_view(reply) == Err::<Text, Text>(message@),
        outcome is Ok ==> outcome_view(outcome) == Ok::<(), Text>(()),
        outcome matches Err(message) ==> outcome_view(outcome) == Err::<(), Text>(message@),
{
}

/// A program that succeeds replies with its output as it is. One that fails replies with its
/// errors less the white space around them; and only where those are blank with its output less
/// the white space around it.
pub proof fn failure_replies_with_what_was_printed(stdout: Text, stderr: Text)
    ensures
        program_reply(true, stdout, stderr) == Ok::<Text, Text>(stdout),
        text::trim(stderr).len() > 0 ==> program_reply(false, stdout, stderr) == Err::<Text, Text>(
            text::trim(stderr),
        ),
        text::trim(stderr).len() == 0 ==> program_reply(false, stdout, stderr) == Err::<Text, Text>(
            text::trim(stdout),
        ),
{
}

/// The head of the remote decides the default branch whether or not the usual branches are there:
/// it is the last piece of the reference, whatever stands before its last slash. Without a head
/// it is `main` where that is there, else `master` where that is there, else unknown.
pub proof fn default_branch_is_found(
    reference: Text,
    front: Text,
    name: Text,
    has_main: bool,
    has_master: bool,
)
    requires
        text::trim(reference) == name || text::trim(reference) == front + seq!['/'] + name,
        !name.contains('/'),
    ensures
        default_branch(Some(reference), has_main, has_master) == Some(name),
        default_branch(None, true, has_master) == Some("main"@),
        default_branch(None, false, true) == Some("master"@),
        default_branch(None, false, false) is None,
{
    text::tail_follows_last_char(front, '/', name);
}

} // verus!
