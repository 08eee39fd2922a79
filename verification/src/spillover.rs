//! Tool-output spillover: which tool call ids may name a spillover file,
//! where that file lives, and which part of an oversized output stays inline.

use vstd::prelude::*;
use vstd::std_specs::iter::IteratorSpec;
use vstd::string::StringSliceAdditionalSpecFns;
use vstd::utf8::*;

use std::path::PathBuf;

use crate::text::push_char;

verus! {

/// Name of the spillover directory under `~/.deepseek/`.
pub const SPILLOVER_DIR_NAME: &'static str = "tool_outputs";

/// Default size, in bytes, above which a tool result is a candidate for
/// spillover (100 KiB).
pub const SPILLOVER_THRESHOLD_BYTES: usize = 100 * 1024;

/// Default age, in seconds, past which the boot prune deletes a spillover
/// file (7 days).
pub const SPILLOVER_MAX_AGE_SECS: u64 = 7 * 24 * 60 * 60;

#[verifier::external_type_specification]
#[verifier::external_body]
pub struct ExPathBuf(PathBuf);

/// Why no spillover could take place for an oversized output.
#[derive(Debug, PartialEq, Eq, Structural)]
pub enum SpilloverError {
    /// The id had no usable character, or no home directory was found.
    UnresolvedPath,
}

/// The current user's home directory, from `dirs::home_dir`.
///
/// Trusted, with nothing stated of the result: it comes from `$HOME` or the
/// password database, so it depends on the environment, and a `PathBuf` is
/// opaque here.
#[verifier::external_body]
fn home_dir() -> Option<PathBuf> {
    dirs::home_dir()
}

/// The path `Path::join` builds from `base` and one more segment.
pub uninterp spec fn joined_path(base: PathBuf, segment: Seq<char>) -> PathBuf;

/// `base` joined with one more path segment (`Path::join`).
///
/// Trusted: the result is named `joined_path` of the two arguments, since
/// `join` is a function of them alone; nothing more of a path's
/// components is claimed.
#[verifier::external_body]
fn path_join(base: &PathBuf, segment: &str) -> (r: PathBuf)
    ensures
        r == joined_path(*base, segment@),
{
    base.join(segment)
}

/// A character that may appear in a spillover file name: ASCII letters and
/// digits, `-` and `_`. Everything else, `.` and `/` among them, is dropped.
pub open spec fn is_safe_id_char(c: char) -> bool {
    ||| ('a' <= c && c <= 'z')
    ||| ('A' <= c && c <= 'Z')
    ||| ('0' <= c && c <= '9')
    ||| c == '-'
    ||| c == '_'
}

/// The safe characters of `id`, in their original order.
pub open spec fn safe_id_chars(id: Seq<char>) -> Seq<char> {
    id.filter(safe_char_pred())
}

/// `is_safe_id_char` as a value, for `Seq::filter`.
pub open spec fn safe_char_pred() -> spec_fn(char) -> bool {
    |c: char| is_safe_id_char(c)
}

/// The sanitised form of a tool call id: its safe characters, or `None`
/// when it has none.
pub open spec fn sanitised_id(id: Seq<char>) -> Option<Seq<char>> {
    let kept = safe_id_chars(id);
    if kept.len() == 0 {
        None
    } else {
        Some(kept)
    }
}

fn is_safe_id_char_exec(c: char) -> (b: bool)
    ensures
        b == is_safe_id_char(c),
{
    ('a' <= c && c <= 'z') || ('A' <= c && c <= 'Z') || ('0' <= c && c <= '9') || c == '-'
        || c == '_'
}

/// Sanitise a tool call id for use as a file name: keep ASCII
/// alphanumerics, `-` and `_` (so no `.` and no `/` survive), and reject
/// an id with none of them.
pub fn sanitise_id(id: &str) -> (r: Option<String>)
    ensures
        r matches Some(s) ==> sanitised_id(id@) == Some(s@),
        r is None <==> sanitised_id(id@) is None,
{
    let mut cleaned = String::new();
    for c in it: id.chars()
        invariant
            it.seq() == id@,
            cleaned@ == safe_id_chars(id@.take(it.index())),
    {
        let ghost i = it.index();
        if is_safe_id_char_exec(c) {
            push_char(&mut cleaned, c);
        }
        proof {
            let prefix = id@.take(i + 1);
            assert(prefix.drop_last() == id@.take(i));
            assert(prefix.last() == c);
            reveal_with_fuel(Seq::filter, 1);
            assert(cleaned@ == safe_id_chars(prefix));
        }
    }
    proof {
        assert(id@.take(id@.len() as int) == id@);
    }
    if cleaned.as_str().is_empty() {
        None
    } else {
        Some(cleaned)
    }
}

/// `cut` is where the inline head of a text with UTF-8 encoding `bytes`
/// ends when `head_bytes` bytes are asked for: the last character boundary
/// at or below `min(head_bytes, bytes.len())`.
pub open spec fn is_head_cut(bytes: Seq<u8>, head_bytes: int, cut: int) -> bool {
    let limit = if head_bytes < bytes.len() { head_bytes } else { bytes.len() as int };
    &&& 0 <= cut <= limit
    &&& is_char_boundary(bytes, cut)
    &&& forall|j: int| cut < j <= limit ==> !is_char_boundary(bytes, j)
}

/// `head` is the inline head of `content` for a budget of `head_bytes`
/// bytes: its encoding is the first `cut` bytes of `content`'s, for the cut
/// that `is_head_cut` describes.
pub open spec fn is_spillover_head(content: Seq<char>, head_bytes: int, head: Seq<char>) -> bool {
    let bytes = encode_utf8(content);
    let cut = encode_utf8(head).len() as int;
    &&& is_head_cut(bytes, head_bytes, cut)
    &&& encode_utf8(head) == bytes.take(cut)
}

/// The leading part of `content` that fits in `head_bytes` bytes without
/// splitting a character: the cut walks back from `min(head_bytes, len)` to
/// the nearest character boundary. The head is always a prefix of
/// `content`'s characters.
pub fn spillover_head(content: &str, head_bytes: usize) -> (head: String)
    ensures
        is_spillover_head(content@, head_bytes as int, head@),
        head@ == content@.take(head@.len() as int),
        encode_utf8(head@).len() <= head_bytes,
{
    let ghost bytes = content.spec_bytes();
    proof {
        encode_utf8_valid_utf8(content@);
        is_char_boundary_start_end_of_seq(bytes);
    }
    let len = content.as_bytes().len();
    let limit = if head_bytes < len { head_bytes } else { len };
    let mut cut = limit;
    while !content.is_char_boundary(cut)
        invariant
            bytes == content.spec_bytes(),
            valid_utf8(bytes),
            is_char_boundary(bytes, 0),
            limit <= bytes.len(),
            limit == (if head_bytes < bytes.len() { head_bytes as int } else { bytes.len() as int }),
            0 <= cut <= limit,
            forall|j: int| cut < j <= limit ==> !is_char_boundary(bytes, j),
        decreases cut,
    {
        cut = cut - 1;
    }
    let (front, _rest) = content.split_at(cut);
    let head = front.to_owned();
    proof {
        let front_bytes = bytes.subrange(0, cut as int);
        assert(front.spec_bytes() == front_bytes);
        assert(encode_utf8(head@) == front_bytes);
        assert(front_bytes == bytes.take(cut as int));
        decode_utf8_split(bytes, cut as int);
        encode_utf8_decode_utf8(content@);
        encode_utf8_decode_utf8(head@);
        let rest_chars = decode_utf8(bytes.subrange(cut as int, bytes.len() as int));
        assert(content@ == head@ + rest_chars);
        assert(content@.take(head@.len() as int) == head@);
    }
    head
}

/// The spillover directory under the home directory `home`:
/// `<home>/.deepseek/tool_outputs`.
pub open spec fn spillover_dir(home: PathBuf) -> PathBuf {
    joined_path(joined_path(home, ".deepseek"@), "tool_outputs"@)
}

/// The spillover file for tool call id `id` in the spillover directory
/// `root`: `<root>/<sanitised id>.txt` (meaningful for a usable id).
pub open spec fn spillover_file(root: PathBuf, id: Seq<char>) -> PathBuf {
    joined_path(root, sanitised_id(id).unwrap() + ".txt"@)
}

/// The spillover directory under a given home directory:
/// `<home>/.deepseek/tool_outputs`, or `None` without a home directory.
pub fn spillover_root_under(home: Option<PathBuf>) -> (r: Option<PathBuf>)
    ensures
        r is Some <==> home is Some,
        home matches Some(h) ==> r == Some(spillover_dir(h)),
{
    proof {
        reveal_strlit("tool_outputs");
    }
    match home {
        Some(home) => Some(path_join(&path_join(&home, ".deepseek"), SPILLOVER_DIR_NAME)),
        None => None,
    }
}

/// Resolve `~/.deepseek/tool_outputs/`. `None` when the home directory
/// cannot be determined; callers treat that as "spillover unavailable".
/// Which home directory is found depends on the environment.
pub fn spillover_root() -> (r: Option<PathBuf>)
    ensures
        r matches Some(p) ==> exists|h: PathBuf| p == spillover_dir(h),
{
    spillover_root_under(home_dir())
}

/// The spillover file name for a tool call id: the sanitised id followed by
/// `.txt`, or `None` when the id has no usable character.
pub fn spillover_file_name(id: &str) -> (r: Option<String>)
    ensures
        r is Some <==> sanitised_id(id@) is Some,
        r matches Some(name) ==> name@ == sanitised_id(id@).unwrap() + ".txt"@,
{
    match sanitise_id(id) {
        Some(mut name) => {
            name.append(".txt");
            Some(name)
        },
        None => None,
    }
}

/// The spillover file path for a tool call id under the given spillover
/// directory: `<root>/<sanitised id>.txt`, or `None` when either part is
/// missing.
pub fn spillover_path_under(root: Option<PathBuf>, id: &str) -> (r: Option<PathBuf>)
    ensures
        r is Some <==> (root is Some && sanitised_id(id@) is Some),
        r matches Some(p) ==> p == spillover_file(root.unwrap(), id@),
{
    let name = match spillover_file_name(id) {
        Some(name) => name,
        None => return None,
    };
    match root {
        Some(root) => Some(path_join(&root, name.as_str())),
        None => None,
    }
}

/// Resolve the spillover file path for a tool call id. The id is sanitised
/// so that a hostile value cannot escape the storage directory; `None` for
/// an id with no usable character or when there is no home directory.
pub fn spillover_path(id: &str) -> (r: Option<PathBuf>)
    ensures
        sanitised_id(id@) is None ==> r is None,
        r matches Some(p) ==> exists|h: PathBuf| p == spillover_file(spillover_dir(h), id@),
{
    if sanitise_id(id).is_none() {
        return None;
    }
    spillover_path_under(spillover_root(), id)
}

/// The spillover decision for an output under a given spillover directory.
/// At or below `threshold` bytes the output stays inline (`Ok(None)`).
/// Above it, the full output belongs in the file for `id`, and the result
/// holds the inline head (see `spillover_head`) with that file's path; it
/// is an error when the path cannot be resolved.
pub fn maybe_spillover_under(
    root: Option<PathBuf>,
    id: &str,
    content: &str,
    threshold: usize,
    head_bytes: usize,
) -> (r: Result<Option<(String, PathBuf)>, SpilloverError>)
    ensures
        content.spec_bytes().len() <= threshold ==> r == Ok::<Option<(String, PathBuf)>, SpilloverError>(None),
        content.spec_bytes().len() > threshold ==> {
            &&& r is Err <==> (root is None || sanitised_id(id@) is None)
            &&& r matches Ok(o) ==> (o matches Some(p) && is_spillover_head(content@, head_bytes as int, p.0@))
            &&& r matches Ok(Some(p)) ==> p.1 == spillover_file(root.unwrap(), id@)
        },
{
    if content.as_bytes().len() <= threshold {
        return Ok(None);
    }
    let path = match spillover_path_under(root, id) {
        Some(path) => path,
        None => return Err(SpilloverError::UnresolvedPath),
    };
    let head = spillover_head(content, head_bytes);
    Ok(Some((head, path)))
}

/// Convenience for the common "too long? spill it." pattern. At or below
/// `threshold` bytes, returns `Ok(None)` and the caller keeps the inline
/// content. Above it, returns the leading slice the caller can show inline
/// (at most `head_bytes` bytes, cut on a character boundary) and the path of
/// the spillover file that is to hold the full content; writing that file
/// is the caller's I/O.
pub fn maybe_spillover(
    id: &str,
    content: &str,
    threshold: usize,
    head_bytes: usize,
) -> (r: Result<Option<(String, PathBuf)>, SpilloverError>)
    ensures
        content.spec_bytes().len() <= threshold ==> r == Ok::<Option<(String, PathBuf)>, SpilloverError>(None),
        content.spec_bytes().len() > threshold ==> {
            &&& sanitised_id(id@) is None ==> r is Err
            &&& r matches Ok(o) ==> (o matches Some(p) && is_spillover_head(content@, head_bytes as int, p.0@))
            &&& r matches Ok(Some(p)) ==> exists|h: PathBuf| p.1 == spillover_file(spillover_dir(h), id@)
        },
{
    if content.as_bytes().len() <= threshold {
        return Ok(None);
    }
    maybe_spillover_under(spillover_root(), id, content, threshold, head_bytes)
}

/// What the boot prune learned of one entry of the spillover directory.
/// Times are nanoseconds since the Unix epoch, negative before it.
#[derive(Clone, Copy, Debug, PartialEq, Eq, Structural)]
pub enum EntryProbe {
    /// The directory entry could not be read.
    Unreadable,
    /// The entry is not a regular file.
    NotAFile,
    /// The file's modification time could not be read.
    NoModifiedTime,
    /// A regular file, last modified at `modified`.
    File { modified: i128 },
}

/// A probed entry is removed by the prune when it is a file last modified
/// strictly before `cutoff`.
pub open spec fn is_stale(entry: EntryProbe, cutoff: i128) -> bool {
    entry matches EntryProbe::File { modified } && modified < cutoff
}

/// The indices, in increasing order, of the stale entries among the first
/// `n` of `entries`.
pub open spec fn stale_indices(entries: Seq<EntryProbe>, cutoff: i128, n: int) -> Seq<usize>
    decreases n,
{
    if n <= 0 {
        seq![]
    } else if is_stale(entries[n - 1], cutoff) {
        stale_indices(entries, cutoff, n - 1).push((n - 1) as usize)
    } else {
        stale_indices(entries, cutoff, n - 1)
    }
}

/// Which spillover files the boot prune drops: the regular files last
/// modified before `cutoff`; unreadable entries, non-files and files
/// without a readable modification time are skipped. The result lists
/// their indices in `entries`, in order.
pub fn prune_candidates(entries: &Vec<EntryProbe>, cutoff: i128) -> (r: Vec<usize>)
    ensures
        r@ == stale_indices(entries@, cutoff, entries@.len() as int),
{
    let mut r: Vec<usize> = Vec::new();
    let mut i: usize = 0;
    while i < entries.len()
        invariant
            i <= entries@.len(),
            r@ == stale_indices(entries@, cutoff, i as int),
        decreases entries@.len() - i,
    {
        let stale = match entries[i] {
            EntryProbe::File { modified } => modified < cutoff,
            _ => false,
        };
        if stale {
            r.push(i);
        }
        i = i + 1;
    }
    r
}

/// Sanitising is idempotent: a sanitised id is its own sanitised form.
pub proof fn lemma_sanitise_idempotent(id: Seq<char>)
    ensures
        sanitised_id(id) matches Some(s) ==> sanitised_id(s) == Some(s),
{
    if let Some(s) = sanitised_id(id) {
        lemma_filter_safe_all_safe(id);
        lemma_filter_keeps_all_safe(s);
    }
}

proof fn lemma_filter_safe_all_safe(id: Seq<char>)
    ensures
        forall|i: int| 0 <= i < safe_id_chars(id).len() ==> is_safe_id_char(#[trigger] safe_id_chars(id)[i]),
{
    broadcast use vstd::seq_lib::group_filter_ensures;
    assert forall|i: int| 0 <= i < safe_id_chars(id).len() implies is_safe_id_char(#[trigger] safe_id_chars(id)[i]) by {
        assert(safe_char_pred()(safe_id_chars(id)[i]));
    }
}

proof fn lemma_filter_keeps_all_safe(s: Seq<char>)
    requires
        forall|i: int| 0 <= i < s.len() ==> is_safe_id_char(#[trigger] s[i]),
    ensures
        safe_id_chars(s) == s,
    decreases s.len(),
{
    reveal_with_fuel(Seq::filter, 1);
    if s.len() > 0 {
        lemma_filter_keeps_all_safe(s.drop_last());
        assert(s.drop_last().push(s.last()) == s);
    }
}

/// Sanitising keeps exactly the ASCII alphanumerics (`A`-`Z`, `a`-`z`,
/// `0`-`9`), `-` and `_`: an id made only of them comes back unchanged, and
/// no other character survives.
pub proof fn lemma_sanitise_keeps_ascii_alphanumerics(id: Seq<char>)
    ensures
        id.len() > 0 && (forall|i: int| 0 <= i < id.len() ==> {
            let c = #[trigger] id[i];
            ('A' <= c && c <= 'Z') || ('a' <= c && c <= 'z') || ('0' <= c && c <= '9') || c == '-' || c == '_'
        }) ==> sanitised_id(id) == Some(id),
        sanitised_id(id) matches Some(s) ==> forall|i: int| 0 <= i < s.len() ==> {
            let c = #[trigger] s[i];
            ('A' <= c && c <= 'Z') || ('a' <= c && c <= 'z') || ('0' <= c && c <= '9') || c == '-' || c == '_'
        },
{
    lemma_filter_safe_all_safe(id);
    if forall|i: int| 0 <= i < id.len() ==> is_safe_id_char(#[trigger] id[i]) {
        lemma_filter_keeps_all_safe(id);
    }
}

/// A spillover file name cannot leave the spillover directory: before its
/// `.txt` extension it holds only ASCII letters, digits, `-` and `_`, so no
/// `/`, no `\` and no `.`.
pub proof fn lemma_spillover_file_name_is_plain(id: Seq<char>)
    ensures
        sanitised_id(id) matches Some(s) ==> {
            let name = s + ".txt"@;
            &&& forall|i: int| 0 <= i < s.len() ==> is_safe_id_char(#[trigger] name[i])
            &&& forall|i: int| 0 <= i < s.len() ==> name[i] != '/' && name[i] != '\\' && name[i] != '.'
        },
{
    if let Some(s) = sanitised_id(id) {
        lemma_filter_safe_all_safe(id);
        let name = s + ".txt"@;
        assert forall|i: int| 0 <= i < s.len() implies is_safe_id_char(#[trigger] name[i]) by {
            assert(name[i] == s[i]);
        }
    }
}

/// A spillover file lies directly in the spillover directory: its path is
/// the directory joined with one plain name, the sanitised id (ASCII
/// letters, digits, `-` and `_` only, never empty) followed by `.txt`.
pub proof fn lemma_spillover_file_stays_in_root(root: PathBuf, id: Seq<char>)
    requires
        sanitised_id(id) is Some,
    ensures
        ({
            let s = sanitised_id(id).unwrap();
            &&& spillover_file(root, id) == joined_path(root, s + ".txt"@)
            &&& s.len() > 0
            &&& forall|i: int| 0 <= i < s.len() ==> is_safe_id_char(#[trigger] s[i])
        }),
{
    lemma_filter_safe_all_safe(id);
}

/// Ids with the same sanitised form name the same spillover file.
pub proof fn lemma_same_sanitised_same_file(root: PathBuf, a: Seq<char>, b: Seq<char>)
    requires
        sanitised_id(a) == sanitised_id(b),
    ensures
        spillover_file(root, a) == spillover_file(root, b),
{
}

/// With a budget that covers the whole content, the head is the whole
/// content.
pub proof fn lemma_head_within_budget_is_whole(content: Seq<char>, head_bytes: int, head: Seq<char>)
    requires
        is_spillover_head(content, head_bytes, head),
        head_bytes >= encode_utf8(content).len(),
    ensures
        head == content,
{
    let bytes = encode_utf8(content);
    encode_utf8_valid_utf8(content);
    is_char_boundary_start_end_of_seq(bytes);
    let cut = encode_utf8(head).len() as int;
    assert(cut == bytes.len());
    assert(bytes.take(cut) == bytes);
    encode_utf8_decode_utf8(content);
    encode_utf8_decode_utf8(head);
}

/// The head is determined by the content and the budget.
pub proof fn lemma_head_unique(content: Seq<char>, head_bytes: int, h1: Seq<char>, h2: Seq<char>)
    requires
        is_spillover_head(content, head_bytes, h1),
        is_spillover_head(content, head_bytes, h2),
    ensures
        h1 == h2,
{
    let c1 = encode_utf8(h1).len() as int;
    let c2 = encode_utf8(h2).len() as int;
    assert(c1 == c2);
    encode_utf8_decode_utf8(h1);
    encode_utf8_decode_utf8(h2);
}

/// The prune drops exactly the stale files: every listed index names a
/// stale entry, and every stale entry is listed.
pub proof fn lemma_prune_drops_exactly_stale(entries: Seq<EntryProbe>, cutoff: i128, n: int)
    requires
        0 <= n <= entries.len(),
        entries.len() <= usize::MAX,
    ensures
        forall|k: int| 0 <= k < stale_indices(entries, cutoff, n).len() ==> {
            let i = #[trigger] stale_indices(entries, cutoff, n)[k] as int;
            0 <= i < n && is_stale(entries[i], cutoff)
        },
        forall|i: int| 0 <= i < n && is_stale(entries[i], cutoff) ==> stale_indices(entries, cutoff, n).contains(i as usize),
    decreases n,
{
    if n > 0 {
        lemma_prune_drops_exactly_stale(entries, cutoff, n - 1);
        let prev = stale_indices(entries, cutoff, n - 1);
        if is_stale(entries[n - 1], cutoff) {
            let cur = prev.push((n - 1) as usize);
            assert forall|k: int| 0 <= k < cur.len() implies {
                let i = #[trigger] cur[k] as int;
                0 <= i < n && is_stale(entries[i], cutoff)
            } by {
                if k < prev.len() {
                    assert(cur[k] == prev[k]);
                }
            }
            assert forall|i: int| 0 <= i < n && is_stale(entries[i], cutoff) implies cur.contains(i as usize) by {
                if i < n - 1 {
                    let k = choose|k: int| 0 <= k < prev.len() && prev[k] == i as usize;
                    assert(cur[k] == i as usize);
                } else {
                    assert(cur[prev.len() as int] == i as usize);
                }
            }
        }
    }
}

} // verus!
