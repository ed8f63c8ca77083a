//! The hosts file as two regions: what the user wrote, and the block between the
//! two marker lines that this library owns and replaces on every update.
use vstd::prelude::*;
use crate::text::{
    chars_of, contains, find_chars, find_from, is_ws, lemma_find_from, lemma_find_from_first,
    lemma_find_from_some, lemma_rtrim_idempotent, lemma_rtrim_prefix, ltrim_start, occurs_at,
    rtrim, rtrim_end, trim,
};

verus! {

/// The line that opens the managed region.
pub const MARKER_START: &'static str = "# === Kooix Host Manager Start ===";

/// The line that closes the managed region.
pub const MARKER_END: &'static str = "# === Kooix Host Manager End ===";

/// The operating systems whose hosts file location is known.
#[derive(Clone, Copy, Debug)]
pub enum HostPlatform {
    Windows,
    Unix,
}

pub open spec fn marker_start() -> Seq<char> {
    MARKER_START@
}

pub open spec fn marker_end() -> Seq<char> {
    MARKER_END@
}

/// The ways of putting new text into the hosts file, in the order they are tried.
#[derive(Clone, Copy, Debug)]
pub enum WriteMethod {
    /// Writing the file as the current user.
    Direct,
    /// Copying a staged file into place through graphical elevation.
    Pkexec,
    /// Copying a staged file into place through terminal elevation.
    Sudo,
}

/// What to do after an attempt to write the hosts file.
#[derive(Debug)]
pub enum WriteStep {
    /// Try the given method next.
    Attempt(WriteMethod),
    /// The file was written.
    Done,
    /// Give up with this message.
    Fail(String),
}

/// Decides what follows an attempt with `method` that `succeeded` or not; `detail`
/// is what the failed attempt reported. A direct write is tried first; on failure
/// Windows gives up, asking for an administrator, while other systems go on to
/// graphical elevation and then to terminal elevation, whose failure is final.
pub fn next_write_step(
    platform: HostPlatform,
    method: WriteMethod,
    succeeded: bool,
    detail: &str,
) -> (r: WriteStep)
    ensures
        succeeded ==> r is Done,
        !succeeded ==> match method {
            WriteMethod::Direct => match platform {
                HostPlatform::Windows => r matches WriteStep::Fail(m) && m@
                    == "无法写入 hosts 文件，请以管理员身份运行程序"@,
                HostPlatform::Unix => r matches WriteStep::Attempt(WriteMethod::Pkexec),
            },
            WriteMethod::Pkexec => r matches WriteStep::Attempt(WriteMethod::Sudo),
            WriteMethod::Sudo => r matches WriteStep::Fail(m) && m@ == "sudo 提权失败: "@ + detail@,
        },
{
    if succeeded {
        return WriteStep::Done;
    }
    match method {
        WriteMethod::Direct => match platform {
            HostPlatform::Windows => WriteStep::Fail(
                String::from_str("无法写入 hosts 文件，请以管理员身份运行程序"),
            ),
            HostPlatform::Unix => WriteStep::Attempt(WriteMethod::Pkexec),
        },
        WriteMethod::Pkexec => WriteStep::Attempt(WriteMethod::Sudo),
        WriteMethod::Sudo => {
            let mut m = String::from_str("sudo 提权失败: ");
            m.append(detail);
            WriteStep::Fail(m)
        },
    }
}

/// Splits hosts text into (custom, managed). With a start marker followed by an end
/// marker, custom is the text before the start marker without trailing whitespace,
/// and managed runs from the start marker through the end marker. Otherwise all of
/// the text, trimmed, is custom and managed is empty.
pub open spec fn parse_spec(s: Seq<char>) -> (Seq<char>, Seq<char>) {
    match find_from(s, marker_start(), 0) {
        Some(i) => match find_from(s, marker_end(), i) {
            Some(j) => (rtrim(s.subrange(0, i)), s.subrange(i, j + marker_end().len())),
            None => (trim(s), Seq::empty()),
        },
        None => (trim(s), Seq::empty()),
    }
}

/// The custom region, a blank line, then the managed block around `body`.
pub open spec fn merge_spec(custom: Seq<char>, body: Seq<char>) -> Seq<char> {
    rtrim(custom) + seq!['\n', '\n'] + marker_start() + seq!['\n'] + trim(body) + seq!['\n']
        + marker_end() + seq!['\n']
}

/// The location of the hosts file on `platform`.
pub open spec fn hosts_path_spec(platform: HostPlatform) -> Seq<char> {
    match platform {
        HostPlatform::Windows => "C:\\Windows\\System32\\drivers\\etc\\hosts"@,
        HostPlatform::Unix => "/etc/hosts"@,
    }
}

/// The location of the hosts file on `platform`.
pub fn get_hosts_path(platform: HostPlatform) -> (r: String)
    ensures
        r@ == hosts_path_spec(platform),
{
    match platform {
        HostPlatform::Windows => String::from_str("C:\\Windows\\System32\\drivers\\etc\\hosts"),
        HostPlatform::Unix => String::from_str("/etc/hosts"),
    }
}

/// Splits hosts text into its custom region and its managed region (markers
/// included); a missing or unterminated managed block leaves everything custom.
pub fn parse_hosts(content: &str) -> (r: (String, String))
    ensures
        (r.0@, r.1@) == parse_spec(content@),
{
    let cs = chars_of(content);
    let ms = chars_of(MARKER_START);
    let me = chars_of(MARKER_END);
    if let Some(i) = find_chars(&cs, &ms, 0) {
        proof {
            lemma_find_from(cs@, ms@, 0);
        }
        if let Some(j) = find_chars(&cs, &me, i) {
            proof {
                lemma_find_from(cs@, me@, i as int);
            }
            let hi = rtrim_end(&cs, i);
            assert(cs@.subrange(0, i as int) =~= content@.subrange(0, i as int));
            let custom = String::from_str(content.substring_char(0, hi));
            let managed = String::from_str(content.substring_char(i, j + me.len()));
            return (custom, managed);
        }
    }
    let hi = rtrim_end(&cs, cs.len());
    let lo = ltrim_start(&cs, 0, hi);
    assert(cs@.subrange(0, cs.len() as int) =~= cs@);
    assert(cs@.subrange(0, hi as int) =~= cs@.subrange(0, hi as int).subrange(0, hi as int));
    (String::from_str(content.substring_char(lo, hi)), String::new())
}

/// Rebuilds hosts text from a custom region and fresh managed content, which is
/// wrapped in the two marker lines.
pub fn merge_hosts(custom_part: &str, managed_content: &str) -> (r: String)
    ensures
        r@ == merge_spec(custom_part@, managed_content@),
{
    let cs = chars_of(custom_part);
    let hi = rtrim_end(&cs, cs.len());
    assert(cs@.subrange(0, cs.len() as int) =~= cs@);
    let ms = chars_of(managed_content);
    let mhi = rtrim_end(&ms, ms.len());
    let mlo = ltrim_start(&ms, 0, mhi);
    assert(ms@.subrange(0, ms.len() as int) =~= ms@);
    assert(ms@.subrange(0, mhi as int) =~= ms@.subrange(0, mhi as int).subrange(0, mhi as int));
    proof {
        reveal_strlit("\n\n");
        reveal_strlit("\n");
    }
    let mut result = String::from_str(custom_part.substring_char(0, hi));
    result.append("\n\n");
    result.append(MARKER_START);
    result.append("\n");
    result.append(managed_content.substring_char(mlo, mhi));
    result.append("\n");
    result.append(MARKER_END);
    result.append("\n");
    assert(result@ =~= merge_spec(custom_part@, managed_content@));
    result
}

/// The new hosts text for an update: the custom region of `current` followed by a
/// managed block holding `aggregated`. Any earlier managed block is dropped.
pub fn rebuild_hosts(current: &str, aggregated: &str) -> (r: String)
    ensures
        r@ == merge_spec(parse_spec(current@).0, aggregated@),
{
    let (custom, _managed) = parse_hosts(current);
    merge_hosts(custom.as_str(), aggregated)
}

/// Some start marker is followed, at or after it, by an end marker.
pub open spec fn has_marker_pair(h: Seq<char>) -> bool {
    exists|i: int, j: int|
        i <= j && #[trigger] occurs_at(h, marker_start(), i) && #[trigger] occurs_at(
            h,
            marker_end(),
            j,
        )
}

/// Text without a start marker is all custom: it comes back trimmed, with an empty
/// managed region.
pub proof fn lemma_parse_without_start_marker(h: Seq<char>)
    requires
        !contains(h, marker_start()),
    ensures
        parse_spec(h) == (trim(h), Seq::<char>::empty()),
{
    lemma_find_from(h, marker_start(), 0);
    if let Some(i) = find_from(h, marker_start(), 0) {
        assert(occurs_at(h, marker_start(), i));
    }
}

/// An end marker with no start marker is not trusted: the text comes back trimmed
/// as custom, with an empty managed region.
pub proof fn lemma_parse_orphan_end_marker(h: Seq<char>)
    requires
        contains(h, marker_end()),
        !contains(h, marker_start()),
    ensures
        parse_spec(h) == (trim(h), Seq::<char>::empty()),
{
    lemma_parse_without_start_marker(h);
}

/// Neither marker holds a line break, and the start marker does not contain the
/// end marker.
proof fn lemma_marker_shapes()
    ensures
        marker_start().len() == 34,
        marker_end().len() == 32,
        forall|t: int| 0 <= t < marker_start().len() ==> marker_start()[t] != '\n',
        forall|t: int| 0 <= t < marker_end().len() ==> marker_end()[t] != '\n',
        !contains(marker_start(), marker_end()),
{
    reveal_strlit("# === Kooix Host Manager Start ===");
    reveal_strlit("# === Kooix Host Manager End ===");
    let ms = marker_start();
    let me = marker_end();
    assert forall|t: int| 0 <= t implies !occurs_at(ms, me, t) by {
        if occurs_at(ms, me, t) {
            if t == 0 {
                assert(ms.subrange(0, 32)[25] == ms[25]);
            } else {
                assert(ms.subrange(t, t + 32)[0] == ms[t]);
            }
        }
    }
}

/// In the merged text no copy of `p` starts before index `a` when `p` has no line
/// break, does not occur in `pre`, and `pre` followed by line breaks up to `a` is
/// what the merged text starts with.
proof fn lemma_no_early_occurrence(m: Seq<char>, pre: Seq<char>, p: Seq<char>, a: int)
    requires
        pre.len() < a <= m.len(),
        m.subrange(0, pre.len() as int) == pre,
        forall|q: int| pre.len() <= q < a ==> m[q] == '\n',
        p.len() > 0,
        forall|t: int| 0 <= t < p.len() ==> p[t] != '\n',
        !contains(pre, p),
    ensures
        forall|t: int| 0 <= t < a ==> !occurs_at(m, p, t),
{
    let n = pre.len() as int;
    assert forall|t: int| 0 <= t < a implies !occurs_at(m, p, t) by {
        if occurs_at(m, p, t) {
            if t + p.len() <= n {
                assert forall|k: int| 0 <= k < p.len() implies pre[t + k] == p[k] by {
                    assert(m.subrange(t, t + p.len())[k] == m[t + k]);
                    assert(m.subrange(0, n)[t + k] == m[t + k]);
                }
                assert(pre.subrange(t, t + p.len()) =~= p);
                assert(occurs_at(pre, p, t));
            } else {
                let q = if t < n {
                    n
                } else {
                    t
                };
                assert(m.subrange(t, t + p.len())[q - t] == m[q]);
            }
        }
    }
}

/// Facts about `merge_spec(c, x)` when the start marker does not occur in the
/// trimmed custom region: where parsing finds the start marker, that it finds an end
/// marker, and what custom region it reads back.
proof fn lemma_parse_merged(c: Seq<char>, x: Seq<char>)
    requires
        !contains(rtrim(c), marker_start()),
    ensures
        find_from(merge_spec(c, x), marker_start(), 0) == Some(rtrim(c).len() + 2int),
        find_from(merge_spec(c, x), marker_end(), rtrim(c).len() + 2int) is Some,
        parse_spec(merge_spec(c, x)).0 == rtrim(c),
{
    let ms = marker_start();
    let me = marker_end();
    let r = rtrim(c);
    let m = merge_spec(c, x);
    let n = r.len() as int;
    let a = n + 2;
    lemma_marker_shapes();
    lemma_rtrim_idempotent(c);
    assert(m.subrange(0, n) =~= r);
    lemma_no_early_occurrence(m, r, ms, a);
    assert(m.subrange(a, a + ms.len()) =~= ms);
    lemma_find_from_first(m, ms, 0, a);
    let b = a + ms.len() + 1 + trim(x).len() + 1;
    assert(m.subrange(b, b + me.len()) =~= me);
    lemma_find_from_some(m, me, a, b);
    assert(m.subrange(0, a) =~= r + seq!['\n', '\n']);
    assert((r + seq!['\n', '\n']).drop_last() =~= r + seq!['\n']);
    assert((r + seq!['\n']).drop_last() =~= r);
    assert(is_ws('\n'));
    assert(rtrim(r + seq!['\n', '\n']) == rtrim(r + seq!['\n']));
    assert(rtrim(r + seq!['\n']) == rtrim(r));
}

/// For text that holds a marker pair, merging its custom region with any new
/// content and parsing the result gives back the same custom region.
pub proof fn lemma_remerge_keeps_custom(h: Seq<char>, x: Seq<char>)
    requires
        has_marker_pair(h),
    ensures
        parse_spec(merge_spec(parse_spec(h).0, x)).0 == parse_spec(h).0,
{
    let ms = marker_start();
    let me = marker_end();
    let (i0, j0) = choose|i: int, j: int|
        i <= j && #[trigger] occurs_at(h, ms, i) && #[trigger] occurs_at(h, me, j);
    lemma_find_from(h, ms, 0);
    let i = find_from(h, ms, 0)->Some_0;
    lemma_find_from_some(h, me, i, j0);
    let c = rtrim(h.subrange(0, i));
    assert(parse_spec(h).0 == c);
    lemma_rtrim_idempotent(h.subrange(0, i));
    lemma_rtrim_prefix(h.subrange(0, i));
    lemma_marker_shapes();
    assert forall|t: int| 0 <= t implies !occurs_at(c, ms, t) by {
        if occurs_at(c, ms, t) {
            assert forall|k: int| 0 <= k < ms.len() implies h[t + k] == ms[k] by {
                assert(c.subrange(t, t + ms.len())[k] == c[t + k]);
                assert(h.subrange(0, i)[t + k] == h[t + k]);
            }
            assert(h.subrange(t, t + ms.len()) =~= ms);
            assert(occurs_at(h, ms, t));
        }
    }
    lemma_parse_merged(c, x);
}

/// Merging a custom region free of the start marker with content whose trimmed
/// form is free of the end marker, then parsing, gives back the trimmed custom
/// region and the managed block exactly as merging wrote it.
pub proof fn lemma_merge_then_parse(c: Seq<char>, x: Seq<char>)
    requires
        !contains(c, marker_start()),
        !contains(trim(x), marker_end()),
    ensures
        parse_spec(merge_spec(c, x)) == (rtrim(c), marker_start() + seq!['\n'] + trim(x)
            + seq!['\n'] + marker_end()),
{
    let ms = marker_start();
    let me = marker_end();
    let r = rtrim(c);
    let m = merge_spec(c, x);
    let y = trim(x);
    lemma_rtrim_prefix(c);
    lemma_marker_shapes();
    assert forall|t: int| 0 <= t implies !occurs_at(r, ms, t) by {
        if occurs_at(r, ms, t) {
            assert forall|k: int| 0 <= k < ms.len() implies c[t + k] == ms[k] by {
                assert(r.subrange(t, t + ms.len())[k] == r[t + k]);
                assert(c.subrange(0, r.len() as int)[t + k] == c[t + k]);
            }
            assert(c.subrange(t, t + ms.len()) =~= ms);
            assert(occurs_at(c, ms, t));
        }
    }
    lemma_parse_merged(c, x);
    let a = r.len() + 2int;
    let e = a + ms.len() + 1int;
    let b = e + y.len() + 1int;
    // No end marker starts in [a, e): it would lie inside the start marker or
    // cover the line break at e - 1.
    assert forall|t: int| a <= t < e implies !occurs_at(m, me, t) by {
        if occurs_at(m, me, t) {
            if t + me.len() <= e - 1 {
                assert forall|k: int| 0 <= k < me.len() implies ms[t - a + k] == me[k] by {
                    assert(m.subrange(t, t + me.len())[k] == m[t + k]);
                    assert(m[t + k] == ms[t - a + k]);
                }
                assert(ms.subrange(t - a, t - a + me.len()) =~= me);
                assert(occurs_at(ms, me, t - a));
            } else {
                assert(m.subrange(t, t + me.len())[e - 1 - t] == m[e - 1]);
            }
        }
    }
    // Nor in [e, b): it would lie inside the trimmed content or cover the line
    // break at b - 1.
    let tail = m.subrange(e, m.len() as int);
    assert(tail.subrange(0, y.len() as int) =~= y);
    assert(tail[y.len() as int] == '\n');
    lemma_no_early_occurrence(tail, y, me, y.len() + 1int);
    assert forall|t: int| e <= t < b implies !occurs_at(m, me, t) by {
        if occurs_at(m, me, t) {
            assert(tail.subrange(t - e, t - e + me.len()) =~= m.subrange(t, t + me.len()));
            assert(occurs_at(tail, me, t - e));
        }
    }
    assert(m.subrange(b, b + me.len()) =~= me);
    lemma_find_from_first(m, me, a, b);
    assert(m.subrange(a, b + me.len()) =~= ms + seq!['\n'] + y + seq!['\n'] + me);
}

} // verus!
