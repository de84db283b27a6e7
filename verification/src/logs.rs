//! Retention of the log and metrics files: which lines are kept when a file
//! grows past its limits, the file contents written back, and the warning
//! shown. The caller reads and writes the files and archives the old copy.

use vstd::prelude::*;
use crate::text::{decimal, u64_to_decimal, views};
use crate::timeline::keep_last;

verus! {

/// Bytes taken by character `c` in UTF-8.
pub open spec fn utf8_width(c: char) -> nat {
    if (c as u32) < 0x80 { 1 } else if (c as u32) < 0x800 { 2 } else if (c as u32) < 0x10000 { 3 } else { 4 }
}

/// Bytes taken by `s` in UTF-8.
pub open spec fn utf8_len(s: Seq<char>) -> nat
    decreases s.len(),
{
    if s.len() == 0 { 0 } else { utf8_len(s.drop_last()) + utf8_width(s.last()) }
}

/// Bytes a line takes in the file, with its newline.
pub open spec fn line_size(l: Seq<char>) -> nat {
    utf8_len(l) + 1
}

/// Bytes the lines `k..` take in the file.
pub open spec fn suffix_size(lines: Seq<Seq<char>>, k: int) -> nat
    decreases lines.len() - k,
{
    if k < 0 || k >= lines.len() { 0 } else { line_size(lines[k]) + suffix_size(lines, k + 1) }
}

/// The first line kept so that the kept lines fit in `limit` bytes: the
/// earliest `k` from which the rest fits.
pub open spec fn fit_start(lines: Seq<Seq<char>>, limit: nat) -> int {
    choose|k: int| 0 <= k <= lines.len() && #[trigger] suffix_size(lines, k) <= limit
        && (k == 0 || suffix_size(lines, k - 1) > limit)
}

/// Bytes of `s` in UTF-8.
pub fn utf8_size(s: &str) -> (n: u128)
    ensures
        n == utf8_len(s@),
        n <= 0x4_0000_0000_0000_0000,
{
    let v = crate::text::chars_of(s);
    let mut total: u128 = 0;
    let mut i: usize = 0;
    while i < v.len()
        invariant
            i <= v.len(),
            v@ == s@,
            total == utf8_len(s@.take(i as int)),
            total <= 4 * i,
            v.len() <= usize::MAX,
        decreases v.len() - i,
    {
        let c = v[i];
        let w: u128 = if (c as u32) < 0x80 { 1 } else if (c as u32) < 0x800 { 2 } else if (c as u32) < 0x10000 { 3 } else { 4 };
        assert(s@.take(i + 1).drop_last() =~= s@.take(i as int));
        total = total + w;
        i = i + 1;
    }
    assert(s@.take(v.len() as int) =~= s@);
    total
}

/// The last `n` lines (all of them when there are fewer).
pub fn last_lines(lines: &Vec<String>, n: usize) -> (r: Vec<String>)
    ensures
        views(r@) == keep_last(views(lines@), n as nat),
{
    let len = lines.len();
    let start = if len > n { len - n } else { 0 };
    let mut out: Vec<String> = Vec::new();
    let mut i: usize = start;
    while i < len
        invariant
            start <= i <= len,
            len == lines.len(),
            start == (if len > n { len - n } else { 0 }),
            views(out@) == views(lines@).subrange(start as int, i as int),
        decreases len - i,
    {
        let ghost prev = views(out@);
        let c = lines[i].clone();
        out.push(c);
        assert(views(out@) =~= prev.push(lines@[i as int]@));
        assert(views(out@) =~= views(lines@).subrange(start as int, i + 1));
        i = i + 1;
    }
    assert(views(lines@).subrange(0, len as int) =~= views(lines@));
    out
}

/// The lines joined by newlines, without a trailing newline.
pub open spec fn joined(lines: Seq<Seq<char>>) -> Seq<char>
    decreases lines.len(),
{
    if lines.len() == 0 {
        Seq::empty()
    } else if lines.len() == 1 {
        lines[0]
    } else {
        joined(lines.drop_last()) + seq!['\n'] + lines.last()
    }
}

/// The text of a file holding `lines`: joined by newlines and, unless that
/// is empty, ended by a newline.
pub open spec fn file_text(lines: Seq<Seq<char>>) -> Seq<char> {
    let j = joined(lines);
    if j.len() == 0 { j } else { j + seq!['\n'] }
}

/// Builds [`file_text`].
pub fn file_text_of(lines: &Vec<String>) -> (r: String)
    ensures
        r@ == file_text(views(lines@)),
{
    let mut out = join_lines(lines);
    if out.as_str().unicode_len() > 0 {
        crate::text::push_char(&mut out, '\n');
    }
    out
}

/// `lines.join("\n")`.
pub fn join_lines(lines: &Vec<String>) -> (r: String)
    ensures
        r@ == joined(views(lines@)),
{
    let mut out = String::new();
    let mut i: usize = 0;
    while i < lines.len()
        invariant
            i <= lines.len(),
            out@ == joined(views(lines@).take(i as int)),
        decreases lines.len() - i,
    {
        assert(views(lines@).take(i + 1).drop_last() =~= views(lines@).take(i as int));
        assert(views(lines@).take(i + 1).last() == lines@[i as int]@);
        if i > 0 {
            out.append("\n");
            proof { reveal_strlit("\n"); }
        } else {
            assert(views(lines@).take(i as int) =~= Seq::empty());
        }
        out.append(lines[i].as_str());
        i = i + 1;
    }
    assert(views(lines@).take(lines.len() as int) =~= views(lines@));
    out
}

/// The log file after appending: when it holds more than `limit` lines, the
/// old file is archived and the last `limit` lines are written back, each
/// ended by a newline so that the next entry starts a line of its own;
/// otherwise nothing changes (`None`).
pub fn trim_log_lines(lines: &Vec<String>, limit: usize) -> (r: Option<String>)
    ensures
        lines@.len() > limit ==> (r matches Some(s) && s@ == file_text(keep_last(views(lines@), limit as nat))),
        lines@.len() <= limit ==> r is None,
{
    if lines.len() > limit {
        let kept = last_lines(lines, limit);
        Some(file_text_of(&kept))
    } else {
        None
    }
}

/// Why the metrics file was trimmed.
pub enum MetricTrim {
    /// The file is within its limits.
    Keep,
    /// The file is archived and `contents` written back; `warning` is shown.
    Rotate { contents: String, warning: String },
}

proof fn lemma_suffix_step(lines: Seq<Seq<char>>, k: int)
    requires
        0 <= k < lines.len(),
    ensures
        suffix_size(lines, k) == line_size(lines[k]) + suffix_size(lines, k + 1),
{
}

proof fn lemma_suffix_mono(lines: Seq<Seq<char>>, a: int, b: int)
    requires
        0 <= a <= b,
    ensures
        suffix_size(lines, b) <= suffix_size(lines, a),
    decreases b - a,
{
    if a < b {
        lemma_suffix_mono(lines, a + 1, b);
    }
}

/// Index of the first line kept so that the rest fits in `limit` bytes.
fn fit_from(lines: &Vec<String>, limit: u128) -> (k: usize)
    ensures
        k <= lines@.len(),
        suffix_size(views(lines@), k as int) <= limit,
        k == 0 || suffix_size(views(lines@), k - 1) > limit,
        k == fit_start(views(lines@), limit as nat),
{
    let ghost ls = views(lines@);
    let mut j: usize = lines.len();
    let mut acc: u128 = 0;
    let mut stop = false;
    while j > 0 && !stop
        invariant
            j <= lines@.len(),
            ls == views(lines@),
            acc == suffix_size(ls, j as int),
            acc <= limit,
            stop ==> j > 0 && suffix_size(ls, j - 1) > limit,
        decreases j, (if stop { 0int } else { 1int }),
    {
        let s = utf8_size(lines[j - 1].as_str()) + 1;
        assert(ls[j - 1] == lines@[j - 1]@);
        proof { lemma_suffix_step(ls, j - 1); }
        if s > limit - acc {
            stop = true;
        } else {
            acc = acc + s;
            j = j - 1;
        }
    }
    proof {
        if j > 0 {
            lemma_suffix_step(ls, j - 1);
        }
        let k = j as int;
        assert(0 <= k <= ls.len() && suffix_size(ls, k) <= limit as nat && (k == 0 || suffix_size(ls, k - 1) > limit as nat));
        let c = fit_start(ls, limit as nat);
        if c < k {
            lemma_suffix_mono(ls, c, k - 1);
        } else if c > k {
            lemma_suffix_mono(ls, k, c - 1);
        }
    }
    j
}

/// The metrics file after appending: when it holds more than `line_limit`
/// lines or more than `max_mb` MiB, it is archived; the last `line_limit`
/// lines are kept, then the oldest of those are dropped until the rest fits
/// in the size limit, and the kept lines are written back as [`file_text`]
/// (nothing at all when they join to empty text). The warning names the line limit when it was exceeded, and the
/// size limit otherwise.
pub fn trim_metric_lines(lines: &Vec<String>, line_limit: usize, max_mb: usize) -> (r: MetricTrim)
    ensures
        ({
            let ls = views(lines@);
            let size_limit = max_mb as nat * 1024 * 1024;
            let over_lines = ls.len() > line_limit;
            let over_size = suffix_size(ls, 0) > size_limit;
            let kept = keep_last(ls, line_limit as nat);
            let rest = kept.subrange(fit_start(kept, size_limit), kept.len() as int);
            if !over_lines && !over_size {
                r is Keep
            } else {
                (r matches MetricTrim::Rotate { contents, warning }
                && contents@ == file_text(rest)
                && warning@ == (if over_lines {
                    "metric log exceeded line limit "@ + decimal(line_limit as nat)
                } else {
                    "metric log exceeded size limit "@ + decimal(max_mb as nat) + " MB"@
                }))
            }
        }),
{
    let ghost ls = views(lines@);
    let size_limit: u128 = (max_mb as u128) * 1024 * 1024;
    let over_lines = lines.len() > line_limit;
    let all_fit = fit_from(lines, size_limit);
    let over_size = all_fit > 0;
    proof {
        if all_fit > 0 {
            lemma_suffix_mono(ls, 0, all_fit - 1);
        }
    }
    if !over_lines && !over_size {
        return MetricTrim::Keep;
    }
    let kept = last_lines(lines, line_limit);
    let k = fit_from(&kept, size_limit);
    let rest = last_lines(&kept, kept.len() - k);
    assert(views(rest@) =~= views(kept@).subrange(k as int, kept@.len() as int));
    let contents = file_text_of(&rest);
    let warning = if over_lines {
        let n = u64_to_decimal(line_limit as u64);
        String::from_str("metric log exceeded line limit ").concat(n.as_str())
    } else {
        let n = u64_to_decimal(max_mb as u64);
        String::from_str("metric log exceeded size limit ").concat(n.as_str()).concat(" MB")
    };
    MetricTrim::Rotate { contents, warning }
}

/// What remains after trimming fits in the limits: at most `line_limit`
/// lines, and at most the size limit in bytes.
pub proof fn law_metric_trim_within_limits(ls: Seq<Seq<char>>, line_limit: nat, size_limit: nat)
    ensures
        ({
            let kept = keep_last(ls, line_limit);
            let rest = kept.subrange(fit_start(kept, size_limit), kept.len() as int);
            &&& rest.len() <= line_limit
            &&& suffix_size(rest, 0) <= size_limit
        }),
{
    let kept = keep_last(ls, line_limit);
    let k = fit_start(kept, size_limit);
    assert(exists|j: int| 0 <= j <= kept.len() && #[trigger] suffix_size(kept, j) <= size_limit
        && (j == 0 || suffix_size(kept, j - 1) > size_limit)) by {
        lemma_fit_exists(kept, size_limit, kept.len() as int);
    }
    let rest = kept.subrange(k, kept.len() as int);
    lemma_suffix_shift(kept, k, 0);
}

proof fn lemma_fit_exists(ls: Seq<Seq<char>>, limit: nat, j: int)
    requires
        0 <= j <= ls.len(),
        suffix_size(ls, j) <= limit,
    ensures
        exists|k: int| 0 <= k <= ls.len() && #[trigger] suffix_size(ls, k) <= limit && (k == 0 || suffix_size(ls, k - 1) > limit),
    decreases j,
{
    if j > 0 && suffix_size(ls, j - 1) <= limit {
        lemma_fit_exists(ls, limit, j - 1);
    }
}

proof fn lemma_suffix_shift(ls: Seq<Seq<char>>, k: int, i: int)
    requires
        0 <= k <= ls.len(),
        0 <= i <= ls.len() - k,
    ensures
        suffix_size(ls.subrange(k, ls.len() as int), i) == suffix_size(ls, k + i),
    decreases ls.len() - k - i,
{
    if i < ls.len() - k {
        lemma_suffix_shift(ls, k, i + 1);
    }
}

/// One entry of the application log.
pub struct LogEntry {
    pub level: String,
    pub timestamp: String,
    pub message: String,
    pub stack: Option<String>,
}

} // verus!
