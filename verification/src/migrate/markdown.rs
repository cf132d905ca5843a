//! Markdown chunk migration: statistics, chunk previews and the text
//! indexed for full-text search.

use vstd::prelude::*;
use crate::order::views;
use crate::text::{chars_of, join, join_strings, string_of};

verus! {

/// Statistics for a single file migration.
#[derive(Debug, Clone)]
pub struct FileMigrationStats {
    pub file_id: i64,
    pub relpath: String,
    pub old_chunks: usize,
    pub new_chunks: usize,
    pub delta: i64,
}

/// Overall migration counts.
#[derive(Debug, Clone, Copy, PartialEq, Eq, Structural)]
pub struct MigrationCounts {
    pub files_processed: usize,
    pub total_old_chunks: usize,
    pub total_new_chunks: usize,
    pub files_with_errors: usize,
}

impl Default for MigrationCounts {
    fn default() -> (c: Self)
        ensures
            c == (MigrationCounts {
                files_processed: 0,
                total_old_chunks: 0,
                total_new_chunks: 0,
                files_with_errors: 0,
            }),
    {
        MigrationCounts {
            files_processed: 0,
            total_old_chunks: 0,
            total_new_chunks: 0,
            files_with_errors: 0,
        }
    }
}

impl MigrationCounts {
    /// Count a migrated file and its chunks before and after.
    pub fn record_file(&mut self, file_stats: &FileMigrationStats)
        requires
            old(self).files_processed + 1 <= usize::MAX,
            old(self).total_old_chunks + file_stats.old_chunks <= usize::MAX,
            old(self).total_new_chunks + file_stats.new_chunks <= usize::MAX,
        ensures
            *final(self) == (MigrationCounts {
                files_processed: (old(self).files_processed + 1) as usize,
                total_old_chunks: (old(self).total_old_chunks + file_stats.old_chunks) as usize,
                total_new_chunks: (old(self).total_new_chunks + file_stats.new_chunks) as usize,
                ..*old(self)
            }),
    {
        self.files_processed = self.files_processed + 1;
        self.total_old_chunks = self.total_old_chunks + file_stats.old_chunks;
        self.total_new_chunks = self.total_new_chunks + file_stats.new_chunks;
    }

    /// Count a file that failed to migrate.
    pub fn record_error(&mut self)
        requires
            old(self).files_with_errors + 1 <= usize::MAX,
        ensures
            *final(self) == (MigrationCounts {
                files_with_errors: (old(self).files_with_errors + 1) as usize,
                ..*old(self)
            }),
    {
        self.files_with_errors = self.files_with_errors + 1;
    }

    /// The change in the number of chunks, new minus old, each count taken
    /// as an `i64`.
    pub fn delta(&self) -> (d: i64)
        requires
            i64::MIN <= (self.total_new_chunks as i64) - (self.total_old_chunks as i64) <= i64::MAX,
        ensures
            d == (self.total_new_chunks as i64) - (self.total_old_chunks as i64),
    {
        self.total_new_chunks as i64 - self.total_old_chunks as i64
    }
}

/// Handles migration of markdown chunks over a store.
pub struct MarkdownMigrator<S> {
    store: S,
}

impl<S> MarkdownMigrator<S> {
    /// The store migrated.
    pub closed spec fn store_value(&self) -> S {
        self.store
    }

    /// A migrator over a store.
    pub fn new(store: S) -> (m: Self)
        ensures
            m.store_value() == store,
    {
        MarkdownMigrator { store }
    }

    /// The store migrated.
    pub fn store(&self) -> (s: &S)
        ensures
            *s == self.store_value(),
    {
        &self.store
    }
}

/// A line without the carriage return before its line feed.
pub open spec fn strip_cr(line: Seq<char>) -> Seq<char> {
    if line.len() > 0 && line.last() == '\r' {
        line.drop_last()
    } else {
        line
    }
}

/// The lines of `s`, the current line so far being `cur`: a line feed ends a
/// line (dropping a carriage return before it), and a last line without a
/// line feed is kept as it is.
pub open spec fn lines_from(s: Seq<char>, cur: Seq<char>) -> Seq<Seq<char>>
    decreases s.len(),
{
    if s.len() == 0 {
        if cur.len() == 0 {
            Seq::empty()
        } else {
            seq![cur]
        }
    } else if s[0] == '\n' {
        seq![strip_cr(cur)] + lines_from(s.drop_first(), Seq::empty())
    } else {
        lines_from(s.drop_first(), cur.push(s[0]))
    }
}

/// `str::lines`: the lines of a text, without their line endings.
pub open spec fn lines_of(s: Seq<char>) -> Seq<Seq<char>> {
    lines_from(s, Seq::empty())
}

/// The lines of a text.
pub fn text_lines(s: &str) -> (r: Vec<String>)
    ensures
        views(r@) == lines_of(s@),
{
    let cs = chars_of(s);
    let mut out: Vec<String> = Vec::new();
    let mut cur: Vec<char> = Vec::new();
    let mut i: usize = 0;
    assert(cs@.skip(0) =~= cs@);
    assert(views(out@) =~= Seq::<Seq<char>>::empty());
    assert(cur@ =~= Seq::<char>::empty());
    assert(views(out@) + lines_from(cs@.skip(0), cur@) =~= lines_from(cs@, Seq::empty()));
    while i < cs.len()
        invariant
            i <= cs.len(),
            cs@ == s@,
            lines_of(s@) == views(out@) + lines_from(cs@.skip(i as int), cur@),
        decreases cs.len() - i,
    {
        let ghost rest = cs@.skip(i as int);
        assert(rest.drop_first() =~= cs@.skip(i + 1));
        if cs[i] == '\n' {
            let line = if cur.len() > 0 && cur[cur.len() - 1] == '\r' {
                let mut t = cur.clone();
                t.pop();
                t
            } else {
                cur.clone()
            };
            assert(line@ =~= strip_cr(cur@));
            let ghost before = out@;
            out.push(string_of(&line));
            assert(views(out@) =~= views(before).push(strip_cr(cur@)));
            assert(views(out@) + lines_from(cs@.skip(i + 1), Seq::empty()) =~= views(before) + (
            seq![strip_cr(cur@)] + lines_from(cs@.skip(i + 1), Seq::empty())));
            cur = Vec::new();
            assert(cur@ =~= Seq::<char>::empty());
        } else {
            cur.push(cs[i]);
        }
        i = i + 1;
    }
    assert(cs@.skip(cs.len() as int) =~= Seq::<char>::empty());
    if cur.len() > 0 {
        let ghost before = out@;
        out.push(string_of(&cur));
        assert(views(out@) =~= views(before) + seq![cur@]);
    } else {
        assert(views(out@) =~= views(out@) + Seq::<Seq<char>>::empty());
    }
    out
}

/// The greatest number of lines in a preview.
pub const PREVIEW_MAX_LINES: usize = 40;

/// The lines of a chunk, from its first line (1-based) to its last, within
/// the text; a start past the end gives no line.
pub open spec fn chunk_line_range(line_count: int, start_line: i32, end_line: i32) -> (int, int) {
    let s = start_line as usize;
    let start = if s >= 1 {
        s - 1
    } else {
        0
    };
    let start = if start <= line_count {
        start
    } else {
        line_count
    };
    let e = end_line as usize;
    let end = if e <= line_count {
        e as int
    } else {
        line_count
    };
    (start, end)
}

/// The preview of a chunk: its lines joined with line feeds, cut to the
/// first 40 lines of that text.
pub open spec fn chunk_preview(content: Seq<char>, start_line: i32, end_line: i32) -> Seq<char> {
    let lines = lines_of(content);
    let (start, end) = chunk_line_range(lines.len() as int, start_line, end_line);
    let text = join(lines.subrange(start, end), "\n"@);
    let relines = lines_of(text);
    let kept = if relines.len() <= PREVIEW_MAX_LINES {
        relines
    } else {
        relines.take(PREVIEW_MAX_LINES as int)
    };
    join(kept, "\n"@)
}

/// Extract the preview text of a chunk from the file content. The first
/// line must not come after the last (within the text).
pub fn extract_preview(content: &str, start_line: i32, end_line: i32) -> (r: String)
    requires
        chunk_line_range(lines_of(content@).len() as int, start_line, end_line).0
            <= chunk_line_range(lines_of(content@).len() as int, start_line, end_line).1,
    ensures
        r@ == chunk_preview(content@, start_line, end_line),
{
    let lines = text_lines(content);
    let n = lines.len();
    let s = start_line as usize;
    let start = if s >= 1 {
        s - 1
    } else {
        0
    };
    let start = if start <= n {
        start
    } else {
        n
    };
    let e = end_line as usize;
    let end = if e <= n {
        e
    } else {
        n
    };
    let mut picked: Vec<String> = Vec::new();
    let mut i: usize = start;
    while i < end
        invariant
            start <= i <= end <= n,
            n == lines@.len(),
            views(picked@) == views(lines@).subrange(start as int, i as int),
        decreases end - i,
    {
        let ghost before = picked@;
        let item = lines[i].clone();
        assert(item@ == views(lines@)[i as int]);
        picked.push(item);
        assert(views(picked@) =~= views(before).push(item@));
        assert(views(picked@) =~= views(lines@).subrange(start as int, i + 1));
        i = i + 1;
    }
    let text = join_strings(&picked, "\n");
    let relines = text_lines(text.as_str());
    let mut kept: Vec<String> = Vec::new();
    let limit = if relines.len() <= PREVIEW_MAX_LINES {
        relines.len()
    } else {
        PREVIEW_MAX_LINES
    };
    let mut k: usize = 0;
    while k < limit
        invariant
            k <= limit <= relines@.len(),
            views(kept@) == views(relines@).take(k as int),
        decreases limit - k,
    {
        let ghost before = kept@;
        let item = relines[k].clone();
        assert(item@ == views(relines@)[k as int]);
        kept.push(item);
        assert(views(kept@) =~= views(before).push(item@));
        assert(views(kept@) =~= views(relines@).take(k + 1));
        k = k + 1;
    }
    assert(views(relines@).take(relines@.len() as int) =~= views(relines@));
    join_strings(&kept, "\n")
}

/// The fields of a chunk that are present, in order: path, symbol name,
/// signature, docstring, preview.
pub open spec fn ts_doc_parts(
    relpath: Seq<char>,
    symbol_name: Option<Seq<char>>,
    signature: Option<Seq<char>>,
    docstring: Option<Seq<char>>,
    preview: Seq<char>,
) -> Seq<Seq<char>> {
    let p = seq![relpath];
    let p = match symbol_name {
        Some(s) => p.push(s),
        None => p,
    };
    let p = match signature {
        Some(s) => p.push(s),
        None => p,
    };
    let p = match docstring {
        Some(s) => p.push(s),
        None => p,
    };
    p.push(preview)
}

/// A string option by its characters.
pub open spec fn opt_text(o: Option<String>) -> Option<Seq<char>> {
    match o {
        Some(s) => Some(s@),
        None => None,
    }
}

/// Append an optional part.
fn push_part(parts: &mut Vec<String>, part: &Option<String>)
    ensures
        views(final(parts)@) == match opt_text(*part) {
            Some(s) => views(old(parts)@).push(s),
            None => views(old(parts)@),
        },
{
    match part {
        Some(s) => {
            parts.push(s.clone());
            assert(views(parts@) =~= views(old(parts)@).push(s@));
        },
        None => {},
    }
}

/// The text indexed for full-text search: the chunk's present fields joined
/// with ` \n `.
pub fn build_ts_doc(
    relpath: &str,
    symbol_name: &Option<String>,
    signature: &Option<String>,
    docstring: &Option<String>,
    preview: &str,
) -> (r: String)
    ensures
        r@ == join(
            ts_doc_parts(
                relpath@,
                opt_text(*symbol_name),
                opt_text(*signature),
                opt_text(*docstring),
                preview@,
            ),
            " \n "@,
        ),
{
    let mut parts: Vec<String> = Vec::new();
    parts.push(relpath.to_owned());
    assert(views(parts@) =~= seq![relpath@]);
    push_part(&mut parts, symbol_name);
    push_part(&mut parts, signature);
    push_part(&mut parts, docstring);
    let ghost before = parts@;
    parts.push(preview.to_owned());
    assert(views(parts@) =~= views(before).push(preview@));
    join_strings(&parts, " \n ")
}

} // verus!
