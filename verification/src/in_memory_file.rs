//! A file held in memory as a path and a list of line buffers.
//!
//! The actual reading is a pure caller of the array capability and lives
//! outside the verified library; what lives here is the data type and the
//! line-splitting logic it feeds every chunk of bytes through.

use vstd::prelude::*;

use crate::count::count_limit;
use crate::moot::moot;
use crate::non_local_array::NonLocalArrayCount32;
use crate::shtick::ShtickOptimized8;
use crate::signed::SignedPrimitive;

verus! {

broadcast use crate::count::lemma_count_norm;

/// If you have more than 128 characters per line, it's a moral failing. /s
/// But it won't break, because the buffer expands past its inline slots
/// when necessary.
pub type FileLine = ShtickOptimized8;

pub type FilePath = ShtickOptimized8;

/// We probably don't need (or want) more than `2^31` lines in a file,
/// especially not for an in-memory one, so lines are counted by `i32`.
/// The small-file case is not inline-optimized, because `FileLine`s are
/// large and files usually hold more than a few lines.
pub type InMemoryFileLines = NonLocalArrayCount32<FileLine>;

/// The byte that ends a line.
pub open spec fn line_break() -> u8 {
    10
}

/// A path and the line buffers read from it.  A trailing separator byte
/// (`/` on Unix-like systems) in the path indicates a directory.
pub struct InMemoryFile {
    pub path: FilePath,
    pub lines: InMemoryFileLines,
}

impl InMemoryFile {
    /// Whether the path names a directory: it is empty (taken to be the
    /// current directory) or ends in the separator byte.
    pub fn is_directory(&self) -> (r: bool)
        ensures
            r <==> (self.path@.len() == 0 || self.path@.last() == 47),
    {
        let path = self.path.as_slice();
        let path_len = path.len();
        if path_len == 0 {
            // Assume an empty path is the current directory.
            true
        } else {
            let last_char = path[path_len - 1];
            last_char == 47
        }
    }
}

/// Splitting `input` into lines at `line_break`, starting from lines
/// already completed (`acc`) and a line in progress (`cur`): the
/// completed lines and the new line in progress.
pub open spec fn split_lines_spec(acc: Seq<Seq<u8>>, cur: Seq<u8>, input: Seq<u8>) -> (Seq<
    Seq<u8>,
>, Seq<u8>)
    decreases input.len(),
{
    if input.len() == 0 {
        (acc, cur)
    } else if input[0] == line_break() {
        split_lines_spec(acc.push(cur), Seq::empty(), input.skip(1))
    } else {
        split_lines_spec(acc, cur.push(input[0]), input.skip(1))
    }
}

/// Feeding the splitter one more byte extends its result by one step.
proof fn lemma_split_lines_push(acc: Seq<Seq<u8>>, cur: Seq<u8>, input: Seq<u8>, b: u8)
    ensures
        split_lines_spec(acc, cur, input.push(b)) == ({
            let (done, partial) = split_lines_spec(acc, cur, input);
            if b == line_break() {
                (done.push(partial), Seq::<u8>::empty())
            } else {
                (done, partial.push(b))
            }
        }),
    decreases input.len(),
{
    if input.len() == 0 {
        assert(input.push(b)[0] == b);
        assert(input.push(b).skip(1) =~= Seq::<u8>::empty());
        assert(split_lines_spec(acc.push(cur), Seq::empty(), Seq::<u8>::empty()) == (
        acc.push(cur),
        Seq::<u8>::empty(),
        ));
        assert(split_lines_spec(acc, cur.push(b), Seq::<u8>::empty()) == (acc, cur.push(b)));
    } else {
        assert(input.push(b)[0] == input[0]);
        assert(input.push(b).skip(1) =~= input.skip(1).push(b));
        if input[0] == line_break() {
            lemma_split_lines_push(acc.push(cur), Seq::empty(), input.skip(1), b);
        } else {
            lemma_split_lines_push(acc, cur.push(input[0]), input.skip(1), b);
        }
    }
}

/// The views of the line buffers held in `lines`.
pub open spec fn lines_view(lines: InMemoryFileLines) -> Seq<Seq<u8>> {
    lines@.map_values(|l: FileLine| l@)
}

/// Runs one chunk of bytes through the line splitter: every completed
/// line moves into `lines`, the rest accumulates in `current_line`.  The
/// preconditions keep both counts representable, so the pass cannot fail.
#[verifier::loop_isolation(false)]
pub fn read_chunk(lines: &mut InMemoryFileLines, current_line: &mut FileLine, buffer: &[u8]) -> (r:
    Filed)
    requires
        old(lines).wf(),
        old(current_line).wf(),
        old(lines)@.len() + buffer@.len() <= count_limit::<i32>(),
        old(current_line)@.len() + buffer@.len() <= count_limit::<i64>(),
    ensures
        final(lines).wf(),
        final(current_line).wf(),
        r is Ok,
        (lines_view(*final(lines)), final(current_line)@) == split_lines_spec(
            lines_view(*old(lines)),
            old(current_line)@,
            buffer@,
        ),
{
    proof {
        lines.lemma_wf();
        current_line.lemma_wf();
        <i32 as SignedPrimitive>::lemma_range_shape();
    }
    let total = buffer.len();
    let mut i: usize = 0;
    while i < total
        invariant
            lines.wf(),
            current_line.wf(),
            0 <= i <= total,
            total as int == buffer@.len(),
            lines@.len() + (total - i) <= count_limit::<i32>(),
            current_line@.len() <= old(current_line)@.len() + i,
            (lines_view(*lines), current_line@) == split_lines_spec(
                lines_view(*old(lines)),
                old(current_line)@,
                buffer@.take(i as int),
            ),
        decreases total - i,
    {
        proof {
            lines.lemma_wf();
            current_line.lemma_wf();
            lemma_split_lines_push(
                lines_view(*old(lines)),
                old(current_line)@,
                buffer@.take(i as int),
                buffer@[i as int],
            );
            assert(buffer@.take(i as int).push(buffer@[i as int]) =~= buffer@.take(i as int + 1));
        }
        let ghost lines_pre = *lines;
        let ghost cur_pre = *current_line;
        let b = buffer[i];
        if b == 10 {
            let line = moot(current_line);
            let inserted = lines.insert_at_end(line);
            proof {
                assert(inserted is Ok);
                assert(lines@ == lines_pre@.push(line));
                assert(lines_view(*lines) =~= lines_view(lines_pre).push(line@));
                assert(current_line@ =~= Seq::<u8>::empty());
            }
        } else {
            let inserted = current_line.insert_at_end(b);
            proof {
                assert(inserted is Ok);
            }
        }
        i = i + 1;
    }
    proof {
        assert(buffer@.take(total as int) =~= buffer@);
    }
    Ok(())
}

/// Commits the line still in progress at the end of the input as the last
/// line of the file.
pub fn read_final(lines: &mut InMemoryFileLines, current_line: FileLine) -> (r: Filed)
    requires
        old(lines).wf(),
        old(lines)@.len() < count_limit::<i32>(),
    ensures
        final(lines).wf(),
        r is Ok,
        lines_view(*final(lines)) == lines_view(*old(lines)).push(current_line@),
{
    proof {
        lines.lemma_wf();
        <i32 as SignedPrimitive>::lemma_range_shape();
    }
    let inserted = lines.insert_at_end(current_line);
    proof {
        assert(inserted is Ok);
        assert(lines_view(*final(lines)) =~= lines_view(*old(lines)).push(current_line@)) by {
            assert(lines@ =~= old(lines)@.push(current_line));
        }
    }
    Ok(())
}

/// How opening or reading a file can fail.
#[derive(Debug, PartialEq, Eq, Structural, Copy, Clone)]
pub enum FileError {
    OutOfMemory,
    Open,
    Read,
    Unknown,
}

pub type FileResult<T> = Result<T, FileError>;

pub type Filed = FileResult<()>;

} // verus!
