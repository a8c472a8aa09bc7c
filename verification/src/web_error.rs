//! The error trace carried on the client: each entry holds a shortened
//! source path and a message, and the whole trace renders newest-first
//! with increasing indentation.

use vstd::prelude::*;

verus! {

/// One scan step over a '/'-separated path: the segments completed so far
/// and the segment being read; empty segments are dropped.
pub open spec fn scan_segments(s: Seq<char>) -> (Seq<Seq<char>>, Seq<char>)
    decreases s.len(),
{
    if s.len() == 0 {
        (Seq::<Seq<char>>::empty(), Seq::<char>::empty())
    } else {
        let prior = scan_segments(s.drop_last());
        if s.last() == '/' {
            if prior.1.len() == 0 {
                (prior.0, Seq::<char>::empty())
            } else {
                (prior.0.push(prior.1), Seq::<char>::empty())
            }
        } else {
            (prior.0, prior.1.push(s.last()))
        }
    }
}

/// The non-empty '/'-separated segments of a path.
pub open spec fn path_segments(s: Seq<char>) -> Seq<Seq<char>> {
    let scanned = scan_segments(s);
    if scanned.1.len() == 0 {
        scanned.0
    } else {
        scanned.0.push(scanned.1)
    }
}

/// The last `n` of `segs`, or all of them when there are fewer.
pub open spec fn last_segments(segs: Seq<Seq<char>>, n: int) -> Seq<Seq<char>> {
    if segs.len() <= n {
        segs
    } else {
        segs.subrange(segs.len() - n, segs.len() as int)
    }
}

/// Segments joined with `/`.
pub open spec fn join_slash(segs: Seq<Seq<char>>) -> Seq<char>
    decreases segs.len(),
{
    if segs.len() == 0 {
        Seq::<char>::empty()
    } else if segs.len() == 1 {
        segs[0]
    } else {
        join_slash(segs.drop_last()) + seq!['/'] + segs.last()
    }
}

/// A path shortened to its last three non-empty segments.
pub open spec fn shortened_path(s: Seq<char>) -> Seq<char> {
    join_slash(last_segments(path_segments(s), 3))
}

/// The text of one trace entry: the shortened path, a separator, and the
/// message.
pub open spec fn entry_text(file: Seq<char>, msg: Seq<char>) -> Seq<char> {
    shortened_path(file) + seq![':', ' '] + msg
}

/// `n` tab characters.
pub open spec fn tabs(n: nat) -> Seq<char>
    decreases n,
{
    if n == 0 {
        Seq::<char>::empty()
    } else {
        tabs((n - 1) as nat).push('\t')
    }
}

/// The rendering of the trace from line `j` on: line `j` shows the
/// `j`-newest entry behind `j` tabs, and lines are joined with newlines.
pub open spec fn rendered_from(stack: Seq<String>, j: int) -> Seq<char>
    decreases stack.len() - j,
{
    if j < 0 || j >= stack.len() {
        Seq::<char>::empty()
    } else {
        let line = tabs(j as nat) + stack[stack.len() - 1 - j]@;
        if j == stack.len() - 1 {
            line
        } else {
            line + seq!['\n'] + rendered_from(stack, j + 1)
        }
    }
}

/// The full rendering of a trace, newest entry first.
pub open spec fn rendered(stack: Seq<String>) -> Seq<char> {
    rendered_from(stack, 0)
}

/// An error trace carried on the client.
#[derive(Clone, PartialEq, Debug)]
pub struct ClientError {
    pub stack: Vec<String>,
}

/// A path shortened to its last three non-empty '/'-separated segments.
fn shorten_path(file_path: &str) -> (r: String)
    ensures
        r@ == shortened_path(file_path@),
{
    let n = file_path.unicode_len();
    let mut segs: Vec<String> = Vec::new();
    let mut seg_start: usize = 0;
    let mut i: usize = 0;
    while i < n
        invariant
            n == file_path@.len(),
            i <= n,
            seg_start <= i,
            segs@.map_values(|t: String| t@) == scan_segments(file_path@.take(i as int)).0,
            scan_segments(file_path@.take(i as int)).1 == file_path@.subrange(
                seg_start as int,
                i as int,
            ),
        decreases n - i,
    {
        let ghost pre = file_path@.take(i as int);
        let c = file_path.get_char(i);
        proof {
            let cur = file_path@.take(i + 1 as int);
            assert(cur.drop_last() =~= pre);
            assert(cur.last() == file_path@[i as int]);
        }
        if c == '/' {
            if seg_start < i {
                let piece = file_path.substring_char(seg_start, i);
                let ghost before = segs@.map_values(|t: String| t@);
                segs.push(String::from_str(piece));
                proof {
                    assert(segs@.map_values(|t: String| t@) =~= before.push(piece@));
                    assert(piece@ =~= scan_segments(pre).1);
                }
            }
            seg_start = i + 1;
        }
        proof {
            if c != '/' {
                assert(scan_segments(file_path@.take(i + 1 as int)).1 =~= file_path@.subrange(
                    seg_start as int,
                    i + 1 as int,
                ));
            } else {
                assert(scan_segments(file_path@.take(i + 1 as int)).1 =~= file_path@.subrange(
                    (i + 1) as int,
                    i + 1 as int,
                ));
            }
        }
        i = i + 1;
    }
    proof {
        assert(file_path@.take(n as int) =~= file_path@);
    }
    if seg_start < n {
        let piece = file_path.substring_char(seg_start, n);
        let ghost before = segs@.map_values(|t: String| t@);
        segs.push(String::from_str(piece));
        proof {
            assert(segs@.map_values(|t: String| t@) =~= before.push(piece@));
        }
    }
    proof {
        assert(segs@.map_values(|t: String| t@) =~= path_segments(file_path@));
    }
    let count = segs.len();
    let start: usize = if count > 3 {
        count - 3
    } else {
        0
    };
    let ghost kept = last_segments(path_segments(file_path@), 3);
    proof {
        assert(kept =~= segs@.map_values(|t: String| t@).subrange(start as int, count as int));
    }
    let mut out = String::new();
    let mut j: usize = start;
    while j < count
        invariant
            start <= j <= count,
            count == segs@.len(),
            kept == segs@.map_values(|t: String| t@).subrange(start as int, count as int),
            kept.len() == count - start,
            out@ == join_slash(kept.take(j - start as int)),
        decreases count - j,
    {
        if j > start {
            proof { reveal_strlit("/"); }
            out.append("/");
        }
        out.append(segs[j].as_str());
        proof {
            let cur = kept.take(j + 1 - start as int);
            assert(cur.drop_last() =~= kept.take(j - start as int));
            assert(cur.last() == segs@.map_values(|t: String| t@)[j as int]);
            assert(out@ =~= join_slash(cur));
        }
        j = j + 1;
    }
    proof {
        assert(kept.take(count - start as int) =~= kept);
    }
    out
}

/// Appends one entry's text — the shortened path, a separator, and the
/// message — to a fresh string.
fn make_entry(current_file: &str, new_error: &str) -> (r: String)
    ensures
        r@ == entry_text(current_file@, new_error@),
{
    let mut e = shorten_path(current_file);
    proof { reveal_strlit(": "); }
    e.append(": ");
    e.append(new_error);
    proof {
        assert(e@ =~= entry_text(current_file@, new_error@));
    }
    e
}

impl ClientError {
    /// An empty trace.
    pub fn new() -> (r: Self)
        ensures
            r.stack@.len() == 0,
    {
        Self { stack: Vec::new() }
    }

    /// A trace of one entry.
    pub fn from(current_file: &str, new_error: &str) -> (r: Self)
        ensures
            r.stack@.len() == 1,
            r.stack@[0]@ == entry_text(current_file@, new_error@),
    {
        let mut stack: Vec<String> = Vec::new();
        stack.push(make_entry(current_file, new_error));
        Self { stack }
    }

    /// A copy of this trace with one more entry on top; the trace itself
    /// is never mutated.
    pub fn push(&self, current_file: &str, new_error: &str) -> (r: Self)
        ensures
            r.stack@.len() == self.stack@.len() + 1,
            forall|i: int| 0 <= i < self.stack@.len() ==> r.stack@[i] == self.stack@[i],
            r.stack@[self.stack@.len() as int]@ == entry_text(current_file@, new_error@),
    {
        let mut stack = crate::codec::copy_strings(&self.stack);
        stack.push(make_entry(current_file, new_error));
        Self { stack }
    }

    /// The text of the whole trace, newest entry first, each older entry
    /// one tab deeper on its own line.
    pub fn render(&self) -> (r: String)
        ensures
            r@ == rendered(self.stack@),
    {
        let mut out = String::new();
        render_from(&self.stack, 0, &mut out);
        out
    }
}

/// Appends the rendering of the trace from line `j` on.
fn render_from(stack: &Vec<String>, j: usize, out: &mut String)
    requires
        j <= stack@.len(),
    ensures
        final(out)@ == old(out)@ + rendered_from(stack@, j as int),
    decreases stack@.len() - j,
{
    if j >= stack.len() {
        proof {
            assert(old(out)@ + rendered_from(stack@, j as int) =~= old(out)@);
        }
        return ;
    }
    let ghost base = out@;
    let mut k: usize = 0;
    while k < j
        invariant
            k <= j,
            out@ == base + tabs(k as nat),
        decreases j - k,
    {
        proof { reveal_strlit("\t"); }
        out.append("\t");
        proof {
            assert(out@ =~= base + tabs((k + 1) as nat));
        }
        k = k + 1;
    }
    proof {
        if j == 0 {
            assert(base + tabs(0) =~= base);
        }
    }
    out.append(stack[stack.len() - 1 - j].as_str());
    if j != stack.len() - 1 {
        proof { reveal_strlit("\n"); }
        out.append("\n");
        render_from(stack, j + 1, out);
        proof {
            assert(final(out)@ =~= old(out)@ + rendered_from(stack@, j as int));
        }
    } else {
        proof {
            assert(final(out)@ =~= old(out)@ + rendered_from(stack@, j as int));
        }
    }
}

} // verus!
