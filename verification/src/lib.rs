//! A single-line terminal progress bar.
//!
//! A [`LoadingBar`] holds a fixed configuration: how long the animation
//! should span (in nanoseconds), the character drawn for the completed
//! portion, the width of the bar in character cells, and a prefix printed
//! before the bar on every frame.
//!
//! The library computes the frames themselves: frame `i` (1-indexed) is
//! the prefix, an opening bracket, `i` copies of the fill character,
//! `length - i` spaces, a closing bracket, and a carriage return (or, on
//! the final frame, a newline). Writing the frames to a terminal and
//! sleeping between them is left to the caller.

use vstd::prelude::*;

verus! {

/// `n` copies of the character `c` (empty when `n <= 0`).
pub open spec fn repeat_char(c: char, n: int) -> Seq<char> {
    Seq::new(if n >= 0 { n as nat } else { 0 }, |j: int| c)
}

/// How many times the character `c` occurs in `s`.
pub open spec fn count_char(s: Seq<char>, c: char) -> int
    decreases s.len(),
{
    if s.len() == 0 {
        0
    } else {
        count_char(s.drop_last(), c) + if s.last() == c {
            1int
        } else {
            0int
        }
    }
}

/// Character counts add up over concatenation.
pub proof fn lemma_count_concat(a: Seq<char>, b: Seq<char>, c: char)
    ensures
        count_char(a + b, c) == count_char(a, c) + count_char(b, c),
    decreases b.len(),
{
    if b.len() == 0 {
        assert(a + b =~= a);
    } else {
        lemma_count_concat(a, b.drop_last(), c);
        assert((a + b).drop_last() =~= a + b.drop_last());
        assert((a + b).last() == b.last());
    }
}

/// A run of `n` copies of `c` holds `n` occurrences of `c` and none of
/// any other character.
pub proof fn lemma_count_repeat(c: char, d: char, n: int)
    requires
        n >= 0,
    ensures
        count_char(repeat_char(c, n), d) == if c == d {
            n
        } else {
            0
        },
    decreases n,
{
    if n > 0 {
        assert(repeat_char(c, n).drop_last() =~= repeat_char(c, n - 1));
        assert(repeat_char(c, n).last() == c);
        lemma_count_repeat(c, d, n - 1);
    } else {
        assert(repeat_char(c, n).len() == 0);
    }
}

/// Configuration of a progress bar. Immutable once constructed; rendering
/// derives everything else from these four fields.
#[derive(Debug)]
pub struct LoadingBar {
    /// Total time the animation should span, in nanoseconds.
    pub duration_nanos: u64,
    /// Character drawn for each completed cell of the bar.
    pub progress_char: char,
    /// Width of the bar in character cells; also the number of frames.
    pub length: u32,
    /// Text printed immediately before the bar on every frame.
    pub prefix: String,
}

impl LoadingBar {
    /// Returns a bar with the default configuration: a five-second span,
    /// `'#'` as the fill character, a width of 20 cells, and no prefix.
    pub fn new() -> (bar: Self)
        ensures
            bar.duration_nanos == 5_000_000_000u64,
            bar.progress_char == '#',
            bar.length == 20u32,
            bar.prefix@ == Seq::<char>::empty(),
    {
        LoadingBar {
            duration_nanos: 5_000_000_000,
            progress_char: '#',
            length: 20,
            prefix: String::new(),
        }
    }

    /// Returns a bar with the given configuration. No validation happens
    /// here; a width of zero only surfaces when rendering is attempted.
    pub fn new_with_config(
        duration_nanos: u64,
        progress_char: char,
        length: u32,
        prefix: String,
    ) -> (bar: Self)
        ensures
            bar.duration_nanos == duration_nanos,
            bar.progress_char == progress_char,
            bar.length == length,
            bar.prefix == prefix,
    {
        LoadingBar { duration_nanos, progress_char, length, prefix }
    }

    /// What stands between the brackets of frame `i`: the completed cells,
    /// then the remaining ones as spaces.
    pub open spec fn spec_bar_content(self, i: int) -> Seq<char> {
        repeat_char(self.progress_char, i) + repeat_char(' ', self.length as int - i)
    }

    /// The full text of frame `i` (1-indexed): prefix, bracketed bar
    /// content, and a carriage return, or a newline on the final frame.
    pub open spec fn spec_frame(self, i: int) -> Seq<char> {
        self.prefix@ + seq!['['] + self.spec_bar_content(i) + seq![']'] + (
        if i == self.length as int {
            seq!['\n']
        } else {
            seq!['\r']
        })
    }

    /// The whole animation: frames 1 through `length`, in fill order.
    pub open spec fn spec_frames(self) -> Seq<Seq<char>> {
        Seq::new(self.length as nat, |k: int| self.spec_frame(k + 1))
    }

    /// The fixed sleep between successive frames: the total span divided
    /// by the number of frames, truncating.
    pub fn frame_interval_nanos(&self) -> (n: u64)
        requires
            self.length >= 1,
        ensures
            n == self.duration_nanos / (self.length as u64),
    {
        self.duration_nanos / (self.length as u64)
    }

    /// Builds frame `i` (1-indexed) of this bar's animation.
    pub fn frame(&self, i: u32) -> (f: Vec<char>)
        requires
            1 <= i <= self.length,
        ensures
            f@ == self.spec_frame(i as int),
    {
        let mut f: Vec<char> = Vec::new();
        let prefix_len: usize = self.prefix.as_str().unicode_len();
        let mut j: usize = 0;
        while j < prefix_len
            invariant
                j <= prefix_len,
                prefix_len == self.prefix@.len(),
                f@ == self.prefix@.subrange(0, j as int),
            decreases prefix_len - j,
        {
            let c = self.prefix.as_str().get_char(j);
            f.push(c);
            j += 1;
            proof {
                assert(f@ =~= self.prefix@.subrange(0, j as int));
            }
        }
        proof {
            assert(f@ =~= self.prefix@);
        }
        f.push('[');
        let mut k: u32 = 0;
        while k < i
            invariant
                k <= i,
                f@ == self.prefix@ + seq!['['] + repeat_char(self.progress_char, k as int),
            decreases i - k,
        {
            f.push(self.progress_char);
            k += 1;
            proof {
                assert(f@ =~= self.prefix@ + seq!['['] + repeat_char(
                    self.progress_char,
                    k as int,
                ));
            }
        }
        let mut s: u32 = i;
        while s < self.length
            invariant
                i <= s <= self.length,
                f@ == self.prefix@ + seq!['['] + repeat_char(self.progress_char, i as int)
                    + repeat_char(' ', s as int - i as int),
            decreases self.length - s,
        {
            f.push(' ');
            s += 1;
            proof {
                assert(f@ =~= self.prefix@ + seq!['['] + repeat_char(self.progress_char, i as int)
                    + repeat_char(' ', s as int - i as int));
            }
        }
        f.push(']');
        if i != self.length {
            f.push('\r');
        } else {
            f.push('\n');
        }
        proof {
            assert(f@ =~= self.spec_frame(i as int));
        }
        f
    }

    /// Builds every frame of the animation, in fill order: exactly
    /// `length` frames, frame `i` at index `i - 1`.
    pub fn render(&self) -> (frames: Vec<Vec<char>>)
        requires
            self.length >= 1,
        ensures
            frames@.len() == self.length,
            forall|k: int|
                0 <= k < self.length ==> #[trigger] frames@[k]@ == self.spec_frame(k + 1),
    {
        let mut frames: Vec<Vec<char>> = Vec::new();
        let mut done: u32 = 0;
        while done < self.length
            invariant
                done <= self.length,
                frames@.len() == done,
                forall|k: int|
                    0 <= k < done ==> #[trigger] frames@[k]@ == self.spec_frame(k + 1),
            decreases self.length - done,
        {
            let f = self.frame(done + 1);
            frames.push(f);
            done += 1;
        }
        frames
    }

    /// Every frame has the same shape: the prefix, an opening bracket,
    /// exactly `length` cells of bar content, a closing bracket, and one
    /// terminator character. The bar's width never changes across frames.
    pub proof fn lemma_frame_shape(self, i: int)
        requires
            1 <= i <= self.length,
        ensures
            self.spec_bar_content(i).len() == self.length,
            self.spec_frame(i).len() == self.prefix@.len() + self.length + 3,
            self.spec_frame(i).subrange(0, self.prefix@.len() as int) == self.prefix@,
            self.spec_frame(i)[self.prefix@.len() as int] == '[',
            self.spec_frame(i).subrange(
                self.prefix@.len() as int + 1,
                self.prefix@.len() as int + 1 + self.length,
            ) == self.spec_bar_content(i),
            self.spec_frame(i)[self.prefix@.len() as int + 1 + self.length] == ']',
    {
        assert(self.spec_frame(i).subrange(0, self.prefix@.len() as int) =~= self.prefix@);
        assert(self.spec_frame(i).subrange(self.prefix@.len() as int + 1, self.prefix@.len() as int + 1
            + self.length) =~= self.spec_bar_content(i));
    }

    /// Frame `i` holds exactly `i` fill characters and exactly
    /// `length - i` spaces between the brackets, provided the fill
    /// character is not itself a space.
    pub proof fn lemma_frame_fill_counts(self, i: int)
        requires
            1 <= i <= self.length,
            self.progress_char != ' ',
        ensures
            count_char(self.spec_bar_content(i), self.progress_char) == i,
            count_char(self.spec_bar_content(i), ' ') == self.length - i,
    {
        let fill = repeat_char(self.progress_char, i);
        let rest = repeat_char(' ', self.length as int - i);
        lemma_count_concat(fill, rest, self.progress_char);
        lemma_count_concat(fill, rest, ' ');
        lemma_count_repeat(self.progress_char, self.progress_char, i);
        lemma_count_repeat(' ', self.progress_char, self.length as int - i);
        lemma_count_repeat(self.progress_char, ' ', i);
        lemma_count_repeat(' ', ' ', self.length as int - i);
    }

    /// The final frame's bracketed content is entirely fill characters,
    /// and the frame ends with a newline, never a carriage return.
    pub proof fn lemma_final_frame(self)
        requires
            self.length >= 1,
        ensures
            self.spec_bar_content(self.length as int) == repeat_char(
                self.progress_char,
                self.length as int,
            ),
            forall|j: int|
                0 <= j < self.length ==> self.spec_bar_content(self.length as int)[j]
                    == self.progress_char,
            self.spec_frame(self.length as int).last() == '\n',
            self.spec_frame(self.length as int).last() != '\r',
    {
        assert(self.spec_bar_content(self.length as int) =~= repeat_char(
            self.progress_char,
            self.length as int,
        ));
    }

    /// Every non-final frame ends with a carriage return, never a line
    /// terminator.
    pub proof fn lemma_nonfinal_frame(self, i: int)
        requires
            1 <= i < self.length,
        ensures
            self.spec_frame(i).last() == '\r',
            self.spec_frame(i).last() != '\n',
    {
    }
}

/// Two bars constructed with identical configuration render identical
/// frame sequences.
pub proof fn lemma_same_config_same_frames(a: LoadingBar, b: LoadingBar)
    requires
        a.duration_nanos == b.duration_nanos,
        a.progress_char == b.progress_char,
        a.length == b.length,
        a.prefix@ == b.prefix@,
    ensures
        a.spec_frames() == b.spec_frames(),
{
    assert forall|k: int| 0 <= k < a.length implies #[trigger] a.spec_frames()[k]
        == b.spec_frames()[k] by {
        assert(a.spec_bar_content(k + 1) =~= b.spec_bar_content(k + 1));
        assert(a.spec_frame(k + 1) =~= b.spec_frame(k + 1));
    }
    assert(a.spec_frames() =~= b.spec_frames());
}

} // verus!
