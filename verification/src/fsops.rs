//! The computational core of the filesystem reverse requests: slicing a
//! file's text into the line window `fs/read_text_file` asks for.

use vstd::prelude::*;
use vstd::string::StrSliceExecFns;
use crate::strutil::{push_str, push_char};

verus! {

/// The lines of `s` from position `i` on, with `cur` the partial line
/// read so far: lines are split at `\n`, a `\r` directly before the
/// newline is dropped, a final line without newline is kept whole, and a
/// trailing newline yields no empty final line — as `str::lines` behaves.
pub open spec fn lines_acc(s: Seq<char>, i: int, cur: Seq<char>) -> Seq<Seq<char>>
    decreases s.len() - i,
    when 0 <= i <= s.len()
{
    if i >= s.len() {
        if cur.len() == 0 {
            Seq::empty()
        } else {
            seq![cur]
        }
    } else if s[i] == '\n' {
        seq![strip_cr(cur)] + lines_acc(s, i + 1, Seq::empty())
    } else {
        lines_acc(s, i + 1, cur.push(s[i]))
    }
}

/// A line piece with a trailing carriage return removed.
pub open spec fn strip_cr(line: Seq<char>) -> Seq<char> {
    if line.len() > 0 && line.last() == '\r' {
        line.drop_last()
    } else {
        line
    }
}

/// The lines of a text.
pub open spec fn split_lines(s: Seq<char>) -> Seq<Seq<char>> {
    lines_acc(s, 0, Seq::empty())
}

/// Lines rejoined with `\n`, with no trailing newline.
pub open spec fn joined_lines(l: Seq<Seq<char>>) -> Seq<char>
    decreases l.len(),
{
    if l.len() == 0 {
        Seq::empty()
    } else if l.len() == 1 {
        l[0]
    } else {
        l[0] + seq!['\n'] + joined_lines(l.skip(1))
    }
}

/// The window of `count` lines starting at line index `start` (both
/// clipped to what exists).
pub open spec fn clip_lines(l: Seq<Seq<char>>, start: nat, count: nat) -> Seq<Seq<char>> {
    if start >= l.len() {
        Seq::empty()
    } else if start + count >= l.len() {
        l.subrange(start as int, l.len() as int)
    } else {
        l.subrange(start as int, (start + count) as int)
    }
}

/// What slicing a text to a line window returns.
pub open spec fn slice_spec(s: Seq<char>, start: nat, count: nat) -> Seq<char> {
    joined_lines(clip_lines(split_lines(s), start, count))
}

proof fn lemma_joined_push(l: Seq<Seq<char>>, x: Seq<char>)
    ensures
        joined_lines(l.push(x)) == if l.len() == 0 {
            x
        } else {
            joined_lines(l) + seq!['\n'] + x
        },
    decreases l.len(),
{
    if l.len() == 0 {
        assert(l.push(x).len() == 1);
        assert(l.push(x)[0] == x);
    } else if l.len() == 1 {
        assert(l.push(x).skip(1) =~= seq![x]);
        assert(l.push(x)[0] == l[0]);
        assert(joined_lines(seq![x]) == seq![x][0]);
        assert(seq![x][0] == x);
        assert(joined_lines(l) == l[0]);
        assert(joined_lines(l.push(x)) == l.push(x)[0] + seq!['\n'] + joined_lines(
            l.push(x).skip(1),
        ));
    } else {
        assert(l.push(x).skip(1) =~= l.skip(1).push(x));
        lemma_joined_push(l.skip(1), x);
        assert(joined_lines(l.push(x)) == l[0] + seq!['\n'] + (joined_lines(l.skip(1)) + seq![
            '\n',
        ] + x));
        assert(l[0] + seq!['\n'] + (joined_lines(l.skip(1)) + seq!['\n'] + x) =~= (l[0] + seq![
            '\n',
        ] + joined_lines(l.skip(1))) + seq!['\n'] + x);
    }
}

/// Slices a text to the window of `count` lines starting at line index
/// `start`, rejoined with `\n` and without a trailing newline.
pub fn slice_lines(content: &str, start: u64, count: u64) -> (r: String)
    ensures
        r@ == slice_spec(content@, start as nat, count as nat),
{
    let ghost s = content@;
    let n = content.unicode_len();
    let mut out = String::new();
    let mut i: usize = 0;
    let mut line_start: usize = 0;
    let mut line_no: u64 = 0;
    let mut taken: u64 = 0;
    let ghost mut emitted: Seq<Seq<char>> = Seq::empty();
    proof {
        assert(split_lines(s) == Seq::<Seq<char>>::empty() + lines_acc(
            s,
            0,
            s.subrange(0, 0),
        )) by {
            assert(s.subrange(0, 0) =~= Seq::<char>::empty());
            assert(Seq::<Seq<char>>::empty() + lines_acc(s, 0, Seq::<char>::empty()) =~= lines_acc(
                s,
                0,
                Seq::<char>::empty(),
            ));
        }
        assert(out@ =~= joined_lines(clip_lines(emitted, start as nat, count as nat)));
    }
    while i < n
        invariant
            s == content@,
            n == s.len(),
            0 <= line_start <= i <= n,
            emitted.len() == line_no,
            line_no <= i,
            taken <= line_no,
            split_lines(s) == emitted + lines_acc(s, i as int, s.subrange(
                line_start as int,
                i as int,
            )),
            out@ == joined_lines(clip_lines(emitted, start as nat, count as nat)),
            taken == clip_lines(emitted, start as nat, count as nat).len(),
        decreases n - i,
    {
        let ghost cur = s.subrange(line_start as int, i as int);
        let c = content.get_char(i);
        if c == '\n' {
            let piece_end: usize = if i > line_start && content.get_char(i - 1) == '\r' {
                i - 1
            } else {
                i
            };
            proof {
                assert(strip_cr(cur) =~= s.subrange(line_start as int, piece_end as int)) by {
                    if i > line_start && s[i as int - 1] == '\r' {
                        assert(cur.len() > 0 && cur.last() == '\r');
                        assert(cur.drop_last() =~= s.subrange(line_start as int, i as int - 1));
                    }
                }
            }
            let ghost piece = strip_cr(cur);
            proof {
                assert(lines_acc(s, i as int, cur) == seq![piece] + lines_acc(
                    s,
                    i as int + 1,
                    Seq::empty(),
                ));
            }
            let emit = line_no >= start && line_no - start < count;
            if emit {
                if taken > 0 {
                    push_char(&mut out, '\n');
                }
                let part = content.substring_char(line_start, piece_end);
                push_str(&mut out, part);
            }
            proof {
                let prior = emitted;
                let clipped = clip_lines(prior, start as nat, count as nat);
                emitted = emitted.push(piece);
                let clipped2 = clip_lines(emitted, start as nat, count as nat);
                if line_no < start {
                    assert(clipped2 =~= clipped);
                } else if line_no - start < count {
                    assert(clipped2 =~= clipped.push(piece));
                    assert(clipped.len() == line_no - start);
                    lemma_joined_push(clipped, piece);
                    if taken == 0 {
                        assert(out@ =~= Seq::<char>::empty() + piece) by {
                            assert(joined_lines(clipped) =~= Seq::<char>::empty());
                        }
                        assert(out@ == joined_lines(clipped2));
                    } else {
                        assert(out@ == joined_lines(clipped2));
                    }
                } else {
                    assert(clipped2 =~= clipped);
                }
                assert(split_lines(s) == emitted + lines_acc(s, i as int + 1, Seq::empty())) by {
                    assert(prior + (seq![piece] + lines_acc(s, i as int + 1, Seq::empty()))
                        =~= emitted + lines_acc(s, i as int + 1, Seq::empty()));
                }
                assert(s.subrange(i as int + 1, i as int + 1) =~= Seq::<char>::empty());
            }
            line_no = line_no + 1;
            if emit {
                taken = taken + 1;
            }
            line_start = i + 1;
        } else {
            proof {
                assert(cur.push(s[i as int]) =~= s.subrange(line_start as int, i as int + 1));
                assert(lines_acc(s, i as int, cur) == lines_acc(
                    s,
                    i as int + 1,
                    cur.push(s[i as int]),
                ));
            }
        }
        i = i + 1;
    }
    // the final line, if the text did not end with a newline
    if line_start < n {
        let ghost cur = s.subrange(line_start as int, n as int);
        proof {
            assert(cur.len() > 0);
            assert(lines_acc(s, n as int, cur) == seq![cur]);
        }
        let emit = line_no >= start && line_no - start < count;
        if emit {
            if taken > 0 {
                push_char(&mut out, '\n');
            }
            let part = content.substring_char(line_start, n);
            push_str(&mut out, part);
        }
        proof {
            let prior = emitted;
            let clipped = clip_lines(prior, start as nat, count as nat);
            emitted = emitted.push(cur);
            let clipped2 = clip_lines(emitted, start as nat, count as nat);
            if line_no < start {
                assert(clipped2 =~= clipped);
            } else if line_no - start < count {
                assert(clipped2 =~= clipped.push(cur));
                assert(clipped.len() == line_no - start);
                lemma_joined_push(clipped, cur);
                if taken == 0 {
                    assert(out@ =~= Seq::<char>::empty() + cur) by {
                        assert(joined_lines(clipped) =~= Seq::<char>::empty());
                    }
                    assert(out@ == joined_lines(clipped2));
                } else {
                    assert(out@ == joined_lines(clipped2));
                }
            } else {
                assert(clipped2 =~= clipped);
            }
            assert(split_lines(s) == emitted) by {
                assert(prior + seq![cur] =~= emitted);
            }
        }
    } else {
        proof {
            assert(s.subrange(line_start as int, n as int).len() == 0);
            assert(lines_acc(s, n as int, s.subrange(line_start as int, n as int))
                == Seq::<Seq<char>>::empty());
            assert(split_lines(s) == emitted) by {
                assert(emitted + Seq::<Seq<char>>::empty() =~= emitted);
            }
        }
    }
    out
}

/// The `fs/read_text_file` content rule: with neither `line` nor `limit`
/// given, the whole text; otherwise the window of `limit` lines (all by
/// default) starting at 1-based `line` (the first by default, with
/// underflow saturating), rejoined with `\n`.
pub fn read_text_content(content: &str, line: Option<u64>, limit: Option<u64>) -> (r: String)
    ensures
        line is None && limit is None ==> r@ == content@,
        !(line is None && limit is None) ==> ({
            let start = match line {
                Some(v) => if v >= 1 {
                    (v - 1) as nat
                } else {
                    0nat
                },
                None => 0nat,
            };
            let count = match limit {
                Some(v) => v as nat,
                None => u64::MAX as nat,
            };
            r@ == slice_spec(content@, start, count)
        }),
{
    if line.is_none() && limit.is_none() {
        return content.to_owned();
    }
    let start: u64 = match line {
        Some(v) => if v >= 1 {
            v - 1
        } else {
            0
        },
        None => 0,
    };
    let count: u64 = match limit {
        Some(v) => v,
        None => u64::MAX,
    };
    slice_lines(content, start, count)
}

} // verus!
