//! The local terminal subsystem's verified state: the bounded UTF-8 output
//! buffer with its latching truncation flag, exit-status bookkeeping, and
//! the table of live terminals.

use vstd::prelude::*;
use vstd::utf8::*;
use vstd::string::StringSliceAdditionalSpecFns;
use crate::strutil::{push_str, string_from_utf8, string_eq_str};
use crate::numfmt::{decimal_rep, decimal_int_rep, format_u64, format_i64};
use crate::numfmt::{lemma_decimal_rep_injective, lemma_concat_cancel_left};

verus! {

/// Position of the first character boundary of `s` at or after `i` (the
/// length of `s` if there is none before the end).
pub open spec fn next_char_boundary(s: Seq<u8>, i: int) -> int
    recommends
        valid_utf8(s),
        0 <= i <= s.len(),
    decreases s.len() - i,
    when 0 <= i <= s.len()
{
    if i >= s.len() || is_char_boundary(s, i) {
        i
    } else {
        next_char_boundary(s, i + 1)
    }
}

/// Where a buffer holding `s` under byte cap `limit` is cut: nothing is
/// dropped while `s` fits; otherwise the oldest bytes go, up to the first
/// character boundary at or past the excess.
pub open spec fn drop_point(s: Seq<u8>, limit: nat) -> int {
    if s.len() <= limit {
        0
    } else {
        next_char_boundary(s, s.len() - limit)
    }
}

/// A terminal's interleaved stdout/stderr, kept as a byte-bounded, always
/// valid UTF-8 window over the most recent output.
pub struct OutputBuffer {
    buf: Vec<u8>,
    limit: usize,
    truncated: bool,
    dropped: Ghost<nat>,
}

impl OutputBuffer {
    /// The bytes currently held.
    pub closed spec fn bytes(self) -> Seq<u8> {
        self.buf@
    }

    /// The byte cap the buffer was created with.
    pub closed spec fn byte_limit(self) -> nat {
        self.limit as nat
    }

    /// The latching truncation flag.
    pub closed spec fn is_truncated(self) -> bool {
        self.truncated
    }

    /// How many bytes have ever been dropped to enforce the cap.
    pub closed spec fn dropped_bytes(self) -> nat {
        self.dropped@
    }

    /// The buffer's contents as text.
    pub open spec fn output(self) -> Seq<char> {
        decode_utf8(self.bytes())
    }

    /// The buffer never exceeds its cap, always holds valid UTF-8, and its
    /// flag is set exactly when output bytes have been dropped.
    pub open spec fn wf(self) -> bool {
        &&& valid_utf8(self.bytes())
        &&& self.bytes().len() <= self.byte_limit()
        &&& (self.is_truncated() <==> self.dropped_bytes() > 0)
    }

    pub fn new(limit: usize) -> (r: Self)
        ensures
            r.wf(),
            r.bytes() == Seq::<u8>::empty(),
            r.byte_limit() == limit as nat,
            !r.is_truncated(),
            r.dropped_bytes() == 0,
    {
        let r = OutputBuffer { buf: Vec::new(), limit, truncated: false, dropped: Ghost(0) };
        proof {
            assert(valid_utf8(r.buf@));
        }
        r
    }

    /// Appends one pump cycle's chunk, then restores the cap by dropping
    /// the oldest excess bytes, advancing to a character boundary, and
    /// latching the truncation flag if anything was dropped.
    pub fn push_chunk(&mut self, chunk: &str)
        requires
            old(self).wf(),
        ensures
            final(self).wf(),
            final(self).byte_limit() == old(self).byte_limit(),
            ({
                let all = old(self).bytes() + chunk.spec_bytes();
                let k = drop_point(all, old(self).byte_limit());
                &&& final(self).bytes() == all.skip(k)
                &&& final(self).dropped_bytes() == old(self).dropped_bytes() + k
                &&& final(self).is_truncated() == (old(self).is_truncated() || k > 0)
            }),
    {
        let bytes: &[u8] = chunk.as_bytes();
        let ghost all = old(self).bytes() + chunk.spec_bytes();
        proof {
            assert(valid_utf8(chunk.spec_bytes())) by {
                encode_utf8_valid_utf8(chunk@);
            }
            valid_utf8_concat(old(self).bytes(), chunk.spec_bytes());
        }
        let mut i: usize = 0;
        while i < bytes.len()
            invariant
                0 <= i <= bytes@.len(),
                bytes@ == chunk.spec_bytes(),
                self.buf@ == old(self).bytes() + bytes@.take(i as int),
                self.limit == old(self).limit,
                self.truncated == old(self).truncated,
                self.dropped == old(self).dropped,
            decreases bytes@.len() - i,
        {
            let b = bytes[i];
            self.buf.push(b);
            i = i + 1;
            proof {
                assert(self.buf@ =~= old(self).bytes() + bytes@.take(i as int));
            }
        }
        proof {
            assert(self.buf@ =~= all);
        }
        if self.buf.len() > self.limit {
            let excess = self.buf.len() - self.limit;
            let mut k: usize = excess;
            proof {
                assert(valid_utf8(all));
            }
            loop
                invariant
                    self.buf@ == all,
                    valid_utf8(all),
                    all.len() - self.limit <= k <= all.len(),
                    self.limit == old(self).limit,
                    all.len() > self.limit,
                    next_char_boundary(all, all.len() - self.limit as int) == next_char_boundary(
                        all,
                        k as int,
                    ),
                ensures
                    self.buf@ == all,
                    all.len() - self.limit <= k <= all.len(),
                    k as int == next_char_boundary(all, all.len() - self.limit as int),
                    is_char_boundary(all, k as int),
                decreases all.len() - k,
            {
                if k >= self.buf.len() {
                    proof {
                        is_char_boundary_start_end_of_seq(all);
                        assert(next_char_boundary(all, k as int) == k as int);
                    }
                    break;
                }
                let b = self.buf[k];
                if !(0x80 <= b && b <= 0xbf) {
                    proof {
                        is_char_boundary_iff_not_is_continuation_byte(all, k as int);
                        assert(is_char_boundary(all, k as int));
                        assert(next_char_boundary(all, k as int) == k as int);
                    }
                    break;
                }
                proof {
                    is_char_boundary_iff_not_is_continuation_byte(all, k as int);
                    assert(!is_char_boundary(all, k as int));
                }
                k = k + 1;
            }
            proof {
                assert(drop_point(all, old(self).byte_limit()) == k as int);
                valid_utf8_split(all, k as int);
            }
            let tail = self.buf.split_off(k);
            self.buf = tail;
            self.truncated = true;
            let ghost prior_dropped = self.dropped@;
            self.dropped = Ghost((prior_dropped + k as nat) as nat);
            proof {
                assert(self.buf@ =~= all.skip(k as int));
                assert(valid_utf8(all.subrange(k as int, all.len() as int)));
                assert(all.skip(k as int) =~= all.subrange(k as int, all.len() as int));
            }
        } else {
            proof {
                assert(drop_point(all, old(self).byte_limit()) == 0);
                assert(self.buf@ =~= all.skip(0));
            }
        }
    }

    /// A snapshot of the buffer's current contents as a string, together
    /// with the truncation flag.
    pub fn snapshot(&self) -> (r: (String, bool))
        requires
            self.wf(),
        ensures
            r.0@ == self.output(),
            r.1 == self.is_truncated(),
    {
        let bytes = vstd::slice::slice_to_vec(self.buf.as_slice());
        (string_from_utf8(bytes), self.truncated)
    }
}

/// At every observation point a well-formed buffer holds at most
/// `output_byte_limit` bytes, and those bytes are valid UTF-8.
pub proof fn lemma_output_bounded(b: OutputBuffer)
    requires
        b.wf(),
    ensures
        b.bytes().len() <= b.byte_limit(),
        valid_utf8(b.bytes()),
{
}

/// The truncation flag is set exactly when at least one byte has ever been
/// dropped; while it is unset, no byte has ever been dropped.
pub proof fn lemma_truncation_flag(b: OutputBuffer)
    requires
        b.wf(),
    ensures
        b.is_truncated() <==> b.dropped_bytes() > 0,
{
}

/// A terminal's exit report: the numeric exit code if there was one, and
/// the name of the terminating signal if there was one.
#[derive(Debug)]
pub struct ExitStatusInfo {
    pub exit_code: Option<i64>,
    pub signal: Option<String>,
}

/// Field-wise agreement of two exit reports, comparing signal names by
/// their characters.
pub open spec fn exit_info_eq(a: ExitStatusInfo, b: ExitStatusInfo) -> bool {
    &&& a.exit_code == b.exit_code
    &&& match (a.signal, b.signal) {
        (Some(x), Some(y)) => x@ == y@,
        (None, None) => true,
        _ => false,
    }
}

/// Agreement of two optional exit reports.
pub open spec fn exit_opt_eq(a: Option<ExitStatusInfo>, b: Option<ExitStatusInfo>) -> bool {
    match (a, b) {
        (Some(x), Some(y)) => exit_info_eq(x, y),
        (None, None) => true,
        _ => false,
    }
}

fn duplicate_exit_info(e: &ExitStatusInfo) -> (r: ExitStatusInfo)
    ensures
        exit_info_eq(r, *e),
{
    ExitStatusInfo {
        exit_code: e.exit_code,
        signal: match &e.signal {
            Some(s) => Some(s.clone()),
            None => None,
        },
    }
}

/// The conventional name of a POSIX signal number (the common numbering);
/// a number outside the table keeps its decimal rendering.
pub open spec fn signal_name_text(n: int) -> Seq<char> {
    if n == 1 {
        "SIGHUP"@
    } else if n == 2 {
        "SIGINT"@
    } else if n == 3 {
        "SIGQUIT"@
    } else if n == 4 {
        "SIGILL"@
    } else if n == 5 {
        "SIGTRAP"@
    } else if n == 6 {
        "SIGABRT"@
    } else if n == 7 {
        "SIGBUS"@
    } else if n == 8 {
        "SIGFPE"@
    } else if n == 9 {
        "SIGKILL"@
    } else if n == 10 {
        "SIGUSR1"@
    } else if n == 11 {
        "SIGSEGV"@
    } else if n == 12 {
        "SIGUSR2"@
    } else if n == 13 {
        "SIGPIPE"@
    } else if n == 14 {
        "SIGALRM"@
    } else if n == 15 {
        "SIGTERM"@
    } else if n == 17 {
        "SIGCHLD"@
    } else if n == 18 {
        "SIGCONT"@
    } else if n == 19 {
        "SIGSTOP"@
    } else if n == 20 {
        "SIGTSTP"@
    } else if n == 21 {
        "SIGTTIN"@
    } else if n == 22 {
        "SIGTTOU"@
    } else if n == 23 {
        "SIGURG"@
    } else if n == 24 {
        "SIGXCPU"@
    } else if n == 25 {
        "SIGXFSZ"@
    } else if n == 26 {
        "SIGVTALRM"@
    } else if n == 27 {
        "SIGPROF"@
    } else if n == 28 {
        "SIGWINCH"@
    } else if n == 31 {
        "SIGSYS"@
    } else {
        decimal_int_rep(n)
    }
}

/// Renders a signal number as its conventional name.
pub fn signal_name(n: i64) -> (r: String)
    ensures
        r@ == signal_name_text(n as int),
{
    if n == 1 {
        "SIGHUP".to_owned()
    } else if n == 2 {
        "SIGINT".to_owned()
    } else if n == 3 {
        "SIGQUIT".to_owned()
    } else if n == 4 {
        "SIGILL".to_owned()
    } else if n == 5 {
        "SIGTRAP".to_owned()
    } else if n == 6 {
        "SIGABRT".to_owned()
    } else if n == 7 {
        "SIGBUS".to_owned()
    } else if n == 8 {
        "SIGFPE".to_owned()
    } else if n == 9 {
        "SIGKILL".to_owned()
    } else if n == 10 {
        "SIGUSR1".to_owned()
    } else if n == 11 {
        "SIGSEGV".to_owned()
    } else if n == 12 {
        "SIGUSR2".to_owned()
    } else if n == 13 {
        "SIGPIPE".to_owned()
    } else if n == 14 {
        "SIGALRM".to_owned()
    } else if n == 15 {
        "SIGTERM".to_owned()
    } else if n == 17 {
        "SIGCHLD".to_owned()
    } else if n == 18 {
        "SIGCONT".to_owned()
    } else if n == 19 {
        "SIGSTOP".to_owned()
    } else if n == 20 {
        "SIGTSTP".to_owned()
    } else if n == 21 {
        "SIGTTIN".to_owned()
    } else if n == 22 {
        "SIGTTOU".to_owned()
    } else if n == 23 {
        "SIGURG".to_owned()
    } else if n == 24 {
        "SIGXCPU".to_owned()
    } else if n == 25 {
        "SIGXFSZ".to_owned()
    } else if n == 26 {
        "SIGVTALRM".to_owned()
    } else if n == 27 {
        "SIGPROF".to_owned()
    } else if n == 28 {
        "SIGWINCH".to_owned()
    } else if n == 31 {
        "SIGSYS".to_owned()
    } else {
        format_i64(n)
    }
}

/// Maps a child's raw exit description to the report shape the protocol
/// uses: the code is carried over, the terminating signal becomes its
/// name.
pub fn map_exit_status(code: Option<i64>, signal: Option<i64>) -> (r: ExitStatusInfo)
    ensures
        r.exit_code == code,
        match signal {
            Some(n) => r.signal matches Some(s) && s@ == signal_name_text(n as int),
            None => r.signal is None,
        },
{
    ExitStatusInfo {
        exit_code: code,
        signal: match signal {
            Some(n) => Some(signal_name(n)),
            None => None,
        },
    }
}

/// The identifier minted for the `n`-th terminal.
pub open spec fn terminal_label(n: nat) -> Seq<char> {
    "terminal-"@ + decimal_rep(n)
}

proof fn lemma_terminal_label_injective(a: nat, b: nat)
    requires
        terminal_label(a) == terminal_label(b),
    ensures
        a == b,
{
    lemma_concat_cancel_left("terminal-"@, decimal_rep(a), decimal_rep(b));
    lemma_decimal_rep_injective(a, b);
}

/// One live terminal: its minted identifier, its bounded output buffer,
/// and its exit status once that has been captured.
pub struct TerminalEntry {
    pub num: u64,
    pub id: String,
    pub buffer: OutputBuffer,
    pub exit_status: Option<ExitStatusInfo>,
}

/// The table of live terminals. Identifiers are minted from a counter and
/// never reused; entries leave the table only through `release`.
pub struct TerminalTable {
    issued: u64,
    entries: Vec<TerminalEntry>,
}

/// Index of the first entry carrying `id`, or -1.
pub open spec fn find_entry_from(s: Seq<TerminalEntry>, id: Seq<char>, i: int) -> int
    decreases s.len() - i,
    when 0 <= i <= s.len()
{
    if i >= s.len() {
        -1
    } else if s[i].id@ == id {
        i
    } else {
        find_entry_from(s, id, i + 1)
    }
}

proof fn lemma_find_entry_shift(s: Seq<TerminalEntry>, id: Seq<char>, i: int)
    requires
        0 <= i <= s.len(),
        forall|j: int| 0 <= j < i ==> s[j].id@ != id,
    ensures
        find_entry_from(s, id, 0) == find_entry_from(s, id, i),
    decreases i,
{
    if i > 0 {
        lemma_find_entry_shift(s, id, i - 1);
    }
}

proof fn lemma_find_entry_found(s: Seq<TerminalEntry>, id: Seq<char>, i: int)
    requires
        0 <= i <= s.len(),
        forall|j: int| 0 <= j < i ==> s[j].id@ != id,
        i < s.len() ==> s[i].id@ == id,
    ensures
        i < s.len() ==> find_entry_from(s, id, 0) == i,
        i == s.len() ==> find_entry_from(s, id, 0) == -1,
{
    lemma_find_entry_shift(s, id, i);
}

impl TerminalTable {
    /// How many terminals have ever been created.
    pub closed spec fn issued_count(self) -> nat {
        self.issued as nat
    }

    /// The live entries, in creation order.
    pub closed spec fn entries_view(self) -> Seq<TerminalEntry> {
        self.entries@
    }

    /// Index of the live entry carrying `id`, or -1.
    pub open spec fn spec_find(self, id: Seq<char>) -> int {
        find_entry_from(self.entries_view(), id, 0)
    }

    /// Every entry carries the identifier minted from its own number, the
    /// numbers are distinct and no larger than the counter, and every
    /// buffer is well-formed.
    pub open spec fn wf(self) -> bool {
        &&& forall|i: int|
            0 <= i < self.entries_view().len() ==> {
                &&& 1 <= (#[trigger] self.entries_view()[i]).num
                &&& self.entries_view()[i].num <= self.issued_count()
                &&& self.entries_view()[i].id@ == terminal_label(self.entries_view()[i].num as nat)
                &&& self.entries_view()[i].buffer.wf()
            }
        &&& forall|i: int, j: int|
            0 <= i < self.entries_view().len() && 0 <= j < self.entries_view().len() && i != j
                ==> (#[trigger] self.entries_view()[i]).num != (
            #[trigger] self.entries_view()[j]).num
    }

    proof fn lemma_ids_distinct(self)
        requires
            self.wf(),
        ensures
            forall|i: int, j: int|
                0 <= i < self.entries_view().len() && 0 <= j < self.entries_view().len() && i != j
                    ==> (#[trigger] self.entries_view()[i]).id@ != (
                #[trigger] self.entries_view()[j]).id@,
    {
        assert forall|i: int, j: int|
            0 <= i < self.entries_view().len() && 0 <= j < self.entries_view().len() && i != j
                implies (#[trigger] self.entries_view()[i]).id@ != (
        #[trigger] self.entries_view()[j]).id@ by {
            if self.entries_view()[i].id@ == self.entries_view()[j].id@ {
                lemma_terminal_label_injective(
                    self.entries_view()[i].num as nat,
                    self.entries_view()[j].num as nat,
                );
            }
        }
    }

    pub fn new() -> (r: Self)
        ensures
            r.wf(),
            r.entries_view().len() == 0,
            r.issued_count() == 0,
    {
        TerminalTable { issued: 0, entries: Vec::new() }
    }

    /// How many terminals have ever been created; identifiers run out at
    /// `u64::MAX`.
    pub fn minted(&self) -> (r: u64)
        ensures
            r == self.issued_count(),
    {
        self.issued
    }

    /// Creates a terminal: mints the next identifier `terminal-<n>` and
    /// installs an empty buffer capped at the requested byte limit, or at
    /// 64 KiB when none is requested.
    pub fn create(&mut self, output_byte_limit: Option<usize>) -> (r: String)
        requires
            old(self).wf(),
            old(self).issued_count() < u64::MAX,
        ensures
            final(self).wf(),
            final(self).issued_count() == old(self).issued_count() + 1,
            r@ == terminal_label(final(self).issued_count()),
            final(self).entries_view().len() == old(self).entries_view().len() + 1,
            final(self).entries_view().take(old(self).entries_view().len() as int) == old(
                self,
            ).entries_view(),
            ({
                let e = final(self).entries_view().last();
                &&& e.id@ == r@
                &&& e.buffer.bytes() == Seq::<u8>::empty()
                &&& !e.buffer.is_truncated()
                &&& e.buffer.byte_limit() == match output_byte_limit {
                    Some(l) => l as nat,
                    None => 65536 as nat,
                }
                &&& e.exit_status is None
            }),
    {
        let num = self.issued + 1;
        self.issued = num;
        let mut id: String = "terminal-".to_owned();
        let digits = format_u64(num);
        push_str(&mut id, digits.as_str());
        let limit: usize = match output_byte_limit {
            Some(l) => l,
            None => 65536,
        };
        let entry = TerminalEntry {
            num,
            id: id.clone(),
            buffer: OutputBuffer::new(limit),
            exit_status: None,
        };
        self.entries.push(entry);
        proof {
            assert(final(self).entries_view().take(old(self).entries_view().len() as int) =~= old(
                self,
            ).entries_view());
        }
        id
    }

    fn index_of(&self, id: &str) -> (r: Option<usize>)
        ensures
            match r {
                Some(i) => i < self.entries_view().len() && self.spec_find(id@) == i
                    && self.entries_view()[i as int].id@ == id@,
                None => self.spec_find(id@) == -1,
            },
    {
        let mut i: usize = 0;
        loop
            invariant_except_break
                0 <= i <= self.entries_view().len(),
                forall|j: int| 0 <= j < i ==> self.entries_view()[j].id@ != id@,
            ensures
                self.spec_find(id@) >= 0 ==> i < self.entries_view().len() && self.spec_find(id@)
                    == i && self.entries_view()[i as int].id@ == id@,
                self.spec_find(id@) < 0 ==> i == self.entries_view().len() && self.spec_find(id@)
                    == -1,
            decreases self.entries_view().len() - i,
        {
            if i >= self.entries.len() {
                proof {
                    lemma_find_entry_found(self.entries_view(), id@, i as int);
                }
                break;
            }
            if string_eq_str(&self.entries[i].id, id) {
                proof {
                    lemma_find_entry_found(self.entries_view(), id@, i as int);
                }
                break;
            }
            i = i + 1;
        }
        if i < self.entries.len() {
            Some(i)
        } else {
            None
        }
    }

    /// Appends one pump cycle's chunk to the named terminal's buffer.
    /// Returns whether the terminal exists; all other entries are
    /// untouched.
    pub fn push_output(&mut self, id: &str, chunk: &str) -> (r: bool)
        requires
            old(self).wf(),
        ensures
            final(self).wf(),
            r == (old(self).spec_find(id@) >= 0),
            final(self).issued_count() == old(self).issued_count(),
            old(self).spec_find(id@) < 0 ==> final(self).entries_view() == old(
                self,
            ).entries_view(),
            old(self).spec_find(id@) >= 0 ==> ({
                let j = old(self).spec_find(id@);
                let e = old(self).entries_view()[j];
                let all = e.buffer.bytes() + chunk.spec_bytes();
                let k = drop_point(all, e.buffer.byte_limit());
                &&& final(self).entries_view().len() == old(self).entries_view().len()
                &&& (forall|i: int|
                    0 <= i < final(self).entries_view().len() && i != j
                        ==> #[trigger] final(self).entries_view()[i] == old(
                        self,
                    ).entries_view()[i])
                &&& final(self).entries_view()[j].num == e.num
                &&& final(self).entries_view()[j].id == e.id
                &&& final(self).entries_view()[j].exit_status == e.exit_status
                &&& final(self).entries_view()[j].buffer.bytes() == all.skip(k)
                &&& final(self).entries_view()[j].buffer.byte_limit() == e.buffer.byte_limit()
                &&& final(self).entries_view()[j].buffer.is_truncated() == (
                e.buffer.is_truncated() || k > 0)
            }),
    {
        match self.index_of(id) {
            None => false,
            Some(i) => {
                let mut entry = self.entries.remove(i);
                entry.buffer.push_chunk(chunk);
                self.entries.insert(i, entry);
                proof {
                    let j = old(self).spec_find(id@);
                    assert(forall|x: int|
                        0 <= x < final(self).entries_view().len() && x != j
                            ==> #[trigger] final(self).entries_view()[x] == old(
                            self,
                        ).entries_view()[x]);
                    assert(final(self).entries_view().len() == old(self).entries_view().len());
                }
                true
            },
        }
    }

    /// The reply to `terminal/output` for a live terminal: the buffered
    /// text, the truncation flag, and the cached exit status if any; or
    /// the not-found error for an unknown identifier.
    pub fn output_snapshot(&self, id: &str) -> (r: Result<
        (String, bool, Option<ExitStatusInfo>),
        String,
    >)
        requires
            self.wf(),
        ensures
            self.spec_find(id@) >= 0 ==> ({
                let e = self.entries_view()[self.spec_find(id@)];
                &&& r matches Ok(t)
                &&& r matches Ok(t) ==> {
                    &&& t.0@ == e.buffer.output()
                    &&& t.1 == e.buffer.is_truncated()
                    &&& exit_opt_eq(t.2, e.exit_status)
                }
            }),
            self.spec_find(id@) < 0 ==> (r matches Err(m) && m@ == not_found_text(id@)),
    {
        match self.index_of(id) {
            Some(i) => {
                let entry = &self.entries[i];
                let (text, truncated) = entry.buffer.snapshot();
                let exit = match &entry.exit_status {
                    Some(e) => Some(duplicate_exit_info(e)),
                    None => None,
                };
                Ok((text, truncated, exit))
            },
            None => Err(not_found_message(id)),
        }
    }

    /// Whether the table holds a terminal under `id`.
    pub fn has_terminal(&self, id: &str) -> (r: bool)
        requires
            self.wf(),
        ensures
            r == (self.spec_find(id@) >= 0),
    {
        match self.index_of(id) {
            Some(_) => true,
            None => false,
        }
    }

    /// The cached exit status of the named terminal (`Err` when the
    /// terminal is unknown, `Ok(None)` when no exit has been captured).
    pub fn cached_exit(&self, id: &str) -> (r: Result<Option<ExitStatusInfo>, String>)
        requires
            self.wf(),
        ensures
            self.spec_find(id@) >= 0 ==> (r matches Ok(o) && exit_opt_eq(
                o,
                self.entries_view()[self.spec_find(id@)].exit_status,
            )),
            self.spec_find(id@) < 0 ==> (r matches Err(m) && m@ == not_found_text(id@)),
    {
        match self.index_of(id) {
            Some(i) => Ok(
                match &self.entries[i].exit_status {
                    Some(e) => Some(duplicate_exit_info(e)),
                    None => None,
                },
            ),
            None => Err(not_found_message(id)),
        }
    }

    /// Caches a captured exit status. The first capture wins: once an
    /// entry's status is set it never changes, so capturing is idempotent
    /// after the first success.
    pub fn record_exit(&mut self, id: &str, status: ExitStatusInfo) -> (r: bool)
        requires
            old(self).wf(),
        ensures
            final(self).wf(),
            r == (old(self).spec_find(id@) >= 0),
            final(self).issued_count() == old(self).issued_count(),
            old(self).spec_find(id@) < 0 ==> final(self).entries_view() == old(
                self,
            ).entries_view(),
            old(self).spec_find(id@) >= 0 ==> ({
                let j = old(self).spec_find(id@);
                let e = old(self).entries_view()[j];
                &&& final(self).entries_view().len() == old(self).entries_view().len()
                &&& (forall|i: int|
                    0 <= i < final(self).entries_view().len() && i != j
                        ==> #[trigger] final(self).entries_view()[i] == old(
                        self,
                    ).entries_view()[i])
                &&& final(self).entries_view()[j].num == e.num
                &&& final(self).entries_view()[j].id == e.id
                &&& final(self).entries_view()[j].buffer == e.buffer
                &&& final(self).entries_view()[j].exit_status == (match e.exit_status {
                    Some(prior) => Some(prior),
                    None => Some(status),
                })
            }),
    {
        match self.index_of(id) {
            None => false,
            Some(i) => {
                let mut entry = self.entries.remove(i);
                if entry.exit_status.is_none() {
                    entry.exit_status = Some(status);
                }
                self.entries.insert(i, entry);
                proof {
                    let j = old(self).spec_find(id@);
                    assert(forall|x: int|
                        0 <= x < final(self).entries_view().len() && x != j
                            ==> #[trigger] final(self).entries_view()[x] == old(
                            self,
                        ).entries_view()[x]);
                }
                true
            },
        }
    }

    /// Removes the named terminal. Afterwards no entry under that
    /// identifier remains, so later lookups fail with the not-found
    /// error; removal of an unknown identifier is a no-op.
    pub fn release(&mut self, id: &str) -> (r: bool)
        requires
            old(self).wf(),
        ensures
            final(self).wf(),
            r == (old(self).spec_find(id@) >= 0),
            final(self).issued_count() == old(self).issued_count(),
            final(self).spec_find(id@) == -1,
            old(self).spec_find(id@) < 0 ==> final(self).entries_view() == old(
                self,
            ).entries_view(),
            old(self).spec_find(id@) >= 0 ==> final(self).entries_view() == old(
                self,
            ).entries_view().remove(old(self).spec_find(id@)),
    {
        match self.index_of(id) {
            None => {
                proof {
                    assert(final(self).spec_find(id@) == -1);
                }
                false
            },
            Some(i) => {
                self.entries.remove(i);
                proof {
                    old(self).lemma_ids_distinct();
                    let s = final(self).entries_view();
                    assert(s =~= old(self).entries_view().subrange(0, i as int) + old(
                        self,
                    ).entries_view().subrange(
                        i as int + 1,
                        old(self).entries_view().len() as int,
                    ));
                    assert forall|j: int| 0 <= j < s.len() implies (#[trigger] s[j]).id@ != id@ by {
                        if j < i {
                            assert(s[j] == old(self).entries_view()[j]);
                        } else {
                            assert(s[j] == old(self).entries_view()[j + 1]);
                        }
                    }
                    lemma_find_entry_found(s, id@, s.len() as int);
                }
                true
            },
        }
    }
}

/// The error text for an unknown terminal identifier.
pub open spec fn not_found_text(id: Seq<char>) -> Seq<char> {
    "terminal not found: "@ + id
}

/// Builds the error text for an unknown terminal identifier.
pub fn not_found_message(id: &str) -> (r: String)
    ensures
        r@ == not_found_text(id@),
{
    let mut m: String = "terminal not found: ".to_owned();
    push_str(&mut m, id);
    m
}

} // verus!
