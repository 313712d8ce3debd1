//! The launcher's own process and its ancestors. Their windows are never
//! closed: a terminal that started the launcher must outlive the cleanup.
use crate::decimal::{parse_i32, parsed_i32};
use crate::gateway::{Reply, ReplyView, Request, RequestView};
use crate::text::{chars_of, is_space, is_whitespace, starts_with, trim_start};
use vstd::prelude::*;

verus! {

/// How many ancestors the walk up the process table collects at most.
pub const MAX_ANCESTOR_HOPS: u32 = 32;

/// The length of the first line of `s`: the characters before the first
/// line feed.
pub open spec fn line_len(s: Seq<char>) -> nat
    decreases s.len(),
{
    if s.len() == 0 || s[0] == '\n' {
        0
    } else {
        1 + line_len(s.drop_first())
    }
}

/// The length of the word that `s` begins with: the characters before the
/// first white space.
pub open spec fn word_len(s: Seq<char>) -> nat
    decreases s.len(),
{
    if s.len() == 0 || is_space(s[0]) {
        0
    } else {
        1 + word_len(s.drop_first())
    }
}

/// The first word of `s`, white space before it passed over.
pub open spec fn first_word(s: Seq<char>) -> Seq<char> {
    let t = trim_start(s);
    t.take(word_len(t) as int)
}

/// The parent that a status record names: the first line that begins with
/// `PPid:` decides, and names the process whose number is the first word
/// after the colon. A record without such a line, or with anything but a
/// 32-bit decimal number there, names none.
pub open spec fn parent_pid(record: Seq<char>) -> Option<i32>
    decreases record.len(),
{
    if record.len() == 0 {
        None
    } else {
        let n = line_len(record);
        let line = record.take(n as int);
        if "PPid:"@.is_prefix_of(line) {
            parsed_i32(first_word(line.skip("PPid:"@.len() as int)))
        } else if n >= record.len() {
            None
        } else {
            parent_pid(record.skip(n as int + 1))
        }
    }
}

proof fn lemma_line_len_bound(s: Seq<char>)
    ensures
        line_len(s) <= s.len(),
    decreases s.len(),
{
    if !(s.len() == 0 || s[0] == '\n') {
        lemma_line_len_bound(s.drop_first());
    }
}

proof fn lemma_word_len_bound(s: Seq<char>)
    ensures
        word_len(s) <= s.len(),
    decreases s.len(),
{
    if !(s.len() == 0 || is_space(s[0])) {
        lemma_word_len_bound(s.drop_first());
    }
}

proof fn lemma_line_len_scan(s: Seq<char>, i: int)
    requires
        0 <= i <= s.len(),
        forall|k: int| 0 <= k < i ==> s[k] != '\n',
    ensures
        line_len(s) == i + line_len(s.skip(i)),
    decreases i,
{
    if i == 0 {
        assert(s.skip(0) =~= s);
    } else {
        assert(s.drop_first().skip(i - 1) =~= s.skip(i));
        assert forall|k: int| 0 <= k < i - 1 implies s.drop_first()[k] != '\n' by {
            assert(s.drop_first()[k] == s[k + 1]);
        }
        lemma_line_len_scan(s.drop_first(), i - 1);
    }
}

proof fn lemma_word_len_scan(s: Seq<char>, i: int)
    requires
        0 <= i <= s.len(),
        forall|k: int| 0 <= k < i ==> !is_space(#[trigger] s[k]),
    ensures
        word_len(s) == i + word_len(s.skip(i)),
    decreases i,
{
    if i == 0 {
        assert(s.skip(0) =~= s);
    } else {
        assert(s.drop_first().skip(i - 1) =~= s.skip(i));
        assert forall|k: int| 0 <= k < i - 1 implies !is_space(#[trigger] s.drop_first()[k]) by {
            assert(s.drop_first()[k] == s[k + 1]);
        }
        lemma_word_len_scan(s.drop_first(), i - 1);
    }
}

proof fn lemma_trim_start_scan(s: Seq<char>, i: int)
    requires
        0 <= i <= s.len(),
        forall|k: int| 0 <= k < i ==> is_space(#[trigger] s[k]),
        i == s.len() || !is_space(s[i]),
    ensures
        trim_start(s) == s.skip(i),
    decreases i,
{
    if i == 0 {
        assert(s.skip(0) =~= s);
    } else {
        assert(s.drop_first().skip(i - 1) =~= s.skip(i));
        assert forall|k: int| 0 <= k < i - 1 implies is_space(#[trigger] s.drop_first()[k]) by {
            assert(s.drop_first()[k] == s[k + 1]);
        }
        if i < s.len() {
            assert(s.drop_first()[i - 1] == s[i]);
        }
        lemma_trim_start_scan(s.drop_first(), i - 1);
    }
}

/// The characters of `v` from `from` up to `to`.
fn slice_of(v: &Vec<char>, from: usize, to: usize) -> (out: Vec<char>)
    requires
        from <= to <= v.len(),
    ensures
        out@ == v@.subrange(from as int, to as int),
{
    let mut out: Vec<char> = Vec::new();
    let mut i: usize = from;
    while i < to
        invariant
            from <= i <= to <= v.len(),
            out@ == v@.subrange(from as int, i as int),
        decreases to - i,
    {
        out.push(v[i]);
        assert(v@.subrange(from as int, i as int + 1) =~= v@.subrange(from as int, i as int).push(
            v@[i as int],
        ));
        i += 1;
    }
    out
}

/// The first word of `v`.
fn first_word_of(v: &Vec<char>) -> (out: Vec<char>)
    ensures
        out@ == first_word(v@),
{
    let mut start: usize = 0;
    while start < v.len() && is_whitespace(v[start])
        invariant
            start <= v.len(),
            forall|k: int| 0 <= k < start ==> is_space(#[trigger] v@[k]),
        decreases v.len() - start,
    {
        start += 1;
    }
    proof {
        lemma_trim_start_scan(v@, start as int);
    }
    let ghost t = v@.skip(start as int);
    let mut stop: usize = start;
    while stop < v.len() && !is_whitespace(v[stop])
        invariant
            start <= stop <= v.len(),
            t == v@.skip(start as int),
            forall|k: int| 0 <= k < stop - start ==> !is_space(#[trigger] t[k]),
        decreases v.len() - stop,
    {
        stop += 1;
    }
    proof {
        lemma_word_len_scan(t, stop - start);
        let rest = t.skip(stop - start);
        if stop < v.len() {
            assert(rest[0] == v@[stop as int]);
        }
        assert(word_len(rest) == 0);
        assert(t.take(stop - start) =~= v@.subrange(start as int, stop as int));
    }
    slice_of(v, start, stop)
}

/// Reads the parent's process number from a status record.
pub fn parse_parent_pid(record: &str) -> (parent: Option<i32>)
    ensures
        parent == parent_pid(record@),
{
    let v = chars_of(record);
    let prefix = chars_of("PPid:");
    let mut start: usize = 0;
    assert(v@.skip(0) =~= v@);
    while start < v.len()
        invariant
            start <= v.len(),
            prefix@ == "PPid:"@,
            v@ == record@,
            parent_pid(v@) == parent_pid(v@.skip(start as int)),
        decreases v.len() - start,
    {
        let ghost rest = v@.skip(start as int);
        let mut end: usize = start;
        while end < v.len() && v[end] != '\n'
            invariant
                start <= end <= v.len(),
                rest == v@.skip(start as int),
                forall|k: int| 0 <= k < end - start ==> rest[k] != '\n',
            decreases v.len() - end,
        {
            end += 1;
        }
        proof {
            lemma_line_len_scan(rest, end - start);
            let tail = rest.skip(end - start);
            if end < v.len() {
                assert(tail[0] == v@[end as int]);
            }
            assert(line_len(tail) == 0);
            assert(rest.take(end - start) =~= v@.subrange(start as int, end as int));
        }
        let line = slice_of(&v, start, end);
        assert(rest.len() > 0);
        assert(line_len(rest) == end - start);
        assert(line@ == rest.take(line_len(rest) as int));
        if starts_with(&line, &prefix) {
            let after = slice_of(&line, prefix.len(), line.len());
            assert(after@ =~= line@.skip(prefix@.len() as int));
            let word = first_word_of(&after);
            return parse_i32(&word);
        }
        if end >= v.len() {
            return None;
        }
        assert(rest.skip(end - start + 1) =~= v@.skip(end as int + 1));
        start = end + 1;
    }
    None
}

/// The walk up the process table: the processes found so far, the launcher
/// first, and the number of parents followed.
#[derive(Debug, Clone)]
pub struct AncestorWalk {
    pub pids: Vec<i32>,
    pub hops: u32,
    pub done: bool,
}

/// The walk as contracts see it.
pub struct WalkView {
    pub pids: Seq<i32>,
    pub hops: u32,
    pub done: bool,
}

impl View for AncestorWalk {
    type V = WalkView;

    open spec fn view(&self) -> WalkView {
        WalkView { pids: self.pids@, hops: self.hops, done: self.done }
    }
}

impl WalkView {
    /// The walk starts at the launcher and asks for its record.
    pub open spec fn begin(self_pid: i32) -> (WalkView, Option<RequestView>) {
        (
            WalkView { pids: seq![self_pid], hops: 0, done: false },
            Some(RequestView::ProcessStatus(self_pid)),
        )
    }

    /// The walk at its end: it asks nothing more.
    pub open spec fn finished(self) -> (WalkView, Option<RequestView>) {
        (WalkView { done: true, ..self }, None)
    }

    /// One step. The walk follows the parent that the record names, and
    /// ends, without an error, where the record is missing or names none,
    /// where the parent is process 1 or below, where the parent was seen
    /// before, and after the last hop allowed.
    pub open spec fn step(self, reply: ReplyView) -> (WalkView, Option<RequestView>) {
        if self.done {
            (self, None)
        } else {
            match reply {
                ReplyView::Status(Some(record)) => match parent_pid(record) {
                    Some(parent) => if parent <= 1 || self.hops >= MAX_ANCESTOR_HOPS
                        || self.pids.contains(parent) {
                        self.finished()
                    } else {
                        (
                            WalkView {
                                pids: self.pids.push(parent),
                                hops: (self.hops + 1) as u32,
                                done: false,
                            },
                            Some(RequestView::ProcessStatus(parent)),
                        )
                    },
                    None => self.finished(),
                },
                _ => self.finished(),
            }
        }
    }
}

/// Whether `pid` is among `pids`.
pub fn has_pid(pids: &Vec<i32>, pid: i32) -> (b: bool)
    ensures
        b == pids@.contains(pid),
{
    let mut i: usize = 0;
    while i < pids.len()
        invariant
            i <= pids.len(),
            forall|k: int| 0 <= k < i ==> pids@[k] != pid,
        decreases pids.len() - i,
    {
        if pids[i] == pid {
            return true;
        }
        i += 1;
    }
    false
}

/// Starts the walk at the launcher's own process.
pub fn collect_ancestor_pids(self_pid: i32) -> (out: (AncestorWalk, Option<Request>))
    ensures
        (out.0@, out.1.deep_view()) == WalkView::begin(self_pid),
{
    let mut pids: Vec<i32> = Vec::new();
    pids.push(self_pid);
    assert(pids@ =~= seq![self_pid]);
    (AncestorWalk { pids, hops: 0, done: false }, Some(Request::ProcessStatus(self_pid)))
}

impl AncestorWalk {
    /// Takes the reply to the last request and moves on.
    pub fn feed(self, reply: Reply) -> (out: (AncestorWalk, Option<Request>))
        ensures
            (out.0@, out.1.deep_view()) == self@.step(reply@),
    {
        let AncestorWalk { pids, hops, done } = self;
        if done {
            return (AncestorWalk { pids, hops, done }, None);
        }
        let parent = match reply {
            Reply::Status(Some(record)) => parse_parent_pid(record.as_str()),
            _ => None,
        };
        match parent {
            Some(parent) => {
                if parent <= 1 || hops >= MAX_ANCESTOR_HOPS || has_pid(&pids, parent) {
                    (AncestorWalk { pids, hops, done: true }, None)
                } else {
                    let mut pids = pids;
                    pids.push(parent);
                    (
                        AncestorWalk { pids, hops: hops + 1, done: false },
                        Some(Request::ProcessStatus(parent)),
                    )
                }
            },
            None => (AncestorWalk { pids, hops, done: true }, None),
        }
    }
}

} // verus!
