use vstd::prelude::*;

use crate::commands::error::Error;
use crate::text::{joined_with, texts};

verus! {

/// The blank line that separates two paragraphs.
pub open spec fn blank_line() -> Seq<char> {
    seq!['\n', '\n']
}

/// A blank-line separator starts at `i`.
pub open spec fn sep_at(s: Seq<char>, i: int) -> bool {
    0 <= i && i + 1 < s.len() && s[i] == '\n' && s[i + 1] == '\n'
}

/// No blank-line separator in `s`.
pub open spec fn no_sep(s: Seq<char>) -> bool {
    forall|i: int| !sep_at(s, i)
}

/// `segs` is `s` split at each blank-line separator, read left to right:
/// joined again with the separator they give `s`, none holds a separator,
/// and none but the last ends with a newline, which would have made an
/// earlier separator.
pub open spec fn is_split(s: Seq<char>, segs: Seq<Seq<char>>) -> bool {
    &&& segs.len() >= 1
    &&& joined_with(segs, blank_line()) == s
    &&& forall|k: int| 0 <= k < segs.len() ==> no_sep(#[trigger] segs[k])
    &&& forall|k: int|
        0 <= k < segs.len() - 1 ==> !((#[trigger] segs[k]).len() > 0 && segs[k].last() == '\n')
}

/// The segments that are not empty, in order.
pub open spec fn non_empty(segs: Seq<Seq<char>>) -> Seq<Seq<char>> {
    segs.filter(|x: Seq<char>| x.len() > 0)
}

proof fn lemma_joined_push(segs: Seq<Seq<char>>, x: Seq<char>, sep: Seq<char>)
    requires
        segs.len() > 0,
    ensures
        joined_with(segs.push(x), sep) == joined_with(segs, sep) + sep + x,
{
    assert(segs.push(x).drop_last() =~= segs);
}

/// `s` split at each blank line, empty segments included.
pub fn split_segments(s: &str) -> (r: Vec<String>)
    ensures
        is_split(s@, texts(r@)),
{
    let n = s.unicode_len();
    let mut segs: Vec<String> = Vec::new();
    let mut start: usize = 0;
    let mut i: usize = 0;
    while i < n
        invariant
            n == s@.len(),
            start <= i <= n,
            segs.len() == 0 ==> start == 0,
            segs.len() > 0 ==> joined_with(texts(segs@), blank_line()) + blank_line()
                == s@.subrange(0, start as int),
            forall|k: int| 0 <= k < segs.len() ==> no_sep(#[trigger] texts(segs@)[k]),
            forall|k: int|
                0 <= k < segs.len() ==> !((#[trigger] texts(segs@)[k]).len() > 0
                    && texts(segs@)[k].last() == '\n'),
            forall|j: int| start <= j < i ==> !sep_at(s@, j),
            i > start ==> !sep_at(s@, i - 1) || i == n,
        decreases n - i,
    {
        if i + 1 < n && s.get_char(i) == '\n' && s.get_char(i + 1) == '\n' {
            let seg = s.substring_char(start, i).to_string();
            let ghost old_segs = texts(segs@);
            let ghost x = s@.subrange(start as int, i as int);
            assert(seg@ == x);
            proof {
                assert forall|j: int| !sep_at(x, j) by {
                    if sep_at(x, j) {
                        assert(sep_at(s@, start + j));
                    }
                }
                if x.len() > 0 {
                    assert(x.last() == s@[i - 1]);
                    if s@[i - 1] == '\n' {
                        assert(sep_at(s@, i - 1));
                    }
                }
            }
            segs.push(seg);
            assert(texts(segs@) =~= old_segs.push(x));
            proof {
                if old_segs.len() > 0 {
                    lemma_joined_push(old_segs, x, blank_line());
                } else {
                    assert(joined_with(texts(segs@), blank_line()) == x);
                }
            }
            assert(joined_with(texts(segs@), blank_line()) + blank_line() =~= s@.subrange(
                0,
                i + 2,
            ));
            assert forall|k: int| 0 <= k < segs.len() implies (#[trigger] texts(segs@)[k]) == (
            if k < old_segs.len() {
                old_segs[k]
            } else {
                x
            }) by {}
            i = i + 2;
            start = i;
        } else {
            i = i + 1;
        }
    }
    let seg = s.substring_char(start, n).to_string();
    let ghost old_segs = texts(segs@);
    let ghost x = s@.subrange(start as int, n as int);
    assert(seg@ == x);
    proof {
        assert forall|j: int| !sep_at(x, j) by {
            if sep_at(x, j) {
                assert(sep_at(s@, start + j));
            }
        }
    }
    segs.push(seg);
    assert(texts(segs@) =~= old_segs.push(x));
    proof {
        if old_segs.len() > 0 {
            lemma_joined_push(old_segs, x, blank_line());
            assert(joined_with(texts(segs@), blank_line()) =~= s@);
        } else {
            assert(x =~= s@);
        }
    }
    assert forall|k: int| 0 <= k < segs.len() implies (#[trigger] texts(segs@)[k]) == (if k
        < old_segs.len() {
        old_segs[k]
    } else {
        x
    }) by {}
    segs
}

proof fn lemma_joined_front(segs: Seq<Seq<char>>, sep: Seq<char>)
    requires
        segs.len() >= 2,
    ensures
        joined_with(segs, sep) == segs[0] + sep + joined_with(segs.drop_first(), sep),
    decreases segs.len(),
{
    let t = segs.drop_first();
    if segs.len() == 2 {
        assert(segs.drop_last().len() == 1);
        assert(segs.drop_last()[0] == segs[0]);
        assert(t.len() == 1);
        assert(t[0] == segs.last());
        assert(joined_with(t, sep) == t[0]);
        assert(joined_with(segs.drop_last(), sep) == segs[0]);
        assert(joined_with(segs, sep) == joined_with(segs.drop_last(), sep) + sep + segs.last());
    } else {
        lemma_joined_front(segs.drop_last(), sep);
        assert(segs.drop_last().drop_first() =~= t.drop_last());
        assert(t.last() == segs.last());
        assert(segs.drop_last()[0] == segs[0]);
        assert(joined_with(t, sep) == joined_with(t.drop_last(), sep) + sep + t.last());
        assert(joined_with(segs, sep) =~= segs[0] + sep + joined_with(t, sep));
    }
}

/// Where the first separator of a text that is split into more than one
/// segment starts: right after the first segment.
proof fn lemma_first_sep(s: Seq<char>, segs: Seq<Seq<char>>)
    requires
        is_split(s, segs),
        segs.len() >= 2,
    ensures
        sep_at(s, segs[0].len() as int),
        forall|j: int| 0 <= j < segs[0].len() ==> !sep_at(s, j),
        s.subrange(0, segs[0].len() as int) == segs[0],
        is_split(s.subrange(segs[0].len() as int + 2, s.len() as int), segs.drop_first()),
{
    lemma_joined_front(segs, blank_line());
    let a = segs[0];
    let p = a.len() as int;
    let rest = joined_with(segs.drop_first(), blank_line());
    assert(s == a + blank_line() + rest);
    assert(s[p] == '\n' && s[p + 1] == '\n');
    assert(s.subrange(0, p) =~= a);
    assert(s.subrange(p + 2, s.len() as int) =~= rest);
    assert(no_sep(segs[0]));
    assert forall|j: int| 0 <= j < p implies !sep_at(s, j) by {
        if j + 1 < p {
            if sep_at(s, j) {
                assert(sep_at(a, j));
            }
        } else {
            assert(s[j] == a.last());
        }
    }
    let t = segs.drop_first();
    assert forall|k: int| 0 <= k < t.len() implies no_sep(#[trigger] t[k]) by {
        assert(t[k] == segs[k + 1]);
    }
    assert forall|k: int| 0 <= k < t.len() - 1 implies !((#[trigger] t[k]).len() > 0 && t[k].last()
        == '\n') by {
        assert(t[k] == segs[k + 1]);
    }
}

/// A text has one split only, so that `is_split` fixes the segments.
pub proof fn lemma_split_unique(s: Seq<char>, a: Seq<Seq<char>>, b: Seq<Seq<char>>)
    requires
        is_split(s, a),
        is_split(s, b),
    ensures
        a == b,
    decreases s.len(),
{
    if a.len() >= 2 && b.len() >= 2 {
        lemma_first_sep(s, a);
        lemma_first_sep(s, b);
        let (p, q) = (a[0].len() as int, b[0].len() as int);
        if p < q {
            assert(!sep_at(s, p));
        } else if q < p {
            assert(!sep_at(s, q));
        }
        assert(a[0] == b[0]);
        lemma_split_unique(s.subrange(p + 2, s.len() as int), a.drop_first(), b.drop_first());
        assert(a =~= seq![a[0]] + a.drop_first());
        assert(b =~= seq![b[0]] + b.drop_first());
    } else if a.len() >= 2 {
        lemma_first_sep(s, a);
        assert(b.len() == 1 && joined_with(b, blank_line()) == b[0]);
        assert(no_sep(b[0]));
        assert(!sep_at(s, a[0].len() as int));
    } else if b.len() >= 2 {
        lemma_first_sep(s, b);
        assert(a.len() == 1 && joined_with(a, blank_line()) == a[0]);
        assert(no_sep(a[0]));
        assert(!sep_at(s, b[0].len() as int));
    } else {
        assert(joined_with(a, blank_line()) == a[0]);
        assert(joined_with(b, blank_line()) == b[0]);
        assert(a =~= b);
    }
}

/// The follow-up messages a reply is sent as: its paragraphs, split at
/// each blank line, with the empty ones left out.
pub fn split_chunks(message: &str) -> (r: Vec<String>)
    ensures
        exists|segs: Seq<Seq<char>>| is_split(message@, segs) && texts(r@) == non_empty(segs),
        forall|segs: Seq<Seq<char>>| #[trigger]
            is_split(message@, segs) ==> texts(r@) == non_empty(segs),
{
    let segs = split_segments(message);
    let ghost all = texts(segs@);
    let n = segs.len();
    let mut out: Vec<String> = Vec::new();
    let mut i: usize = 0;
    while i < n
        invariant
            i <= n == segs.len(),
            all == texts(segs@),
            texts(out@) == non_empty(all.take(i as int)),
        decreases n - i,
    {
        let ghost before = all.take(i as int);
        let ghost after = all.take(i + 1);
        proof {
            reveal(Seq::filter);
            assert(after.drop_last() =~= before);
            assert(after.last() == all[i as int]);
        }
        let ghost old_out = out@;
        if !segs[i].as_str().is_empty() {
            out.push(segs[i].clone());
            assert(texts(out@) =~= texts(old_out).push(all[i as int]));
        }
        i = i + 1;
    }
    assert(all.take(n as int) =~= all);
    assert forall|segs: Seq<Seq<char>>| #[trigger]
        is_split(message@, segs) implies texts(out@) == non_empty(segs) by {
        lemma_split_unique(message@, segs, all);
    }
    out
}

/// Splitting a reply keeps its paragraphs, in order, and nothing else:
/// every chunk is a non-empty segment of the text, free of blank lines;
/// every non-empty segment is a chunk; and when the text has no empty
/// segment, the chunks joined again with blank lines give the text back.
pub proof fn lemma_chunks_rejoin(s: Seq<char>, segs: Seq<Seq<char>>, chunks: Seq<Seq<char>>)
    requires
        is_split(s, segs),
        chunks == non_empty(segs),
    ensures
        forall|k: int|
            0 <= k < chunks.len() ==> (#[trigger] chunks[k]).len() > 0 && no_sep(chunks[k])
                && segs.contains(chunks[k]),
        forall|k: int| 0 <= k < segs.len() && (#[trigger] segs[k]).len() > 0 ==> chunks.contains(segs[k]),
        (forall|k: int| 0 <= k < segs.len() ==> (#[trigger] segs[k]).len() > 0) ==> joined_with(
            chunks,
            blank_line(),
        ) == s,
{
    lemma_filter_facts(segs);
    if forall|k: int| 0 <= k < segs.len() ==> (#[trigger] segs[k]).len() > 0 {
        lemma_filter_all(segs);
    }
}

proof fn lemma_filter_facts(segs: Seq<Seq<char>>)
    ensures
        forall|k: int|
            0 <= k < non_empty(segs).len() ==> (#[trigger] non_empty(segs)[k]).len() > 0
                && segs.contains(non_empty(segs)[k]),
        forall|k: int| 0 <= k < segs.len() && (#[trigger] segs[k]).len() > 0 ==> non_empty(segs).contains(segs[k]),
    decreases segs.len(),
{
    reveal(Seq::filter);
    if segs.len() > 0 {
        let rest = segs.drop_last();
        lemma_filter_facts(rest);
        let f = non_empty(segs);
        let fr = non_empty(rest);
        assert forall|k: int| 0 <= k < f.len() implies (#[trigger] f[k]).len() > 0 && segs.contains(f[k]) by {
            if k < fr.len() {
                assert(f[k] == fr[k]);
                let j = choose|j: int| 0 <= j < rest.len() && rest[j] == fr[k];
                assert(segs[j] == rest[j]);
            } else {
                assert(f[k] == segs.last());
                assert(segs[segs.len() - 1] == segs.last());
            }
        }
        assert forall|k: int| 0 <= k < segs.len() && (#[trigger] segs[k]).len() > 0 implies f.contains(segs[k]) by {
            if k < rest.len() {
                assert(rest[k] == segs[k]);
                let j = choose|j: int| 0 <= j < fr.len() && fr[j] == rest[k];
                assert(f[j] == fr[j]);
            } else {
                assert(f[f.len() - 1] == segs[k]);
            }
        }
    }
}

proof fn lemma_filter_all(segs: Seq<Seq<char>>)
    requires
        forall|k: int| 0 <= k < segs.len() ==> (#[trigger] segs[k]).len() > 0,
    ensures
        non_empty(segs) == segs,
    decreases segs.len(),
{
    reveal(Seq::filter);
    if segs.len() > 0 {
        let rest = segs.drop_last();
        assert forall|k: int| 0 <= k < rest.len() implies (#[trigger] rest[k]).len() > 0 by {
            assert(rest[k] == segs[k]);
        }
        lemma_filter_all(rest);
        assert(segs[segs.len() - 1].len() > 0);
        assert(rest.push(segs.last()) =~= segs);
    }
}

/// The characters of a text that are not newlines, in order.
pub open spec fn visible(s: Seq<char>) -> Seq<char> {
    s.filter(|c: char| c != '\n')
}

/// Texts one after the other, with nothing between.
pub open spec fn concat(segs: Seq<Seq<char>>) -> Seq<char>
    decreases segs.len(),
{
    if segs.len() == 0 {
        Seq::empty()
    } else {
        concat(segs.drop_last()) + segs.last()
    }
}

proof fn lemma_visible_add(a: Seq<char>, b: Seq<char>)
    ensures
        visible(a + b) == visible(a) + visible(b),
    decreases b.len(),
{
    reveal(Seq::filter);
    if b.len() == 0 {
        assert(a + b =~= a);
        assert(visible(b) =~= Seq::<char>::empty());
        assert(visible(a) + visible(b) =~= visible(a));
    } else {
        lemma_visible_add(a, b.drop_last());
        assert((a + b).drop_last() =~= a + b.drop_last());
        assert((a + b).last() == b.last());
        if b.last() != '\n' {
            assert(visible(a) + visible(b) =~= (visible(a) + visible(b.drop_last())).push(b.last()));
        }
    }
}

proof fn lemma_visible_blank_line()
    ensures
        visible(blank_line()) == Seq::<char>::empty(),
{
    reveal(Seq::filter);
    let nl = seq!['\n'];
    assert(blank_line() =~= nl + nl);
    assert(nl.drop_last() =~= Seq::<char>::empty());
    assert(visible(nl.drop_last()) =~= Seq::<char>::empty());
    assert(nl.last() == '\n');
    assert(visible(nl) == visible(nl.drop_last()));
    lemma_visible_add(nl, nl);
}

proof fn lemma_visible_joined(segs: Seq<Seq<char>>)
    ensures
        visible(joined_with(segs, blank_line())) == visible(concat(segs)),
    decreases segs.len(),
{
    if segs.len() == 1 {
        assert(concat(segs.drop_last()) =~= Seq::<char>::empty());
        assert(concat(segs) =~= segs[0]);
    } else if segs.len() >= 2 {
        let rest = segs.drop_last();
        lemma_visible_joined(rest);
        lemma_visible_blank_line();
        let j = joined_with(rest, blank_line());
        lemma_visible_add(j + blank_line(), segs.last());
        lemma_visible_add(j, blank_line());
        lemma_visible_add(concat(rest), segs.last());
        assert(visible(j + blank_line()) =~= visible(j));
    }
}

proof fn lemma_concat_non_empty(segs: Seq<Seq<char>>)
    ensures
        concat(non_empty(segs)) == concat(segs),
    decreases segs.len(),
{
    reveal(Seq::filter);
    if segs.len() > 0 {
        let rest = segs.drop_last();
        lemma_concat_non_empty(rest);
        if segs.last().len() > 0 {
            assert(non_empty(segs).drop_last() =~= non_empty(rest));
        } else {
            assert(concat(segs) =~= concat(rest));
        }
    }
}

/// Splitting a reply loses, adds and reorders none of its visible text: the
/// characters other than newlines of the chunks, read in order, are those of
/// the reply; and so are those of the chunks joined again with blank lines.
pub proof fn lemma_chunks_keep_text(s: Seq<char>, segs: Seq<Seq<char>>, chunks: Seq<Seq<char>>)
    requires
        is_split(s, segs),
        chunks == non_empty(segs),
    ensures
        visible(concat(chunks)) == visible(s),
        visible(joined_with(chunks, blank_line())) == visible(s),
{
    lemma_visible_joined(segs);
    lemma_concat_non_empty(segs);
    lemma_visible_joined(chunks);
}

/// Where the reply to a command stands, as the user sees it.
#[derive(Debug, Clone, Copy, PartialEq, Eq, Structural)]
pub enum DeliveryState {
    /// The command arrived.
    Received,
    /// The acknowledgment was asked for.
    Deferred,
    /// The reply is being computed, then sent.
    Processing,
    /// Every follow-up of a reply went out.
    Delivered,
    /// The command failed, or its reply could not be sent.
    Failed,
}

/// What to do next toward the chat platform.
#[derive(Debug, PartialEq, Eq)]
pub enum DeliveryAction {
    /// Acknowledge the command and ask the user to wait.
    SendDefer,
    /// Send this follow-up message.
    SendFollowup(String),
    /// Remove the acknowledgment, which would otherwise stay forever.
    DeleteResponse,
    /// Nothing is left to do.
    Idle,
}

/// The action is to send a follow-up with this text.
pub open spec fn sends(a: DeliveryAction, text: Seq<char>) -> bool {
    a matches DeliveryAction::SendFollowup(t) && t@ == text
}

/// Text of the acknowledgment.
pub const DEFER_TEXT: &'static str = "Working on my response. Please wait";

/// The one message a user sees when a command fails, whatever the cause.
pub const FALLBACK_TEXT: &'static str = "command failed, please try again later";

/// The defer / compute / deliver lifecycle of one command's reply.
pub struct DeliveryController {
    pub state: DeliveryState,
    /// The follow-ups to send, in order, once the reply is known.
    pub outbox: Vec<String>,
    /// How many follow-ups went out.
    pub sent: usize,
    /// Whether the reply is known.
    pub planned: bool,
    /// Whether the reply is the fallback of a failed command.
    pub pipeline_failed: bool,
}

impl DeliveryController {
    pub open spec fn wf(&self) -> bool {
        &&& self.sent <= self.outbox.len()
        &&& !self.planned ==> self.outbox.len() == 0 && self.sent == 0
        &&& (self.state == DeliveryState::Received || self.state == DeliveryState::Deferred)
            ==> !self.planned
        &&& (self.planned && self.state == DeliveryState::Processing) ==> self.sent
            < self.outbox.len()
    }

    /// The follow-ups a command's outcome is sent as: the paragraphs of its
    /// reply, or the fallback text alone when it failed.
    pub open spec fn plans(&self, outcome: Result<String, Error>) -> bool {
        match outcome {
            Ok(text) => exists|segs: Seq<Seq<char>>|
                is_split(text@, segs) && texts(self.outbox@) == non_empty(segs),
            Err(_) => self.outbox@.len() == 1 && self.outbox@[0]@ == FALLBACK_TEXT@,
        }
    }

    /// A command just received.
    pub fn new() -> (r: DeliveryController)
        ensures
            r.wf(),
            r.state == DeliveryState::Received,
            !r.planned,
    {
        DeliveryController {
            state: DeliveryState::Received,
            outbox: Vec::new(),
            sent: 0,
            planned: false,
            pipeline_failed: false,
        }
    }

    /// On receipt, acknowledge before any work.
    pub fn begin(&mut self) -> (r: DeliveryAction)
        requires
            old(self).wf(),
        ensures
            final(self).wf(),
            old(self).state == DeliveryState::Received ==> final(self).state
                == DeliveryState::Deferred && r == DeliveryAction::SendDefer && !final(self).planned,
            old(self).state != DeliveryState::Received ==> *final(self) == *old(self) && r
                == DeliveryAction::Idle,
    {
        if self.state == DeliveryState::Received {
            self.state = DeliveryState::Deferred;
            DeliveryAction::SendDefer
        } else {
            DeliveryAction::Idle
        }
    }

    /// The acknowledgment went out or not: either way, the work goes on.
    pub fn defer_done(&mut self, acknowledged: bool)
        requires
            old(self).wf(),
        ensures
            final(self).wf(),
            old(self).state == DeliveryState::Deferred ==> final(self).state
                == DeliveryState::Processing && !final(self).planned,
            old(self).state != DeliveryState::Deferred ==> *final(self) == *old(self),
    {
        if self.state == DeliveryState::Deferred {
            self.state = DeliveryState::Processing;
        }
    }

    /// The command finished: plan its follow-ups and hand out the first.
    pub fn finish(&mut self, outcome: Result<String, Error>) -> (r: DeliveryAction)
        requires
            old(self).wf(),
        ensures
            final(self).wf(),
            old(self).state == DeliveryState::Processing && !old(self).planned ==> {
                &&& final(self).planned
                &&& final(self).sent == 0
                &&& final(self).pipeline_failed == outcome is Err
                &&& final(self).plans(outcome)
                &&& final(self).outbox.len() > 0 ==> final(self).state == DeliveryState::Processing
                    && sends(r, final(self).outbox@[0]@)
                &&& final(self).outbox.len() == 0 ==> final(self).state == DeliveryState::Delivered
                    && r == DeliveryAction::Idle
            },
            !(old(self).state == DeliveryState::Processing && !old(self).planned) ==> *final(self)
                == *old(self) && r == DeliveryAction::Idle,
    {
        if !(self.state == DeliveryState::Processing && !self.planned) {
            return DeliveryAction::Idle;
        }
        let failed = outcome.is_err();
        let outbox = match outcome {
            Ok(text) => split_chunks(text.as_str()),
            Err(_) => {
                let mut v: Vec<String> = Vec::new();
                v.push(String::from_str(FALLBACK_TEXT));
                v
            },
        };
        self.outbox = outbox;
        self.sent = 0;
        self.planned = true;
        self.pipeline_failed = failed;
        if self.outbox.len() > 0 {
            DeliveryAction::SendFollowup(self.outbox[0].clone())
        } else {
            self.state = DeliveryState::Delivered;
            DeliveryAction::Idle
        }
    }

    /// The last follow-up handed out went out or not. On success, hand out
    /// the next, or end once all went out; on failure, stop and remove the
    /// acknowledgment.
    pub fn followup_done(&mut self, delivered: bool) -> (r: DeliveryAction)
        requires
            old(self).wf(),
        ensures
            final(self).wf(),
            final(self).outbox == old(self).outbox,
            final(self).pipeline_failed == old(self).pipeline_failed,
            final(self).planned == old(self).planned,
            old(self).state == DeliveryState::Processing && old(self).planned ==> {
                if !delivered {
                    &&& final(self).state == DeliveryState::Failed
                    &&& final(self).sent == old(self).sent
                    &&& r == DeliveryAction::DeleteResponse
                } else {
                    &&& final(self).sent == old(self).sent + 1
                    &&& final(self).sent < final(self).outbox.len() ==> final(self).state
                        == DeliveryState::Processing && sends(
                        r,
                        final(self).outbox@[final(self).sent as int]@,
                    )
                    &&& final(self).sent == final(self).outbox.len() ==> r == DeliveryAction::Idle
                        && final(self).state == if old(self).pipeline_failed {
                        DeliveryState::Failed
                    } else {
                        DeliveryState::Delivered
                    }
                }
            },
            !(old(self).state == DeliveryState::Processing && old(self).planned) ==> *final(self)
                == *old(self) && r == DeliveryAction::Idle,
    {
        if !(self.state == DeliveryState::Processing && self.planned) {
            return DeliveryAction::Idle;
        }
        if !delivered {
            self.state = DeliveryState::Failed;
            return DeliveryAction::DeleteResponse;
        }
        self.sent = self.sent + 1;
        if self.sent < self.outbox.len() {
            DeliveryAction::SendFollowup(self.outbox[self.sent].clone())
        } else {
            self.state = if self.pipeline_failed {
                DeliveryState::Failed
            } else {
                DeliveryState::Delivered
            };
            DeliveryAction::Idle
        }
    }
}

} // verus!
