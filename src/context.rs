use vstd::prelude::*;

use crate::llm::model::{AssistantMessage, LlmMessage, UserMessage};

verus! {

/// One message of a channel's history, as the platform reports it.
pub struct HistoryMessage {
    pub author: String,
    pub is_bot: bool,
    pub content: String,
    /// Seconds since the Unix epoch.
    pub posted_at: i64,
}

/// Why a conversation context could not be put together.
#[derive(Debug, PartialEq, Eq)]
pub enum AssemblyError {
    /// Once bot messages are left out, nothing remains.
    MissingContext,
    /// A message carries a time that cannot be shown as a date.
    InvalidTimestamp,
}

/// How the time of a narrated message is written: day, month, year, hour, minute.
pub const TIMESTAMP_PATTERN: &'static str = "%d/%m/%Y %H:%M";

/// First second of the dates a timestamp can be written for: the start of
/// year -262143.
pub const FORMAT_MIN_SECS: i64 = -8_334_601_228_800;

/// Last second of the dates a timestamp can be written for: the end of year
/// 262142.
pub const FORMAT_MAX_SECS: i64 = 8_210_266_876_799;

/// The text of a Unix time written out with a date pattern.
pub uninterp spec fn timestamp_text(secs: int, pattern: Seq<char>) -> Seq<char>;

/// Relies on serenity's `Timestamp::from_unix_timestamp`, and on chrono's
/// `DateTime::format`, which a serenity timestamp dereferences to: the text
/// depends on the time and the pattern alone. Every second of chrono's date
/// range, years -262143 to 262142, gives a timestamp, and no time outside it
/// is passed; chrono fails to write out an ill-formed pattern, so the pattern
/// is the fixed one.
#[verifier::external_body]
fn format_timestamp(secs: i64, pattern: &str) -> (r: Option<String>)
    requires
        FORMAT_MIN_SECS <= secs <= FORMAT_MAX_SECS,
        pattern@ == TIMESTAMP_PATTERN@,
    ensures
        r is Some,
        r matches Some(t) ==> t@ == timestamp_text(secs as int, pattern@),
{
    match serenity::model::Timestamp::from_unix_timestamp(secs) {
        Ok(t) => Some(t.format(pattern).to_string()),
        Err(_) => None,
    }
}

/// Every message not written by a bot has a time that can be written out.
pub open spec fn times_in_range(h: Seq<HistoryMessage>) -> bool {
    forall|k: int|
        0 <= k < h.len() && !(#[trigger] h[k]).is_bot ==> FORMAT_MIN_SECS <= h[k].posted_at
            <= FORMAT_MAX_SECS
}

/// The label a message's time gets in a narrative.
pub open spec fn time_label(m: HistoryMessage) -> Seq<char> {
    timestamp_text(m.posted_at as int, TIMESTAMP_PATTERN@)
}

/// One narrative line: `(label) author said: content`, ended by a newline.
pub open spec fn line_text(label: Seq<char>, author: Seq<char>, content: Seq<char>) -> Seq<char> {
    "("@ + label + ") "@ + author + " said: "@ + content + "\n"@
}

/// A history message beside the label of its time.
pub type Labelled = (HistoryMessage, Seq<char>);

/// Messages with their labels, index by index.
pub open spec fn labelled(h: Seq<HistoryMessage>, labels: Seq<Seq<char>>) -> Seq<Labelled> {
    Seq::new(h.len(), |i: int| (h[i], labels[i]))
}

/// Messages with the labels of their own times.
pub open spec fn self_labelled(h: Seq<HistoryMessage>) -> Seq<Labelled> {
    Seq::new(h.len(), |i: int| (h[i], time_label(h[i])))
}

/// The messages a narrative tells, oldest first, of a history listed newest
/// first: those not written by a bot, in the reverse of the listed order.
pub open spec fn narrated(p: Seq<Labelled>) -> Seq<Labelled>
    decreases p.len(),
{
    if p.len() == 0 {
        Seq::empty()
    } else {
        let older = narrated(p.drop_first());
        if p[0].0.is_bot {
            older
        } else {
            older.push(p[0])
        }
    }
}

/// The lines of the given messages, one after the other.
pub open spec fn joined_lines(p: Seq<Labelled>) -> Seq<char>
    decreases p.len(),
{
    if p.len() == 0 {
        Seq::empty()
    } else {
        let x = p.last();
        joined_lines(p.drop_last()) + line_text(x.1, x.0.author@, x.0.content@)
    }
}

/// The narrative of a labelled history listed newest first.
pub open spec fn narrative_text(p: Seq<Labelled>) -> Seq<char> {
    joined_lines(narrated(p))
}

/// A history as the platform lists it: each message no older than the next.
pub open spec fn newest_first(h: Seq<HistoryMessage>) -> bool {
    forall|i: int, j: int| 0 <= i < j < h.len() ==> h[j].posted_at <= h[i].posted_at
}

/// Messages in the order they were written.
pub open spec fn oldest_first(p: Seq<Labelled>) -> bool {
    forall|i: int, j: int| 0 <= i < j < p.len() ==> p[i].0.posted_at <= p[j].0.posted_at
}

/// The chat message a transcript makes of a history message.
pub open spec fn transcribes(m: LlmMessage, src: HistoryMessage) -> bool {
    &&& m.spec_content() == src.content@
    &&& if src.is_bot {
        m is AssistantMessage
    } else {
        m is UserMessage
    }
}

/// A transcript of a history listed newest first: every message, oldest first.
pub open spec fn is_transcript(t: Seq<LlmMessage>, h: Seq<HistoryMessage>) -> bool {
    &&& t.len() == h.len()
    &&& forall|k: int| 0 <= k < t.len() ==> transcribes(#[trigger] t[k], h[h.len() - 1 - k])
}

proof fn lemma_narrated_step(p: Seq<Labelled>, i: int)
    requires
        0 < i <= p.len(),
    ensures
        p.subrange(i - 1, p.len() as int).drop_first() == p.subrange(i, p.len() as int),
        p.subrange(i - 1, p.len() as int)[0] == p[i - 1],
{
    assert(p.subrange(i - 1, p.len() as int).drop_first() =~= p.subrange(i, p.len() as int));
}

proof fn lemma_joined_push(p: Seq<Labelled>, x: Labelled)
    ensures
        joined_lines(p.push(x)) == joined_lines(p) + line_text(x.1, x.0.author@, x.0.content@),
{
    assert(p.push(x).drop_last() =~= p);
}

/// The narrative of a history listed newest first, each message's time
/// written as the label at the same index: the lines of the messages not
/// written by a bot, oldest first. Fails when no such message is left.
pub fn compose_narrative(history: &Vec<HistoryMessage>, labels: &Vec<String>) -> (r: Result<
    UserMessage,
    AssemblyError,
>)
    requires
        labels.len() == history.len(),
    ensures
        ({
            let p = labelled(history@, labels@.map_values(|l: String| l@));
            &&& narrated(p).len() == 0 ==> r == Err::<UserMessage, AssemblyError>(
                AssemblyError::MissingContext,
            )
            &&& narrated(p).len() > 0 ==> (r matches Ok(u) && u.content@ == narrative_text(p))
        }),
{
    let ghost p = labelled(history@, labels@.map_values(|l: String| l@));
    let n = history.len();
    let mut text = String::new();
    let mut told = false;
    let mut i: usize = n;
    assert(p.subrange(n as int, n as int) =~= Seq::<Labelled>::empty());
    while i > 0
        invariant
            i <= n == history.len() == labels.len(),
            p == labelled(history@, labels@.map_values(|l: String| l@)),
            p.len() == n,
            text@ == joined_lines(narrated(p.subrange(i as int, n as int))),
            told == (narrated(p.subrange(i as int, n as int)).len() > 0),
        decreases i,
    {
        proof {
            lemma_narrated_step(p, i as int);
        }
        let m = &history[i - 1];
        if !m.is_bot {
            proof {
                lemma_joined_push(narrated(p.subrange(i as int, n as int)), p[i - 1]);
            }
            text.append("(");
            text.append(labels[i - 1].as_str());
            text.append(") ");
            text.append(m.author.as_str());
            text.append(" said: ");
            text.append(m.content.as_str());
            text.append("\n");
            told = true;
        }
        i = i - 1;
    }
    assert(p.subrange(0, n as int) =~= p);
    if told {
        Ok(UserMessage { content: text })
    } else {
        Err(AssemblyError::MissingContext)
    }
}


/// The narrative depends on the labels of the messages it tells only.
proof fn lemma_narrated_same_told(p: Seq<Labelled>, q: Seq<Labelled>)
    requires
        p.len() == q.len(),
        forall|k: int| 0 <= k < p.len() ==> (#[trigger] p[k]).0 == q[k].0,
        forall|k: int| 0 <= k < p.len() && !(#[trigger] p[k]).0.is_bot ==> p[k].1 == q[k].1,
    ensures
        narrated(p) == narrated(q),
    decreases p.len(),
{
    if p.len() > 0 {
        assert(p[0] == q[0] || p[0].0.is_bot);
        let (pt, qt) = (p.drop_first(), q.drop_first());
        assert forall|k: int| 0 <= k < pt.len() implies (#[trigger] pt[k]).0 == qt[k].0 by {
            assert(pt[k] == p[k + 1]);
        }
        assert forall|k: int| 0 <= k < pt.len() && !(#[trigger] pt[k]).0.is_bot implies pt[k].1
            == qt[k].1 by {
            assert(pt[k] == p[k + 1]);
        }
        lemma_narrated_same_told(pt, qt);
    }
}

/// A history with a message not written by a bot has something to tell.
proof fn lemma_narrated_nonempty(p: Seq<Labelled>, k: int)
    requires
        0 <= k < p.len(),
        !p[k].0.is_bot,
    ensures
        narrated(p).len() > 0,
    decreases p.len(),
{
    if k > 0 && p[0].0.is_bot {
        assert(p.drop_first()[k - 1] == p[k]);
        lemma_narrated_nonempty(p.drop_first(), k - 1);
    }
}

/// Narrative mode of the context assembler: the history, listed newest
/// first, told oldest first as lines `(time) author said: content`, bot
/// messages left out. Fails with `MissingContext` when only bot messages are
/// there, and otherwise with `InvalidTimestamp` exactly when the time of a
/// told message lies outside the dates that can be written out.
pub fn build_narrative(history: &Vec<HistoryMessage>) -> (r: Result<UserMessage, AssemblyError>)
    ensures
        ({
            let told = narrated(self_labelled(history@));
            &&& told.len() == 0 ==> r == Err::<UserMessage, AssemblyError>(
                AssemblyError::MissingContext,
            )
            &&& told.len() > 0 && times_in_range(history@) ==> (r matches Ok(u) && u.content@
                == narrative_text(self_labelled(history@)))
            &&& told.len() > 0 && !times_in_range(history@) ==> r == Err::<
                UserMessage,
                AssemblyError,
            >(AssemblyError::InvalidTimestamp)
        }),
{
    let n = history.len();
    let mut labels: Vec<String> = Vec::new();
    let mut i: usize = 0;
    while i < n
        invariant
            i <= n == history.len(),
            labels.len() == i,
            forall|k: int| 0 <= k < i && !history@[k].is_bot ==> labels@[k]@ == time_label(history@[k]),
            forall|k: int|
                0 <= k < i && !(#[trigger] history@[k]).is_bot ==> FORMAT_MIN_SECS
                    <= history@[k].posted_at <= FORMAT_MAX_SECS,
        decreases n - i,
    {
        let m = &history[i];
        if m.is_bot {
            labels.push(String::new());
        } else {
            proof {
                assert(self_labelled(history@)[i as int].0 == history@[i as int]);
                lemma_narrated_nonempty(self_labelled(history@), i as int);
            }
            if m.posted_at < FORMAT_MIN_SECS || m.posted_at > FORMAT_MAX_SECS {
                proof {
                    assert(!times_in_range(history@));
                }
                return Err(AssemblyError::InvalidTimestamp);
            }
            let label = match format_timestamp(m.posted_at, TIMESTAMP_PATTERN) {
                Some(t) => t,
                None => {
                    return Err(AssemblyError::InvalidTimestamp);
                },
            };
            labels.push(label);
        }
        i = i + 1;
    }
    proof {
        let p = labelled(history@, labels@.map_values(|l: String| l@));
        lemma_narrated_same_told(p, self_labelled(history@));
    }
    compose_narrative(history, &labels)
}

/// Transcript mode of the context assembler: every message of the history,
/// listed newest first, as a chat message oldest first; bot messages become
/// the assistant's, the others the user's.
pub fn build_transcript(history: &Vec<HistoryMessage>) -> (r: Vec<LlmMessage>)
    ensures
        is_transcript(r@, history@),
{
    let n = history.len();
    let mut out: Vec<LlmMessage> = Vec::new();
    let mut i: usize = n;
    while i > 0
        invariant
            i <= n == history.len(),
            out.len() == n - i,
            forall|k: int| 0 <= k < out.len() ==> transcribes(#[trigger] out@[k], history@[n - 1 - k]),
        decreases i,
    {
        let m = &history[i - 1];
        let content = m.content.clone();
        if m.is_bot {
            out.push(LlmMessage::AssistantMessage(AssistantMessage { content }));
        } else {
            out.push(LlmMessage::UserMessage(UserMessage { content }));
        }
        i = i - 1;
    }
    out
}

/// Every message a narrative tells comes from the history and was not written by a bot.
proof fn lemma_narrated_from(p: Seq<Labelled>)
    ensures
        forall|j: int| 0 <= j < narrated(p).len() ==> exists|k: int| 0 <= k < p.len() && (#[trigger] narrated(p)[j]) == p[k],
        forall|j: int| 0 <= j < narrated(p).len() ==> !(#[trigger] narrated(p)[j]).0.is_bot,
    decreases p.len(),
{
    if p.len() > 0 {
        let t = p.drop_first();
        lemma_narrated_from(t);
        assert forall|j: int| 0 <= j < narrated(p).len() implies exists|k: int| 0 <= k < p.len() && (#[trigger] narrated(p)[j]) == p[k] by {
            if j < narrated(t).len() {
                let k = choose|k: int| 0 <= k < t.len() && narrated(t)[j] == t[k];
                assert(narrated(p)[j] == p[k + 1]);
            } else {
                assert(narrated(p)[j] == p[0]);
            }
        }
    }
}

/// The narrative tells a history listed newest first in the order the
/// messages were written: each told message is no younger than the next.
pub proof fn lemma_narrative_chronological(h: Seq<HistoryMessage>, labels: Seq<Seq<char>>)
    requires
        labels.len() == h.len(),
        newest_first(h),
    ensures
        oldest_first(narrated(labelled(h, labels))),
    decreases h.len(),
{
    let p = labelled(h, labels);
    if h.len() > 0 {
        let (ht, lt) = (h.drop_first(), labels.drop_first());
        assert(labelled(ht, lt) =~= p.drop_first());
        lemma_narrative_chronological(ht, lt);
        lemma_narrated_from(p.drop_first());
        let older = narrated(p.drop_first());
        assert forall|j: int| 0 <= j < older.len() implies (#[trigger] older[j]).0.posted_at <= h[0].posted_at by {
            let k = choose|k: int| 0 <= k < p.drop_first().len() && older[j] == p.drop_first()[k];
            assert(older[j].0 == h[k + 1]);
        }
    }
}

/// The transcript of a history listed newest first is in the order the
/// messages were written: its messages come from the history read backwards,
/// in which each message is no younger than the next.
pub proof fn lemma_transcript_chronological(t: Seq<LlmMessage>, h: Seq<HistoryMessage>)
    requires
        newest_first(h),
        is_transcript(t, h),
    ensures
        forall|k: int| 0 <= k < t.len() ==> transcribes(#[trigger] t[k], h.reverse()[k]),
        forall|j: int, k: int|
            0 <= j < k < t.len() ==> (#[trigger] h.reverse()[j]).posted_at <= (
            #[trigger] h.reverse()[k]).posted_at,
{
}

} // verus!
